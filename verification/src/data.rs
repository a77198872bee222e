//! Structured data as it is read from JSON and TOML text.

use vstd::prelude::*;

use crate::text::same_text;

verus! {

/// Declares the type `serde_json::Number`.
#[verifier::external_type_specification]
#[verifier::external_body]
pub struct ExNumber(serde_json::Number);

/// Declares the type `serde_json::Value`.
#[verifier::external_type_specification]
#[verifier::external_body]
pub struct ExJsonValue(serde_json::Value);

/// Declares the type `toml::Value`.
#[verifier::external_type_specification]
#[verifier::external_body]
pub struct ExTomlValue(toml::Value);

/// `serde_json::Number::clone`: gives an equal number.
pub assume_specification[ <serde_json::Number as Clone>::clone ](
    number: &serde_json::Number,
) -> (copy: serde_json::Number)
    ensures
        copy == *number,
;

/// A JSON number that is no integer of 64 bits.
pub struct FloatNumber {
    number: serde_json::Number,
}

impl FloatNumber {
    /// The number carried.
    pub closed spec fn spec_number(&self) -> serde_json::Number {
        self.number
    }

    pub fn number(&self) -> (number: &serde_json::Number)
        ensures
            *number == self.spec_number(),
    {
        &self.number
    }

    pub fn copy(&self) -> (copy: FloatNumber)
        ensures
            copy == *self,
    {
        FloatNumber { number: self.number.clone() }
    }
}

/// A value of structured data.
pub enum Tree {
    /// Nothing, or a value of a kind that nothing here reads.
    Null,
    Bool(bool),
    Unsigned(u64),
    Signed(i64),
    Float(FloatNumber),
    Text(String),
    List(Vec<Tree>),
    /// Names with their values. Where a name occurs twice, the first one counts.
    Table(Vec<(String, Tree)>),
}

/// A value of structured data, as a mathematical value.
pub enum TreeModel {
    Null,
    Bool(bool),
    /// An integer that is not negative.
    Unsigned(u64),
    /// A negative integer.
    Signed(i64),
    Float(FloatNumber),
    Text(Seq<char>),
    List(Seq<TreeModel>),
    Table(Map<Seq<char>, TreeModel>),
}

/// The values of a table by their names.
pub open spec fn table_of(entries: Seq<(String, Tree)>) -> Map<Seq<char>, TreeModel>
    decreases entries,
{
    if entries.len() == 0 {
        Map::empty()
    } else {
        table_of(entries.drop_first()).insert(entries[0].0@, entries[0].1@)
    }
}

/// The values of a list.
pub open spec fn list_of(items: Seq<Tree>) -> Seq<TreeModel>
    decreases items,
{
    if items.len() == 0 {
        Seq::empty()
    } else {
        seq![items[0]@] + list_of(items.drop_first())
    }
}

impl View for Tree {
    type V = TreeModel;

    open spec fn view(&self) -> TreeModel
        decreases *self,
    {
        match *self {
            Tree::Null => TreeModel::Null,
            Tree::Bool(b) => TreeModel::Bool(b),
            Tree::Unsigned(n) => TreeModel::Unsigned(n),
            Tree::Signed(n) => if n >= 0 {
                TreeModel::Unsigned(n as u64)
            } else {
                TreeModel::Signed(n)
            },
            Tree::Float(n) => TreeModel::Float(n),
            Tree::Text(s) => TreeModel::Text(s@),
            Tree::List(items) => TreeModel::List(list_of(items@)),
            Tree::Table(entries) => TreeModel::Table(table_of(entries@)),
        }
    }
}

impl TreeModel {
    /// The value with a name.
    pub open spec fn get(self, name: Seq<char>) -> Option<TreeModel> {
        match self {
            TreeModel::Table(table) => if table.dom().contains(name) {
                Some(table[name])
            } else {
                None
            },
            _ => None,
        }
    }

    pub open spec fn as_text(self) -> Option<Seq<char>> {
        match self {
            TreeModel::Text(s) => Some(s),
            _ => None,
        }
    }

    /// The integer, where it is one of 64 bits with a sign.
    pub open spec fn as_integer(self) -> Option<i64> {
        match self {
            TreeModel::Unsigned(n) => if n <= i64::MAX {
                Some(n as i64)
            } else {
                None
            },
            TreeModel::Signed(n) => Some(n),
            _ => None,
        }
    }

    /// The text with a name.
    pub open spec fn text(self, name: Seq<char>) -> Option<Seq<char>> {
        match self.get(name) {
            Some(value) => value.as_text(),
            None => None,
        }
    }

    /// The integer with a name.
    pub open spec fn integer(self, name: Seq<char>) -> Option<i64> {
        match self.get(name) {
            Some(value) => value.as_integer(),
            None => None,
        }
    }

    /// What is found by following names from table to table.
    pub open spec fn at(self, path: Seq<Seq<char>>) -> Option<TreeModel>
        decreases path.len(),
    {
        if path.len() == 0 {
            Some(self)
        } else {
            match self.get(path[0]) {
                Some(value) => value.at(path.drop_first()),
                None => None,
            }
        }
    }

    /// Whether lists and tables are nested at most `depth` deep.
    pub open spec fn shallow(self, depth: nat) -> bool
        decreases depth,
    {
        match self {
            TreeModel::List(items) => depth > 0 && forall|i: int|
                0 <= i < items.len() ==> (#[trigger] items[i]).shallow((depth - 1) as nat),
            TreeModel::Table(table) => depth > 0 && forall|name: Seq<char>|
                table.dom().contains(name) ==> (#[trigger] table[name]).shallow(
                    (depth - 1) as nat,
                ),
            _ => true,
        }
    }

    /// Whether another value has a value at every path where this one has, and the same texts.
    pub open spec fn same_texts(self, other: TreeModel) -> bool {
        forall|path: Seq<Seq<char>>| #[trigger]
            self.at(path) is Some == other.at(path) is Some && (self.at(path) is Some ==> self.at(
                path,
            )->0.as_text() == other.at(path)->0.as_text())
    }
}

/// What `serde_json::from_str` makes of a text, as a `serde_json::Value`.
pub uninterp spec fn json_parsed(text: Seq<char>) -> Option<TreeModel>;

/// What a `serde_json::Value` holds.
pub uninterp spec fn json_content(value: serde_json::Value) -> TreeModel;

/// What `serde_json::to_string` writes for a `serde_json::Value` that holds the given data.
pub uninterp spec fn json_written(data: TreeModel) -> Seq<char>;

/// What `toml` makes of a text, as a `toml::Table`, or what it complains about.
pub uninterp spec fn toml_parsed(text: Seq<char>) -> Result<TreeModel, Seq<char>>;

/// What a `toml::Value` holds.
pub uninterp spec fn toml_content(value: toml::Value) -> TreeModel;

/// `serde_json::from_str` into a `serde_json::Value`: depends on the text alone, and never nests
/// lists and objects deeper than 127.
#[verifier::external_body]
fn json_value(text: &str) -> (value: Option<serde_json::Value>)
    ensures
        match value {
            Some(v) => json_parsed(text@) == Some(json_content(v)) && json_content(v).shallow(127),
            None => json_parsed(text@) is None,
        },
{
    serde_json::from_str(text).ok()
}

/// A `serde_json::Value`, one level of it taken apart.
enum JsonShape {
    Null,
    Bool(bool),
    Unsigned(u64),
    Signed(i64),
    Float(serde_json::Number),
    Text(String),
    List(Vec<serde_json::Value>),
    Table(Vec<(String, serde_json::Value)>),
}

/// The values of an object's entries by their names; where a name occurs twice, the last one
/// counts.
spec fn json_table(entries: Seq<(String, serde_json::Value)>) -> Map<Seq<char>, TreeModel>
    decreases entries.len(),
{
    if entries.len() == 0 {
        Map::empty()
    } else {
        json_table(entries.drop_last()).insert(entries.last().0@, json_content(entries.last().1))
    }
}

/// Whether no two entries have the same name.
spec fn names_differ<V>(entries: Seq<(String, V)>) -> bool {
    forall|i: int, k: int|
        0 <= i < k < entries.len() ==> (#[trigger] entries[i]).0@ != (#[trigger] entries[k]).0@
}

impl JsonShape {
    spec fn content(self) -> TreeModel {
        match self {
            JsonShape::Null => TreeModel::Null,
            JsonShape::Bool(b) => TreeModel::Bool(b),
            JsonShape::Unsigned(n) => TreeModel::Unsigned(n),
            JsonShape::Signed(n) => if n >= 0 {
                TreeModel::Unsigned(n as u64)
            } else {
                TreeModel::Signed(n)
            },
            JsonShape::Float(number) => TreeModel::Float(FloatNumber { number }),
            JsonShape::Text(s) => TreeModel::Text(s@),
            JsonShape::List(items) => TreeModel::List(
                Seq::new(items@.len(), |i: int| json_content(items@[i])),
            ),
            JsonShape::Table(entries) => TreeModel::Table(json_table(entries@)),
        }
    }
}

/// Takes one level of a `serde_json::Value` apart by its variants. Integers are told by
/// `serde_json::Number::as_u64` and `as_i64`. An object has no name twice.
#[verifier::external_body]
fn json_shape(value: serde_json::Value) -> (shape: JsonShape)
    ensures
        json_content(value) == shape.content(),
        shape matches JsonShape::Table(entries) ==> names_differ(entries@),
{
    match value {
        serde_json::Value::Null => JsonShape::Null,
        serde_json::Value::Bool(b) => JsonShape::Bool(b),
        serde_json::Value::Number(number) => match (number.as_u64(), number.as_i64()) {
            (Some(n), _) => JsonShape::Unsigned(n),
            (None, Some(n)) => JsonShape::Signed(n),
            (None, None) => JsonShape::Float(number),
        },
        serde_json::Value::String(s) => JsonShape::Text(s),
        serde_json::Value::Array(items) => JsonShape::List(items),
        serde_json::Value::Object(table) => JsonShape::Table(table.into_iter().collect()),
    }
}

/// Puts one level of a `serde_json::Value` together. Collecting entries into a `serde_json::Map`
/// keeps the last one of each name.
#[verifier::external_body]
fn json_made(shape: JsonShape) -> (value: serde_json::Value)
    ensures
        json_content(value) == shape.content(),
{
    match shape {
        JsonShape::Null => serde_json::Value::Null,
        JsonShape::Bool(b) => serde_json::Value::Bool(b),
        JsonShape::Unsigned(n) => n.into(),
        JsonShape::Signed(n) => n.into(),
        JsonShape::Float(number) => serde_json::Value::Number(number),
        JsonShape::Text(s) => serde_json::Value::String(s),
        JsonShape::List(items) => serde_json::Value::Array(items),
        JsonShape::Table(entries) => serde_json::Value::Object(entries.into_iter().collect()),
    }
}

/// Every entry of an object without a name twice is found in it.
proof fn json_entries(entries: Seq<(String, serde_json::Value)>, i: int)
    requires
        names_differ(entries),
        0 <= i < entries.len(),
    ensures
        json_table(entries).dom().finite(),
        json_table(entries).dom().contains(entries[i].0@),
        json_table(entries)[entries[i].0@] == json_content(entries[i].1),
    decreases entries.len(),
{
    let front = entries.drop_last();
    if i < front.len() {
        json_entries(front, i);
    } else if front.len() > 0 {
        json_entries(front, 0);
    } else {
        assert(json_table(front) == Map::<Seq<char>, TreeModel>::empty());
    }
    assert(json_table(entries) == json_table(front).insert(
        entries.last().0@,
        json_content(entries.last().1),
    ));
}

/// Entries of which the first one of a name counts, and the same ones backwards, of which the last
/// one counts, make the same table.
proof fn json_mirrored(entries: Seq<(String, Tree)>, backwards: Seq<(String, serde_json::Value)>)
    requires
        entries.len() == backwards.len(),
        forall|i: int|
            0 <= i < entries.len() ==> {
                let other = backwards[entries.len() - 1 - i];
                (#[trigger] entries[i]).0@ == other.0@ && entries[i].1@ == json_content(other.1)
            },
    ensures
        table_of(entries) == json_table(backwards),
    decreases entries.len(),
{
    if entries.len() > 0 {
        let rest = entries.drop_first();
        let front = backwards.drop_last();
        assert forall|i: int| 0 <= i < rest.len() implies {
            let other = front[rest.len() - 1 - i];
            (#[trigger] rest[i]).0@ == other.0@ && rest[i].1@ == json_content(other.1)
        } by {
            assert(rest[i] == entries[i + 1]);
        }
        json_mirrored(rest, front);
        assert(entries[0].0@ == backwards.last().0@);
        assert(table_of(entries) == table_of(rest).insert(entries[0].0@, entries[0].1@));
    }
}

/// The data of a `serde_json::Value`.
fn tree_of_json(value: serde_json::Value) -> (tree: Tree)
    ensures
        tree@ == json_content(value),
    decreases json_content(value),
{
    let ghost whole = json_content(value);
    match json_shape(value) {
        JsonShape::Null => Tree::Null,
        JsonShape::Bool(b) => Tree::Bool(b),
        JsonShape::Unsigned(n) => Tree::Unsigned(n),
        JsonShape::Signed(n) => Tree::Signed(n),
        JsonShape::Float(number) => Tree::Float(FloatNumber { number }),
        JsonShape::Text(s) => Tree::Text(s),
        JsonShape::List(items) => {
            let ghost all = items@;
            let mut rest = items;
            let mut backwards: Vec<Tree> = Vec::new();
            while rest.len() > 0
                invariant
                    whole == TreeModel::List(Seq::new(all.len(), |i: int| json_content(all[i]))),
                    whole == json_content(value),
                    rest@.len() + backwards@.len() == all.len(),
                    rest@ == all.take(rest@.len() as int),
                    forall|i: int|
                        0 <= i < backwards@.len() ==> (#[trigger] backwards@[i])@ == json_content(
                            all[all.len() - 1 - i],
                        ),
                decreases rest@.len(),
            {
                let at: usize = rest.len() - 1;
                let item = rest.remove(at);
                proof {
                    assert(item == all[at as int]);
                    assert(whole->List_0[at as int] == json_content(item));
                    assert(decreases_to!(whole => whole->List_0));
                    assert(decreases_to!(whole->List_0 => whole->List_0[at as int]));
                }
                backwards.push(tree_of_json(item));
                assert(rest@ =~= all.take(at as int));
            }
            let trees = reversed(backwards);
            proof {
                list_items(trees@);
                assert(list_of(trees@) =~= whole->List_0);
            }
            Tree::List(trees)
        },
        JsonShape::Table(entries) => {
            let ghost all = entries@;
            let mut rest = entries;
            let mut backwards: Vec<(String, Tree)> = Vec::new();
            while rest.len() > 0
                invariant
                    whole == TreeModel::Table(json_table(all)),
                    whole == json_content(value),
                    names_differ(all),
                    rest@.len() + backwards@.len() == all.len(),
                    rest@ == all.take(rest@.len() as int),
                    forall|i: int|
                        0 <= i < backwards@.len() ==> {
                            let other = all[all.len() - 1 - i];
                            (#[trigger] backwards@[i]).0@ == other.0@ && backwards@[i].1@
                                == json_content(other.1)
                        },
                decreases rest@.len(),
            {
                let at: usize = rest.len() - 1;
                let (name, item) = rest.remove(at);
                proof {
                    assert((name, item) == all[at as int]);
                    json_entries(all, at as int);
                    assert(decreases_to!(whole => whole->Table_0));
                    assert(decreases_to!(whole->Table_0 => whole->Table_0[name@]));
                }
                backwards.push((name, tree_of_json(item)));
                assert(rest@ =~= all.take(at as int));
            }
            proof {
                json_mirrored(backwards@, all);
            }
            Tree::Table(backwards)
        },
    }
}

/// The items in the opposite order.
fn reversed<T>(items: Vec<T>) -> (turned: Vec<T>)
    ensures
        turned@ == items@.reverse(),
{
    let ghost all = items@;
    let mut rest = items;
    let mut turned: Vec<T> = Vec::new();
    while rest.len() > 0
        invariant
            rest@.len() + turned@.len() == all.len(),
            rest@ == all.take(rest@.len() as int),
            turned@ == all.reverse().take(turned@.len() as int),
        decreases rest@.len(),
    {
        let at: usize = rest.len() - 1;
        let item = rest.remove(at);
        turned.push(item);
        assert(rest@ =~= all.take(at as int));
        assert(turned@ =~= all.reverse().take(turned@.len() as int));
    }
    assert(turned@ =~= all.reverse());
    turned
}

/// A `serde_json::Value` that holds the given data.
fn json_of_tree(tree: Tree) -> (value: serde_json::Value)
    ensures
        json_content(value) == tree@,
    decreases tree,
{
    match tree {
        Tree::Null => json_made(JsonShape::Null),
        Tree::Bool(b) => json_made(JsonShape::Bool(b)),
        Tree::Unsigned(n) => json_made(JsonShape::Unsigned(n)),
        Tree::Signed(n) => json_made(JsonShape::Signed(n)),
        Tree::Float(n) => json_made(JsonShape::Float(n.number)),
        Tree::Text(s) => json_made(JsonShape::Text(s)),
        Tree::List(items) => {
            let ghost all = items@;
            let ghost whole = tree;
            let mut rest = items;
            let mut backwards: Vec<serde_json::Value> = Vec::new();
            while rest.len() > 0
                invariant
                    whole == tree,
                    whole is List,
                    whole->List_0@ == all,
                    rest@.len() + backwards@.len() == all.len(),
                    rest@ == all.take(rest@.len() as int),
                    forall|i: int|
                        0 <= i < backwards@.len() ==> json_content(#[trigger] backwards@[i])
                            == all[all.len() - 1 - i]@,
                decreases rest@.len(),
            {
                let at: usize = rest.len() - 1;
                let item = rest.remove(at);
                proof {
                    assert(item == all[at as int]);
                    assert(decreases_to!(whole => whole->List_0));
                    assert(decreases_to!(whole->List_0 => whole->List_0@));
                    assert(decreases_to!(whole->List_0@ => whole->List_0@[at as int]));
                }
                backwards.push(json_of_tree(item));
                assert(rest@ =~= all.take(at as int));
            }
            let values = reversed(backwards);
            proof {
                list_items(all);
                assert(list_of(all) =~= Seq::new(
                    values@.len(),
                    |i: int| json_content(values@[i]),
                ));
            }
            json_made(JsonShape::List(values))
        },
        Tree::Table(entries) => {
            let ghost all = entries@;
            let ghost whole = tree;
            let mut rest = entries;
            let mut backwards: Vec<(String, serde_json::Value)> = Vec::new();
            while rest.len() > 0
                invariant
                    whole == tree,
                    whole is Table,
                    whole->Table_0@ == all,
                    rest@.len() + backwards@.len() == all.len(),
                    rest@ == all.take(rest@.len() as int),
                    forall|i: int|
                        0 <= i < backwards@.len() ==> {
                            let other = all[all.len() - 1 - i];
                            (#[trigger] backwards@[i]).0@ == other.0@ && json_content(
                                backwards@[i].1,
                            ) == other.1@
                        },
                decreases rest@.len(),
            {
                let at: usize = rest.len() - 1;
                let (name, item) = rest.remove(at);
                proof {
                    assert((name, item) == all[at as int]);
                    assert(decreases_to!(whole => whole->Table_0));
                    assert(decreases_to!(whole->Table_0 => whole->Table_0@));
                    assert(decreases_to!(whole->Table_0@ => whole->Table_0@[at as int]));
                    assert(decreases_to!(all[at as int] => all[at as int].1));
                }
                backwards.push((name, json_of_tree(item)));
                assert(rest@ =~= all.take(at as int));
            }
            proof {
                assert forall|i: int| 0 <= i < all.len() implies {
                    let other = backwards@[all.len() - 1 - i];
                    (#[trigger] all[i]).0@ == other.0@ && all[i].1@ == json_content(other.1)
                } by {
                    assert(all[all.len() - 1 - (all.len() - 1 - i)] == all[i]);
                }
                json_mirrored(all, backwards@);
            }
            json_made(JsonShape::Table(backwards))
        },
    }
}

/// `serde_json::to_string` of a `serde_json::Value`: depends on the data alone and does not fail.
/// An object begins with a brace. Read again, data that is not nested too deep has every value at
/// its path, and the same texts; of numbers nothing is said.
#[verifier::external_body]
fn json_text(value: &serde_json::Value) -> (text: Option<String>)
    ensures
        text is Some,
        text->0@ == json_written(json_content(*value)),
        json_content(*value) is Table ==> text->0@.len() > 0 && text->0@[0] == '{',
        json_content(*value).shallow(127) ==> json_parsed(text->0@) is Some && json_parsed(
            text->0@,
        )->0.same_texts(json_content(*value)),
{
    serde_json::to_string(value).ok()
}

/// `str::parse` into a `toml::Table`, and the message of its error: depends on the text alone.
#[verifier::external_body]
fn toml_value(text: &str) -> (value: Result<toml::Value, String>)
    ensures
        match value {
            Ok(v) => toml_parsed(text@) == Ok::<TreeModel, Seq<char>>(toml_content(v)),
            Err(e) => toml_parsed(text@) == Err::<TreeModel, Seq<char>>(e@),
        },
{
    text.parse::<toml::Table>().map(toml::Value::Table).map_err(|e| e.to_string())
}

/// A `toml::Value`, one level of it taken apart.
enum TomlShape {
    Text(String),
    Integer(i64),
    Bool(bool),
    /// A float or a date, which nothing here reads.
    Other,
    List(Vec<toml::Value>),
    Table(Vec<(String, toml::Value)>),
}

/// The values of a table's entries by their names; where a name occurs twice, the last one counts.
spec fn toml_table(entries: Seq<(String, toml::Value)>) -> Map<Seq<char>, TreeModel>
    decreases entries.len(),
{
    if entries.len() == 0 {
        Map::empty()
    } else {
        toml_table(entries.drop_last()).insert(entries.last().0@, toml_content(entries.last().1))
    }
}

impl TomlShape {
    spec fn content(self) -> TreeModel {
        match self {
            TomlShape::Text(s) => TreeModel::Text(s@),
            TomlShape::Integer(n) => if n >= 0 {
                TreeModel::Unsigned(n as u64)
            } else {
                TreeModel::Signed(n)
            },
            TomlShape::Bool(b) => TreeModel::Bool(b),
            TomlShape::Other => TreeModel::Null,
            TomlShape::List(items) => TreeModel::List(
                Seq::new(items@.len(), |i: int| toml_content(items@[i])),
            ),
            TomlShape::Table(entries) => TreeModel::Table(toml_table(entries@)),
        }
    }
}

/// Takes one level of a `toml::Value` apart by its variants. A table has no name twice.
#[verifier::external_body]
fn toml_shape(value: toml::Value) -> (shape: TomlShape)
    ensures
        toml_content(value) == shape.content(),
        shape matches TomlShape::Table(entries) ==> names_differ(entries@),
{
    match value {
        toml::Value::String(s) => TomlShape::Text(s),
        toml::Value::Integer(n) => TomlShape::Integer(n),
        toml::Value::Boolean(b) => TomlShape::Bool(b),
        toml::Value::Float(_) => TomlShape::Other,
        toml::Value::Datetime(_) => TomlShape::Other,
        toml::Value::Array(items) => TomlShape::List(items),
        toml::Value::Table(table) => TomlShape::Table(table.into_iter().collect()),
    }
}

/// Every entry of a table without a name twice is found in it.
proof fn toml_entries(entries: Seq<(String, toml::Value)>, i: int)
    requires
        names_differ(entries),
        0 <= i < entries.len(),
    ensures
        toml_table(entries).dom().finite(),
        toml_table(entries).dom().contains(entries[i].0@),
        toml_table(entries)[entries[i].0@] == toml_content(entries[i].1),
    decreases entries.len(),
{
    let front = entries.drop_last();
    if i < front.len() {
        toml_entries(front, i);
    } else if front.len() > 0 {
        toml_entries(front, 0);
    } else {
        assert(toml_table(front) == Map::<Seq<char>, TreeModel>::empty());
    }
    assert(toml_table(entries) == toml_table(front).insert(
        entries.last().0@,
        toml_content(entries.last().1),
    ));
}

/// Entries of which the first one of a name counts, and the same ones backwards, of which the last
/// one counts, make the same table.
proof fn toml_mirrored(entries: Seq<(String, Tree)>, backwards: Seq<(String, toml::Value)>)
    requires
        entries.len() == backwards.len(),
        forall|i: int|
            0 <= i < entries.len() ==> {
                let other = backwards[entries.len() - 1 - i];
                (#[trigger] entries[i]).0@ == other.0@ && entries[i].1@ == toml_content(other.1)
            },
    ensures
        table_of(entries) == toml_table(backwards),
    decreases entries.len(),
{
    if entries.len() > 0 {
        let rest = entries.drop_first();
        let front = backwards.drop_last();
        assert forall|i: int| 0 <= i < rest.len() implies {
            let other = front[rest.len() - 1 - i];
            (#[trigger] rest[i]).0@ == other.0@ && rest[i].1@ == toml_content(other.1)
        } by {
            assert(rest[i] == entries[i + 1]);
        }
        toml_mirrored(rest, front);
        assert(entries[0].0@ == backwards.last().0@);
        assert(table_of(entries) == table_of(rest).insert(entries[0].0@, entries[0].1@));
    }
}

/// The data of a `toml::Value`.
fn tree_of_toml(value: toml::Value) -> (tree: Tree)
    ensures
        tree@ == toml_content(value),
    decreases toml_content(value),
{
    let ghost whole = toml_content(value);
    match toml_shape(value) {
        TomlShape::Text(s) => Tree::Text(s),
        TomlShape::Integer(n) => Tree::Signed(n),
        TomlShape::Bool(b) => Tree::Bool(b),
        TomlShape::Other => Tree::Null,
        TomlShape::List(items) => {
            let ghost all = items@;
            let mut rest = items;
            let mut backwards: Vec<Tree> = Vec::new();
            while rest.len() > 0
                invariant
                    whole == TreeModel::List(Seq::new(all.len(), |i: int| toml_content(all[i]))),
                    whole == toml_content(value),
                    rest@.len() + backwards@.len() == all.len(),
                    rest@ == all.take(rest@.len() as int),
                    forall|i: int|
                        0 <= i < backwards@.len() ==> (#[trigger] backwards@[i])@ == toml_content(
                            all[all.len() - 1 - i],
                        ),
                decreases rest@.len(),
            {
                let at: usize = rest.len() - 1;
                let item = rest.remove(at);
                proof {
                    assert(item == all[at as int]);
                    assert(whole->List_0[at as int] == toml_content(item));
                    assert(decreases_to!(whole => whole->List_0));
                    assert(decreases_to!(whole->List_0 => whole->List_0[at as int]));
                }
                backwards.push(tree_of_toml(item));
                assert(rest@ =~= all.take(at as int));
            }
            let trees = reversed(backwards);
            proof {
                list_items(trees@);
                assert(list_of(trees@) =~= whole->List_0);
            }
            Tree::List(trees)
        },
        TomlShape::Table(entries) => {
            let ghost all = entries@;
            let mut rest = entries;
            let mut backwards: Vec<(String, Tree)> = Vec::new();
            while rest.len() > 0
                invariant
                    whole == TreeModel::Table(toml_table(all)),
                    whole == toml_content(value),
                    names_differ(all),
                    rest@.len() + backwards@.len() == all.len(),
                    rest@ == all.take(rest@.len() as int),
                    forall|i: int|
                        0 <= i < backwards@.len() ==> {
                            let other = all[all.len() - 1 - i];
                            (#[trigger] backwards@[i]).0@ == other.0@ && backwards@[i].1@
                                == toml_content(other.1)
                        },
                decreases rest@.len(),
            {
                let at: usize = rest.len() - 1;
                let (name, item) = rest.remove(at);
                proof {
                    assert((name, item) == all[at as int]);
                    toml_entries(all, at as int);
                    assert(decreases_to!(whole => whole->Table_0));
                    assert(decreases_to!(whole->Table_0 => whole->Table_0[name@]));
                }
                backwards.push((name, tree_of_toml(item)));
                assert(rest@ =~= all.take(at as int));
            }
            proof {
                toml_mirrored(backwards@, all);
            }
            Tree::Table(backwards)
        },
    }
}

/// The data of a JSON text.
pub fn parse_json(text: &str) -> (tree: Option<Tree>)
    ensures
        match tree {
            Some(t) => json_parsed(text@) == Some(t@) && t@.shallow(127),
            None => json_parsed(text@) is None,
        },
{
    match json_value(text) {
        Some(value) => Some(tree_of_json(value)),
        None => None,
    }
}

/// Data as JSON text.
pub fn write_json(tree: Tree) -> (text: Option<String>)
    ensures
        text is Some,
        text->0@ == json_written(tree@),
        tree@ is Table ==> text->0@.len() > 0 && text->0@[0] == '{',
        tree@.shallow(127) ==> json_parsed(text->0@) is Some && json_parsed(
            text->0@,
        )->0.same_texts(tree@),
{
    json_text(&json_of_tree(tree))
}

/// The data of a TOML text, or the complaint about it.
pub fn parse_toml(text: &str) -> (tree: Result<Tree, String>)
    ensures
        match tree {
            Ok(t) => toml_parsed(text@) == Ok::<TreeModel, Seq<char>>(t@),
            Err(e) => toml_parsed(text@) == Err::<TreeModel, Seq<char>>(e@),
        },
{
    match toml_value(text) {
        Ok(value) => Ok(tree_of_toml(value)),
        Err(e) => Err(e),
    }
}

/// The values of a list are those of its items.
pub proof fn list_items(items: Seq<Tree>)
    ensures
        list_of(items).len() == items.len(),
        forall|i: int| 0 <= i < items.len() ==> #[trigger] list_of(items)[i] == items[i]@,
    decreases items.len(),
{
    if items.len() > 0 {
        let rest = items.drop_first();
        list_items(rest);
        assert(list_of(items) == seq![items[0]@] + list_of(rest));
        assert forall|i: int| 0 <= i < items.len() implies #[trigger] list_of(items)[i]
            == items[i]@ by {
            if i > 0 {
                assert(list_of(rest)[i - 1] == rest[i - 1]@);
            }
        }
    }
}

/// The position of the first entry with a name.
fn position(entries: &Vec<(String, Tree)>, name: &str) -> (at: Option<usize>)
    ensures
        match at {
            Some(i) => {
                &&& i < entries@.len()
                &&& entries@[i as int].0@ == name@
                &&& table_of(entries@).dom().contains(name@)
                &&& table_of(entries@)[name@] == entries@[i as int].1@
                &&& forall|k: int| 0 <= k < i ==> (#[trigger] entries@[k]).0@ != name@
            },
            None => {
                &&& !table_of(entries@).dom().contains(name@)
                &&& forall|k: int|
                    0 <= k < entries@.len() ==> (#[trigger] entries@[k]).0@ != name@
            },
        },
{
    let mut i: usize = 0;
    assert(entries@.skip(0) =~= entries@);
    while i < entries.len()
        invariant
            i <= entries@.len(),
            forall|k: int| 0 <= k < i ==> (#[trigger] entries@[k]).0@ != name@,
            table_of(entries@).dom().contains(name@) == table_of(
                entries@.skip(i as int),
            ).dom().contains(name@),
            table_of(entries@).dom().contains(name@) ==> table_of(entries@)[name@] == table_of(
                entries@.skip(i as int),
            )[name@],
        decreases entries@.len() - i,
    {
        assert(entries@.skip(i as int).drop_first() =~= entries@.skip(i + 1));
        assert(table_of(entries@.skip(i as int)) == table_of(entries@.skip(i + 1)).insert(
            entries@[i as int].0@,
            entries@[i as int].1@,
        ));
        if same_text(entries[i].0.as_str(), name) {
            return Some(i);
        }
        i = i + 1;
    }
    assert(entries@.skip(i as int) =~= Seq::empty());
    None
}

impl Tree {
    /// The value with a name.
    pub fn get(&self, name: &str) -> (value: Option<&Tree>)
        ensures
            match value {
                Some(v) => self@.get(name@) == Some(v@),
                None => self@.get(name@) is None,
            },
    {
        match self {
            Tree::Table(entries) => match position(entries, name) {
                Some(i) => Some(&entries[i].1),
                None => None,
            },
            _ => None,
        }
    }

    pub fn as_text(&self) -> (text: Option<&String>)
        ensures
            match text {
                Some(s) => self@.as_text() == Some(s@),
                None => self@.as_text() is None,
            },
    {
        match self {
            Tree::Text(s) => Some(s),
            _ => None,
        }
    }

    pub fn as_integer(&self) -> (n: Option<i64>)
        ensures
            n == self@.as_integer(),
    {
        match self {
            Tree::Unsigned(n) => if *n <= 0x7fff_ffff_ffff_ffff {
                Some(*n as i64)
            } else {
                None
            },
            Tree::Signed(n) => Some(*n),
            _ => None,
        }
    }

    /// The text with a name.
    pub fn text(&self, name: &str) -> (text: Option<&String>)
        ensures
            match text {
                Some(s) => self@.text(name@) == Some(s@),
                None => self@.text(name@) is None,
            },
    {
        match self.get(name) {
            Some(value) => value.as_text(),
            None => None,
        }
    }

    /// The integer with a name.
    pub fn integer(&self, name: &str) -> (n: Option<i64>)
        ensures
            n == self@.integer(name@),
    {
        match self.get(name) {
            Some(value) => value.as_integer(),
            None => None,
        }
    }
}

/// Where the first entry of a name gets another value, the table has that value for it.
proof fn first_entry_counts(entries: Seq<(String, Tree)>, i: int, value: Tree)
    requires
        0 <= i < entries.len(),
        forall|k: int| 0 <= k < i ==> (#[trigger] entries[k]).0@ != entries[i].0@,
    ensures
        table_of(entries.update(i, (entries[i].0, value))) == table_of(entries).insert(
            entries[i].0@,
            value@,
        ),
    decreases entries.len(),
{
    let changed = entries.update(i, (entries[i].0, value));
    assert(table_of(changed) == table_of(changed.drop_first()).insert(
        changed[0].0@,
        changed[0].1@,
    ));
    assert(table_of(entries) == table_of(entries.drop_first()).insert(
        entries[0].0@,
        entries[0].1@,
    ));
    if i == 0 {
        assert(changed.drop_first() =~= entries.drop_first());
        assert(table_of(changed) =~= table_of(entries).insert(entries[0].0@, value@));
    } else {
        let rest = entries.drop_first();
        assert forall|k: int| 0 <= k < i - 1 implies (#[trigger] rest[k]).0@ != rest[i - 1].0@ by {
            assert(rest[k] == entries[k + 1]);
        }
        first_entry_counts(rest, i - 1, value);
        assert(changed.drop_first() =~= rest.update(i - 1, (rest[i - 1].0, value)));
        assert(table_of(changed) =~= table_of(entries).insert(entries[i].0@, value@));
    }
}

/// Take the value of a name out of a table, which then has nothing for it.
pub fn take(entries: &mut Vec<(String, Tree)>, name: &str) -> (value: Option<Tree>)
    ensures
        match value {
            Some(v) => {
                &&& table_of(old(entries)@).dom().contains(name@)
                &&& table_of(old(entries)@)[name@] == v@
                &&& table_of(final(entries)@) == table_of(old(entries)@).insert(
                    name@,
                    TreeModel::Null,
                )
            },
            None => {
                &&& !table_of(old(entries)@).dom().contains(name@)
                &&& final(entries)@ == old(entries)@
            },
        },
{
    match position(entries, name) {
        Some(i) => {
            proof {
                first_entry_counts(entries@, i as int, Tree::Null);
            }
            let mut value = Tree::Null;
            std::mem::swap(&mut value, &mut entries[i].1);
            assert(entries@ =~= old(entries)@.update(i as int, (old(entries)@[i as int].0, Tree::Null)));
            Some(value)
        },
        None => None,
    }
}

/// Whether a table has a value for a name.
pub fn has(entries: &Vec<(String, Tree)>, name: &str) -> (has: bool)
    ensures
        has == table_of(entries@).dom().contains(name@),
{
    position(entries, name).is_some()
}

/// Give the value of a name in a table, in place of the one it had.
pub fn put(entries: &mut Vec<(String, Tree)>, name: String, value: Tree)
    ensures
        table_of(final(entries)@) == table_of(old(entries)@).insert(name@, value@),
{
    let ghost before = entries@;
    entries.insert(0, (name, value));
    assert(entries@.drop_first() =~= before);
}

} // verus!
