use vstd::prelude::*;

use crate::data::{
    json_parsed, json_written, parse_json, put, table_of, take, write_json, Tree, TreeModel,
};
use crate::text::copy_of;

verus! {

/// The part of stored data that holds the tokens: the section of its own, where there is one.
pub open spec fn credentials(data: TreeModel) -> TreeModel {
    match data.get("claudeAiOauth"@) {
        Some(section) => section,
        None => data,
    }
}

/// The text under the first of two names that is there.
pub open spec fn either_text(data: TreeModel, name: Seq<char>, other: Seq<char>) -> Option<
    Seq<char>,
> {
    if data.get(name) is Some {
        data.text(name)
    } else {
        data.text(other)
    }
}

/// The access token in stored data.
pub open spec fn access_token_of(data: TreeModel) -> Option<Seq<char>> {
    either_text(credentials(data), "accessToken"@, "access_token"@)
}

/// The refresh token in stored data.
pub open spec fn refresh_token_of(data: TreeModel) -> Option<Seq<char>> {
    either_text(credentials(data), "refreshToken"@, "refresh_token"@)
}

/// The data of a stored credential: JSON counts only where it begins with a brace.
pub open spec fn stored_data(raw: Seq<char>) -> Option<TreeModel> {
    if raw.len() > 0 && raw[0] == '{' {
        json_parsed(raw)
    } else {
        None
    }
}

/// The access token of a stored credential: the one in its data, or else the credential itself.
pub open spec fn stored_access_token(raw: Seq<char>) -> Seq<char> {
    match stored_data(raw) {
        Some(data) => match access_token_of(data) {
            Some(token) => token,
            None => raw,
        },
        None => raw,
    }
}

/// The refresh token of a stored credential.
pub open spec fn stored_refresh_token(raw: Seq<char>) -> Option<Seq<char>> {
    match stored_data(raw) {
        Some(data) => refresh_token_of(data),
        None => None,
    }
}

/// The part of stored data that holds the tokens.
fn credentials_in(data: &Tree) -> (part: &Tree)
    ensures
        part@ == credentials(data@),
{
    match data.get("claudeAiOauth") {
        Some(section) => section,
        None => data,
    }
}

/// The text under the first of two names that is there.
fn either_text_in<'a>(data: &'a Tree, name: &str, other: &str) -> (text: Option<&'a String>)
    ensures
        match text {
            Some(s) => either_text(data@, name@, other@) == Some(s@),
            None => either_text(data@, name@, other@) is None,
        },
{
    match data.get(name) {
        Some(value) => value.as_text(),
        None => data.text(other),
    }
}

/// The access token in stored data.
pub fn access_token_in(data: &Tree) -> (token: Option<&String>)
    ensures
        match token {
            Some(s) => access_token_of(data@) == Some(s@),
            None => access_token_of(data@) is None,
        },
{
    either_text_in(credentials_in(data), "accessToken", "access_token")
}

/// The refresh token in stored data.
pub fn refresh_token_in(data: &Tree) -> (token: Option<&String>)
    ensures
        match token {
            Some(s) => refresh_token_of(data@) == Some(s@),
            None => refresh_token_of(data@) is None,
        },
{
    either_text_in(credentials_in(data), "refreshToken", "refresh_token")
}

/// The data of a stored credential.
fn data_in(raw: &str) -> (data: Option<Tree>)
    ensures
        match data {
            Some(tree) => stored_data(raw@) == Some(tree@),
            None => stored_data(raw@) is None,
        },
{
    let chars = crate::text::chars_of(raw);
    if chars.len() > 0 && chars[0] == '{' {
        parse_json(raw)
    } else {
        None
    }
}

/// The access token of a stored credential.
pub fn normalize_stored_token(raw: &str) -> (token: String)
    ensures
        token@ == stored_access_token(raw@),
{
    if let Some(data) = data_in(raw) {
        if let Some(token) = access_token_in(&data) {
            return token.clone();
        }
    }
    copy_of(raw)
}

/// The refresh token of a stored credential.
pub fn extract_refresh_token(raw: &str) -> (token: Option<String>)
    ensures
        match token {
            Some(s) => stored_refresh_token(raw@) == Some(s@),
            None => stored_refresh_token(raw@) is None,
        },
{
    let data = data_in(raw)?;
    match refresh_token_in(&data) {
        Some(token) => Some(token.clone()),
        None => None,
    }
}

/// What is known of an account's tokens.
pub struct TokenInfo {
    pub access_token: String,
    pub refresh_token: Option<String>,
    pub raw_credential: String,
}

/// The tokens of a stored credential.
pub fn token_info(raw: String) -> (info: TokenInfo)
    ensures
        info.access_token@ == stored_access_token(raw@),
        match info.refresh_token {
            Some(s) => stored_refresh_token(raw@) == Some(s@),
            None => stored_refresh_token(raw@) is None,
        },
        info.raw_credential@ == raw@,
{
    TokenInfo {
        access_token: normalize_stored_token(raw.as_str()),
        refresh_token: extract_refresh_token(raw.as_str()),
        raw_credential: raw,
    }
}

/// The first of two names that a table has, or else the second one.
pub open spec fn name_in_use(
    table: Map<Seq<char>, TreeModel>,
    name: Seq<char>,
    other: Seq<char>,
) -> Seq<char> {
    if table.dom().contains(name) {
        name
    } else {
        other
    }
}

/// An integer as data.
pub open spec fn integer_data(n: i64) -> TreeModel {
    if n >= 0 {
        TreeModel::Unsigned(n as u64)
    } else {
        TreeModel::Signed(n)
    }
}

/// A table with new tokens, under the names that it uses.
pub open spec fn with_tokens(
    table: Map<Seq<char>, TreeModel>,
    access: Seq<char>,
    refresh: Option<Seq<char>>,
    expires_at: i64,
) -> Map<Seq<char>, TreeModel> {
    let first = table.insert(
        name_in_use(table, "accessToken"@, "access_token"@),
        TreeModel::Text(access),
    );
    let second = match refresh {
        Some(token) => first.insert(
            name_in_use(first, "refreshToken"@, "refresh_token"@),
            TreeModel::Text(token),
        ),
        None => first,
    };
    second.insert(name_in_use(second, "expiresAt"@, "expires_at"@), integer_data(expires_at))
}

/// Stored data with new tokens. Where the part that holds the tokens is no table, nothing changes.
pub open spec fn updated(
    data: TreeModel,
    access: Seq<char>,
    refresh: Option<Seq<char>>,
    expires_at: i64,
) -> TreeModel {
    match data {
        TreeModel::Table(table) => match data.get("claudeAiOauth"@) {
            Some(TreeModel::Table(section)) => TreeModel::Table(
                table.insert(
                    "claudeAiOauth"@,
                    TreeModel::Table(with_tokens(section, access, refresh, expires_at)),
                ),
            ),
            Some(_) => data,
            None => TreeModel::Table(with_tokens(table, access, refresh, expires_at)),
        },
        _ => data,
    }
}

/// Give a name in a table a new text, under the first of two spellings that it has.
fn put_under(entries: &mut Vec<(String, Tree)>, name: &str, other: &str, value: Tree)
    ensures
        table_of(final(entries)@) == table_of(old(entries)@).insert(
            name_in_use(table_of(old(entries)@), name@, other@),
            value@,
        ),
{
    if crate::data::has(entries, name) {
        put(entries, copy_of(name), value);
    } else {
        put(entries, copy_of(other), value);
    }
}

fn put_tokens(
    entries: &mut Vec<(String, Tree)>,
    new_access: &str,
    new_refresh: Option<&str>,
    expires_at: i64,
)
    ensures
        table_of(final(entries)@) == with_tokens(
            table_of(old(entries)@),
            new_access@,
            match new_refresh {
                Some(token) => Some(token@),
                None => None,
            },
            expires_at,
        ),
{
    put_under(entries, "accessToken", "access_token", Tree::Text(copy_of(new_access)));
    if let Some(token) = new_refresh {
        put_under(entries, "refreshToken", "refresh_token", Tree::Text(copy_of(token)));
    }
    put_under(entries, "expiresAt", "expires_at", Tree::Signed(expires_at));
}

/// Put new tokens into stored data.
pub fn update_credentials(
    data: Tree,
    new_access: &str,
    new_refresh: Option<&str>,
    expires_at: i64,
) -> (new: Tree)
    ensures
        new@ == updated(
            data@,
            new_access@,
            match new_refresh {
                Some(token) => Some(token@),
                None => None,
            },
            expires_at,
        ),
{
    match data {
        Tree::Table(mut entries) => {
            let ghost table = table_of(entries@);
            match take(&mut entries, "claudeAiOauth") {
                Some(Tree::Table(mut section)) => {
                    put_tokens(&mut section, new_access, new_refresh, expires_at);
                    put(&mut entries, copy_of("claudeAiOauth"), Tree::Table(section));
                    assert(table_of(entries@) =~= table.insert(
                        "claudeAiOauth"@,
                        Tree::Table(section)@,
                    ));
                },
                Some(other) => {
                    put(&mut entries, copy_of("claudeAiOauth"), other);
                    assert(table_of(entries@) =~= table);
                },
                None => {
                    put_tokens(&mut entries, new_access, new_refresh, expires_at);
                },
            }
            Tree::Table(entries)
        },
        other => other,
    }
}

/// Whether new tokens can be put into stored data: the part that holds the tokens is a table.
pub open spec fn takes_tokens(data: TreeModel) -> bool {
    data is Table && credentials(data) is Table
}

/// Put new tokens into a stored credential; one that is no JSON becomes the access token itself.
///
/// Where the credential can take tokens, they are what the new credential gives back.
pub fn update_credential_json(
    raw: &str,
    new_access: &str,
    new_refresh: Option<&str>,
    expires_at: i64,
) -> (new: String)
    ensures
        ({
            let refresh = match new_refresh {
                Some(token) => Some(token@),
                None => None,
            };
            match json_parsed(raw@) {
                Some(data) => {
                    &&& new@ == json_written(updated(data, new_access@, refresh, expires_at))
                    &&& takes_tokens(data) ==> stored_access_token(new@) == new_access@
                    &&& takes_tokens(data) ==> stored_refresh_token(new@) == (if refresh is Some {
                        refresh
                    } else {
                        refresh_token_of(data)
                    })
                },
                None => new@ == new_access@,
            }
        }),
{
    match parse_json(raw) {
        Some(data) => {
            let ghost before = data@;
            let ghost refresh = match new_refresh {
                Some(token) => Some(token@),
                None => None,
            };
            let new = update_credentials(data, new_access, new_refresh, expires_at);
            proof {
                updating_keeps_data_shallow(before, new_access@, refresh, expires_at, 127);
                if takes_tokens(before) {
                    updated_tokens_are_read(before, new_access@, refresh, expires_at);
                }
            }
            let ghost after = new@;
            match write_json(new) {
                Some(text) => {
                    proof {
                        if takes_tokens(before) {
                            same_texts_have_same_tokens(json_parsed(text@)->0, after);
                        }
                    }
                    text
                },
                None => copy_of(raw),
            }
        },
        None => copy_of(new_access),
    }
}

/// The names that tokens go by are all different.
proof fn names_differ()
    ensures
        "accessToken"@ != "access_token"@,
        "refreshToken"@ != "refresh_token"@,
        "accessToken"@ != "refreshToken"@,
        "accessToken"@ != "refresh_token"@,
        "access_token"@ != "refreshToken"@,
        "access_token"@ != "refresh_token"@,
        "expiresAt"@ != "accessToken"@,
        "expiresAt"@ != "access_token"@,
        "expiresAt"@ != "refreshToken"@,
        "expiresAt"@ != "refresh_token"@,
        "expires_at"@ != "accessToken"@,
        "expires_at"@ != "access_token"@,
        "expires_at"@ != "refreshToken"@,
        "expires_at"@ != "refresh_token"@,
        "claudeAiOauth"@ != "accessToken"@,
        "claudeAiOauth"@ != "access_token"@,
        "claudeAiOauth"@ != "refreshToken"@,
        "claudeAiOauth"@ != "refresh_token"@,
        "claudeAiOauth"@ != "expiresAt"@,
        "claudeAiOauth"@ != "expires_at"@,
{
    reveal_strlit("accessToken");
    reveal_strlit("access_token");
    reveal_strlit("refreshToken");
    reveal_strlit("refresh_token");
    reveal_strlit("expiresAt");
    reveal_strlit("expires_at");
    reveal_strlit("claudeAiOauth");
    assert("accessToken"@[6] == 'T' && "access_token"@[6] == '_');
    assert("refreshToken"@[7] == 'T' && "refresh_token"@[7] == '_');
    assert("accessToken"@[0] == 'a' && "access_token"@[0] == 'a');
    assert("refreshToken"@[0] == 'r' && "refresh_token"@[0] == 'r');
    assert("expiresAt"@[0] == 'e' && "expires_at"@[0] == 'e');
    assert("claudeAiOauth"@[0] == 'c');
}

/// Tokens put into stored data are the ones that are read from it.
pub proof fn updated_tokens_are_read(
    data: TreeModel,
    access: Seq<char>,
    refresh: Option<Seq<char>>,
    expires_at: i64,
)
    requires
        takes_tokens(data),
    ensures
        takes_tokens(updated(data, access, refresh, expires_at)),
        access_token_of(updated(data, access, refresh, expires_at)) == Some(access),
        refresh_token_of(updated(data, access, refresh, expires_at)) == (if refresh is Some {
            refresh
        } else {
            refresh_token_of(data)
        }),
{
    names_differ();
}

/// Putting tokens into stored data does not nest it deeper.
proof fn updating_keeps_data_shallow(
    data: TreeModel,
    access: Seq<char>,
    refresh: Option<Seq<char>>,
    expires_at: i64,
    depth: nat,
)
    requires
        data.shallow(depth),
        depth >= 2,
    ensures
        updated(data, access, refresh, expires_at).shallow(depth),
{
    if let TreeModel::Table(table) = data {
        match data.get("claudeAiOauth"@) {
            Some(TreeModel::Table(section)) => {
                assert(table["claudeAiOauth"@].shallow((depth - 1) as nat));
                tokens_keep_a_table_shallow(section, access, refresh, expires_at, (depth - 1) as nat);
                let new = with_tokens(section, access, refresh, expires_at);
                let whole = table.insert("claudeAiOauth"@, TreeModel::Table(new));
                assert forall|name: Seq<char>| whole.dom().contains(name) implies (
                #[trigger] whole[name]).shallow((depth - 1) as nat) by {
                    if name != "claudeAiOauth"@ {
                        assert(table[name].shallow((depth - 1) as nat));
                    }
                }
            },
            Some(_) => {},
            None => {
                tokens_keep_a_table_shallow(table, access, refresh, expires_at, depth);
            },
        }
    }
}

proof fn tokens_keep_a_table_shallow(
    table: Map<Seq<char>, TreeModel>,
    access: Seq<char>,
    refresh: Option<Seq<char>>,
    expires_at: i64,
    depth: nat,
)
    requires
        TreeModel::Table(table).shallow(depth),
    ensures
        TreeModel::Table(with_tokens(table, access, refresh, expires_at)).shallow(depth),
{
    let new = with_tokens(table, access, refresh, expires_at);
    let old_data = TreeModel::Table(table);
    assert(old_data.shallow(depth) && depth > 0);
    assert(forall|name: Seq<char>|
        table.dom().contains(name) ==> (#[trigger] table[name]).shallow((depth - 1) as nat)) by {
        match old_data {
            TreeModel::Table(t) => {
                assert(t == table);
            },
            _ => {},
        }
    }
    assert forall|name: Seq<char>| new.dom().contains(name) implies (
    #[trigger] new[name]).shallow((depth - 1) as nat) by {
        if table.dom().contains(name) && new[name] == table[name] {
            assert(table[name].shallow((depth - 1) as nat));
        }
    }
}

/// Data with the same texts at the same paths holds the same tokens.
proof fn same_texts_have_same_tokens(data: TreeModel, other: TreeModel)
    requires
        data.same_texts(other),
    ensures
        access_token_of(data) == access_token_of(other),
        refresh_token_of(data) == refresh_token_of(other),
{
    let section = "claudeAiOauth"@;
    found_by_name(data, other, section);
    if data.get(section) is Some {
        same_texts_below(data, other, section);
        let d = data.get(section)->0;
        let o = other.get(section)->0;
        found_by_name(d, o, "accessToken"@);
        found_by_name(d, o, "access_token"@);
        found_by_name(d, o, "refreshToken"@);
        found_by_name(d, o, "refresh_token"@);
    } else {
        found_by_name(data, other, "accessToken"@);
        found_by_name(data, other, "access_token"@);
        found_by_name(data, other, "refreshToken"@);
        found_by_name(data, other, "refresh_token"@);
    }
}

proof fn found_by_name(data: TreeModel, other: TreeModel, name: Seq<char>)
    requires
        data.same_texts(other),
    ensures
        data.get(name) is Some == other.get(name) is Some,
        data.text(name) == other.text(name),
{
    let path = seq![name];
    assert(path.drop_first() =~= Seq::empty());
    assert(data.at(path) == (match data.get(name) {
        Some(value) => value.at(path.drop_first()),
        None => None,
    }));
    assert(other.at(path) == (match other.get(name) {
        Some(value) => value.at(path.drop_first()),
        None => None,
    }));
    if data.get(name) is Some {
        assert(data.get(name)->0.at(path.drop_first()) == Some(data.get(name)->0));
    }
    if other.get(name) is Some {
        assert(other.get(name)->0.at(path.drop_first()) == Some(other.get(name)->0));
    }
}

proof fn same_texts_below(data: TreeModel, other: TreeModel, name: Seq<char>)
    requires
        data.same_texts(other),
        data.get(name) is Some,
        other.get(name) is Some,
    ensures
        data.get(name)->0.same_texts(other.get(name)->0),
{
    let d = data.get(name)->0;
    let o = other.get(name)->0;
    assert forall|path: Seq<Seq<char>>| #[trigger]
        d.at(path) is Some == o.at(path) is Some && (d.at(path) is Some ==> d.at(path)->0.as_text()
            == o.at(path)->0.as_text()) by {
        let longer = seq![name] + path;
        assert(longer.drop_first() =~= path);
        assert(data.at(longer) == d.at(path));
        assert(other.at(longer) == o.at(path));
    }
}

/// The time at which new tokens expire is put in under the name that is in use; where none is,
/// under `expires_at`.
pub proof fn the_expiry_is_stored(
    data: TreeModel,
    access: Seq<char>,
    refresh: Option<Seq<char>>,
    expires_at: i64,
)
    requires
        takes_tokens(data),
    ensures
        ({
            let after = credentials(updated(data, access, refresh, expires_at));
            &&& credentials(data).get("expiresAt"@) is Some ==> after.integer("expiresAt"@) == Some(
                expires_at,
            )
            &&& credentials(data).get("expiresAt"@) is None ==> after.integer("expires_at"@) == Some(
                expires_at,
            )
        }),
{
    names_differ();
}

/// New tokens change nothing else in the credentials.
pub proof fn other_data_is_kept(
    data: TreeModel,
    access: Seq<char>,
    refresh: Option<Seq<char>>,
    expires_at: i64,
    name: Seq<char>,
)
    requires
        takes_tokens(data),
        name != "accessToken"@ && name != "access_token"@,
        name != "refreshToken"@ && name != "refresh_token"@,
        name != "expiresAt"@ && name != "expires_at"@,
    ensures
        credentials(updated(data, access, refresh, expires_at)).get(name) == credentials(data).get(
            name,
        ),
{
    names_differ();
}

} // verus!
