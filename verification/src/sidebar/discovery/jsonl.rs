use vstd::prelude::*;

use crate::data::{json_parsed, list_items, list_of, parse_json, FloatNumber, Tree, TreeModel};
use crate::text::{
    first_chars, lines_in, lines_of, lossy_text, readable_lines, readable_lines_of, same_text,
    shortened, text_from_utf8_lossy, texts_of, trim, trimmed,
};

verus! {

/// How much of the end of a session file is searched for usage, in bytes.
pub const TAIL_BYTES: u64 = 50_000;

/// How many tokens fill the context.
pub const MAX_CONTEXT_TOKENS: u32 = 200_000;

/// What a session file says about its session.
#[derive(Debug)]
pub struct SessionMeta {
    pub topic: String,
    pub git_branch: String,
    pub context_pct: u8,
}

impl Default for SessionMeta {
    fn default() -> (meta: SessionMeta)
        ensures
            meta.topic@ == Seq::<char>::empty(),
            meta.git_branch@ == Seq::<char>::empty(),
            meta.context_pct == 0,
    {
        SessionMeta { topic: String::new(), git_branch: String::new(), context_pct: 0 }
    }
}

/// The text of a block of content, where it is a text that is more than white space.
pub open spec fn block_text(block: TreeModel) -> Option<Seq<char>> {
    match block.text("text"@) {
        Some(text) => if block.text("type"@) == Some("text"@) && trimmed(text).len() > 0 {
            Some(trimmed(text))
        } else {
            None
        },
        None => None,
    }
}

/// The first text among blocks of content.
pub open spec fn first_text(blocks: Seq<TreeModel>) -> Option<Seq<char>>
    decreases blocks.len(),
{
    if blocks.len() == 0 {
        None
    } else if block_text(blocks[0]) is Some {
        block_text(blocks[0])
    } else {
        first_text(blocks.drop_first())
    }
}

/// The text of a message's content: the first one of its blocks, or the content itself.
pub open spec fn content_text(content: Option<TreeModel>) -> Option<Seq<char>> {
    match content {
        Some(TreeModel::List(blocks)) => first_text(blocks),
        Some(TreeModel::Text(text)) => if trimmed(text).len() > 0 {
            Some(trimmed(text))
        } else {
            None
        },
        _ => None,
    }
}

/// The text of a block of content.
fn text_of_block(block: &Tree) -> (text: Option<String>)
    ensures
        match text {
            Some(s) => block_text(block@) == Some(s@),
            None => block_text(block@) is None,
        },
{
    match block.text("type") {
        Some(kind) => {
            if !same_text(kind.as_str(), "text") {
                return None;
            }
        },
        None => {
            return None;
        },
    }
    match block.text("text") {
        Some(text) => {
            let inner = trim(text.as_str());
            if inner.as_str().is_empty() {
                None
            } else {
                Some(inner)
            }
        },
        None => None,
    }
}

/// The text of a message's content.
pub fn extract_text_from_content(content: Option<&Tree>) -> (text: Option<String>)
    ensures
        ({
            let data = match content {
                Some(tree) => Some(tree@),
                None => None,
            };
            match text {
                Some(s) => content_text(data) == Some(s@),
                None => content_text(data) is None,
            }
        }),
{
    match content {
        Some(Tree::List(blocks)) => {
            let ghost values = list_of(blocks@);
            proof {
                list_items(blocks@);
            }
            let mut i: usize = 0;
            assert(values.skip(0) =~= values);
            while i < blocks.len()
                invariant
                    i <= blocks@.len() == values.len(),
                    forall|k: int| 0 <= k < values.len() ==> #[trigger] values[k] == blocks@[k]@,
                    first_text(values) == first_text(values.skip(i as int)),
                    content matches Some(tree) && tree@ == TreeModel::List(values),
                decreases blocks@.len() - i,
            {
                assert(values.skip(i as int).drop_first() =~= values.skip(i + 1));
                if let Some(text) = text_of_block(&blocks[i]) {
                    return Some(text);
                }
                i = i + 1;
            }
            None
        },
        Some(Tree::Text(text)) => {
            let inner = trim(text.as_str());
            if inner.as_str().is_empty() {
                None
            } else {
                Some(inner)
            }
        },
        _ => None,
    }
}

/// What has been found in a session file so far, as mathematical values.
#[verifier::ext_equal]
pub struct ScanModel {
    pub topic: Seq<char>,
    pub git_branch: Seq<char>,
    pub topic_found: bool,
}

impl ScanModel {
    /// Nothing found.
    pub open spec fn nothing() -> ScanModel {
        ScanModel { topic: Seq::empty(), git_branch: Seq::empty(), topic_found: false }
    }

    /// What has been found after another entry: the first branch that is not empty, and the first
    /// text of a user, cut to `max` characters.
    pub open spec fn noted(self, entry: TreeModel, max: nat) -> ScanModel {
        let content = match entry.get("message"@) {
            Some(message) => message.get("content"@),
            None => None,
        };
        let asked = entry.text("type"@) == Some("user"@) && content_text(content) is Some;
        ScanModel {
            git_branch: if self.git_branch.len() == 0 && entry.text("gitBranch"@) is Some {
                entry.text("gitBranch"@)->0
            } else {
                self.git_branch
            },
            topic: if !self.topic_found && asked {
                shortened(content_text(content)->0, max)
            } else {
                self.topic
            },
            topic_found: self.topic_found || asked,
        }
    }

    /// What has been found after another line: one that is no JSON says nothing.
    pub open spec fn noted_line(self, line: Seq<char>, max: nat) -> ScanModel {
        match json_parsed(line) {
            Some(entry) => self.noted(entry, max),
            None => self,
        }
    }

    /// Whether there is nothing more to find.
    pub open spec fn complete(self) -> bool {
        self.topic_found && self.git_branch.len() > 0
    }
}

/// Looks for the topic and the branch in a session file, line by line.
pub struct TopicScan {
    topic: String,
    git_branch: String,
    topic_found: bool,
    max_topic_chars: usize,
}

impl View for TopicScan {
    type V = ScanModel;

    closed spec fn view(&self) -> ScanModel {
        ScanModel {
            topic: self.topic@,
            git_branch: self.git_branch@,
            topic_found: self.topic_found,
        }
    }
}

impl TopicScan {
    /// How long a topic can be, in characters.
    pub closed spec fn limit(&self) -> nat {
        self.max_topic_chars as nat
    }

    pub fn new(max_topic_chars: usize) -> (scan: TopicScan)
        ensures
            scan.limit() == max_topic_chars,
            scan@ == ScanModel::nothing(),
    {
        TopicScan {
            topic: String::new(),
            git_branch: String::new(),
            topic_found: false,
            max_topic_chars,
        }
    }

    /// Take note of an entry.
    pub fn note_entry(&mut self, entry: &Tree)
        ensures
            final(self).limit() == old(self).limit(),
            final(self)@ == old(self)@.noted(entry@, old(self).limit()),
    {
        if self.git_branch.as_str().is_empty() {
            if let Some(branch) = entry.text("gitBranch") {
                self.git_branch = branch.clone();
            }
        }
        let user = match entry.text("type") {
            Some(kind) => same_text(kind.as_str(), "user"),
            None => false,
        };
        if !self.topic_found && user {
            let content = match entry.get("message") {
                Some(message) => message.get("content"),
                None => None,
            };
            if let Some(text) = extract_text_from_content(content) {
                self.topic = first_chars(text.as_str(), self.max_topic_chars);
                self.topic_found = true;
            }
        }
    }

    /// Take note of a line. Says whether there is nothing more to find.
    pub fn note_line(&mut self, line: &str) -> (complete: bool)
        ensures
            final(self).limit() == old(self).limit(),
            final(self)@ == old(self)@.noted_line(line@, old(self).limit()),
            complete == final(self)@.complete(),
    {
        if let Some(entry) = parse_json(line) {
            self.note_entry(&entry);
        }
        self.topic_found && !self.git_branch.as_str().is_empty()
    }

    /// What was found, with the share of the context that is used.
    pub fn finish(self, context_pct: u8) -> (meta: SessionMeta)
        ensures
            meta.topic@ == self@.topic,
            meta.git_branch@ == self@.git_branch,
            meta.context_pct == context_pct,
    {
        SessionMeta { topic: self.topic, git_branch: self.git_branch, context_pct }
    }
}

/// What has been found after several lines.
pub open spec fn noted_lines(scan: ScanModel, lines: Seq<Seq<char>>, max: nat) -> ScanModel
    decreases lines.len(),
{
    if lines.len() == 0 {
        scan
    } else {
        noted_lines(scan, lines.drop_last(), max).noted_line(lines.last(), max)
    }
}

/// Once there is nothing more to find, later lines change nothing: a search can stop there.
pub proof fn a_complete_scan_is_final(scan: ScanModel, lines: Seq<Seq<char>>, max: nat)
    requires
        scan.complete(),
    ensures
        noted_lines(scan, lines, max) == scan,
    decreases lines.len(),
{
    if lines.len() > 0 {
        a_complete_scan_is_final(scan, lines.drop_last(), max);
        assert(scan.noted_line(lines.last(), max) =~= scan);
    }
}

/// The topic never exceeds its limit.
pub proof fn topics_keep_their_limit(scan: ScanModel, lines: Seq<Seq<char>>, max: nat)
    requires
        scan.topic.len() <= max,
    ensures
        noted_lines(scan, lines, max).topic.len() <= max,
    decreases lines.len(),
{
    if lines.len() > 0 {
        topics_keep_their_limit(scan, lines.drop_last(), max);
    }
}

/// A count of tokens.
pub enum TokenCount {
    Unsigned(u64),
    Signed(i64),
    Float(FloatNumber),
}

/// How a count of tokens is read: what is no number counts as 0.
pub open spec fn count_of(value: Option<TreeModel>) -> TokenCount {
    match value {
        Some(TreeModel::Unsigned(n)) => TokenCount::Unsigned(n),
        Some(TreeModel::Signed(n)) => TokenCount::Signed(n),
        Some(TreeModel::Float(number)) => TokenCount::Float(number),
        _ => TokenCount::Unsigned(0),
    }
}

/// A count of tokens by its name.
fn read_count(usage: &Tree, name: &str) -> (count: TokenCount)
    ensures
        count == count_of(usage@.get(name@)),
{
    match usage.get(name) {
        Some(Tree::Unsigned(n)) => TokenCount::Unsigned(*n),
        Some(Tree::Signed(n)) => if *n >= 0 {
            TokenCount::Unsigned(*n as u64)
        } else {
            TokenCount::Signed(*n)
        },
        Some(Tree::Float(number)) => TokenCount::Float(number.copy()),
        _ => TokenCount::Unsigned(0),
    }
}

/// The tokens of a reply. Their sum is the context in use.
pub struct UsageTokens {
    pub input: TokenCount,
    pub cache_read: TokenCount,
    pub cache_create: TokenCount,
    pub output: TokenCount,
}

/// The tokens that usage data names.
pub open spec fn tokens_of(usage: TreeModel) -> UsageTokens {
    UsageTokens {
        input: count_of(usage.get("input_tokens"@)),
        cache_read: count_of(usage.get("cache_read_input_tokens"@)),
        cache_create: count_of(usage.get("cache_creation_input_tokens"@)),
        output: count_of(usage.get("output_tokens"@)),
    }
}

/// The usage data of an entry, where it is a reply of the assistant.
pub open spec fn usage_of(entry: TreeModel) -> Option<TreeModel> {
    match entry.get("message"@) {
        Some(message) => if entry.text("type"@) == Some("assistant"@) {
            message.get("usage"@)
        } else {
            None
        },
        None => None,
    }
}

/// The tokens of an entry, where it is a reply of the assistant that names them.
pub fn entry_tokens(entry: &Tree) -> (tokens: Option<UsageTokens>)
    ensures
        match tokens {
            Some(t) => usage_of(entry@) is Some && t == tokens_of(usage_of(entry@)->0),
            None => usage_of(entry@) is None,
        },
{
    let reply = match entry.text("type") {
        Some(kind) => same_text(kind.as_str(), "assistant"),
        None => false,
    };
    if !reply {
        return None;
    }
    match entry.get("message") {
        Some(message) => match message.get("usage") {
            Some(usage) => Some(
                UsageTokens {
                    input: read_count(usage, "input_tokens"),
                    cache_read: read_count(usage, "cache_read_input_tokens"),
                    cache_create: read_count(usage, "cache_creation_input_tokens"),
                    output: read_count(usage, "output_tokens"),
                },
            ),
            None => None,
        },
        None => None,
    }
}

/// The usage data of the last line that has any.
pub open spec fn last_usage(lines: Seq<Seq<char>>) -> Option<TreeModel>
    decreases lines.len(),
{
    if lines.len() == 0 {
        None
    } else {
        match json_parsed(lines.last()) {
            Some(entry) => if usage_of(entry) is Some {
                usage_of(entry)
            } else {
                last_usage(lines.drop_last())
            },
            None => last_usage(lines.drop_last()),
        }
    }
}

/// The lines of a file's end; the first one is left out where it may be only a part of a line.
pub open spec fn whole_lines(tail: Seq<char>, cut: bool) -> Seq<Seq<char>> {
    if cut && lines_in(tail).len() > 0 {
        lines_in(tail).drop_first()
    } else {
        lines_in(tail)
    }
}

/// The tokens of the last reply in the end of a session file. `cut` says whether the end begins
/// inside the file.
pub fn last_tokens(tail: &[u8], cut: bool) -> (tokens: Option<UsageTokens>)
    ensures
        ({
            let usage = last_usage(whole_lines(lossy_text(tail@), cut));
            match tokens {
                Some(t) => usage is Some && t == tokens_of(usage->0),
                None => usage is None,
            }
        }),
{
    let text = text_from_utf8_lossy(tail);
    let lines = lines_of(text.as_str());
    let ghost texts = texts_of(lines@);
    let from: usize = if cut && lines.len() > 0 {
        1
    } else {
        0
    };
    let ghost whole = whole_lines(text@, cut);
    assert(whole =~= texts.skip(from as int));
    let mut i: usize = lines.len();
    assert(whole.take(i - from) =~= whole);
    while i > from
        invariant
            from <= i <= lines@.len(),
            texts == texts_of(lines@),
            whole == texts.skip(from as int),
            text@ == lossy_text(tail@),
            whole == whole_lines(text@, cut),
            last_usage(whole) == last_usage(whole.take(i - from)),
        decreases i,
    {
        i = i - 1;
        assert(whole.take(i - from + 1).drop_last() =~= whole.take(i - from));
        assert(whole.take(i - from + 1).last() == lines@[i as int]@);
        if let Some(entry) = parse_json(lines[i].as_str()) {
            if let Some(tokens) = entry_tokens(&entry) {
                return Some(tokens);
            }
        }
    }
    None
}

/// The end of a session file that is searched for usage.
pub open spec fn file_end(content: Seq<u8>) -> Seq<u8> {
    if content.len() > TAIL_BYTES {
        content.skip(content.len() - TAIL_BYTES)
    } else {
        content
    }
}

/// What a session file says about its session: its topic and branch, searched for from its
/// beginning, and the tokens of the last reply in its end.
pub fn extract_session_meta(content: &[u8], max_topic_chars: usize) -> (found: (
    TopicScan,
    Option<UsageTokens>,
))
    ensures
        found.0.limit() == max_topic_chars,
        found.0@ == noted_lines(
            ScanModel::nothing(),
            readable_lines(content@),
            max_topic_chars as nat,
        ),
        ({
            let end = lossy_text(file_end(content@));
            let usage = last_usage(whole_lines(end, content@.len() > TAIL_BYTES));
            match found.1 {
                Some(tokens) => usage is Some && tokens == tokens_of(usage->0),
                None => usage is None,
            }
        }),
{
    let ghost max = max_topic_chars as nat;
    let lines = readable_lines_of(content);
    let ghost texts = texts_of(lines@);
    let mut scan = TopicScan::new(max_topic_chars);
    let mut complete = false;
    let mut i: usize = 0;
    assert(texts.take(0) =~= Seq::empty());
    while i < lines.len() && !complete
        invariant
            i <= lines@.len(),
            texts == texts_of(lines@),
            max == max_topic_chars,
            scan.limit() == max,
            scan@ == noted_lines(ScanModel::nothing(), texts.take(i as int), max),
            complete ==> scan@.complete(),
        decreases lines@.len() - i,
    {
        assert(texts.take(i + 1).drop_last() =~= texts.take(i as int));
        complete = scan.note_line(lines[i].as_str());
        i = i + 1;
    }
    proof {
        if complete {
            the_rest_is_not_needed(texts, i as int, max);
        } else {
            assert(texts.take(i as int) =~= texts);
        }
    }
    let total: usize = content.len();
    let limit: usize = TAIL_BYTES as usize;
    let tokens = if total > limit {
        let end = vstd::slice::slice_subrange(content, total - limit, total);
        assert(end@ =~= file_end(content@));
        last_tokens(end, true)
    } else {
        last_tokens(content, false)
    };
    (scan, tokens)
}

/// A search that has found everything gives what a search of all lines gives.
proof fn the_rest_is_not_needed(lines: Seq<Seq<char>>, i: int, max: nat)
    requires
        0 <= i <= lines.len(),
        noted_lines(ScanModel::nothing(), lines.take(i), max).complete(),
    ensures
        noted_lines(ScanModel::nothing(), lines, max) == noted_lines(
            ScanModel::nothing(),
            lines.take(i),
            max,
        ),
    decreases lines.len() - i,
{
    if i < lines.len() {
        let scan = noted_lines(ScanModel::nothing(), lines.take(i), max);
        assert(lines.drop_last().take(i) =~= lines.take(i));
        the_rest_is_not_needed(lines.drop_last(), i, max);
        assert(scan.noted_line(lines.last(), max) =~= scan);
    } else {
        assert(lines.take(i) =~= lines);
    }
}

} // verus!
