//! What is read out of session files.

use vstd::prelude::*;

use super::jsonl::{
    block_text, count_of, file_end, first_text, last_usage, tokens_of, whole_lines, ScanModel,
    TokenCount,
};
use crate::data::{json_parsed, TreeModel};
use crate::text::{lines_in, trimmed};

verus! {

/// The first thing that the user asks is the topic: its text without white space around it, cut
/// to the limit. What is asked later does not change it.
pub proof fn the_first_question_is_the_topic(
    scan: ScanModel,
    entry: TreeModel,
    text: Seq<char>,
    max: nat,
)
    requires
        entry.text("type"@) == Some("user"@),
        entry.get("message"@) is Some,
        entry.get("message"@)->0.get("content"@) == Some(TreeModel::Text(text)),
        trimmed(text).len() > 0,
    ensures
        scan.noted(entry, max).topic_found,
        scan.topic_found ==> scan.noted(entry, max).topic == scan.topic,
        !scan.topic_found && trimmed(text).len() <= max ==> scan.noted(entry, max).topic == trimmed(
            text,
        ),
        !scan.topic_found && trimmed(text).len() > max ==> scan.noted(entry, max).topic == trimmed(
            text,
        ).take(max as int),
{
}

/// Where a question has several parts, its text is the first part that is a text and more than
/// white space.
pub proof fn the_first_text_of_a_question_counts(
    scan: ScanModel,
    entry: TreeModel,
    parts: Seq<TreeModel>,
    k: int,
    text: Seq<char>,
    max: nat,
)
    requires
        !scan.topic_found,
        entry.text("type"@) == Some("user"@),
        entry.get("message"@) is Some,
        entry.get("message"@)->0.get("content"@) == Some(TreeModel::List(parts)),
        0 <= k < parts.len(),
        parts[k].text("type"@) == Some("text"@),
        parts[k].text("text"@) == Some(text),
        0 < trimmed(text).len() <= max,
        forall|j: int|
            0 <= j < k ==> (#[trigger] parts[j]).text("type"@) != Some("text"@) || parts[j].text(
                "text"@,
            ) is None || trimmed(parts[j].text("text"@)->0).len() == 0,
    ensures
        scan.noted(entry, max).topic == trimmed(text),
        scan.noted(entry, max).topic_found,
{
    skipped_parts(parts, k);
}

proof fn skipped_parts(parts: Seq<TreeModel>, k: int)
    requires
        0 <= k < parts.len(),
        block_text(parts[k]) is Some,
        forall|j: int| 0 <= j < k ==> block_text(#[trigger] parts[j]) is None,
    ensures
        first_text(parts) == block_text(parts[k]),
    decreases k,
{
    if k > 0 {
        let rest = parts.drop_first();
        assert forall|j: int| 0 <= j < k - 1 implies block_text(#[trigger] rest[j]) is None by {
            assert(rest[j] == parts[j + 1]);
        }
        skipped_parts(rest, k - 1);
        assert(block_text(parts[0]) is None);
    }
}

/// Entries that are not the user's, and questions without text, give no topic.
pub proof fn other_entries_give_no_topic(scan: ScanModel, entry: TreeModel, max: nat)
    requires
        entry.text("type"@) != Some("user"@) || entry.get("message"@) is None
            || entry.get("message"@)->0.get("content"@) is None,
    ensures
        scan.noted(entry, max).topic == scan.topic,
        scan.noted(entry, max).topic_found == scan.topic_found,
{
}

/// The branch is the first one that an entry of any kind names and that is not empty.
pub proof fn the_first_branch_counts(scan: ScanModel, entry: TreeModel, max: nat)
    ensures
        scan.git_branch.len() > 0 ==> scan.noted(entry, max).git_branch == scan.git_branch,
        scan.git_branch.len() == 0 ==> (entry.text("gitBranch"@) matches Some(branch)
            ==> scan.noted(entry, max).git_branch == branch),
        entry.text("gitBranch"@) is None ==> scan.noted(entry, max).git_branch == scan.git_branch,
{
}

/// The usage that counts is that of the last reply which tells it: lines after it that are no
/// replies, tell no usage or cannot be read do not matter.
pub proof fn the_last_usage_counts(
    lines: Seq<Seq<char>>,
    line: Seq<char>,
    entry: TreeModel,
    usage: TreeModel,
)
    requires
        json_parsed(line) == Some(entry),
    ensures
        entry.text("type"@) == Some("assistant"@) && entry.get("message"@) is Some && entry.get(
            "message"@,
        )->0.get("usage"@) == Some(usage) ==> last_usage(lines.push(line)) == Some(usage),
        entry.text("type"@) != Some("assistant"@) || entry.get("message"@) is None || entry.get(
            "message"@,
        )->0.get("usage"@) is None ==> last_usage(lines.push(line)) == last_usage(lines),
        last_usage(Seq::empty()) is None,
{
    assert(lines.push(line).drop_last() =~= lines);
}

/// Lines that cannot be read do not matter.
pub proof fn unreadable_lines_tell_no_usage(lines: Seq<Seq<char>>, line: Seq<char>)
    requires
        json_parsed(line) is None,
    ensures
        last_usage(lines.push(line)) == last_usage(lines),
{
    assert(lines.push(line).drop_last() =~= lines);
}

/// The tokens of a reply are read under their names; a number that is missing counts as none.
pub proof fn tokens_are_read_by_name(usage: TreeModel, n: u64)
    ensures
        usage.get("input_tokens"@) == Some(TreeModel::Unsigned(n)) ==> tokens_of(usage).input
            == TokenCount::Unsigned(n),
        usage.get("output_tokens"@) == Some(TreeModel::Unsigned(n)) ==> tokens_of(usage).output
            == TokenCount::Unsigned(n),
        usage.get("cache_read_input_tokens"@) == Some(TreeModel::Unsigned(n)) ==> tokens_of(
            usage,
        ).cache_read == TokenCount::Unsigned(n),
        usage.get("cache_creation_input_tokens"@) == Some(TreeModel::Unsigned(n)) ==> tokens_of(
            usage,
        ).cache_create == TokenCount::Unsigned(n),
        usage.get("input_tokens"@) is None ==> tokens_of(usage).input == TokenCount::Unsigned(0),
        usage.get("output_tokens"@) is None ==> tokens_of(usage).output == TokenCount::Unsigned(0),
        usage.get("cache_read_input_tokens"@) is None ==> tokens_of(usage).cache_read
            == TokenCount::Unsigned(0),
        usage.get("cache_creation_input_tokens"@) is None ==> tokens_of(usage).cache_create
            == TokenCount::Unsigned(0),
        count_of(Some(TreeModel::Null)) == TokenCount::Unsigned(0),
{
}

/// Only the last 50 000 bytes of a file are searched for usage, and all of a shorter file. Where
/// they begin inside the file, the first line is left out, since its beginning may be missing.
pub proof fn ends_of_files_are_searched(content: Seq<u8>, tail: Seq<char>)
    ensures
        content.len() <= 50_000 ==> file_end(content) == content,
        content.len() > 50_000 ==> file_end(content).len() == 50_000 && file_end(content)
            == content.subrange(content.len() - 50_000, content.len() as int),
        whole_lines(tail, false) == lines_in(tail),
        lines_in(tail).len() > 0 ==> seq![lines_in(tail)[0]] + whole_lines(tail, true) == lines_in(
            tail,
        ),
{
    if content.len() > 50_000 {
        assert(content.skip(content.len() - 50_000) =~= content.subrange(
            content.len() - 50_000,
            content.len() as int,
        ));
    }
    if lines_in(tail).len() > 0 {
        assert(seq![lines_in(tail)[0]] + lines_in(tail).drop_first() =~= lines_in(tail));
    }
}

} // verus!
