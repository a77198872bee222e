//! What is read out of configurations, credentials and replies.

use vstd::prelude::*;

use super::api::{reset_of, rfc3339_parsed, settled, utilization_of, Timestamp, UsageData};
use super::config::{
    account_of, accounts_of, active_account, configured_accounts, poll_secs, tracker_name,
    AccountModel, AuthMethod,
};
use super::credentials::{
    access_token_of, refresh_token_of, stored_access_token, stored_refresh_token,
};
use super::poller::{auth_refused, refreshed_update, step_after, Attempt, StepModel, UpdateModel};
use crate::data::{json_parsed, TreeModel};
use crate::error::CockpitError;
use crate::text::{occurs_at, occurs_in};

verus! {

/// Usage is asked for as often as the settings say, but at most every 30 seconds; every three
/// minutes where they do not say.
pub proof fn polls_keep_their_distance(config: TreeModel, settings: TreeModel, secs: i64)
    requires
        config.get("settings"@) == Some(settings),
    ensures
        settings.integer("poll_interval_secs"@) == Some(secs) && secs >= 30 ==> poll_secs(config)
            == secs,
        settings.integer("poll_interval_secs"@) == Some(secs) && secs < 30 ==> poll_secs(config)
            == 30,
        settings.integer("poll_interval_secs"@) is None ==> poll_secs(config) == 3 * 60,
        0 <= secs <= 0xffff_ffff && settings.integer("active_account"@) == Some(secs)
            ==> active_account(config) == secs,
        settings.integer("active_account"@) is None ==> active_account(config) == 0,
{
}

/// An account is listed where it has a name and an organisation; it uses OAuth where it says so,
/// and a session key otherwise.
pub proof fn accounts_have_name_and_organisation(entry: TreeModel)
    ensures
        account_of(entry) is Some <==> entry.text("name"@) is Some && entry.text("org_id"@) is Some,
        account_of(entry) matches Some(account) ==> {
            &&& account.name == entry.text("name"@)->0
            &&& account.org_id == entry.text("org_id"@)->0
            &&& account.auth_method == AuthMethod::OAuth <==> entry.text("auth_method"@) == Some(
                "oauth"@,
            )
        },
{
}

/// The accounts are listed in the order of the configuration, without the entries that are none.
pub proof fn accounts_keep_their_order(entries: Seq<TreeModel>, entry: TreeModel)
    ensures
        accounts_of(Seq::empty()) == Seq::<AccountModel>::empty(),
        account_of(entry) is Some ==> accounts_of(entries.push(entry)) == accounts_of(entries).push(
            account_of(entry)->0,
        ),
        account_of(entry) is None ==> accounts_of(entries.push(entry)) == accounts_of(entries),
{
    assert(entries.push(entry).drop_last() =~= entries);
}

/// The accounts are those under their name in the configuration.
pub proof fn accounts_are_found(config: TreeModel, entries: Seq<TreeModel>)
    ensures
        config.get("accounts"@) == Some(TreeModel::List(entries)) ==> configured_accounts(config)
            == accounts_of(entries),
        config.get("accounts"@) is None ==> configured_accounts(config).len() == 0,
{
}

/// A tool's tracker is named after the tool.
pub proof fn trackers_are_named_after_their_tool(tool: Seq<char>)
    ensures
        tracker_name(tool) == tool + seq!['-', 't', 'r', 'a', 'c', 'k', 'e', 'r'],
{
    reveal_strlit("-tracker");
    assert("-tracker"@ =~= seq!['-', 't', 'r', 'a', 'c', 'k', 'e', 'r']);
}

/// A whole percentage is taken as it is, as far as 32 bits hold it; a number that is missing or
/// negative counts as none; one with a fraction is rounded.
pub proof fn whole_percentages_are_taken(n: u64, m: i64, rounded: u32)
    ensures
        n <= 0xffff_ffff ==> settled(utilization_of(Some(TreeModel::Unsigned(n))), rounded) == n,
        n > 0xffff_ffff ==> settled(utilization_of(Some(TreeModel::Unsigned(n))), rounded)
            == 0xffff_ffff,
        settled(utilization_of(Some(TreeModel::Signed(m))), rounded) == 0,
        settled(utilization_of(None), rounded) == 0,
        forall|number: crate::data::FloatNumber|
            settled(#[trigger] utilization_of(Some(TreeModel::Float(number))), rounded) == rounded,
{
}

/// A bucket is reset at the time that its text gives.
pub proof fn resets_are_read(bucket: TreeModel, text: Seq<char>)
    requires
        bucket.text("resets_at"@) == Some(text),
    ensures
        rfc3339_parsed(text) is None <==> reset_of(bucket) is None,
        rfc3339_parsed(text) matches Some(time) ==> reset_of(bucket) == Some(
            Timestamp { secs: time.0, nanos: time.1 },
        ),
{
}

/// Tokens are read in either spelling, at the top of the credentials or in their section; a text
/// that is not data is the access token itself and holds no refresh token.
pub proof fn tokens_are_found(raw: Seq<char>, data: TreeModel, section: TreeModel, token: Seq<char>)
    ensures
        raw.len() == 0 || raw[0] != '{' ==> stored_access_token(raw) == raw
            && stored_refresh_token(raw) is None,
        json_parsed(raw) is None ==> stored_access_token(raw) == raw && stored_refresh_token(
            raw,
        ) is None,
        raw.len() > 0 && raw[0] == '{' && json_parsed(raw) == Some(data) && access_token_of(data)
            == Some(token) ==> stored_access_token(raw) == token,
        raw.len() > 0 && raw[0] == '{' && json_parsed(raw) == Some(data) && access_token_of(
            data,
        ) is None ==> stored_access_token(raw) == raw,
        raw.len() > 0 && raw[0] == '{' && json_parsed(raw) == Some(data) ==> stored_refresh_token(
            raw,
        ) == refresh_token_of(data),
        data.get("claudeAiOauth"@) is None && data.text("accessToken"@) == Some(token)
            ==> access_token_of(data) == Some(token),
        data.get("claudeAiOauth"@) is None && data.get("accessToken"@) is None && data.text(
            "access_token"@,
        ) == Some(token) ==> access_token_of(data) == Some(token),
        data.get("claudeAiOauth"@) == Some(section) && section.text("accessToken"@) == Some(token)
            ==> access_token_of(data) == Some(token),
        data.get("claudeAiOauth"@) is None && data.text("refreshToken"@) == Some(token)
            ==> refresh_token_of(data) == Some(token),
        data.get("claudeAiOauth"@) is None && data.get("refreshToken"@) is None && data.text(
            "refresh_token"@,
        ) == Some(token) ==> refresh_token_of(data) == Some(token),
        data.get("claudeAiOauth"@) == Some(section) && section.text("refreshToken"@) == Some(token)
            ==> refresh_token_of(data) == Some(token),
{
}

/// A reply that says 401 or 403 anywhere is a refusal of the token.
pub proof fn refusals_are_told_by_their_number(before: Seq<char>, after: Seq<char>)
    ensures
        auth_refused(before + seq!['4', '0', '1'] + after),
        auth_refused(before + seq!['4', '0', '3'] + after),
        !auth_refused(seq!['4', '2', '9']),
        !auth_refused(Seq::empty()),
{
    reveal_strlit("401");
    reveal_strlit("403");
    assert("401"@ =~= seq!['4', '0', '1']);
    assert("403"@ =~= seq!['4', '0', '3']);
    let at = before.len() as int;
    let first = before + "401"@ + after;
    assert(first.subrange(at, at + 3) =~= "401"@);
    assert(occurs_at("401"@, first, at));
    let second = before + "403"@ + after;
    assert(second.subrange(at, at + 3) =~= "403"@);
    assert(occurs_at("403"@, second, at));
    let busy = seq!['4', '2', '9'];
    assert(busy[1] == '2' && "401"@[1] == '0' && "403"@[1] == '0');
    assert forall|i: int| !occurs_at("401"@, busy, i) && !occurs_at("403"@, busy, i) by {
        if 0 <= i && i + 3 <= 3 {
            assert(busy.subrange(i, i + 3)[1] == '2');
        }
    }
}

/// Usage that was got is reported under the account's name. Where the token was refused and there
/// is a refresh token, the token is refreshed; what then comes is reported in its place. Any other
/// failure is reported with the account's name before it.
pub proof fn answers_follow_the_outcome(
    name: Seq<char>,
    data: UsageData,
    e: CockpitError,
    other: CockpitError,
    has_refresh_token: bool,
)
    ensures
        step_after(name, Ok(data), has_refresh_token) == StepModel::Report(
            UpdateModel::Data { account_name: name, data },
        ),
        step_after(name, Err(e), has_refresh_token) == StepModel::Refresh <==> has_refresh_token && (
        occurs_in("401"@, e.text()) || occurs_in("403"@, e.text())),
        step_after(name, Err(e), false) == StepModel::Report(
            UpdateModel::Error(name + seq![':', ' '] + e.text()),
        ),
        refreshed_update(name, Ok(data)) == (UpdateModel::Data { account_name: name, data }),
        occurs_in("401"@, e.text()) ==> (Attempt::Asked {
            first: Err(e),
            has_refresh_token: true,
            second: Ok(data),
        }).answer(name) == (UpdateModel::Data { account_name: name, data }),
        (Attempt::Unloaded(other)).answer(name) == UpdateModel::Error(
            name + seq![':', ' '] + other.text(),
        ),
{
    reveal_strlit(": ");
    assert(": "@ =~= seq![':', ' ']);
}

} // verus!
