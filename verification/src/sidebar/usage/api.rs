use vstd::prelude::*;

use crate::data::{json_parsed, parse_json, FloatNumber, Tree, TreeModel};
use crate::error::{CockpitError, Result};
use crate::text::{copy_of, joined, text_from_utf8};

verus! {

pub const USAGE_ENDPOINT: &'static str = "https://api.anthropic.com/api/oauth/usage";

pub const REFRESH_ENDPOINT: &'static str = "https://api.anthropic.com/v1/oauth/token";

pub const CLIENT_ID: &'static str = "9d1c250a-e61b-44d9-88ed-5944d1962f5e";

pub const BETA_HEADER: &'static str = "oauth-2025-04-20";

/// The name under which requests are sent.
pub fn user_agent(tool: &str) -> (agent: String)
    ensures
        agent@ == tool@ + "-code/2.0.32"@,
{
    joined(tool, "-code/2.0.32")
}

/// A point in time: seconds since the epoch and nanoseconds.
#[derive(Debug, Clone, Copy, PartialEq, Eq, Structural)]
pub struct Timestamp {
    pub secs: i64,
    pub nanos: u32,
}

/// What `chrono::DateTime::parse_from_rfc3339` makes of a text: seconds since the epoch and
/// nanoseconds.
pub uninterp spec fn rfc3339_parsed(text: Seq<char>) -> Option<(i64, u32)>;

/// `chrono::DateTime::parse_from_rfc3339`, and the result's `timestamp` and
/// `timestamp_subsec_nanos`: depends on the text alone.
#[verifier::external_body]
fn parse_rfc3339(text: &str) -> (time: Option<(i64, u32)>)
    ensures
        time == rfc3339_parsed(text@),
{
    let time = chrono::DateTime::parse_from_rfc3339(text).ok()?;
    Some((time.timestamp(), time.timestamp_subsec_nanos()))
}

/// How much of a limit is used.
pub enum Utilization {
    /// In whole percent.
    Percent(u32),
    /// A number that is still to be rounded to whole percent.
    Unrounded(FloatNumber),
}

/// Usage of an account.
#[derive(Debug, Clone, Copy, PartialEq, Eq, Structural)]
pub struct UsageData {
    pub utilization: u32,
    pub resets_at: Option<Timestamp>,
    pub weekly_utilization: Option<u32>,
    pub weekly_resets_at: Option<Timestamp>,
}

/// What a reply says about usage.
pub struct UsageReading {
    pub utilization: Utilization,
    pub resets_at: Option<Timestamp>,
    /// Usage of the week and when it is reset, where the reply says it.
    pub weekly: Option<(Utilization, Option<Timestamp>)>,
}

/// How a utilization value is read: integers are cut to 32 bits, and what is no number counts as 0.
pub open spec fn utilization_of(value: Option<TreeModel>) -> Utilization {
    match value {
        Some(TreeModel::Unsigned(n)) => Utilization::Percent(
            if n <= u32::MAX {
                n as u32
            } else {
                u32::MAX
            },
        ),
        Some(TreeModel::Float(number)) => Utilization::Unrounded(number),
        _ => Utilization::Percent(0),
    }
}

/// The utilization of a bucket.
pub fn parse_utilization(bucket: &Tree) -> (used: Utilization)
    ensures
        used == utilization_of(bucket@.get("utilization"@)),
{
    match bucket.get("utilization") {
        Some(Tree::Unsigned(n)) => Utilization::Percent(cut_to_u32(*n)),
        Some(Tree::Signed(n)) => if *n >= 0 {
            Utilization::Percent(cut_to_u32(*n as u64))
        } else {
            Utilization::Percent(0)
        },
        Some(Tree::Float(number)) => Utilization::Unrounded(number.copy()),
        _ => Utilization::Percent(0),
    }
}

fn cut_to_u32(n: u64) -> (cut: u32)
    ensures
        cut == (if n <= u32::MAX {
            n as u32
        } else {
            u32::MAX
        }),
{
    if n <= u32::MAX as u64 {
        n as u32
    } else {
        u32::MAX
    }
}

/// When a bucket is reset, as its text says it.
pub open spec fn reset_of(bucket: TreeModel) -> Option<Timestamp> {
    match bucket.text("resets_at"@) {
        Some(text) => match rfc3339_parsed(text) {
            Some((secs, nanos)) => Some(Timestamp { secs, nanos }),
            None => None,
        },
        None => None,
    }
}

/// When a bucket is reset.
pub fn parse_resets_at(bucket: &Tree) -> (time: Option<Timestamp>)
    ensures
        time == reset_of(bucket@),
{
    match bucket.text("resets_at") {
        Some(text) => match parse_rfc3339(text.as_str()) {
            Some((secs, nanos)) => Some(Timestamp { secs, nanos }),
            None => None,
        },
        None => None,
    }
}

/// Read a usage reply.
pub fn read_usage(body: &Tree) -> (reading: Result<UsageReading>)
    ensures
        match body@.get("five_hour"@) {
            Some(five_hour) => reading matches Ok(r) && {
                &&& r.utilization == utilization_of(five_hour.get("utilization"@))
                &&& r.resets_at == reset_of(five_hour)
                &&& r.weekly == (match body@.get("seven_day"@) {
                    Some(TreeModel::Null) => None::<(Utilization, Option<Timestamp>)>,
                    Some(week) => Some((utilization_of(week.get("utilization"@)), reset_of(week))),
                    None => None,
                })
            },
            None => reading matches Err(CockpitError::Sidebar(m)) && m@
                == "missing five_hour in usage response"@,
        },
{
    let five_hour = match body.get("five_hour") {
        Some(five_hour) => five_hour,
        None => {
            return Err(CockpitError::Sidebar(copy_of("missing five_hour in usage response")));
        },
    };
    let weekly = match body.get("seven_day") {
        Some(Tree::Null) => None,
        Some(week) => Some((parse_utilization(week), parse_resets_at(week))),
        None => None,
    };
    Ok(
        UsageReading {
            utilization: parse_utilization(five_hour),
            resets_at: parse_resets_at(five_hour),
            weekly,
        },
    )
}

/// The whole percent of a utilization, given what its number rounds to where it needs rounding.
pub open spec fn settled(used: Utilization, rounded: u32) -> u32 {
    match used {
        Utilization::Percent(percent) => percent,
        Utilization::Unrounded(_) => rounded,
    }
}

fn settle(used: &Utilization, rounded: u32) -> (percent: u32)
    ensures
        percent == settled(*used, rounded),
{
    match used {
        Utilization::Percent(percent) => *percent,
        Utilization::Unrounded(_) => rounded,
    }
}

impl UsageReading {
    /// The usage data, given what the numbers round to where they need rounding.
    pub fn usage_data(&self, rounded: u32, weekly_rounded: u32) -> (data: UsageData)
        ensures
            data == (UsageData {
                utilization: settled(self.utilization, rounded),
                resets_at: self.resets_at,
                weekly_utilization: match self.weekly {
                    Some((used, _)) => Some(settled(used, weekly_rounded)),
                    None => None,
                },
                weekly_resets_at: match self.weekly {
                    Some((_, time)) => time,
                    None => None,
                },
            }),
    {
        UsageData {
            utilization: settle(&self.utilization, rounded),
            resets_at: self.resets_at,
            weekly_utilization: match &self.weekly {
                Some((used, _)) => Some(settle(used, weekly_rounded)),
                None => None,
            },
            weekly_resets_at: match &self.weekly {
                Some((_, time)) => *time,
                None => None,
            },
        }
    }
}

/// The data of a reply's body.
pub open spec fn body_data(body: Seq<u8>) -> Option<TreeModel> {
    if vstd::utf8::valid_utf8(body) {
        json_parsed(vstd::utf8::decode_utf8(body))
    } else {
        None
    }
}

/// Decode a reply's body.
pub fn decode_body(body: &[u8], purpose: &str) -> (data: Result<Tree>)
    ensures
        match data {
            Ok(tree) => body_data(body@) == Some(tree@),
            Err(e) => {
                &&& body_data(body@) is None
                &&& e matches CockpitError::Sidebar(m) && m@ == purpose@
                    + " parse: error decoding response body"@
            },
        },
{
    if let Some(text) = text_from_utf8(body) {
        if let Some(tree) = parse_json(text.as_str()) {
            return Ok(tree);
        }
    }
    Err(CockpitError::Sidebar(joined(purpose, " parse: error decoding response body")))
}

/// The error for a usage request that was refused.
pub fn usage_refused(status: &str) -> (e: CockpitError)
    ensures
        e matches CockpitError::Sidebar(m) && m@ == "usage API returned "@ + status@,
{
    CockpitError::Sidebar(joined("usage API returned ", status))
}

/// The error for a token refresh that was refused.
pub fn refresh_refused(status: &str) -> (e: CockpitError)
    ensures
        e matches CockpitError::Sidebar(m) && m@ == "token refresh returned "@ + status@,
{
    CockpitError::Sidebar(joined("token refresh returned ", status))
}

/// A new token for an account.
#[derive(Debug)]
pub struct RefreshedToken {
    pub access_token: String,
    pub refresh_token: Option<String>,
    pub expires_at: i64,
}

/// The lifetime of a token in seconds, where a reply does not say it.
pub const DEFAULT_EXPIRES_IN: i64 = 28800;

/// Read the reply to a token refresh at the given time, in milliseconds since the epoch.
pub fn read_refresh(body: &Tree, now_ms: i64) -> (token: Result<RefreshedToken>)
    ensures
        match body@.text("access_token"@) {
            Some(access) => token matches Ok(t) && {
                &&& t.access_token@ == access
                &&& match body@.text("refresh_token"@) {
                    Some(refresh) => t.refresh_token matches Some(r) && r@ == refresh,
                    None => t.refresh_token is None,
                }
                &&& t.expires_at == now_ms.wrapping_add(
                    (match body@.integer("expires_in"@) {
                        Some(secs) => secs,
                        None => DEFAULT_EXPIRES_IN,
                    }).wrapping_mul(1000),
                )
            },
            None => token matches Err(CockpitError::Sidebar(m)) && m@
                == "no access_token in refresh response"@,
        },
{
    let access_token = match body.text("access_token") {
        Some(access) => access.clone(),
        None => {
            return Err(CockpitError::Sidebar(copy_of("no access_token in refresh response")));
        },
    };
    let refresh_token = match body.text("refresh_token") {
        Some(refresh) => Some(refresh.clone()),
        None => None,
    };
    let expires_in: i64 = match body.integer("expires_in") {
        Some(secs) => secs,
        None => DEFAULT_EXPIRES_IN,
    };
    let expires_at: i64 = now_ms.wrapping_add(expires_in.wrapping_mul(1000));
    Ok(RefreshedToken { access_token, refresh_token, expires_at })
}

} // verus!
