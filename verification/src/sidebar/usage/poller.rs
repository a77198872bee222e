use vstd::prelude::*;

use super::api::UsageData;
use super::config::{AccountConfig, TrackerConfig, MIN_POLL_SECS};
use crate::error::CockpitError;
use crate::text::{contains_text, joined, joined3, occurs_in};

verus! {

/// What the poller reports.
pub enum UsageUpdate {
    Data { account_name: String, data: UsageData },
    Error(String),
}

/// A report, as mathematical values.
pub enum UpdateModel {
    Data { account_name: Seq<char>, data: UsageData },
    Error(Seq<char>),
}

impl View for UsageUpdate {
    type V = UpdateModel;

    open spec fn view(&self) -> UpdateModel {
        match *self {
            UsageUpdate::Data { account_name, data } => UpdateModel::Data {
                account_name: account_name@,
                data,
            },
            UsageUpdate::Error(message) => UpdateModel::Error(message@),
        }
    }
}

/// The longer of the interval asked for and the configured one, which is at least the minimum.
/// Intervals are in nanoseconds.
pub fn effective_interval(poll_interval: u128, config: &TrackerConfig) -> (nanos: u128)
    ensures
        ({
            let secs = if config.poll_interval_secs < MIN_POLL_SECS {
                MIN_POLL_SECS
            } else {
                config.poll_interval_secs
            };
            nanos == (if poll_interval > secs * 1_000_000_000 {
                poll_interval as int
            } else {
                secs * 1_000_000_000
            })
        }),
        nanos >= poll_interval,
        nanos >= 30 * 1_000_000_000,
        nanos >= config.poll_interval_secs * 1_000_000_000,
        nanos == poll_interval || nanos == config.poll_interval_secs * 1_000_000_000 || nanos == 30
            * 1_000_000_000,
{
    let secs: u64 = if config.poll_interval_secs < MIN_POLL_SECS {
        MIN_POLL_SECS
    } else {
        config.poll_interval_secs
    };
    let configured: u128 = secs as u128 * 1_000_000_000;
    if poll_interval > configured {
        poll_interval
    } else {
        configured
    }
}

/// What is done about an account when it is its turn.
#[derive(Debug, Clone, Copy, PartialEq, Eq, Structural)]
pub enum AccountTurn {
    Fetch,
    /// Fetch after a pause of 100 ms, so that accounts do not all ask at once.
    PauseAndFetch,
}

/// What is done about the account at a position, whatever its way of authentication: each one
/// takes part, and all but the first one of the list wait.
pub fn turn_for(position: usize) -> (turn: AccountTurn)
    ensures
        turn == (if position > 0 {
            AccountTurn::PauseAndFetch
        } else {
            AccountTurn::Fetch
        }),
{
    if position > 0 {
        AccountTurn::PauseAndFetch
    } else {
        AccountTurn::Fetch
    }
}

/// Whether an error message speaks of a refused authorisation.
pub open spec fn auth_refused(message: Seq<char>) -> bool {
    occurs_in("401"@, message) || occurs_in("403"@, message)
}

/// What is done after a fetch.
pub enum FetchStep {
    Report(UsageUpdate),
    /// Get a new token with the refresh token, and fetch again.
    Refresh,
}

/// What is done after a fetch, as mathematical values.
pub enum StepModel {
    Report(UpdateModel),
    Refresh,
}

impl View for FetchStep {
    type V = StepModel;

    open spec fn view(&self) -> StepModel {
        match *self {
            FetchStep::Report(update) => StepModel::Report(update@),
            FetchStep::Refresh => StepModel::Refresh,
        }
    }
}

/// What is done after a fetch: data is reported; where the authorisation was refused and there is
/// a refresh token, it is used; any other failure is reported under the account's name.
pub open spec fn step_after(
    name: Seq<char>,
    fetched: Result<UsageData, CockpitError>,
    has_refresh_token: bool,
) -> StepModel {
    match fetched {
        Ok(data) => StepModel::Report(UpdateModel::Data { account_name: name, data }),
        Err(e) => if auth_refused(e.text()) && has_refresh_token {
            StepModel::Refresh
        } else {
            StepModel::Report(UpdateModel::Error(name + ": "@ + e.text()))
        },
    }
}

/// What is reported after a refresh and a second fetch.
pub open spec fn refreshed_update(
    name: Seq<char>,
    fetched: Result<UsageData, CockpitError>,
) -> UpdateModel {
    match fetched {
        Ok(data) => UpdateModel::Data { account_name: name, data },
        Err(e) => UpdateModel::Error(name + ": refresh failed: "@ + e.text()),
    }
}

/// What is done after a fetch: data is reported; where the authorisation was refused and there is
/// a refresh token, it is used; any other failure is reported under the account's name.
pub fn after_fetch(
    account_name: &String,
    fetched: Result<UsageData, CockpitError>,
    has_refresh_token: bool,
) -> (step: FetchStep)
    ensures
        step@ == step_after(account_name@, fetched, has_refresh_token),
{
    match fetched {
        Ok(data) => FetchStep::Report(
            UsageUpdate::Data { account_name: account_name.clone(), data },
        ),
        Err(e) => {
            let message = e.message();
            let refused = contains_text(message.as_str(), "401") || contains_text(
                message.as_str(),
                "403",
            );
            if refused && has_refresh_token {
                FetchStep::Refresh
            } else {
                FetchStep::Report(
                    UsageUpdate::Error(joined3(account_name.as_str(), ": ", message.as_str())),
                )
            }
        },
    }
}

/// What is reported after a refresh and a second fetch.
pub fn after_refresh(account_name: &String, fetched: Result<UsageData, CockpitError>) -> (update:
    UsageUpdate)
    ensures
        update@ == refreshed_update(account_name@, fetched),
{
    match fetched {
        Ok(data) => UsageUpdate::Data { account_name: account_name.clone(), data },
        Err(e) => UsageUpdate::Error(
            joined3(account_name.as_str(), ": refresh failed: ", e.message().as_str()),
        ),
    }
}

/// What is reported where an account's token could not be loaded.
pub fn load_failed(account_name: &String, e: &CockpitError) -> (update: UsageUpdate)
    ensures
        update@ == UpdateModel::Error(account_name@ + ": "@ + e.text()),
{
    UsageUpdate::Error(joined3(account_name.as_str(), ": ", e.message().as_str()))
}

/// What is reported where the loading of an account's token broke off.
pub fn load_lost(reason: &str) -> (update: UsageUpdate)
    ensures
        update@ == UpdateModel::Error("join: "@ + reason@),
{
    UsageUpdate::Error(joined("join: ", reason))
}

/// How the turn of an account went.
pub enum Attempt {
    /// The loading of its token broke off.
    Lost(Seq<char>),
    /// Its token could not be loaded.
    Unloaded(CockpitError),
    /// Its usage was asked for, and a second time where the token had to be refreshed.
    Asked {
        first: Result<UsageData, CockpitError>,
        has_refresh_token: bool,
        second: Result<UsageData, CockpitError>,
    },
}

impl Attempt {
    /// What is reported of the attempt.
    pub open spec fn answer(self, name: Seq<char>) -> UpdateModel {
        match self {
            Attempt::Lost(reason) => UpdateModel::Error("join: "@ + reason),
            Attempt::Unloaded(e) => UpdateModel::Error(name + ": "@ + e.text()),
            Attempt::Asked { first, has_refresh_token, second } => match step_after(
                name,
                first,
                has_refresh_token,
            ) {
                StepModel::Report(update) => update,
                StepModel::Refresh => refreshed_update(name, second),
            },
        }
    }

    /// The usage that was fetched, at once or after a refresh.
    pub open spec fn usage(self) -> Option<UsageData> {
        match self {
            Attempt::Asked { first: Ok(data), has_refresh_token, second } => Some(data),
            Attempt::Asked { first: Err(e), has_refresh_token: true, second: Ok(data) } =>
            if auth_refused(e.text()) {
                Some(data)
            } else {
                None
            },
            _ => None,
        }
    }
}

/// What is reported in a round: the answers of the accounts, in their order.
pub open spec fn round(accounts: Seq<AccountConfig>, attempts: Seq<Attempt>) -> Seq<UpdateModel> {
    Seq::new(accounts.len(), |i: int| attempts[i].answer(accounts[i].name@))
}

/// In a round each account gets one answer, whatever its way of authentication: its usage under
/// its name where that was fetched, an error otherwise. How the turn of another account went makes
/// no difference.
pub proof fn each_account_is_answered(
    accounts: Seq<AccountConfig>,
    attempts: Seq<Attempt>,
    i: int,
    other: int,
    otherwise: Attempt,
)
    requires
        accounts.len() == attempts.len(),
        0 <= i < accounts.len(),
    ensures
        round(accounts, attempts).len() == accounts.len(),
        match attempts[i].usage() {
            Some(data) => round(accounts, attempts)[i] == (UpdateModel::Data {
                account_name: accounts[i].name@,
                data,
            }),
            None => round(accounts, attempts)[i] is Error,
        },
        0 <= other < accounts.len() && other != i ==> round(
            accounts,
            attempts.update(other, otherwise),
        )[i] == round(accounts, attempts)[i],
{
}

/// What is reported where the configuration could not be loaded.
pub fn config_failed(e: &CockpitError) -> (update: UsageUpdate)
    ensures
        update@ == UpdateModel::Error("config: "@ + e.text()),
{
    UsageUpdate::Error(joined("config: ", e.message().as_str()))
}

} // verus!
