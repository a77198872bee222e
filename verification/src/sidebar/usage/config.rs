use vstd::prelude::*;

use crate::data::{list_items, list_of, parse_toml, toml_parsed, Tree, TreeModel};
use crate::error::{CockpitError, Result};
use crate::text::{joined, joined3, same_text};

verus! {

/// How requests for an account are authorised.
#[derive(Debug, Clone, Copy, PartialEq, Eq, Structural)]
pub enum AuthMethod {
    OAuth,
    SessionKey,
}

#[derive(Debug)]
pub struct AccountConfig {
    pub name: String,
    pub org_id: String,
    pub auth_method: AuthMethod,
}

/// An account, as mathematical values.
pub struct AccountModel {
    pub name: Seq<char>,
    pub org_id: Seq<char>,
    pub auth_method: AuthMethod,
}

impl View for AccountConfig {
    type V = AccountModel;

    open spec fn view(&self) -> AccountModel {
        AccountModel {
            name: self.name@,
            org_id: self.org_id@,
            auth_method: self.auth_method,
        }
    }
}

/// The tracker's configuration.
#[derive(Debug)]
pub struct TrackerConfig {
    pub poll_interval_secs: u64,
    pub accounts: Vec<AccountConfig>,
    pub active_account: usize,
}

/// The shortest interval between polls, in seconds.
pub const MIN_POLL_SECS: u64 = 30;

/// The interval between polls where none is configured, in seconds.
pub const DEFAULT_POLL_SECS: u64 = 180;

/// An integer of the settings.
pub open spec fn setting(config: TreeModel, name: Seq<char>) -> Option<i64> {
    match config.get("settings"@) {
        Some(settings) => settings.integer(name),
        None => None,
    }
}

/// The interval between polls that a configuration asks for.
pub open spec fn poll_secs(config: TreeModel) -> u64 {
    match setting(config, "poll_interval_secs"@) {
        Some(secs) => if secs < MIN_POLL_SECS {
            MIN_POLL_SECS
        } else {
            secs as u64
        },
        None => DEFAULT_POLL_SECS,
    }
}

/// The active account that a configuration asks for.
pub open spec fn active_account(config: TreeModel) -> usize {
    match setting(config, "active_account"@) {
        Some(n) => n as usize,
        None => 0,
    }
}

/// The account that an entry describes; none where it has no name or no organisation.
pub open spec fn account_of(entry: TreeModel) -> Option<AccountModel> {
    match (entry.text("name"@), entry.text("org_id"@)) {
        (Some(name), Some(org_id)) => Some(
            AccountModel {
                name,
                org_id,
                auth_method: if entry.text("auth_method"@) == Some("oauth"@) {
                    AuthMethod::OAuth
                } else {
                    AuthMethod::SessionKey
                },
            },
        ),
        _ => None,
    }
}

/// The accounts that entries describe, in order.
pub open spec fn accounts_of(entries: Seq<TreeModel>) -> Seq<AccountModel>
    decreases entries.len(),
{
    if entries.len() == 0 {
        Seq::empty()
    } else {
        let rest = accounts_of(entries.drop_last());
        match account_of(entries.last()) {
            Some(account) => rest.push(account),
            None => rest,
        }
    }
}

/// The accounts of a configuration.
pub open spec fn configured_accounts(config: TreeModel) -> Seq<AccountModel> {
    match config.get("accounts"@) {
        Some(TreeModel::List(entries)) => accounts_of(entries),
        _ => Seq::empty(),
    }
}

/// Accounts as mathematical values.
pub open spec fn account_values(accounts: Seq<AccountConfig>) -> Seq<AccountModel> {
    Seq::new(accounts.len(), |i: int| accounts[i]@)
}

/// The name under which a tool's tracker keeps its configuration and its tokens.
pub open spec fn tracker_name(tool: Seq<char>) -> Seq<char> {
    tool + "-tracker"@
}

/// The name under which a tool's tracker keeps its configuration and its tokens.
pub fn tracker_of(tool: &str) -> (name: String)
    ensures
        name@ == tracker_name(tool@),
{
    joined(tool, "-tracker")
}

impl TrackerConfig {
    /// Whether the configuration is what the given data says.
    pub open spec fn describes(&self, config: TreeModel) -> bool {
        &&& self.poll_interval_secs == poll_secs(config)
        &&& self.active_account == active_account(config)
        &&& account_values(self.accounts@) == configured_accounts(config)
    }

    /// The configuration that data describes.
    pub fn from_data(config: &Tree) -> (tracker: TrackerConfig)
        ensures
            tracker.describes(config@),
    {
        let settings = config.get("settings");
        let poll_interval_secs: u64 = match settings {
            Some(s) => match s.integer("poll_interval_secs") {
                Some(secs) => if secs < 30 {
                    MIN_POLL_SECS
                } else {
                    secs as u64
                },
                None => DEFAULT_POLL_SECS,
            },
            None => DEFAULT_POLL_SECS,
        };
        let active_account: usize = match settings {
            Some(s) => match s.integer("active_account") {
                Some(n) => n as usize,
                None => 0,
            },
            None => 0,
        };
        let mut accounts: Vec<AccountConfig> = Vec::new();
        match config.get("accounts") {
            Some(Tree::List(entries)) => {
                accounts = read_accounts(entries);
            },
            _ => {
                assert(account_values(accounts@) =~= Seq::empty());
            },
        }
        TrackerConfig { poll_interval_secs, accounts, active_account }
    }

    /// The configuration that a TOML text describes.
    pub fn from_text(content: &str, tool: &str) -> (tracker: Result<TrackerConfig>)
        ensures
            match toml_parsed(content@) {
                Ok(config) => tracker matches Ok(t) && t.describes(config),
                Err(complaint) => tracker matches Err(CockpitError::Config(m)) && m@ == "invalid "@
                    + tracker_name(tool@) + " TOML: "@ + complaint,
            },
    {
        match parse_toml(content) {
            Ok(config) => Ok(TrackerConfig::from_data(&config)),
            Err(complaint) => {
                let what = joined3("invalid ", tracker_of(tool).as_str(), " TOML: ");
                Err(CockpitError::Config(joined(what.as_str(), complaint.as_str())))
            },
        }
    }

    /// What is reported where the configuration could not be read.
    pub fn unreadable(complaint: &str, tool: &str) -> (e: CockpitError)
        ensures
            e matches CockpitError::Config(m) && m@ == "read "@ + tracker_name(tool@) + " config: "@
                + complaint@,
    {
        let what = joined3("read ", tracker_of(tool).as_str(), " config: ");
        CockpitError::Config(joined(what.as_str(), complaint))
    }

    /// The path of the configuration below a home directory.
    pub fn config_path(home: &str, tool: &str) -> (path: String)
        ensures
            path@ == home@ + "/.config/"@ + tracker_name(tool@) + "/config.toml"@,
    {
        let dir = joined3(home, "/.config/", tracker_of(tool).as_str());
        joined(dir.as_str(), "/config.toml")
    }
}

/// The account that an entry describes.
fn read_account(entry: &Tree) -> (account: Option<AccountConfig>)
    ensures
        match account {
            Some(a) => account_of(entry@) == Some(a@),
            None => account_of(entry@) is None,
        },
{
    let name = match entry.text("name") {
        Some(name) => name.clone(),
        None => {
            return None;
        },
    };
    let org_id = match entry.text("org_id") {
        Some(org_id) => org_id.clone(),
        None => {
            return None;
        },
    };
    let auth_method = match entry.text("auth_method") {
        Some(method) => if same_text(method.as_str(), "oauth") {
            AuthMethod::OAuth
        } else {
            AuthMethod::SessionKey
        },
        None => AuthMethod::SessionKey,
    };
    Some(AccountConfig { name, org_id, auth_method })
}

/// The accounts that entries describe.
fn read_accounts(entries: &Vec<Tree>) -> (accounts: Vec<AccountConfig>)
    ensures
        account_values(accounts@) == accounts_of(list_of(entries@)),
{
    let ghost values = list_of(entries@);
    proof {
        list_items(entries@);
    }
    let mut accounts: Vec<AccountConfig> = Vec::new();
    let mut i: usize = 0;
    assert(account_values(accounts@) =~= Seq::empty());
    while i < entries.len()
        invariant
            i <= entries@.len(),
            values.len() == entries@.len(),
            forall|k: int| 0 <= k < entries@.len() ==> #[trigger] values[k] == entries@[k]@,
            account_values(accounts@) == accounts_of(values.take(i as int)),
        decreases entries@.len() - i,
    {
        let ghost before = accounts@;
        if let Some(account) = read_account(&entries[i]) {
            accounts.push(account);
            assert(account_values(accounts@) =~= account_values(before).push(account@));
        }
        i = i + 1;
        assert(values.take(i as int).drop_last() =~= values.take(i - 1));
    }
    assert(values.take(i as int) =~= values);
    accounts
}

} // verus!
