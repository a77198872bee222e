use pylon::data::{parse_json, Tree};
use pylon::error::CockpitError;
use pylon::sidebar::usage::api::{
    decode_body, parse_resets_at, parse_utilization, read_refresh, read_usage, refresh_refused,
    usage_refused, user_agent,
};
use pylon::sidebar::usage::config::tracker_of;
use pylon::sidebar::usage::credentials::{
    access_token_in, extract_refresh_token, normalize_stored_token, refresh_token_in, token_info,
    update_credential_json, update_credentials,
};
use pylon::sidebar::usage::poller::{
    after_fetch, after_refresh, config_failed, effective_interval, load_failed, load_lost, turn_for,
    AccountTurn, FetchStep,
};
use pylon::sidebar::usage::{
    AuthMethod, Timestamp, TrackerConfig, UsageData, UsageUpdate, Utilization,
};

fn json(text: &str) -> Tree {
    parse_json(text).unwrap()
}

fn data(utilization: u32) -> UsageData {
    UsageData {
        utilization,
        resets_at: None,
        weekly_utilization: None,
        weekly_resets_at: None,
    }
}

#[test]
fn utilization_is_read() {
    let percent = |text: &str| match parse_utilization(&json(text)) {
        Utilization::Percent(n) => n,
        Utilization::Unrounded(n) => n.number().as_f64().unwrap().round() as u32 + 1000,
    };
    assert_eq!(percent(r#"{"utilization": 42}"#), 42);
    assert_eq!(percent(r#"{"utilization": 42.5}"#), 1043);
    assert_eq!(percent(r#"{"utilization": -3}"#), 0);
    assert_eq!(percent(r#"{"utilization": 99999999999}"#), u32::MAX);
    assert_eq!(percent(r#"{"utilization": "7"}"#), 0);
    assert_eq!(percent(r#"{}"#), 0);
    assert_eq!(percent(r#"[]"#), 0);
}

#[test]
fn reset_times_are_read() {
    let time = |text: &str| parse_resets_at(&json(text));
    assert_eq!(
        time(r#"{"resets_at": "2026-03-13T12:46:30Z"}"#),
        Some(Timestamp { secs: 1773405990, nanos: 0 })
    );
    assert_eq!(
        time(r#"{"resets_at": "2026-03-13T14:00:00.250+01:00"}"#),
        Some(Timestamp { secs: 1773406800, nanos: 250_000_000 })
    );
    assert_eq!(time(r#"{"resets_at": "tomorrow"}"#), None);
    assert_eq!(time(r#"{"resets_at": 5}"#), None);
    assert_eq!(time(r#"{}"#), None);
}

#[test]
fn a_usage_reply_is_read() {
    let reply = json(
        r#"{"five_hour": {"utilization": 10, "resets_at": "2026-03-13T12:46:30Z"},
            "seven_day": {"utilization": 79.6}}"#,
    );
    let reading = read_usage(&reply).unwrap();
    let read = reading.usage_data(1, 80);
    assert_eq!(read.utilization, 10);
    assert_eq!(read.resets_at.unwrap().secs, 1773405990);
    assert_eq!(read.weekly_utilization, Some(80));
    assert_eq!(read.weekly_resets_at, None);
    for reply in [r#"{"five_hour": {}, "seven_day": null}"#, r#"{"five_hour": null}"#] {
        assert_eq!(read_usage(&json(reply)).unwrap().usage_data(1, 2), data(0));
    }
    match read_usage(&json("{}")) {
        Err(e) => {
            assert_eq!(e.message(), "Sidebar error: missing five_hour in usage response")
        }
        Ok(_) => panic!("nothing to read"),
    }
}

#[test]
fn bodies_are_decoded() {
    assert!(decode_body(br#"{"a": 1}"#, "usage").is_ok());
    for bad in [&b"{"[..], &b"\"\xff\""[..], &b""[..]] {
        match decode_body(bad, "refresh") {
            Err(e) => assert_eq!(
                e.message(),
                "Sidebar error: refresh parse: error decoding response body"
            ),
            Ok(_) => panic!("no JSON"),
        }
    }
    assert_eq!(
        usage_refused("401 Unauthorized").message(),
        "Sidebar error: usage API returned 401 Unauthorized"
    );
    assert_eq!(
        refresh_refused("500 Oops").message(),
        "Sidebar error: token refresh returned 500 Oops"
    );
    assert_eq!(user_agent("tool"), "tool-code/2.0.32");
    assert_eq!(tracker_of("tool"), "tool-tracker");
}

#[test]
fn a_refresh_reply_is_read() {
    let token = read_refresh(
        &json(r#"{"access_token": "a", "refresh_token": "r", "expires_in": 60}"#),
        1_000,
    )
    .unwrap();
    assert_eq!((token.access_token.as_str(), token.expires_at), ("a", 61_000));
    assert_eq!(token.refresh_token.as_deref(), Some("r"));
    let token = read_refresh(&json(r#"{"access_token": "a"}"#), 5).unwrap();
    assert_eq!((token.refresh_token, token.expires_at), (None, 28_800_005));
    match read_refresh(&json(r#"{"access_token": 1}"#), 0) {
        Err(e) => assert_eq!(e.message(), "Sidebar error: no access_token in refresh response"),
        Ok(_) => panic!("no token"),
    }
}

#[test]
fn stored_tokens_are_found() {
    assert_eq!(normalize_stored_token("plain"), "plain");
    assert_eq!(normalize_stored_token(r#"{"accessToken": "a"}"#), "a");
    assert_eq!(normalize_stored_token(r#"{"access_token": "b"}"#), "b");
    assert_eq!(normalize_stored_token(r#"{"claudeAiOauth": {"accessToken": "c"}}"#), "c");
    let odd = r#"{"accessToken": 1, "access_token": "b"}"#;
    assert_eq!(normalize_stored_token(odd), odd);
    assert_eq!(normalize_stored_token("{broken"), "{broken");
    assert_eq!(extract_refresh_token("plain"), None);
    assert_eq!(extract_refresh_token("[]"), None);
    assert_eq!(extract_refresh_token(r#"{"refreshToken": "r"}"#).unwrap(), "r");
    assert_eq!(
        extract_refresh_token(r#"{"claudeAiOauth": {"refresh_token": "s"}}"#).unwrap(),
        "s"
    );
    let info = token_info(r#"{"access_token": "a", "refresh_token": "r"}"#.to_string());
    assert_eq!(info.access_token, "a");
    assert_eq!(info.refresh_token.as_deref(), Some("r"));
    assert_eq!(info.raw_credential, r#"{"access_token": "a", "refresh_token": "r"}"#);
}

#[test]
fn new_tokens_replace_the_stored_ones() {
    assert_eq!(
        update_credential_json(
            r#"{"claudeAiOauth":{"accessToken":"a","expiresAt":1,"refreshToken":"r"},"x":1}"#,
            "A",
            Some("R"),
            99
        ),
        r#"{"claudeAiOauth":{"accessToken":"A","expiresAt":99,"refreshToken":"R"},"x":1}"#
    );
    assert_eq!(
        update_credential_json(r#"{"access_token":"a"}"#, "A", None, -1),
        r#"{"access_token":"A","expires_at":-1}"#
    );
    assert_eq!(
        update_credential_json("{}", "A", Some("R"), 3),
        r#"{"access_token":"A","expires_at":3,"refresh_token":"R"}"#
    );
    assert_eq!(update_credential_json("plain", "A", None, 3), "A");
    assert_eq!(update_credential_json("[1]", "A", None, 3), "[1]");
    assert_eq!(
        update_credential_json(r#"{"claudeAiOauth":7}"#, "A", None, 3),
        r#"{"claudeAiOauth":7}"#
    );
}

#[test]
fn updated_tokens_are_read_back() {
    for raw in [
        r#"{"claudeAiOauth":{"accessToken":"a"}}"#,
        r#"{"refreshToken":"old"}"#,
        r#"{"access_token":"a","refresh_token":"old"}"#,
    ] {
        let new = update_credential_json(raw, "A", Some("R"), 3);
        assert_eq!(normalize_stored_token(&new), "A");
        assert_eq!(extract_refresh_token(&new).unwrap(), "R");
        let kept = update_credential_json(raw, "A", None, 3);
        assert_eq!(extract_refresh_token(&kept), extract_refresh_token(raw));
    }
    let tree = update_credentials(json(r#"{"accessToken":"a"}"#), "A", Some("R"), 3);
    assert_eq!(access_token_in(&tree).unwrap(), "A");
    assert_eq!(refresh_token_in(&tree).unwrap(), "R");
    assert_eq!(tree.integer("expires_at"), Some(3));
}

#[test]
fn the_tracker_is_configured() {
    let config = TrackerConfig::from_text(
        r#"
[settings]
poll_interval_secs = 10
active_account = 1

[[accounts]]
name = "one@example.com"
org_id = "org"
auth_method = "oauth"

[[accounts]]
name = "without organisation"

[[accounts]]
name = "two"
org_id = "other"
auth_method = "OAUTH"
"#,
        "tool",
    )
    .unwrap();
    assert_eq!((config.poll_interval_secs, config.active_account), (30, 1));
    assert_eq!(config.accounts.len(), 2);
    assert_eq!(config.accounts[0].name, "one@example.com");
    assert_eq!(config.accounts[0].org_id, "org");
    assert_eq!(config.accounts[0].auth_method, AuthMethod::OAuth);
    assert_eq!(config.accounts[1].auth_method, AuthMethod::SessionKey);
    let empty = TrackerConfig::from_text("", "tool").unwrap();
    assert_eq!((empty.poll_interval_secs, empty.active_account), (180, 0));
    assert!(empty.accounts.is_empty());
    let odd = TrackerConfig::from_text("accounts = 3\nsettings = \"x\"", "tool").unwrap();
    assert_eq!((odd.poll_interval_secs, odd.accounts.len()), (180, 0));
}

#[test]
fn a_broken_configuration_is_refused() {
    let e = TrackerConfig::from_text("= 3", "tool").unwrap_err();
    assert!(e.message().starts_with("Config error: invalid tool-tracker TOML: "));
    assert_eq!(
        TrackerConfig::unreadable("gone", "tool").message(),
        "Config error: read tool-tracker config: gone"
    );
    assert_eq!(TrackerConfig::config_path("/h", "tool"), "/h/.config/tool-tracker/config.toml");
}

#[test]
fn accounts_take_their_turn() {
    assert_eq!(turn_for(0), AccountTurn::Fetch);
    assert_eq!(turn_for(1), AccountTurn::PauseAndFetch);
    assert_eq!(turn_for(7), AccountTurn::PauseAndFetch);
    let config =
        TrackerConfig { poll_interval_secs: 60, accounts: Vec::new(), active_account: 0 };
    assert_eq!(effective_interval(180_000_000_000, &config), 180_000_000_000);
    assert_eq!(effective_interval(1, &config), 60_000_000_000);
    let fast = TrackerConfig { poll_interval_secs: 1, ..config };
    assert_eq!(effective_interval(1, &fast), 30_000_000_000);
}

#[test]
fn a_fetch_is_reported_or_tried_again() {
    let me = "me".to_string();
    assert!(matches!(
        after_fetch(&me, Ok(data(5)), true),
        FetchStep::Report(UsageUpdate::Data { account_name, data: d })
            if account_name == "me" && d == data(5)
    ));
    for status in ["401", "403"] {
        assert!(matches!(after_fetch(&me, Err(usage_refused(status)), true), FetchStep::Refresh));
        assert!(matches!(
            after_fetch(&me, Err(usage_refused(status)), false),
            FetchStep::Report(UsageUpdate::Error(_))
        ));
    }
    match after_fetch(&me, Err(usage_refused("500")), true) {
        FetchStep::Report(UsageUpdate::Error(m)) => {
            assert_eq!(m, "me: Sidebar error: usage API returned 500")
        }
        _ => panic!("a report"),
    }
    match after_refresh(&me, Err(CockpitError::Sidebar("x".to_string()))) {
        UsageUpdate::Error(m) => assert_eq!(m, "me: refresh failed: Sidebar error: x"),
        _ => panic!("an error"),
    }
    assert!(matches!(after_refresh(&me, Ok(data(1))), UsageUpdate::Data { data: d, .. } if d == data(1)));
    match load_failed(&me, &CockpitError::Sidebar("y".to_string())) {
        UsageUpdate::Error(m) => assert_eq!(m, "me: Sidebar error: y"),
        _ => panic!("an error"),
    }
    match config_failed(&CockpitError::Config("z".to_string())) {
        UsageUpdate::Error(m) => assert_eq!(m, "config: Config error: z"),
        _ => panic!("an error"),
    }
}

#[test]
fn a_lost_load_is_reported() {
    assert!(matches!(load_lost("gone"), UsageUpdate::Error(m) if m == "join: gone"));
}
