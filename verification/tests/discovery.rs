use pylon::data::parse_json;
use pylon::sidebar::discovery::jsonl::{
    entry_tokens, extract_session_meta, extract_text_from_content, last_tokens, SessionMeta, TokenCount, TopicScan,
    UsageTokens, MAX_CONTEXT_TOKENS, TAIL_BYTES,
};
use pylon::sidebar::discovery::poller::{
    direct_path, found_session, projects_dir, session_file_name, status_for,
};
use pylon::sidebar::discovery::tab_session::{
    closest_session, encode_cwd, extract_resume_uuid, extract_session_id, first_pid,
    get_process_cwd, is_uuid, process_start_time, project_dir, session_file_id,
    session_id_from_birthtime, ClaudeStatus, DirEntry, SessionClue, SessionFile,
};
use pylon::sidebar::usage::Timestamp;

const ID: &str = "0a1b2c3d-4e5f-6789-abcd-ef0123456789";

fn user_message_line(text: &str) -> String {
    format!(
        "{{\"type\":\"user\",\"message\":{{\"content\":[{{\"type\":\"text\",\"text\":\"{text}\"}}]}}}}"
    )
}

fn assistant_message_line(input: u64, cache_read: u64, cache_create: u64, output: u64) -> String {
    format!(
        "{{\"type\":\"assistant\",\"message\":{{\"usage\":{{\"input_tokens\":{input},\
         \"cache_read_input_tokens\":{cache_read},\"cache_creation_input_tokens\":{cache_create},\
         \"output_tokens\":{output}}}}}}}"
    )
}

fn amount(count: &TokenCount) -> f64 {
    match count {
        TokenCount::Unsigned(n) => *n as f64,
        TokenCount::Signed(n) => *n as f64,
        TokenCount::Float(n) => n.number().as_f64().unwrap_or(0.0),
    }
}

fn percent(tokens: &UsageTokens) -> u8 {
    let total = amount(&tokens.input)
        + amount(&tokens.cache_read)
        + amount(&tokens.cache_create)
        + amount(&tokens.output);
    (total / MAX_CONTEXT_TOKENS as f64 * 100.0).round().min(100.0) as u8
}

/// What a session file with the given content says.
fn session_meta(file: &[u8], max_topic_chars: usize) -> SessionMeta {
    let (topic, tokens) = extract_session_meta(file, max_topic_chars);
    topic.finish(tokens.map_or(0, |t| percent(&t)))
}

#[test]
fn test_extract_meta_basic() {
    let mut file = user_message_line("Hello world") + "\n";
    file += &(assistant_message_line(10_000, 20_000, 30_000, 5_000) + "\n");
    let meta = session_meta(file.as_bytes(), 100);
    assert_eq!(meta.topic, "Hello world");
    assert_eq!(meta.context_pct, 33);
}

#[test]
fn test_extract_meta_empty_file() {
    let meta = session_meta(b"", 100);
    assert_eq!(meta.topic, "");
    assert_eq!(meta.context_pct, 0);
    assert_eq!(meta.git_branch, "");
}

#[test]
fn test_extract_meta_with_multibyte_utf8() {
    let mut file = user_message_line("Multibyte test") + "\n";
    let emoji_line = "\u{1F525}".repeat(500);
    for _ in 0..35 {
        file += &format!("{{\"type\":\"filler\",\"data\":\"{emoji_line}\"}}\n");
    }
    file += &(assistant_message_line(50_000, 50_000, 50_000, 10_000) + "\n");
    let meta = session_meta(file.as_bytes(), 100);
    assert_eq!(meta.topic, "Multibyte test");
    assert_eq!(meta.context_pct, 80);
}

#[test]
fn the_first_topic_and_the_first_branch_count() {
    let mut scan = TopicScan::new(5);
    assert!(!scan.note_line("no json"));
    assert!(!scan.note_line(r#"{"type":"user","message":{"content":"   "}}"#));
    assert!(!scan.note_line(r#"{"type":"user","message":{"content":"  topic of it "}}"#));
    assert!(!scan.note_line(r#"{"type":"user","message":{"content":"another"}}"#));
    assert!(scan.note_line(r#"{"gitBranch":"main"}"#));
    assert!(scan.note_line(r#"{"gitBranch":"other"}"#));
    let meta = scan.finish(7);
    assert_eq!((meta.topic.as_str(), meta.git_branch.as_str()), ("topic", "main"));
    assert_eq!(meta.context_pct, 7);
    let none = SessionMeta::default();
    assert_eq!((none.topic.as_str(), none.git_branch.as_str(), none.context_pct), ("", "", 0));
}

#[test]
fn content_is_a_text_or_a_list_of_blocks() {
    let text = |json: &str| {
        let tree = parse_json(json).unwrap();
        extract_text_from_content(tree.get("content"))
    };
    assert_eq!(text(r#"{"content": " a "}"#).unwrap(), "a");
    assert_eq!(text(r#"{"content": ""}"#), None);
    assert_eq!(text(r#"{"content": 3}"#), None);
    assert_eq!(text(r#"{}"#), None);
    assert_eq!(
        text(r#"{"content": [{"type":"image","text":"x"},{"type":"text","text":" "},
            {"type":"text"},{"type":"text","text":" b "},{"type":"text","text":"c"}]}"#)
            .unwrap(),
        "b"
    );
    assert_eq!(text(r#"{"content": []}"#), None);
}

#[test]
fn the_last_reply_counts() {
    let file = assistant_message_line(1, 2, 3, 4)
        + "\r\n"
        + &assistant_message_line(10, 20, 30, 40)
        + "\n{\"type\":\"assistant\"}\n{\"type\":\"user\",\"message\":{\"usage\":{}}}";
    let tokens = last_tokens(file.as_bytes(), false).unwrap();
    assert!(matches!(tokens.input, TokenCount::Unsigned(10)));
    assert!(matches!(tokens.output, TokenCount::Unsigned(40)));
    assert!(last_tokens(assistant_message_line(1, 2, 3, 4).as_bytes(), true).is_none());
    assert!(last_tokens(b"", true).is_none());
}

#[test]
fn counts_that_are_no_numbers_are_zero() {
    let entry = parse_json(
        r#"{"type":"assistant","message":{"usage":{"input_tokens":-3,"output_tokens":1.5,
            "cache_read_input_tokens":"x"}}}"#,
    )
    .unwrap();
    let tokens = entry_tokens(&entry).unwrap();
    assert!(matches!(tokens.input, TokenCount::Signed(-3)));
    assert!(matches!(tokens.cache_read, TokenCount::Unsigned(0)));
    assert!(matches!(tokens.cache_create, TokenCount::Unsigned(0)));
    assert_eq!(amount(&tokens.output), 1.5);
}

#[test]
fn broken_bytes_do_not_hide_a_reply() {
    let mut file = b"\xff\xfe broken\n".to_vec();
    file.extend_from_slice(assistant_message_line(5, 0, 0, 0).as_bytes());
    let tokens = last_tokens(&file, false).unwrap();
    assert!(matches!(tokens.input, TokenCount::Unsigned(5)));
}

#[test]
fn the_first_process_is_taken() {
    assert_eq!(first_pid(b"123\n456\n"), Some(123));
    assert_eq!(first_pid(b"  9 \n"), Some(9));
    assert_eq!(first_pid(b""), None);
    assert_eq!(first_pid(b"\n5\n"), None);
    assert_eq!(first_pid(b"1\xff"), None);
}

#[test]
fn identifiers_have_their_form() {
    assert!(is_uuid(ID));
    assert!(is_uuid(&ID.to_uppercase()));
    assert!(!is_uuid(&ID[1..]));
    assert!(!is_uuid(&ID.replace('-', "_")));
    assert!(!is_uuid(&ID.replace('a', "g")));
    assert!(!is_uuid(&ID.replace('a', "\u{e4}")));
}

#[test]
fn the_resumed_session_is_found() {
    let id = extract_resume_uuid(&format!("tool --verbose --resume {ID} more")).unwrap();
    assert_eq!(id, ID);
    assert_eq!(extract_resume_uuid(&format!("tool --resume={ID}")), None);
    assert_eq!(extract_resume_uuid(&format!("tool --resume x --resume {ID}")), None);
    assert_eq!(extract_resume_uuid("tool --resume 123"), None);
    assert_eq!(extract_resume_uuid("tool"), None);
}

#[test]
fn the_start_of_a_process_is_read() {
    let at = |secs: i64, nanos: u32| Some(Timestamp { secs, nanos });
    assert_eq!(process_start_time(b"Fri Mar 13 12:46:30 2026\n", 0), at(1773405990, 0));
    assert_eq!(process_start_time(b"Fri Mar 13 12:46:30 2026\n", 3600), at(1773402390, 0));
    assert_eq!(process_start_time(b"Sun Mar  1 00:00:00 2026", 0), at(1772323200, 0));
    // A leap second.
    assert_eq!(
        process_start_time(b"Sat Dec 31 23:59:60 2016", 0),
        at(1483228799, 1_000_000_000)
    );
    assert_eq!(process_start_time(b"Wed Mar 13 12:46:30 2026", 0), None);
    assert_eq!(process_start_time(b" \n", 0), None);
    assert_eq!(process_start_time(b"yesterday", 0), None);
}

#[test]
fn the_working_directory_is_listed_after_its_mark() {
    assert_eq!(get_process_cwd(b"p12\nftxt\nn/bin/x\nfcwd\nn/home/me\nf3\nn/tmp\n"), "/home/me");
    assert_eq!(get_process_cwd(b"fcwd\ntDIR\nn/a b\n"), "/a b");
    assert_eq!(get_process_cwd(b"n/bin\n"), "");
    assert_eq!(get_process_cwd(b""), "");
}

#[test]
fn projects_are_named_after_their_directory() {
    assert_eq!(encode_cwd("/home/me/x"), "-home-me-x");
    assert_eq!(project_dir("/h", "tool", "/a/b").as_deref(), Some("/h/.tool/projects/-a-b"));
    assert_eq!(project_dir("/h", "tool", ""), None);
    assert_eq!(projects_dir("/h", "tool"), "/h/.tool/projects");
    assert_eq!(session_file_name("s"), "s.jsonl");
    assert_eq!(direct_path("/p", "s", "/a").unwrap(), "/p/-a/s.jsonl");
    assert_eq!(direct_path("/p", "s", ""), None);
}

#[test]
fn session_files_are_named_after_their_session() {
    assert_eq!(session_file_id(&format!("{ID}.jsonl")).unwrap(), ID);
    assert_eq!(session_file_id(&format!("{ID}.json")), None);
    assert_eq!(session_file_id(&format!("x{}.jsonl", &ID[1..])), None);
    assert_eq!(session_file_id(ID), None);
}

fn file(id: &str, secs: i64, nanos: u32) -> SessionFile {
    SessionFile { session_id: id.to_string(), created: Timestamp { secs, nanos } }
}

#[test]
fn the_nearest_session_file_is_taken() {
    let start = Timestamp { secs: 1000, nanos: 0 };
    let closest = |files: Vec<SessionFile>| closest_session(&files, start);
    assert_eq!(closest(vec![file("a", 1300, 0), file("b", 1005, 0)]).unwrap(), "b");
    assert_eq!(closest(vec![file("a", 1007, 0), file("b", 993, 1)]).unwrap(), "b");
    assert_eq!(closest(vec![file("a", 1003, 0), file("b", 997, 0)]).unwrap(), "a");
    assert_eq!(closest(vec![file("a", 1300, 999_999_999)]).unwrap(), "a");
    assert_eq!(closest(vec![file("a", 1301, 0)]), None);
    assert_eq!(closest(vec![file("a", 989, 1)]).unwrap(), "a");
    assert_eq!(closest(vec![file("a", 989, 0)]), None);
    assert_eq!(closest(vec![]), None);
}

#[test]
fn sessions_work_until_their_file_rests() {
    assert_eq!(status_for(Some(29_999_999_999)), ClaudeStatus::Working);
    assert_eq!(status_for(Some(30_000_000_000)), ClaudeStatus::Idle);
    assert_eq!(status_for(None), ClaudeStatus::Idle);
}

#[test]
fn a_session_is_put_together() {
    let meta = SessionMeta {
        topic: "t".to_string(),
        git_branch: "g".to_string(),
        context_pct: 12,
    };
    let session =
        found_session(5, "id".to_string(), "/home/me/proj".to_string(), ClaudeStatus::Idle, meta);
    assert_eq!((session.pid, session.context_pct), (5, 12));
    assert_eq!(session.project, "proj");
    assert_eq!(session.cwd, "/home/me/proj");
    assert_eq!((session.topic.as_str(), session.git_branch.as_str()), ("t", "g"));
    let copy = session.copy();
    assert!(copy.same(&session));
    let mut other = session.copy();
    other.status = ClaudeStatus::Working;
    assert!(!other.same(&session));
    let mut other = session.copy();
    other.topic.push('x');
    assert!(!other.same(&session));
}

#[test]
fn a_command_line_gives_the_session_or_sends_to_the_start_time() {
    let command = format!("tool --resume {ID}\n");
    assert!(matches!(
        extract_session_id(command.as_bytes()),
        SessionClue::Resumed(id) if id == ID
    ));
    assert!(matches!(extract_session_id(b"tool\n"), SessionClue::StartTime));
    assert!(matches!(extract_session_id(b"tool --resume \xff"), SessionClue::StartTime));
    assert!(matches!(extract_session_id(b""), SessionClue::StartTime));
}

#[test]
fn the_session_file_nearest_to_the_start_is_found_among_other_files() {
    let other = "11111111-2222-3333-4444-555555555555";
    let entry = |name: String, created: Option<i64>| DirEntry {
        name,
        created: created.map(|secs| Timestamp { secs, nanos: 0 }),
    };
    let entries = vec![
        entry("notes.txt".to_string(), Some(1000)),
        entry(format!("{ID}.txt"), Some(1000)),
        entry(format!("{other}.jsonl"), Some(1020)),
        entry(format!("{ID}.jsonl"), Some(1005)),
        entry("22222222-2222-3333-4444-555555555555.jsonl".to_string(), None),
    ];
    let start = |secs: i64| Timestamp { secs, nanos: 0 };
    assert_eq!(session_id_from_birthtime(&entries, start(1000)).as_deref(), Some(ID));
    assert_eq!(session_id_from_birthtime(&entries, start(1019)).as_deref(), Some(other));
    assert_eq!(session_id_from_birthtime(&entries, start(2000)), None);
    assert_eq!(session_id_from_birthtime(&Vec::new(), start(1000)), None);
}

#[test]
fn a_session_file_is_searched_from_both_ends() {
    let mut file = Vec::new();
    file.extend_from_slice(b"not json\r\n");
    file.extend_from_slice(b"\xff\xfe{\"gitBranch\":\"lost\"}\n");
    file.extend_from_slice(b"{\"gitBranch\":\"main\"}\r\n");
    file.extend_from_slice(user_message_line("hello there").as_bytes());
    file.push(b'\n');
    file.extend_from_slice(b"{\"gitBranch\":\"later\"}\n");
    file.extend_from_slice(assistant_message_line(10_000, 0, 0, 0).as_bytes());
    file.push(b'\n');
    let meta = session_meta(&file, 5);
    assert_eq!(meta.topic, "hello");
    assert_eq!(meta.git_branch, "main");
    assert_eq!(meta.context_pct, 5);

    // What lies more than the searched length before the end does not count as usage.
    for _ in 0..TAIL_BYTES {
        file.push(b' ');
    }
    assert_eq!(session_meta(&file, 5).context_pct, 0);
    file.push(b'\n');
    file.extend_from_slice(assistant_message_line(0, 20_000, 0, 0).as_bytes());
    assert_eq!(session_meta(&file, 5).context_pct, 10);
    assert_eq!(session_meta(&file, 5).topic, "hello");
}
