use vstd::prelude::*;

use crate::sidebar::usage::api::Timestamp;
use crate::text::{
    blanks_are_white_space, chars_of, decimal_notation_denotes_its_number, decimal_text, find_text,
    joined3, lines_end_at_newlines, lines_in, lines_of, lossy_text, occurs_at, parse_u32,
    parsed_u32, same_text, string_between, string_of, text_from_utf8_lossy, texts_of, trim,
    trimmed, trimming_leaves_the_inner_text,
};

verus! {

/// Whether a session is at work or waits.
#[derive(Debug, Clone, Copy, PartialEq, Eq, Structural)]
pub enum ClaudeStatus {
    Working,
    Idle,
}

/// A session that runs in a tab.
#[derive(Debug, PartialEq)]
pub struct ClaudeSession {
    pub pid: u32,
    pub session_id: String,
    pub status: ClaudeStatus,
    pub context_pct: u8,
    pub topic: String,
    pub git_branch: String,
    pub project: String,
    pub cwd: String,
}

/// A session, as mathematical values.
#[verifier::ext_equal]
pub struct SessionModel {
    pub pid: u32,
    pub session_id: Seq<char>,
    pub status: ClaudeStatus,
    pub context_pct: u8,
    pub topic: Seq<char>,
    pub git_branch: Seq<char>,
    pub project: Seq<char>,
    pub cwd: Seq<char>,
}

impl View for ClaudeSession {
    type V = SessionModel;

    open spec fn view(&self) -> SessionModel {
        SessionModel {
            pid: self.pid,
            session_id: self.session_id@,
            status: self.status,
            context_pct: self.context_pct,
            topic: self.topic@,
            git_branch: self.git_branch@,
            project: self.project@,
            cwd: self.cwd@,
        }
    }
}

impl ClaudeSession {
    pub fn copy(&self) -> (copy: ClaudeSession)
        ensures
            copy@ == self@,
    {
        ClaudeSession {
            pid: self.pid,
            session_id: self.session_id.clone(),
            status: self.status,
            context_pct: self.context_pct,
            topic: self.topic.clone(),
            git_branch: self.git_branch.clone(),
            project: self.project.clone(),
            cwd: self.cwd.clone(),
        }
    }

    /// Whether two sessions agree in everything that is known of them.
    pub fn same(&self, other: &ClaudeSession) -> (same: bool)
        ensures
            same == (self@ == other@),
    {
        self.pid == other.pid && self.status == other.status && self.context_pct
            == other.context_pct && self.session_id == other.session_id && self.topic == other.topic
            && self.git_branch == other.git_branch && self.project == other.project && self.cwd
            == other.cwd
    }
}

/// The process on the first line of a process list.
pub open spec fn first_pid_in(output: Seq<char>) -> Option<u32> {
    if lines_in(output).len() > 0 {
        parsed_u32(trimmed(lines_in(output)[0]))
    } else {
        None
    }
}

/// The process on the first line of what `pgrep` printed.
pub fn first_pid(output: &[u8]) -> (pid: Option<u32>)
    ensures
        pid == first_pid_in(lossy_text(output@)),
{
    let text = text_from_utf8_lossy(output);
    let lines = lines_of(text.as_str());
    let ghost texts = texts_of(lines@);
    if lines.len() == 0 {
        None
    } else {
        assert(texts[0] == lines@[0]@);
        parse_u32(trim(lines[0].as_str()).as_str())
    }
}

/// Whether a character is a hexadecimal digit.
pub open spec fn is_hex(c: char) -> bool {
    '0' <= c <= '9' || 'a' <= c <= 'f' || 'A' <= c <= 'F'
}

/// Whether a text is a UUID: hexadecimal digits in groups of 8, 4, 4, 4 and 12, with dashes
/// between them.
pub open spec fn uuid(text: Seq<char>) -> bool {
    text.len() == 36 && forall|i: int|
        0 <= i < 36 ==> if i == 8 || i == 13 || i == 18 || i == 23 {
            (#[trigger] text[i]) == '-'
        } else {
            is_hex(text[i])
        }
}

/// Validate that a string is a UUID in 8-4-4-4-12 hex-with-dashes format.
pub fn is_uuid(s: &str) -> (valid: bool)
    ensures
        valid == uuid(s@),
{
    let chars = chars_of(s);
    if chars.len() != 36 {
        return false;
    }
    let mut i: usize = 0;
    while i < 36
        invariant
            i <= 36 == chars@.len(),
            chars@ == s@,
            forall|k: int|
                0 <= k < i ==> if k == 8 || k == 13 || k == 18 || k == 23 {
                    (#[trigger] chars@[k]) == '-'
                } else {
                    is_hex(chars@[k])
                },
        decreases 36 - i,
    {
        let c: char = chars[i];
        let fits = if i == 8 || i == 13 || i == 18 || i == 23 {
            c == '-'
        } else {
            ('0' <= c && c <= '9') || ('a' <= c && c <= 'f') || ('A' <= c && c <= 'F')
        };
        if !fits {
            assert(chars@[i as int] == c);
            return false;
        }
        i = i + 1;
    }
    true
}

/// The option before a session identifier on the command line.
pub open spec fn resume_option() -> Seq<char> {
    "--resume "@
}

/// The session identifier after the first `--resume` of a command line.
pub open spec fn resumed(command: Seq<char>, at: int) -> Option<Seq<char>> {
    let from = at + resume_option().len();
    if from + 36 <= command.len() && uuid(command.subrange(from, from + 36)) {
        Some(command.subrange(from, from + 36))
    } else {
        None
    }
}

/// Whether a command line resumes a session: by the identifier after its first `--resume`.
pub open spec fn resumes(command: Seq<char>, id: Option<Seq<char>>) -> bool {
    match id {
        Some(s) => exists|at: int|
            #![trigger occurs_at(resume_option(), command, at)]
            occurs_at(resume_option(), command, at) && (forall|k: int|
                0 <= k < at ==> !occurs_at(resume_option(), command, k)) && resumed(command, at)
                == Some(s),
        None => forall|at: int|
            #![trigger occurs_at(resume_option(), command, at)]
            occurs_at(resume_option(), command, at) && (forall|k: int|
                0 <= k < at ==> !occurs_at(resume_option(), command, k)) ==> resumed(
                command,
                at,
            ) is None,
    }
}

/// Parse `--resume <UUID>` out of a command string.
pub fn extract_resume_uuid(command: &str) -> (id: Option<String>)
    ensures
        match id {
            Some(s) => resumes(command@, Some(s@)),
            None => resumes(command@, None),
        },
{
    proof {
        reveal_strlit("--resume ");
    }
    let chars = chars_of(command);
    let option = chars_of("--resume ");
    let total: usize = chars.len();
    match find_text(&chars, &option) {
        Some(at) => {
            let from: usize = at + option.len();
            let ghost place = at as int;
            assert forall|other: int|
                #![trigger occurs_at(resume_option(), command@, other)]
                occurs_at(resume_option(), command@, other) && (forall|k: int|
                    0 <= k < other ==> !occurs_at(
                        resume_option(),
                        command@,
                        k,
                    )) implies other == place by {
                if other < place {
                    assert(!occurs_at(option@, chars@, other));
                }
                if place < other {
                    assert(!occurs_at(resume_option(), command@, place));
                }
            }
            if total - from < 36 {
                return None;
            }
            let id = string_between(&chars, from, from + 36);
            if is_uuid(id.as_str()) {
                Some(id)
            } else {
                None
            }
        },
        None => None,
    }
}

/// What a process's command line says of its session.
pub enum SessionClue {
    /// It resumes this session.
    Resumed(String),
    /// Nothing: the session is the one whose file was created nearest to the process's start.
    StartTime,
}

/// What a process's command line, as `ps` printed it, says of its session.
pub fn extract_session_id(command: &[u8]) -> (clue: SessionClue)
    ensures
        match clue {
            SessionClue::Resumed(id) => resumes(lossy_text(command@), Some(id@)),
            SessionClue::StartTime => resumes(lossy_text(command@), None),
        },
{
    match extract_resume_uuid(text_from_utf8_lossy(command).as_str()) {
        Some(id) => SessionClue::Resumed(id),
        None => SessionClue::StartTime,
    }
}

/// What `chrono` makes of a process's start time, with the clock's distance from UTC in seconds:
/// seconds and nanoseconds since the epoch. A leap second counts as nanoseconds beyond a second.
pub uninterp spec fn start_time_parsed(text: Seq<char>, offset_secs: i32) -> Option<(i64, u32)>;

/// `chrono::NaiveDateTime::parse_from_str` with the format of `ps -o lstart=`, put into the fixed
/// offset: depends on the text and the offset alone.
#[verifier::external_body]
fn parse_start_time(text: &str, offset_secs: i32) -> (parsed: Option<(i64, u32)>)
    ensures
        parsed == start_time_parsed(text@, offset_secs),
{
    let local = chrono::FixedOffset::east_opt(offset_secs)?;
    let time = chrono::NaiveDateTime::parse_from_str(text, "%a %b %e %H:%M:%S %Y").ok()?;
    let time = time.and_local_timezone(local).single()?;
    Some((time.timestamp(), time.timestamp_subsec_nanos()))
}

/// When a process started, by what `ps` printed.
pub fn process_start_time(output: &[u8], offset_secs: i32) -> (started: Option<Timestamp>)
    ensures
        ({
            let text = trimmed(lossy_text(output@));
            match started {
                Some(time) => text.len() > 0 && start_time_parsed(text, offset_secs) == Some(
                    (time.secs, time.nanos),
                ),
                None => text.len() == 0 || start_time_parsed(text, offset_secs) is None,
            }
        }),
{
    let text = trim(text_from_utf8_lossy(output).as_str());
    if text.as_str().is_empty() {
        return None;
    }
    match parse_start_time(text.as_str(), offset_secs) {
        Some((secs, nanos)) => Some(Timestamp { secs, nanos }),
        None => None,
    }
}

/// The directory that a list of open files gives as the working directory, from line `i` on:
/// the first name line after the line that announces it.
pub open spec fn cwd_from(lines: Seq<Seq<char>>, i: int, announced: bool) -> Seq<char>
    decreases lines.len() - i,
{
    if i < 0 || i >= lines.len() {
        Seq::empty()
    } else if lines[i] == "fcwd"@ {
        cwd_from(lines, i + 1, true)
    } else if announced && lines[i].len() > 0 && lines[i][0] == 'n' {
        lines[i].drop_first()
    } else {
        cwd_from(lines, i + 1, announced)
    }
}

/// The working directory in what `lsof -Fn` printed; empty where there is none.
pub fn get_process_cwd(output: &[u8]) -> (cwd: String)
    ensures
        cwd@ == cwd_from(lines_in(lossy_text(output@)), 0, false),
{
    let text = text_from_utf8_lossy(output);
    let lines = lines_of(text.as_str());
    let ghost texts = texts_of(lines@);
    let mut announced = false;
    let mut i: usize = 0;
    while i < lines.len()
        invariant
            i <= lines@.len(),
            texts == texts_of(lines@),
            texts == lines_in(lossy_text(output@)),
            cwd_from(texts, 0, false) == cwd_from(texts, i as int, announced),
        decreases lines@.len() - i,
    {
        let line = &lines[i];
        assert(texts[i as int] == line@);
        if same_text(line.as_str(), "fcwd") {
            announced = true;
        } else if announced {
            let chars = chars_of(line.as_str());
            if chars.len() > 0 && chars[0] == 'n' {
                let path = string_between(&chars, 1, chars.len());
                assert(path@ =~= line@.drop_first());
                return path;
            }
        }
        i = i + 1;
    }
    let none = String::new();
    assert(none@ =~= Seq::empty());
    none
}

/// A directory as the name of a project: dashes in place of slashes.
pub open spec fn project_name(cwd: Seq<char>) -> Seq<char> {
    Seq::new(
        cwd.len(),
        |i: int|
            if cwd[i] == '/' {
                '-'
            } else {
                cwd[i]
            },
    )
}

/// A directory as the name of a project.
pub fn encode_cwd(cwd: &str) -> (name: String)
    ensures
        name@ == project_name(cwd@),
{
    let mut chars = chars_of(cwd);
    let len: usize = chars.len();
    let mut i: usize = 0;
    while i < len
        invariant
            i <= len == cwd@.len(),
            chars@ == project_name(cwd@.take(i as int)) + cwd@.skip(i as int),
        decreases len - i,
    {
        if chars[i] == '/' {
            chars[i] = '-';
        }
        i = i + 1;
        assert(chars@ =~= project_name(cwd@.take(i as int)) + cwd@.skip(i as int));
    }
    assert(chars@ =~= project_name(cwd@));
    string_of(&chars)
}

/// The directory with the session files of a project, where the working directory is known.
pub fn project_dir(home: &str, tool: &str, cwd: &str) -> (dir: Option<String>)
    ensures
        match dir {
            Some(s) => cwd@.len() > 0 && s@ == home@ + "/."@ + tool@ + "/projects/"@ + project_name(
                cwd@,
            ),
            None => cwd@.len() == 0,
        },
{
    if cwd.is_empty() {
        return None;
    }
    Some(joined3(joined3(home, "/.", tool).as_str(), "/projects/", encode_cwd(cwd).as_str()))
}

/// The session of a file by its name, where that is a UUID with the ending `.jsonl`.
pub open spec fn session_of_file(name: Seq<char>) -> Option<Seq<char>> {
    if name.len() == 42 && uuid(name.take(36)) && name.skip(36) == ".jsonl"@ {
        Some(name.take(36))
    } else {
        None
    }
}

/// The session of a file by its name.
pub fn session_file_id(name: &str) -> (id: Option<String>)
    ensures
        match id {
            Some(s) => session_of_file(name@) == Some(s@),
            None => session_of_file(name@) is None,
        },
{
    let chars = chars_of(name);
    if chars.len() != 42 {
        return None;
    }
    let stem = string_between(&chars, 0, 36);
    let ending = string_between(&chars, 36, 42);
    assert(stem@ =~= name@.take(36));
    assert(ending@ =~= name@.skip(36));
    if is_uuid(stem.as_str()) && same_text(ending.as_str(), ".jsonl") {
        Some(stem)
    } else {
        None
    }
}

/// A file in a project's directory, and when it was created, where that is known.
pub struct DirEntry {
    pub name: String,
    pub created: Option<Timestamp>,
}

/// A session file and when it was created.
pub struct SessionFile {
    pub session_id: String,
    pub created: Timestamp,
}

/// A session file, as mathematical values.
#[verifier::ext_equal]
pub struct FileModel {
    pub session_id: Seq<char>,
    pub created: Timestamp,
}

/// Session files as mathematical values.
pub open spec fn file_values(files: Seq<SessionFile>) -> Seq<FileModel> {
    Seq::new(
        files.len(),
        |i: int| FileModel { session_id: files[i].session_id@, created: files[i].created },
    )
}

/// The session files of a directory: those of its files that are named after a session and whose
/// creation is known.
pub open spec fn session_files_in(entries: Seq<DirEntry>) -> Seq<FileModel>
    decreases entries.len(),
{
    if entries.len() == 0 {
        Seq::empty()
    } else {
        let before = session_files_in(entries.drop_last());
        match (session_of_file(entries.last().name@), entries.last().created) {
            (Some(session_id), Some(created)) => before.push(FileModel { session_id, created }),
            _ => before,
        }
    }
}

/// The session files of a directory.
pub fn session_files(entries: &Vec<DirEntry>) -> (files: Vec<SessionFile>)
    ensures
        file_values(files@) == session_files_in(entries@),
{
    let mut files: Vec<SessionFile> = Vec::new();
    let mut i: usize = 0;
    assert(file_values(files@) =~= session_files_in(entries@.take(0)));
    while i < entries.len()
        invariant
            i <= entries@.len(),
            file_values(files@) == session_files_in(entries@.take(i as int)),
        decreases entries@.len() - i,
    {
        let entry = &entries[i];
        let ghost upto = entries@.take(i + 1);
        let ghost before = files@;
        assert(upto.drop_last() =~= entries@.take(i as int));
        assert(upto.last() == *entry);
        if let Some(session_id) = session_file_id(entry.name.as_str()) {
            if let Some(created) = entry.created {
                let file = SessionFile { session_id, created };
                files.push(file);
                assert(file_values(files@) =~= file_values(before).push(
                    FileModel { session_id: file.session_id@, created },
                ));
            }
        }
        i = i + 1;
    }
    assert(entries@.take(i as int) =~= entries@);
    files
}

/// The nanoseconds since the epoch.
pub open spec fn nanos_of(time: Timestamp) -> int {
    time.secs * 1_000_000_000 + time.nanos
}

/// How far a file's creation is from a process's start, where it is near enough: less than 11
/// seconds before it, as startup takes time, or less than 301 seconds after it, as a session file
/// is created with the first message.
pub open spec fn distance(created: Timestamp, started: Timestamp) -> Option<nat> {
    let delta = nanos_of(created) - nanos_of(started);
    if 0 <= delta < 301_000_000_000 {
        Some(delta as nat)
    } else if -11_000_000_000 < delta < 0 {
        Some((-delta) as nat)
    } else {
        None
    }
}

fn distance_between(created: Timestamp, started: Timestamp) -> (near: Option<u64>)
    ensures
        match near {
            Some(d) => distance(created, started) == Some(d as nat),
            None => distance(created, started) is None,
        },
{
    let delta: i128 = (created.secs as i128 * 1_000_000_000 + created.nanos as i128) - (
    started.secs as i128 * 1_000_000_000 + started.nanos as i128);
    if 0 <= delta && delta < 301_000_000_000 {
        Some(delta as u64)
    } else if -11_000_000_000 < delta && delta < 0 {
        Some((-delta) as u64)
    } else {
        None
    }
}

/// Whether the file at a position is the one that best matches a process's start: it is near
/// enough, none is nearer, and none before it is as near.
pub open spec fn best_match(files: Seq<FileModel>, started: Timestamp, k: int) -> bool {
    &&& 0 <= k < files.len()
    &&& distance(files[k].created, started) is Some
    &&& forall|i: int|
        0 <= i < files.len() && (#[trigger] distance(files[i].created, started)) is Some ==> {
            let d = distance(files[k].created, started)->0;
            let other = distance(files[i].created, started)->0;
            d <= other && (i < k ==> d < other)
        }
}

/// Whether a session is the one whose file best matches a process's start, or none is near enough.
pub open spec fn matches_start(
    files: Seq<FileModel>,
    started: Timestamp,
    id: Option<Seq<char>>,
) -> bool {
    match id {
        Some(s) => exists|k: int|
            #[trigger] best_match(files, started, k) && s == files[k].session_id,
        None => forall|i: int|
            0 <= i < files.len() ==> (#[trigger] distance(files[i].created, started)) is None,
    }
}

/// The session whose file was created nearest to a process's start.
pub fn closest_session(files: &Vec<SessionFile>, started: Timestamp) -> (id: Option<String>)
    ensures
        match id {
            Some(s) => matches_start(file_values(files@), started, Some(s@)),
            None => matches_start(file_values(files@), started, None),
        },
{
    let ghost values = file_values(files@);
    let mut best: Option<(u64, usize)> = None;
    let mut i: usize = 0;
    while i < files.len()
        invariant
            i <= files@.len(),
            values == file_values(files@),
            match best {
                Some((d, k)) => {
                    &&& k < i
                    &&& distance(values[k as int].created, started) == Some(d as nat)
                    &&& forall|j: int|
                        0 <= j < i && (#[trigger] distance(values[j].created, started)) is Some
                            ==> d <= distance(values[j].created, started)->0 && (j < k ==> d
                            < distance(values[j].created, started)->0)
                },
                None => forall|j: int|
                    0 <= j < i ==> (#[trigger] distance(values[j].created, started)) is None,
            },
        decreases files@.len() - i,
    {
        assert(values[i as int].created == files@[i as int].created);
        if let Some(d) = distance_between(files[i].created, started) {
            let better = match best {
                Some((nearest, _)) => d < nearest,
                None => true,
            };
            if better {
                best = Some((d, i));
            }
        }
        i = i + 1;
    }
    match best {
        Some((_, k)) => {
            assert(best_match(values, started, k as int));
            Some(files[k].session_id.clone())
        },
        None => None,
    }
}

/// The session whose file in a project's directory was created nearest to a process's start.
pub fn session_id_from_birthtime(entries: &Vec<DirEntry>, started: Timestamp) -> (id: Option<
    String,
>)
    ensures
        match id {
            Some(s) => matches_start(session_files_in(entries@), started, Some(s@)),
            None => matches_start(session_files_in(entries@), started, None),
        },
{
    closest_session(&session_files(entries), started)
}

/// A process's start matches one session at most: processes that share a directory are told
/// apart.
pub proof fn best_match_is_unique(
    files: Seq<FileModel>,
    started: Timestamp,
    one: Option<Seq<char>>,
    other: Option<Seq<char>>,
)
    requires
        matches_start(files, started, one),
        matches_start(files, started, other),
    ensures
        one == other,
{
    if one is Some && other is Some {
        let j = choose|k: int|
            #[trigger] best_match(files, started, k) && one->0 == files[k].session_id;
        let k = choose|k: int|
            #[trigger] best_match(files, started, k) && other->0 == files[k].session_id;
        assert(distance(files[j].created, started) is Some);
        assert(distance(files[k].created, started) is Some);
        assert(j == k);
    }
}

/// The size of a difference.
pub open spec fn difference(a: int, b: int) -> int {
    if a >= b {
        a - b
    } else {
        b - a
    }
}

/// Whether a file was created from 10 whole seconds before to 300 whole seconds after a start.
pub open spec fn created_around(created: Timestamp, started: Timestamp) -> bool {
    let c = created.secs * 1_000_000_000 + created.nanos;
    let s = started.secs * 1_000_000_000 + started.nanos;
    (c >= s ==> (c - s) / 1_000_000_000 <= 300) && (c < s ==> (s - c) / 1_000_000_000 <= 10)
}

/// The distance of a file from a process's start is the number of nanoseconds between the two, for
/// the files that were created around the start; others have none.
pub proof fn distances_are_nanoseconds(created: Timestamp, started: Timestamp)
    ensures
        distance(created, started) is Some == created_around(created, started),
        distance(created, started) matches Some(d) ==> d == difference(
            created.secs * 1_000_000_000 + created.nanos,
            started.secs * 1_000_000_000 + started.nanos,
        ),
{
}

/// Among the session files that were created around a process's start, the one that matches it is
/// the one with the least number of nanoseconds between its creation and the start, and of several
/// such files the first one; where there is such a file at all, one matches.
pub proof fn the_nearest_file_matches(
    files: Seq<FileModel>,
    started: Timestamp,
    id: Option<Seq<char>>,
    i: int,
)
    requires
        matches_start(files, started, id),
        0 <= i < files.len(),
        created_around(files[i].created, started),
    ensures
        exists|k: int|
            0 <= k < files.len() && id == Some(#[trigger] files[k].session_id) && created_around(
                files[k].created,
                started,
            ) && ({
                let s = started.secs * 1_000_000_000 + started.nanos;
                let chosen = difference(
                    files[k].created.secs * 1_000_000_000 + files[k].created.nanos,
                    s,
                );
                let other = difference(
                    files[i].created.secs * 1_000_000_000 + files[i].created.nanos,
                    s,
                );
                chosen <= other && (i < k ==> chosen < other)
            }),
{
    distances_are_nanoseconds(files[i].created, started);
    assert(distance(files[i].created, started) is Some);
    let k = choose|k: int|
        #[trigger] best_match(files, started, k) && id->0 == files[k].session_id;
    distances_are_nanoseconds(files[k].created, started);
    assert(id == Some(files[k].session_id));
}

/// The session files of a directory are those whose names are a UUID and the ending of session
/// files: each file of that kind with a known creation is among them, under its UUID.
pub proof fn session_files_are_found(entries: Seq<DirEntry>, i: int)
    requires
        0 <= i < entries.len(),
        entries[i].created is Some,
        entries[i].name@.len() == 42,
        uuid(entries[i].name@.take(36)),
        entries[i].name@.skip(36) == ".jsonl"@,
    ensures
        exists|k: int|
            0 <= k < session_files_in(entries).len() && (#[trigger] session_files_in(
                entries,
            )[k]).session_id == entries[i].name@.take(36) && session_files_in(entries)[k].created
                == entries[i].created->0,
        session_files_in(entries).len() <= entries.len(),
    decreases entries.len(),
{
    fewer_session_files(entries);
    let all = session_files_in(entries);
    if i == entries.len() - 1 {
        assert(all.last().session_id == entries[i].name@.take(36));
    } else {
        let most = entries.drop_last();
        session_files_are_found(most, i);
        let k = choose|k: int|
            0 <= k < session_files_in(most).len() && (#[trigger] session_files_in(
                most,
            )[k]).session_id == most[i].name@.take(36) && session_files_in(most)[k].created
                == most[i].created->0;
        assert(all[k] == session_files_in(most)[k]);
    }
}

proof fn fewer_session_files(entries: Seq<DirEntry>)
    ensures
        session_files_in(entries).len() <= entries.len(),
    decreases entries.len(),
{
    if entries.len() > 0 {
        fewer_session_files(entries.drop_last());
    }
}

/// A file that is not named after a session is no session file.
pub proof fn other_files_are_left_out(name: Seq<char>)
    requires
        name.len() != 42 || !uuid(name.take(36)) || name.skip(36) != ".jsonl"@,
    ensures
        session_of_file(name) is None,
{
}

/// A UUID has 36 characters: four dashes that cut it into groups of 8, 4, 4, 4 and 12, and a
/// hexadecimal digit of either case everywhere else.
pub proof fn uuids_have_their_groups(text: Seq<char>, i: int)
    requires
        uuid(text),
        0 <= i < text.len(),
    ensures
        text.len() == 8 + 1 + 4 + 1 + 4 + 1 + 4 + 1 + 12,
        text[i] == '-' <==> i == 8 || i == 8 + 5 || i == 8 + 5 + 5 || i == 8 + 5 + 5 + 5,
        text[i] != '-' ==> ('0' <= text[i] && text[i] <= '9') || ('a' <= text[i] && text[i]
            <= 'f') || ('A' <= text[i] && text[i] <= 'F'),
{
}

/// A command line resumes the session whose UUID follows its first `--resume`.
pub proof fn resumed_sessions_follow_the_option(before: Seq<char>, id: Seq<char>, after: Seq<char>)
    requires
        uuid(id),
        forall|k: int|
            0 <= k < before.len() ==> !occurs_at(
                "--resume "@,
                before + "--resume "@ + id + after,
                k,
            ),
    ensures
        resumes(before + "--resume "@ + id + after, Some(id)),
{
    let command = before + "--resume "@ + id + after;
    let at = before.len() as int;
    let from = at + "--resume "@.len();
    assert(command.subrange(at, from) =~= "--resume "@);
    assert(command.subrange(from, from + 36) =~= id);
    assert(occurs_at(resume_option(), command, at));
}

/// The working directory is the name that comes after the line that announces it, with or without
/// lines of other kinds between them.
pub proof fn the_working_directory_is_announced(
    lines: Seq<Seq<char>>,
    announced: int,
    named: int,
)
    requires
        0 <= announced < named < lines.len(),
        lines[announced] == "fcwd"@,
        lines[named].len() > 0,
        lines[named][0] == 'n',
        forall|k: int| 0 <= k < announced ==> #[trigger] lines[k] != "fcwd"@,
        forall|k: int|
            announced < k < named ==> (#[trigger] lines[k]).len() == 0 || lines[k][0] != 'n',
    ensures
        seq!['n'] + cwd_from(lines, 0, false) == lines[named],
{
    reveal_strlit("fcwd");
    assert(lines[named] != "fcwd"@);
    cwd_before(lines, announced, 0);
    cwd_after(lines, named, announced + 1);
    assert(seq!['n'] + lines[named].drop_first() =~= lines[named]);
}

proof fn cwd_before(lines: Seq<Seq<char>>, announced: int, i: int)
    requires
        0 <= i <= announced < lines.len(),
        lines[announced] == "fcwd"@,
        forall|k: int| 0 <= k < announced ==> #[trigger] lines[k] != "fcwd"@,
    ensures
        cwd_from(lines, i, false) == cwd_from(lines, announced + 1, true),
    decreases announced - i,
{
    if i < announced {
        cwd_before(lines, announced, i + 1);
    }
}

proof fn cwd_after(lines: Seq<Seq<char>>, named: int, i: int)
    requires
        0 <= i <= named < lines.len(),
        lines[named].len() > 0,
        lines[named][0] == 'n',
        lines[named] != "fcwd"@,
        forall|k: int| i <= k < named ==> (#[trigger] lines[k]).len() == 0 || lines[k][0] != 'n',
    ensures
        cwd_from(lines, i, true) == lines[named].drop_first(),
    decreases named - i,
{
    if i < named {
        cwd_after(lines, named, i + 1);
    }
}

/// The name of a project is as long as its directory, differs from it only in the slashes, and has
/// none of them.
pub proof fn project_names_have_no_slash(cwd: Seq<char>, i: int)
    requires
        0 <= i < cwd.len(),
    ensures
        project_name(cwd).len() == cwd.len(),
        project_name(cwd)[i] != '/',
        cwd[i] == '/' ==> project_name(cwd)[i] == '-',
        cwd[i] != '/' ==> project_name(cwd)[i] == cwd[i],
{
}

/// Every text of five groups of 8, 4, 4, 4 and 12 hexadecimal digits, of either case, with dashes
/// between them is a UUID.
pub proof fn grouped_digits_are_uuids(
    a: Seq<char>,
    b: Seq<char>,
    c: Seq<char>,
    d: Seq<char>,
    e: Seq<char>,
)
    requires
        a.len() == 8,
        b.len() == 4,
        c.len() == 4,
        d.len() == 4,
        e.len() == 12,
        forall|i: int|
            0 <= i < 32 ==> ('0' <= #[trigger] (a + b + c + d + e)[i] && (a + b + c + d + e)[i]
                <= '9') || ('a' <= (a + b + c + d + e)[i] && (a + b + c + d + e)[i] <= 'f') || (
            'A' <= (a + b + c + d + e)[i] && (a + b + c + d + e)[i] <= 'F'),
    ensures
        uuid(a + seq!['-'] + b + seq!['-'] + c + seq!['-'] + d + seq!['-'] + e),
{
    let digits = a + b + c + d + e;
    let text = a + seq!['-'] + b + seq!['-'] + c + seq!['-'] + d + seq!['-'] + e;
    assert forall|i: int| 0 <= i < 36 implies if i == 8 || i == 13 || i == 18 || i == 23 {
        (#[trigger] text[i]) == '-'
    } else {
        is_hex(text[i])
    } by {
        if i < 8 {
            assert(text[i] == digits[i]);
        } else if 8 < i < 13 {
            assert(text[i] == digits[i - 1]);
        } else if 13 < i < 18 {
            assert(text[i] == digits[i - 2]);
        } else if 18 < i < 23 {
            assert(text[i] == digits[i - 3]);
        } else if i > 23 {
            assert(text[i] == digits[i - 4]);
        }
    }
}

/// Where no session file was created around a process's start, none matches it.
pub proof fn distant_files_do_not_match(
    files: Seq<FileModel>,
    started: Timestamp,
    id: Option<Seq<char>>,
)
    requires
        matches_start(files, started, id),
        forall|i: int|
            0 <= i < files.len() ==> !created_around((#[trigger] files[i]).created, started),
    ensures
        id is None,
{
    if id is Some {
        let k = choose|k: int|
            #[trigger] best_match(files, started, k) && id->0 == files[k].session_id;
        distances_are_nanoseconds(files[k].created, started);
        assert(!created_around(files[k].created, started));
    }
}

/// A process list begins with the number of a process, in decimal notation, with or without blanks
/// around it.
pub proof fn the_first_line_names_the_process(pid: u32, blanks: Seq<char>)
    requires
        forall|i: int| 0 <= i < blanks.len() ==> #[trigger] blanks[i] == ' ',
    ensures
        first_pid_in(blanks + decimal_text(pid as nat) + seq!['\n']) == Some(pid),
        first_pid_in(Seq::empty()) is None,
{
    let number = decimal_text(pid as nat);
    let line = blanks + number;
    decimal_notation_denotes_its_number(pid as nat);
    blanks_are_white_space(number[0]);
    blanks_are_white_space(number.last());
    assert('!' <= number[0] && number[0] <= '~');
    assert('!' <= number.last() && number.last() <= '~');
    trimming_leaves_the_inner_text(blanks, number, Seq::empty());
    assert(line + Seq::<char>::empty() =~= line);
    assert forall|i: int| 0 <= i < line.len() implies #[trigger] line[i] != '\n' by {
        if i >= blanks.len() {
            assert(line[i] == number[i - blanks.len()]);
        }
    }
    assert(line.last() == number.last());
    lines_end_at_newlines(Seq::empty(), line);
    assert(Seq::<char>::empty() + line + seq!['\n'] =~= line + seq!['\n']);
    assert(lines_in(line + seq!['\n'])[0] == line);
}

} // verus!
