use vstd::prelude::*;

use super::jsonl::SessionMeta;
use super::tab_session::{encode_cwd, project_name, ClaudeSession, ClaudeStatus, SessionModel};
use crate::pty::spawn::{base_name, file_name};
use crate::text::{joined, joined3};

verus! {

/// A session is at work as long as its file was changed within this time, in nanoseconds.
pub const ACTIVE_THRESHOLD_NANOS: u128 = 30_000_000_000;

/// How long a topic can be, in characters.
pub const MAX_TOPIC_CHARS: usize = 100;

/// Asks for the session below a shell.
#[derive(Debug, Clone, Copy)]
pub struct TabScanRequest {
    pub shell_pid: u32,
}

/// The session below a shell.
#[derive(Debug)]
pub struct TabScanResult {
    pub shell_pid: u32,
    pub session: Option<ClaudeSession>,
}

/// The status of a session by the time since its file was changed, where that is known.
pub fn status_for(elapsed_nanos: Option<u128>) -> (status: ClaudeStatus)
    ensures
        status == (match elapsed_nanos {
            Some(nanos) => if nanos < ACTIVE_THRESHOLD_NANOS {
                ClaudeStatus::Working
            } else {
                ClaudeStatus::Idle
            },
            None => ClaudeStatus::Idle,
        }),
        status == ClaudeStatus::Working <==> (elapsed_nanos matches Some(nanos) && nanos
            / 1_000_000_000 < 30),
{
    match elapsed_nanos {
        Some(nanos) => if nanos < ACTIVE_THRESHOLD_NANOS {
            ClaudeStatus::Working
        } else {
            ClaudeStatus::Idle
        },
        None => ClaudeStatus::Idle,
    }
}

/// The directory in which a tool keeps its projects.
pub fn projects_dir(home: &str, tool: &str) -> (dir: String)
    ensures
        dir@ == home@ + "/."@ + tool@ + "/projects"@,
{
    joined(joined3(home, "/.", tool).as_str(), "/projects")
}

/// The name of a session's file.
pub fn session_file_name(session_id: &str) -> (name: String)
    ensures
        name@ == session_id@ + ".jsonl"@,
{
    joined(session_id, ".jsonl")
}

/// Where a session's file is expected, where the working directory is known.
pub fn direct_path(projects_dir: &str, session_id: &str, cwd: &str) -> (path: Option<String>)
    ensures
        match path {
            Some(s) => cwd@.len() > 0 && s@ == projects_dir@ + "/"@ + project_name(cwd@) + "/"@ + (
            session_id@ + ".jsonl"@),
            None => cwd@.len() == 0,
        },
{
    if cwd.is_empty() {
        return None;
    }
    let dir = joined3(projects_dir, "/", encode_cwd(cwd).as_str());
    Some(joined3(dir.as_str(), "/", session_file_name(session_id).as_str()))
}

/// The session that was found for a process; its project is the last part of its directory.
pub fn found_session(
    pid: u32,
    session_id: String,
    cwd: String,
    status: ClaudeStatus,
    meta: SessionMeta,
) -> (session: ClaudeSession)
    ensures
        session@ == (SessionModel {
            pid,
            session_id: session_id@,
            status,
            context_pct: meta.context_pct,
            topic: meta.topic@,
            git_branch: meta.git_branch@,
            project: base_name(cwd@),
            cwd: cwd@,
        }),
{
    let project = file_name(cwd.as_str());
    ClaudeSession {
        pid,
        session_id,
        status,
        context_pct: meta.context_pct,
        topic: meta.topic,
        git_branch: meta.git_branch,
        project,
        cwd,
    }
}

} // verus!
