//! What is recorded of the shell commands that agents run.
use crate::paths::{path_of, RepoPath};
use crate::pending::{state_key_of, worktree_state_key};
use crate::repo_state::FileSnapshot;
use crate::rewrite::pair_views;
use crate::text::{clone_opt, opt_view};
use vstd::prelude::*;

verus! {

/// Names and values that came with a call.
pub type Metadata = Vec<(String, String)>;

/// What every message about a call holds.
#[derive(Debug)]
pub struct BashCall {
    pub session_id: String,
    pub tool_use_id: String,
    pub agent_id: String,
    pub metadata: Metadata,
    pub trace_id: String,
    pub at_ns: u128,
    pub command: Option<String>,
}

/// A call that an agent began and that is still known.
#[derive(Debug)]
pub struct BashSession {
    pub session_id: String,
    pub tool_use_id: String,
    pub repo_work_dir: String,
    pub agent_id: String,
    pub metadata: Metadata,
    pub start_trace_id: String,
    pub started_at_ns: u128,
    pub command: Option<String>,
}

/// The start of a call, as it is recorded.
#[derive(Debug)]
pub struct BashCallStart {
    pub original_cwd: String,
    pub repo_work_dir: Option<String>,
    pub repo_discovery_error: Option<String>,
    pub session_id: String,
    pub tool_use_id: String,
    pub agent_id: String,
    pub start_trace_id: String,
    pub started_at_ns: u128,
    pub command: Option<String>,
    pub metadata: Metadata,
}

/// The end of a call, as it is recorded.
#[derive(Debug)]
pub struct BashCallEnd {
    pub original_cwd: String,
    pub repo_work_dir: Option<String>,
    pub repo_discovery_error: Option<String>,
    pub session_id: String,
    pub tool_use_id: String,
    pub agent_id: String,
    pub start_trace_id: Option<String>,
    pub end_trace_id: String,
    pub started_at_ns: Option<u128>,
    pub ended_at_ns: u128,
    pub command: Option<String>,
    pub metadata: Metadata,
}

/// What a hook found where it ran.
#[derive(Debug)]
pub struct BashHookPlace {
    pub original_cwd: String,
    pub discovered_repo_work_dir: Option<String>,
    pub repo_discovery_error: Option<String>,
}

/// The name under which the state of a place is kept.
pub open spec fn key_of(files: FileSnapshot, place: Seq<char>) -> Seq<char> {
    state_key_of(files, path_of(place), place)
}

fn place_key(place: &str, files: &FileSnapshot) -> (r: String)
    ensures
        r@ == key_of(*files, place@),
{
    worktree_state_key(&RepoPath::parse(place), files)
}

fn copy_metadata(list: &Metadata) -> (r: Metadata)
    ensures
        pair_views(r@) == pair_views(list@),
{
    let mut out: Metadata = Vec::new();
    let mut i: usize = 0;
    while i < list.len()
        invariant
            i <= list.len(),
            pair_views(out@) =~= pair_views(list@).take(i as int),
        decreases list.len() - i,
    {
        let ghost was = pair_views(out@);
        out.push((list[i].0.clone(), list[i].1.clone()));
        assert(pair_views(out@) =~= was.push((list@[i as int].0@, list@[i as int].1@)));
        assert(pair_views(list@).take(i + 1) =~= pair_views(list@).take(i as int).push(
            pair_views(list@)[i as int],
        ));
        i += 1;
    }
    assert(pair_views(list@).take(list@.len() as int) =~= pair_views(list@));
    out
}

/// Takes up a call that begins: what is recorded of it, and what is remembered until it
/// ends. Where the agent does not say where it is, it is in the worktree.
pub fn bash_session_start(
    call: BashCall,
    repo_work_dir: &str,
    original_cwd: &Option<String>,
    files: &FileSnapshot,
) -> (r: (BashCallStart, BashSession))
    ensures
        r.0.original_cwd@ == key_of(
            *files,
            match opt_view(*original_cwd) {
                Some(cwd) => cwd,
                None => repo_work_dir@,
            },
        ),
        opt_view(r.0.repo_work_dir) == Some(key_of(*files, repo_work_dir@)),
        r.0.repo_discovery_error is None,
        r.0.session_id@ == call.session_id@,
        r.0.tool_use_id@ == call.tool_use_id@,
        r.0.agent_id@ == call.agent_id@,
        r.0.start_trace_id@ == call.trace_id@,
        r.0.started_at_ns == call.at_ns,
        opt_view(r.0.command) == opt_view(call.command),
        pair_views(r.0.metadata@) == pair_views(call.metadata@),
        r.1.session_id == call.session_id,
        r.1.tool_use_id == call.tool_use_id,
        r.1.repo_work_dir@ == key_of(*files, repo_work_dir@),
        r.1.agent_id == call.agent_id,
        r.1.metadata == call.metadata,
        r.1.start_trace_id == call.trace_id,
        r.1.started_at_ns == call.at_ns,
        r.1.command == call.command,
{
    let key = place_key(repo_work_dir, files);
    let cwd_key = match original_cwd {
        Some(cwd) => place_key(cwd.as_str(), files),
        None => key.clone(),
    };
    let start = BashCallStart {
        original_cwd: cwd_key,
        repo_work_dir: Some(key.clone()),
        repo_discovery_error: None,
        session_id: call.session_id.clone(),
        tool_use_id: call.tool_use_id.clone(),
        agent_id: call.agent_id.clone(),
        start_trace_id: call.trace_id.clone(),
        started_at_ns: call.at_ns,
        command: clone_opt(&call.command),
        metadata: copy_metadata(&call.metadata),
    };
    let session = BashSession {
        session_id: call.session_id,
        tool_use_id: call.tool_use_id,
        repo_work_dir: key,
        agent_id: call.agent_id,
        metadata: call.metadata,
        start_trace_id: call.trace_id,
        started_at_ns: call.at_ns,
        command: call.command,
    };
    (start, session)
}

/// Takes up the end of a call. What is known of its beginning counts, except that a command
/// and details that are told at the end count first.
pub fn bash_session_end(
    call: BashCall,
    repo_work_dir: &str,
    original_cwd: &Option<String>,
    begun: Option<BashSession>,
    files: &FileSnapshot,
) -> (r: BashCallEnd)
    ensures
        ({
            let work_dir = match begun {
                Some(session) => session.repo_work_dir@,
                None => key_of(*files, repo_work_dir@),
            };
            &&& opt_view(r.repo_work_dir) == Some(work_dir)
            &&& r.original_cwd@ == match opt_view(*original_cwd) {
                Some(cwd) => key_of(*files, cwd),
                None => work_dir,
            }
        }),
        r.repo_discovery_error is None,
        r.session_id == call.session_id,
        r.tool_use_id == call.tool_use_id,
        r.end_trace_id == call.trace_id,
        r.ended_at_ns == call.at_ns,
        r.agent_id == (match begun {
            Some(session) => session.agent_id,
            None => call.agent_id,
        }),
        r.start_trace_id == (match begun {
            Some(session) => Some(session.start_trace_id),
            None => None,
        }),
        r.started_at_ns == (match begun {
            Some(session) => Some(session.started_at_ns),
            None => None,
        }),
        r.command == (if call.command is Some {
            call.command
        } else {
            match begun {
                Some(session) => session.command,
                None => None,
            }
        }),
        r.metadata@ == (if call.metadata@.len() > 0 {
            call.metadata@
        } else {
            match begun {
                Some(session) => session.metadata@,
                None => Seq::empty(),
            }
        }),
{
    let cwd_key = match original_cwd {
        Some(cwd) => Some(place_key(cwd.as_str(), files)),
        None => None,
    };
    let (work_dir, agent_id, start_trace_id, started_at_ns, known_command, known_metadata) =
        match begun {
        Some(session) => (
            session.repo_work_dir,
            session.agent_id,
            Some(session.start_trace_id),
            Some(session.started_at_ns),
            session.command,
            session.metadata,
        ),
        None => {
            let none: Metadata = Vec::new();
            assert(none@ =~= Seq::empty());
            (place_key(repo_work_dir, files), call.agent_id, None, None, None, none)
        },
    };
    let command = if call.command.is_some() {
        call.command
    } else {
        known_command
    };
    let metadata = if call.metadata.len() > 0 {
        call.metadata
    } else {
        known_metadata
    };
    BashCallEnd {
        original_cwd: match cwd_key {
            Some(key) => key,
            None => work_dir.clone(),
        },
        repo_work_dir: Some(work_dir),
        repo_discovery_error: None,
        session_id: call.session_id,
        tool_use_id: call.tool_use_id,
        agent_id,
        start_trace_id,
        end_trace_id: call.trace_id,
        started_at_ns,
        ended_at_ns: call.at_ns,
        command,
        metadata,
    }
}

fn discovered_key(place: &BashHookPlace, files: &FileSnapshot) -> (r: Option<String>)
    ensures
        opt_view(r) == (match opt_view(place.discovered_repo_work_dir) {
            Some(dir) => Some(key_of(*files, dir)),
            None => None,
        }),
{
    match &place.discovered_repo_work_dir {
        Some(dir) => Some(place_key(dir.as_str(), files)),
        None => None,
    }
}

/// The start of a call, as a hook tells of it.
pub fn bash_hook_start(call: BashCall, place: BashHookPlace, files: &FileSnapshot) -> (r:
    BashCallStart)
    ensures
        r.original_cwd@ == key_of(*files, place.original_cwd@),
        opt_view(r.repo_work_dir) == (match opt_view(place.discovered_repo_work_dir) {
            Some(dir) => Some(key_of(*files, dir)),
            None => None,
        }),
        r.repo_discovery_error == place.repo_discovery_error,
        r.session_id == call.session_id,
        r.tool_use_id == call.tool_use_id,
        r.agent_id == call.agent_id,
        r.start_trace_id == call.trace_id,
        r.started_at_ns == call.at_ns,
        r.command == call.command,
        r.metadata == call.metadata,
{
    let repo_work_dir = discovered_key(&place, files);
    BashCallStart {
        original_cwd: place_key(place.original_cwd.as_str(), files),
        repo_work_dir,
        repo_discovery_error: place.repo_discovery_error,
        session_id: call.session_id,
        tool_use_id: call.tool_use_id,
        agent_id: call.agent_id,
        start_trace_id: call.trace_id,
        started_at_ns: call.at_ns,
        command: call.command,
        metadata: call.metadata,
    }
}

/// The end of a call, as a hook tells of it; of its beginning nothing is known.
pub fn bash_hook_end(call: BashCall, place: BashHookPlace, files: &FileSnapshot) -> (r: BashCallEnd)
    ensures
        r.original_cwd@ == key_of(*files, place.original_cwd@),
        opt_view(r.repo_work_dir) == (match opt_view(place.discovered_repo_work_dir) {
            Some(dir) => Some(key_of(*files, dir)),
            None => None,
        }),
        r.repo_discovery_error == place.repo_discovery_error,
        r.session_id == call.session_id,
        r.tool_use_id == call.tool_use_id,
        r.agent_id == call.agent_id,
        r.start_trace_id is None,
        r.end_trace_id == call.trace_id,
        r.started_at_ns is None,
        r.ended_at_ns == call.at_ns,
        r.command == call.command,
        r.metadata == call.metadata,
{
    let repo_work_dir = discovered_key(&place, files);
    BashCallEnd {
        original_cwd: place_key(place.original_cwd.as_str(), files),
        repo_work_dir,
        repo_discovery_error: place.repo_discovery_error,
        session_id: call.session_id,
        tool_use_id: call.tool_use_id,
        agent_id: call.agent_id,
        start_trace_id: None,
        end_trace_id: call.trace_id,
        started_at_ns: None,
        ended_at_ns: call.at_ns,
        command: call.command,
        metadata: call.metadata,
    }
}

} // verus!
