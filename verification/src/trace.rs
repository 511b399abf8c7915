//! Frames of git's trace: which process they come from, which command it runs,
//! and where.
use crate::paths::{path_file_name, path_join, path_of, path_parent, PathModel, RepoPath};
use crate::repo_state::{worktree_root_for_path, worktree_root_of, FileSnapshot};
use crate::text::{
    before_first, before_first_of, chars_of, clone_opt, clone_strings, contains_char,
    has_prefix, has_suffix, opt_is, opt_view, parse_unsigned, read_unsigned, starts_with, str_eq,
    strip_prefix, strip_prefix_of, trim, trim_of, views,
};
use vstd::prelude::*;

verus! {

/// The event that marks a closed connection.
pub const TRACE_CONNECTION_CLOSED_EVENT: &'static str = "git_ai_connection_closed";

/// The event with which the daemon probes its own trace socket.
pub const TRACE_DRAIN_PROBE_EVENT: &'static str = "git_ai_drain_probe";

/// A field that may hold something other than text.
#[derive(Debug)]
pub enum TextField {
    Absent,
    NotText,
    Text(String),
}

/// The number under which a frame is worked off. A frame may say something else in its place.
#[derive(Debug, Clone, Copy, PartialEq, Eq, Structural)]
pub enum SeqField {
    Absent,
    NotNumber,
    Number(u64),
}

/// What the daemon reads of a trace frame, and what it writes back on it.
#[derive(Debug)]
pub struct TracePayload {
    pub event: Option<String>,
    pub sid: Option<String>,
    pub name: Option<String>,
    pub argv: Vec<String>,
    pub worktree: TextField,
    pub repo_working_dir: Option<String>,
    pub repo: Option<String>,
    /// Whether a `def_repo` frame speaks of another repository than the command's own.
    pub secondary_repo: bool,
    pub cwd: Option<String>,
    pub time: Option<String>,
    pub time_ns: Option<u64>,
    pub ts: Option<u64>,
    /// The time of a frame that gives it in seconds, as nanoseconds.
    pub abs_ns: Option<u128>,
    pub probe_id: Option<u64>,
    pub ingest_seq: SeqField,
    pub reflog_start_offsets: Option<Vec<(String, u64)>>,
    /// The frame as it was received.
    pub raw: String,
}

/// A git command line, taken apart: options before the command, the command,
/// and what follows it.
#[derive(Debug)]
pub struct ParsedGitInvocation {
    pub global_args: Vec<String>,
    pub command: Option<String>,
    pub command_args: Vec<String>,
}

/// The text of an optional field, or nothing.
pub open spec fn text_or_empty(o: Option<Seq<char>>) -> Seq<char> {
    match o {
        Some(s) => s,
        None => Seq::empty(),
    }
}

impl TextField {
    /// The text that the field holds.
    pub open spec fn text(self) -> Option<Seq<char>> {
        match self {
            TextField::Text(s) => Some(s@),
            _ => None,
        }
    }
}

/// Whether a frame has an event at all.
pub fn is_trace_payload(payload: &TracePayload) -> (r: bool)
    ensures
        r == (payload.event is Some),
{
    payload.event.is_some()
}

/// The session id of the process that a trace started with: what stands before the first slash.
pub open spec fn root_sid_of(sid: Seq<char>) -> Seq<char> {
    before_first_of(sid, '/')
}

/// The session id of the process that a trace started with.
pub fn trace_root_sid(sid: &str) -> (r: String)
    ensures
        r@ == root_sid_of(sid@),
{
    before_first(sid, '/')
}

proof fn lemma_before_first_is_stable(s: Seq<char>, c: char)
    ensures
        !before_first_of(s, c).contains(c),
        before_first_of(before_first_of(s, c), c) == before_first_of(s, c),
    decreases s.len(),
{
    if s.len() > 0 && s[0] != c {
        lemma_before_first_is_stable(s.skip(1), c);
        let rest = before_first_of(s.skip(1), c);
        let whole = before_first_of(s, c);
        assert(whole =~= seq![s[0]] + rest);
        assert(whole.skip(1) =~= rest);
        if whole.contains(c) {
            let i = whole.index_of(c);
            assert(whole[i] == c);
            if i > 0 {
                assert(rest[i - 1] == c);
            }
        }
    } else {
        assert(before_first_of(s, c) =~= Seq::<char>::empty());
    }
}

/// A root's session id is its own root.
pub proof fn law_root_sid_is_its_own_root(sid: Seq<char>)
    ensures
        root_sid_of(root_sid_of(sid)) == root_sid_of(sid),
{
    lemma_before_first_is_stable(sid, '/');
}

/// Where `-P` occurs last.
pub open spec fn last_pid_mark(s: Seq<char>, i: int) -> bool {
    &&& 0 <= i
    &&& i + 2 <= s.len()
    &&& s[i] == '-'
    &&& s[i + 1] == 'P'
    &&& forall|j: int| i < j && j + 2 <= s.len() ==> !(#[trigger] s[j] == '-' && s[j + 1] == 'P')
}

/// The process id in a session id: the hexadecimal number behind the last `-P` of its root.
pub open spec fn sid_pid(sid: Seq<char>) -> Option<nat> {
    let root = root_sid_of(sid);
    if exists|i: int| last_pid_mark(root, i) {
        let i = choose|i: int| last_pid_mark(root, i);
        parse_unsigned(root.skip(i + 2), 16, u32::MAX as nat)
    } else {
        None
    }
}

/// The process id in a session id.
pub fn trace_sid_pid(sid: &str) -> (r: Option<u32>)
    ensures
        r is Some <==> sid_pid(sid@) is Some,
        r is Some ==> r->0 == sid_pid(sid@)->0,
{
    let root = trace_root_sid(sid);
    let cs = chars_of(root.as_str());
    let n: usize = cs.len();
    if n < 2 {
        assert(forall|i: int| !last_pid_mark(root@, i));
        return None;
    }
    let mut i: usize = n - 1;
    while i > 0
        invariant
            i < n,
            n == cs@.len(),
            cs@ == root@,
            root@ == root_sid_of(sid@),
            forall|j: int|
                i <= j && j + 2 <= cs@.len() ==> !(#[trigger] cs@[j] == '-' && cs@[j + 1] == 'P'),
        decreases i,
    {
        i -= 1;
        if cs[i] == '-' && cs[i + 1] == 'P' {
            assert(last_pid_mark(root@, i as int));
            assert forall|j: int| last_pid_mark(root@, j) implies j == i by {
                assert(root@[j] == '-' && root@[j + 1] == 'P');
                assert(root@[i as int] == '-');
            }
            let digits = root.as_str().substring_char(i + 2, n);
            assert(digits@ =~= root@.skip(i + 2));
            return match read_unsigned(digits, 16, u32::MAX as u64) {
                Some(v) => Some(v as u32),
                None => None,
            };
        }
    }
    assert forall|j: int| !last_pid_mark(root@, j) by {
        if last_pid_mark(root@, j) {
            assert(cs@[j] == '-');
        }
    }
    None
}

/// Whether a frame is the last one of its root: the root's own `atexit`.
pub fn is_terminal_root_trace_event(event: &str, sid: &str, root: &str) -> (r: bool)
    ensures
        r == (sid@ == root@ && event@ == "atexit"@),
{
    str_eq(sid, root) && str_eq(event, "atexit")
}

/// The worktree that a repository's path leads to: the directory of a `.git`,
/// or of the `.git` that a linked worktree's `gitdir` names.
pub open spec fn worktree_of_repo(files: FileSnapshot, repo: PathModel) -> Option<PathModel> {
    if path_file_name(repo) == Some(".git"@) {
        path_parent(repo)
    } else {
        match files.text_at(crate::paths::path_child(repo, "gitdir"@)) {
            Some(text) => {
                let linked = path_of(trim_of(text));
                if path_file_name(linked) == Some(".git"@) {
                    path_parent(linked)
                } else {
                    None
                }
            },
            None => None,
        }
    }
}

/// The worktree that a repository's path leads to.
pub fn daemon_worktree_from_repo_path(repo: &RepoPath, files: &FileSnapshot) -> (r: Option<
    RepoPath,
>)
    ensures
        r is Some <==> worktree_of_repo(*files, repo@) is Some,
        r is Some ==> r->0@ == worktree_of_repo(*files, repo@)->0,
        r is Some && repo.wf() ==> r->0.wf(),
{
    if opt_is(&repo.file_name(), ".git") {
        return repo.parent();
    }
    match files.text(&repo.child("gitdir")) {
        Some(text) => {
            let linked = RepoPath::parse(trim(text.as_str()).as_str());
            if opt_is(&linked.file_name(), ".git") {
                linked.parent()
            } else {
                None
            }
        },
        None => None,
    }
}

/// The directory that the `-C` options among `globals` from `i` on lead to, from `base`.
pub open spec fn base_dir_from(globals: Seq<Seq<char>>, i: int, base: PathModel) -> Option<PathModel>
    decreases globals.len() - i,
{
    if i < 0 || i >= globals.len() {
        Some(base)
    } else if globals[i] == "-C"@ {
        if i + 1 >= globals.len() {
            None
        } else {
            base_dir_from(globals, i + 2, path_join(base, path_of(globals[i + 1])))
        }
    } else {
        match strip_prefix_of(globals[i], "-C"@) {
            Some(dir) => base_dir_from(globals, i + 1, path_join(base, path_of(dir))),
            None => base_dir_from(globals, i + 1, base),
        }
    }
}

/// The directory that a command runs in: its working directory, moved by its `-C` options.
pub fn trace_payload_command_base_dir(parsed: &ParsedGitInvocation, cwd: &RepoPath) -> (r: Option<
    RepoPath,
>)
    ensures
        r is Some <==> base_dir_from(views(parsed.global_args@), 0, cwd@) is Some,
        r is Some ==> r->0@ == base_dir_from(views(parsed.global_args@), 0, cwd@)->0,
        r is Some && cwd.wf() ==> r->0.wf(),
{
    let ghost all = views(parsed.global_args@);
    let mut base = cwd.copy();
    let mut i: usize = 0;
    while i < parsed.global_args.len()
        invariant
            i <= parsed.global_args.len(),
            all == views(parsed.global_args@),
            base_dir_from(all, 0, cwd@) == base_dir_from(all, i as int, base@),
            cwd.wf() ==> base.wf(),
        decreases parsed.global_args.len() - i,
    {
        let token = parsed.global_args[i].as_str();
        assert(all[i as int] == token@);
        if str_eq(token, "-C") {
            if i + 1 >= parsed.global_args.len() {
                return None;
            }
            assert(all[i + 1] == parsed.global_args@[i + 1]@);
            base = base.join(&RepoPath::parse(parsed.global_args[i + 1].as_str()));
            i += 2;
            continue;
        }
        match strip_prefix(token, "-C") {
            Some(dir) => {
                base = base.join(&RepoPath::parse(dir.as_str()));
            },
            None => {},
        }
        i += 1;
    }
    Some(base)
}

/// The absolute directory that the first `-C` among `globals` from `i` on names.
pub open spec fn first_absolute_dir(globals: Seq<Seq<char>>, i: int) -> Option<PathModel>
    decreases globals.len() - i,
{
    if i < 0 || i >= globals.len() {
        None
    } else {
        let named = if globals[i] == "-C"@ {
            if i + 1 < globals.len() {
                Some(globals[i + 1])
            } else {
                None
            }
        } else {
            strip_prefix_of(globals[i], "-C"@)
        };
        if has_prefix(globals[i], "-C"@) {
            if named is Some && path_of(named->0).0 {
                Some(path_of(named->0))
            } else {
                None
            }
        } else {
            first_absolute_dir(globals, i + 1)
        }
    }
}

fn absolute_dir_option(parsed: &ParsedGitInvocation) -> (r: Option<RepoPath>)
    ensures
        r is Some <==> first_absolute_dir(views(parsed.global_args@), 0) is Some,
        r is Some ==> r->0@ == first_absolute_dir(views(parsed.global_args@), 0)->0 && r->0.wf(),
{
    let ghost all = views(parsed.global_args@);
    let mut i: usize = 0;
    while i < parsed.global_args.len()
        invariant
            i <= parsed.global_args.len(),
            all == views(parsed.global_args@),
            first_absolute_dir(all, 0) == first_absolute_dir(all, i as int),
        decreases parsed.global_args.len() - i,
    {
        let token = parsed.global_args[i].as_str();
        assert(all[i as int] == token@);
        if str_eq(token, "-C") {
            assert(has_prefix("-C"@, "-C"@)) by {
                assert("-C"@.subrange(0, "-C"@.len() as int) =~= "-C"@);
            }
            if i + 1 >= parsed.global_args.len() {
                return None;
            }
            assert(all[i + 1] == parsed.global_args@[i + 1]@);
            let candidate = RepoPath::parse(parsed.global_args[i + 1].as_str());
            return if candidate.is_absolute() {
                Some(candidate)
            } else {
                None
            };
        }
        match strip_prefix(token, "-C") {
            Some(dir) => {
                let candidate = RepoPath::parse(dir.as_str());
                return if candidate.is_absolute() {
                    Some(candidate)
                } else {
                    None
                };
            },
            None => {},
        }
        i += 1;
    }
    None
}

/// The directory that a frame points at, before it is moved up to its worktree.
pub open spec fn raw_hint_of(
    payload: TracePayload,
    globals: Seq<Seq<char>>,
    files: FileSnapshot,
) -> Option<PathModel> {
    let def_repo = opt_view(payload.event) == Some("def_repo"@);
    let named = match payload.worktree {
        TextField::Absent => opt_view(payload.repo_working_dir),
        other => other.text(),
    };
    let by_repo = match opt_view(payload.repo) {
        Some(repo) => worktree_of_repo(files, path_of(repo)),
        None => None,
    };
    let by_cwd = match opt_view(payload.cwd) {
        Some(cwd) => base_dir_from(globals, 0, path_of(cwd)),
        None => None,
    };
    if def_repo && payload.secondary_repo {
        None
    } else if def_repo && named is Some {
        Some(path_of(named->0))
    } else if def_repo && by_repo is Some {
        by_repo
    } else if payload.worktree.text() is Some {
        Some(path_of(payload.worktree.text()->0))
    } else if by_cwd is Some {
        by_cwd
    } else {
        first_absolute_dir(globals, 0)
    }
}

/// The worktree that `p` lies in, or `p` itself.
pub open spec fn at_worktree_root(files: FileSnapshot, p: PathModel) -> PathModel {
    match worktree_root_of(files, p) {
        Some(root) => root,
        None => p,
    }
}

/// The worktree that a frame points at.
pub open spec fn worktree_hint_of(
    payload: TracePayload,
    globals: Seq<Seq<char>>,
    files: FileSnapshot,
) -> Option<PathModel> {
    match raw_hint_of(payload, globals, files) {
        Some(p) => Some(at_worktree_root(files, p)),
        None => None,
    }
}

fn normalized(path: RepoPath, files: &FileSnapshot) -> (r: RepoPath)
    ensures
        r@ == at_worktree_root(*files, path@),
        path.wf() ==> r.wf(),
{
    match worktree_root_for_path(&path, files) {
        Some(root) => root,
        None => path,
    }
}

/// The worktree that a frame points at: the one it names, or the one that the
/// command's directory lies in. A frame about another repository that git only
/// looked into points at none.
pub fn trace_payload_worktree_hint(
    payload: &TracePayload,
    parsed: &ParsedGitInvocation,
    files: &FileSnapshot,
) -> (r: Option<RepoPath>)
    ensures
        r is Some <==> worktree_hint_of(*payload, views(parsed.global_args@), *files) is Some,
        r is Some ==> r->0@ == worktree_hint_of(*payload, views(parsed.global_args@), *files)->0
            && r->0.wf(),
{
    if opt_is(&payload.event, "def_repo") {
        if payload.secondary_repo {
            return None;
        }
        let named: Option<String> = match &payload.worktree {
            TextField::Absent => clone_opt(&payload.repo_working_dir),
            TextField::NotText => None,
            TextField::Text(text) => Some(text.clone()),
        };
        if let Some(text) = named {
            return Some(normalized(RepoPath::parse(text.as_str()), files));
        }
        if let Some(repo) = &payload.repo {
            match daemon_worktree_from_repo_path(&RepoPath::parse(repo.as_str()), files) {
                Some(worktree) => {
                    return Some(normalized(worktree, files));
                },
                None => {},
            }
        }
    }
    if let TextField::Text(text) = &payload.worktree {
        return Some(normalized(RepoPath::parse(text.as_str()), files));
    }
    if let Some(cwd) = &payload.cwd {
        match trace_payload_command_base_dir(parsed, &RepoPath::parse(cwd.as_str())) {
            Some(base) => {
                return Some(normalized(base, files));
            },
            None => {},
        }
    }
    match absolute_dir_option(parsed) {
        Some(dir) => Some(normalized(dir, files)),
        None => None,
    }
}

/// The nanoseconds since the epoch that an RFC 3339 timestamp denotes, when it is one and they fit.
pub uninterp spec fn rfc3339_nanos(text: Seq<char>) -> Option<i64>;

/// `chrono::DateTime::parse_from_rfc3339`, with the result as nanoseconds since
/// the epoch: nothing when `value` is no such timestamp or lies outside what
/// `timestamp_nanos_opt` can express. The result depends on the text alone.
#[verifier::external_body]
fn parse_rfc3339(value: &str) -> (r: Option<i64>)
    ensures
        r == rfc3339_nanos(value@),
{
    chrono::DateTime::parse_from_rfc3339(value).ok().and_then(|parsed| parsed.timestamp_nanos_opt())
}

/// Nanoseconds since the epoch as an unsigned number; a time before it is none.
pub open spec fn since_epoch(nanos: Option<i64>) -> Option<u128> {
    match nanos {
        Some(n) => if n >= 0 {
            Some(n as u128)
        } else {
            None
        },
        None => None,
    }
}

/// Nanoseconds since the epoch as an unsigned number; a time before it is none.
pub fn unsigned_nanos(nanos: Option<i64>) -> (r: Option<u128>)
    ensures
        r == since_epoch(nanos),
{
    match nanos {
        Some(n) => if n >= 0 {
            Some(n as u128)
        } else {
            None
        },
        None => None,
    }
}

/// The nanoseconds since the epoch of an RFC 3339 timestamp.
pub fn rfc3339_to_unix_nanos(value: &str) -> (r: Option<u128>)
    ensures
        r == since_epoch(rfc3339_nanos(value@)),
{
    unsigned_nanos(parse_rfc3339(value))
}

/// When a frame was written, given what its `time` text denotes: by that, else
/// by its counters, in the order in which they are trusted.
pub open spec fn time_ns_with(payload: TracePayload, by_text: Option<u128>) -> Option<u128> {
    if by_text is Some {
        by_text
    } else if payload.time_ns is Some {
        Some(payload.time_ns->0 as u128)
    } else if payload.ts is Some {
        Some(payload.ts->0 as u128)
    } else {
        payload.abs_ns
    }
}

/// When a frame was written.
pub open spec fn time_ns_of(payload: TracePayload) -> Option<u128> {
    time_ns_with(
        payload,
        match opt_view(payload.time) {
            Some(text) => since_epoch(rfc3339_nanos(text)),
            None => None,
        },
    )
}

/// When a frame was written, given what its `time` text denotes.
pub fn payload_time_with(payload: &TracePayload, by_text: Option<u128>) -> (r: Option<u128>)
    ensures
        r == time_ns_with(*payload, by_text),
{
    if by_text.is_some() {
        return by_text;
    }
    if let Some(ns) = payload.time_ns {
        return Some(ns as u128);
    }
    if let Some(ts) = payload.ts {
        return Some(ts as u128);
    }
    payload.abs_ns
}

/// When a frame was written.
pub fn trace_payload_time_ns(payload: &TracePayload) -> (r: Option<u128>)
    ensures
        r == time_ns_of(*payload),
{
    let by_text: Option<u128> = match &payload.time {
        Some(text) => rfc3339_to_unix_nanos(text.as_str()),
        None => None,
    };
    payload_time_with(payload, by_text)
}

/// Whether the first word of a command line is git itself.
pub open spec fn is_git_program(word: Seq<char>) -> bool {
    path_file_name(path_of(word)) == Some("git"@) || path_file_name(path_of(word)) == Some(
        "git.exe"@,
    )
}

/// Where the arguments of a git command line start.
pub open spec fn args_start(argv: Seq<Seq<char>>) -> int {
    if argv.len() > 0 && is_git_program(argv[0]) {
        1
    } else {
        0
    }
}

/// The options that take the next word as their value.
pub open spec fn takes_next_word(word: Seq<char>) -> bool {
    ||| word == "-C"@
    ||| word == "-c"@
    ||| word == "--config-env"@
    ||| word == "--git-dir"@
    ||| word == "--work-tree"@
    ||| word == "--namespace"@
    ||| word == "--super-prefix"@
    ||| word == "--exec-path"@
    ||| word == "--worktree-attributes"@
    ||| word == "--attr-source"@
}

/// The first word from `i` on that is neither an option nor an option's value.
pub open spec fn command_word(argv: Seq<Seq<char>>, i: int) -> Option<Seq<char>>
    decreases argv.len() + 1 - i,
{
    if i < 0 || i >= argv.len() {
        None
    } else if takes_next_word(argv[i]) {
        command_word(argv, i + 2)
    } else if argv[i].len() > 0 && argv[i][0] == '-' {
        command_word(argv, i + 1)
    } else {
        Some(argv[i])
    }
}

/// The command that a command line runs.
pub open spec fn primary_of(argv: Seq<Seq<char>>) -> Option<Seq<char>> {
    command_word(argv, args_start(argv))
}

fn starts_at(argv: &Vec<String>) -> (r: usize)
    ensures
        r == args_start(views(argv@)),
        r <= argv.len(),
{
    if argv.len() == 0 {
        return 0;
    }
    assert(views(argv@)[0] == argv@[0]@);
    let name = RepoPath::parse(argv[0].as_str()).file_name();
    if opt_is(&name, "git") || opt_is(&name, "git.exe") {
        1
    } else {
        0
    }
}

fn option_takes_next_word(word: &str) -> (r: bool)
    ensures
        r == takes_next_word(word@),
{
    str_eq(word, "-C") || str_eq(word, "-c") || str_eq(word, "--config-env") || str_eq(
        word,
        "--git-dir",
    ) || str_eq(word, "--work-tree") || str_eq(word, "--namespace") || str_eq(
        word,
        "--super-prefix",
    ) || str_eq(word, "--exec-path") || str_eq(word, "--worktree-attributes") || str_eq(
        word,
        "--attr-source",
    )
}

/// The command that a command line runs.
pub fn trace_argv_primary_command(argv: &Vec<String>) -> (r: Option<String>)
    ensures
        opt_view(r) == primary_of(views(argv@)),
{
    let ghost all = views(argv@);
    let mut i: usize = starts_at(argv);
    let n: usize = argv.len();
    while i < n
        invariant
            0 <= i,
            n == argv.len(),
            all == views(argv@),
            primary_of(all) == command_word(all, i as int),
        decreases n - i,
    {
        let word = argv[i].as_str();
        assert(all[i as int] == word@);
        if option_takes_next_word(word) {
            if n - i < 2 {
                assert(command_word(all, i + 2) is None);
                return None;
            }
            i += 2;
            continue;
        }
        if word.unicode_len() > 0 && word.get_char(0) == '-' {
            i += 1;
            continue;
        }
        return Some(argv[i].clone());
    }
    None
}

/// The name that a frame gives its command.
pub fn trace_payload_cmd_name(payload: &TracePayload) -> (r: Option<String>)
    ensures
        r == payload.name,
{
    clone_opt(&payload.name)
}

/// The command that a frame speaks of: by name, or by its command line.
pub open spec fn payload_primary_of(payload: TracePayload) -> Option<Seq<char>> {
    match opt_view(payload.name) {
        Some(name) => Some(name),
        None => primary_of(views(payload.argv@)),
    }
}

/// The command that a frame speaks of.
pub fn trace_payload_primary_command(payload: &TracePayload) -> (r: Option<String>)
    ensures
        opt_view(r) == payload_primary_of(*payload),
{
    match trace_payload_cmd_name(payload) {
        Some(name) => Some(name),
        None => trace_argv_primary_command(&payload.argv),
    }
}

/// Whether a command works in a repository that it makes, and not in the one around it.
pub open spec fn makes_its_repo(primary: Option<Seq<char>>) -> bool {
    primary == Some("clone"@) || primary == Some("init"@)
}

/// Whether a command works in a repository that it makes.
pub fn trace_command_uses_target_repo_context_only(primary: &Option<String>) -> (r: bool)
    ensures
        r == makes_its_repo(opt_view(*primary)),
{
    opt_is(primary, "clone") || opt_is(primary, "init")
}

/// The arguments of a git command line.
pub open spec fn invocation_of(argv: Seq<Seq<char>>) -> Seq<Seq<char>> {
    argv.skip(args_start(argv))
}

/// The arguments of a git command line, without git itself.
pub fn trace_invocation_args(argv: &Vec<String>) -> (r: Vec<String>)
    ensures
        views(r@) == invocation_of(views(argv@)),
{
    rest_from(argv, starts_at(argv))
}

/// The words from `from` on.
pub fn rest_from(argv: &Vec<String>, from: usize) -> (r: Vec<String>)
    requires
        from <= argv.len(),
    ensures
        views(r@) == views(argv@).skip(from as int),
{
    let ghost all = views(argv@);
    let mut out: Vec<String> = Vec::new();
    let mut i: usize = from;
    assert(views(out@) =~= all.subrange(from as int, from as int));
    while i < argv.len()
        invariant
            from <= i <= argv.len(),
            all == views(argv@),
            views(out@) == all.subrange(from as int, i as int),
        decreases argv.len() - i,
    {
        let ghost before = views(out@);
        out.push(argv[i].clone());
        assert(views(out@) =~= before.push(all[i as int]));
        assert(views(out@) =~= all.subrange(from as int, i + 1));
        i += 1;
    }
    assert(all.subrange(from as int, all.len() as int) =~= all.skip(from as int));
    out
}

/// What follows the first occurrence of `word`.
pub open spec fn after_word(words: Seq<Seq<char>>, word: Seq<char>) -> Seq<Seq<char>> {
    if words.contains(word) {
        words.skip(words.index_of_first(word)->0 + 1)
    } else {
        Seq::empty()
    }
}

/// The arguments of the command itself: as the command line was taken apart,
/// when that found the same command, and otherwise what follows its first mention.
pub open spec fn command_args_of(
    primary: Option<Seq<char>>,
    argv: Seq<Seq<char>>,
    parsed: ParsedGitInvocation,
) -> Seq<Seq<char>> {
    if opt_view(parsed.command) == primary {
        views(parsed.command_args@)
    } else {
        match primary {
            Some(word) => after_word(invocation_of(argv), word),
            None => Seq::empty(),
        }
    }
}

/// The arguments of the command itself.
pub fn trace_invocation_command_args(
    primary: &Option<String>,
    argv: &Vec<String>,
    parsed: &ParsedGitInvocation,
) -> (r: Vec<String>)
    ensures
        views(r@) == command_args_of(opt_view(*primary), views(argv@), *parsed),
{
    let same = match (primary, &parsed.command) {
        (Some(a), Some(b)) => str_eq(a.as_str(), b.as_str()),
        (None, None) => true,
        _ => false,
    };
    if same {
        return clone_strings(&parsed.command_args);
    }
    match primary {
        None => {
            let none: Vec<String> = Vec::new();
            assert(views(none@) =~= Seq::<Seq<char>>::empty());
            none
        },
        Some(word) => {
            let invocation = trace_invocation_args(argv);
            let ghost all = views(invocation@);
            let mut i: usize = 0;
            while i < invocation.len()
                invariant
                    i <= invocation.len(),
                    all == views(invocation@),
                    all == invocation_of(views(argv@)),
                    *primary == Some(*word),
                    opt_view(parsed.command) != opt_view(*primary),
                    forall|j: int| 0 <= j < i ==> all[j] != word@,
                decreases invocation.len() - i,
            {
                if str_eq(invocation[i].as_str(), word.as_str()) {
                    assert(all[i as int] == word@);
                    proof {
                        all.index_of_first_ensures(word@);
                        assert(all.index_of_first(word@)->0 == i);
                    }
                    return rest_from(&invocation, i + 1);
                }
                assert(all[i as int] != word@);
                i += 1;
            }
            let none: Vec<String> = Vec::new();
            assert(!all.contains(word@));
            assert(views(none@) =~= Seq::<Seq<char>>::empty());
            none
        },
    }
}

/// Whether one pathspec covers a file: it names the file, or a directory above it.
pub open spec fn pathspec_covers(pathspec: Seq<char>, file: Seq<char>) -> bool {
    ||| file == pathspec
    ||| has_suffix(pathspec, "/"@) && has_prefix(file, pathspec)
    ||| has_prefix(file, pathspec + "/"@)
}

/// Whether one of the pathspecs covers a file.
pub open spec fn any_pathspec_covers(pathspecs: Seq<Seq<char>>, file: Seq<char>) -> bool {
    exists|i: int| 0 <= i < pathspecs.len() && pathspec_covers(#[trigger] pathspecs[i], file)
}

/// Whether one of the pathspecs covers a file.
pub fn matches_any_pathspec(file: &str, pathspecs: &Vec<String>) -> (r: bool)
    ensures
        r == any_pathspec_covers(views(pathspecs@), file@),
{
    let ghost all = views(pathspecs@);
    let mut i: usize = 0;
    while i < pathspecs.len()
        invariant
            i <= pathspecs.len(),
            all == views(pathspecs@),
            forall|j: int| 0 <= j < i ==> !pathspec_covers(#[trigger] all[j], file@),
        decreases pathspecs.len() - i,
    {
        let spec_text = pathspecs[i].as_str();
        let mut dir: String = spec_text.to_owned();
        dir.append("/");
        assert(all[i as int] == spec_text@);
        if str_eq(file, spec_text) || (crate::text::ends_with(spec_text, "/") && starts_with(
            file,
            spec_text,
        )) || starts_with(file, dir.as_str()) {
            assert(pathspec_covers(all[i as int], file@));
            return true;
        }
        i += 1;
    }
    false
}

/// The events that the daemon makes use of.
pub open spec fn is_ingested_event(event: Seq<char>) -> bool {
    ||| event == "start"@
    ||| event == "def_repo"@
    ||| event == "cmd_name"@
    ||| event == "def_param"@
    ||| event == "exit"@
    ||| event == "atexit"@
}

/// Whether a reader keeps a frame of this event: one that the daemon makes use
/// of, or a probe.
pub fn reader_should_ingest_trace_event(event: &str) -> (r: bool)
    ensures
        r == (event@ == TRACE_DRAIN_PROBE_EVENT@ || is_ingested_event(event@)),
{
    str_eq(event, TRACE_DRAIN_PROBE_EVENT) || str_eq(event, "start") || str_eq(event, "def_repo")
        || str_eq(event, "cmd_name") || str_eq(event, "def_param") || str_eq(event, "exit")
        || str_eq(event, "atexit")
}

/// The event of a line whose first field it is. Nothing that stands elsewhere
/// in the line can be taken for it.
pub open spec fn raw_event_of(line: Seq<char>) -> Option<Seq<char>> {
    match strip_prefix_of(line, "{\"event\":\""@) {
        Some(rest) => if rest.contains('"') {
            Some(before_first_of(rest, '"'))
        } else {
            None
        },
        None => None,
    }
}

/// The event of a line whose first field it is.
pub fn raw_trace_event_type(line: &str) -> (r: Option<String>)
    ensures
        opt_view(r) == raw_event_of(line@),
{
    match strip_prefix(line, "{\"event\":\"") {
        Some(rest) => if contains_char(rest.as_str(), '"') {
            Some(before_first(rest.as_str(), '"'))
        } else {
            None
        },
        None => None,
    }
}

} // verus!
