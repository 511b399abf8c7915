//! Where a daemon keeps its files and its sockets.
use crate::paths::{child_text, parent_text, path_child, path_of, PathModel, RepoPath};
use crate::text::{opt_view, trim, trim_of};
use sha2::Digest;
use vstd::prelude::*;
use vstd::utf8::encode_utf8;

verus! {

/// The SHA-256 digest of some bytes.
pub uninterp spec fn sha256(data: Seq<u8>) -> Seq<u8>;

/// `sha2::Sha256::digest`: the SHA-256 digest of `data`, which is 32 bytes long
/// and depends on the bytes alone.
#[verifier::external_body]
fn sha256_digest(data: &[u8]) -> (r: Vec<u8>)
    ensures
        r@ == sha256(data@),
        r@.len() == 32,
{
    sha2::Sha256::digest(data).to_vec()
}

/// The lower-case hexadecimal digit of a value below 16.
pub open spec fn hex_char(v: int) -> char {
    "0123456789abcdef"@[v]
}

/// Some bytes as lower-case hexadecimal digits, two for each byte.
pub open spec fn lower_hex(bytes: Seq<u8>) -> Seq<char>
    decreases bytes.len(),
{
    if bytes.len() == 0 {
        Seq::empty()
    } else {
        lower_hex(bytes.drop_last()).push(hex_char(bytes.last() as int / 16)).push(
            hex_char(bytes.last() as int % 16),
        )
    }
}

/// The first 16 hexadecimal digits of the digest of a text.
pub open spec fn short_digest(text: Seq<char>) -> Seq<char> {
    lower_hex(sha256(encode_utf8(text))).take(16)
}

proof fn lemma_lower_hex_len(bytes: Seq<u8>)
    ensures
        lower_hex(bytes).len() == 2 * bytes.len(),
    decreases bytes.len(),
{
    if bytes.len() > 0 {
        lemma_lower_hex_len(bytes.drop_last());
    }
}

/// Some bytes as lower-case hexadecimal digits.
pub fn to_lower_hex(bytes: &Vec<u8>) -> (r: String)
    ensures
        r@ == lower_hex(bytes@),
{
    let digits = "0123456789abcdef";
    proof {
        reveal_strlit("0123456789abcdef");
    }
    let mut out: String = String::new();
    let mut i: usize = 0;
    while i < bytes.len()
        invariant
            i <= bytes.len(),
            digits@ == "0123456789abcdef"@,
            digits@.len() == 16,
            out@ == lower_hex(bytes@.take(i as int)),
        decreases bytes.len() - i,
    {
        let hi: usize = (bytes[i] / 16) as usize;
        let lo: usize = (bytes[i] % 16) as usize;
        assert(bytes@.take(i + 1).drop_last() =~= bytes@.take(i as int));
        out.append(digits.substring_char(hi, hi + 1));
        out.append(digits.substring_char(lo, lo + 1));
        assert(out@ =~= lower_hex(bytes@.take(i + 1)));
        i += 1;
    }
    assert(bytes@.take(bytes@.len() as int) =~= bytes@);
    out
}

/// The first 16 hexadecimal digits of the digest of a text.
pub fn short_digest_of(text: &str) -> (r: String)
    ensures
        r@ == short_digest(text@),
        r@.len() == 16,
{
    let digest = sha256_digest(text.as_bytes());
    proof {
        lemma_lower_hex_len(digest@);
    }
    let hex = to_lower_hex(&digest);
    assert(hex@.subrange(0, 16) =~= hex@.take(16));
    hex.as_str().substring_char(0, 16).to_owned()
}

/// The longest socket path, in bytes, that every platform takes.
pub const MAX_SOCKET_PATH_BYTES: usize = 99;

/// What a daemon's paths depend on besides its own directory.
pub struct Machine {
    pub temp_dir: RepoPath,
    /// Whether sockets are files; they are named pipes elsewhere.
    pub unix: bool,
}

/// A path with its spelling.
pub type SpelledPath = (PathModel, Seq<char>);

/// A path with its spelling.
pub open spec fn spelled(p: RepoPath) -> SpelledPath {
    (p@, p.text@)
}

/// The path that a text denotes, spelled like that.
pub open spec fn spelled_of(text: Seq<char>) -> SpelledPath {
    (path_of(text), text)
}

/// A path extended by one component.
pub open spec fn spelled_child(p: SpelledPath, name: Seq<char>) -> SpelledPath {
    (path_child(p.0, name), child_text(p.1, name))
}

/// The directory of the completion logs in an internal directory.
pub open spec fn completions_dir_in(internal_dir: SpelledPath) -> SpelledPath {
    spelled_child(spelled_child(internal_dir, "daemon"@), "test-completions"@)
}

/// The paths of one daemon.
pub struct DaemonConfig {
    pub internal_dir: RepoPath,
    pub lock_path: RepoPath,
    pub trace_socket_path: RepoPath,
    pub control_socket_path: RepoPath,
}

/// What the environment says about a daemon's paths.
#[derive(Debug)]
pub struct DaemonEnv {
    pub daemon_home: Option<String>,
    pub control_socket: Option<String>,
    pub trace_socket: Option<String>,
}

/// Why there is no configuration.
#[derive(Debug, Clone, Copy, PartialEq, Eq, Structural)]
pub enum ConfigError {
    /// Nothing says where the internal directory is.
    NoInternalDir,
    /// The lock file lies in no directory.
    LockPathHasNoParent,
}

impl ConfigError {
    /// The message for people.
    pub fn message(&self) -> (r: String)
        ensures
            r@ == (match *self {
                ConfigError::NoInternalDir => "Unable to determine ~/.git-ai/internal path"@,
                ConfigError::LockPathHasNoParent => "daemon lock path has no parent"@,
            }),
    {
        match self {
            ConfigError::NoInternalDir => "Unable to determine ~/.git-ai/internal path".to_owned(),
            ConfigError::LockPathHasNoParent => "daemon lock path has no parent".to_owned(),
        }
    }
}

/// The four paths of a configuration.
pub open spec fn config_view(c: DaemonConfig) -> (
    SpelledPath,
    SpelledPath,
    SpelledPath,
    SpelledPath,
) {
    (
        spelled(c.internal_dir),
        spelled(c.lock_path),
        spelled(c.trace_socket_path),
        spelled(c.control_socket_path),
    )
}

/// Whether a path is too long for a socket.
pub open spec fn too_long_for_socket(text: Seq<char>) -> bool {
    encode_utf8(text).len() > MAX_SOCKET_PATH_BYTES
}

/// The directory in which sockets live whose own directory's path is too long.
pub open spec fn short_socket_dir(internal_dir: SpelledPath, temp_dir: SpelledPath) -> SpelledPath {
    spelled_child(temp_dir, "git-ai-d-"@ + short_digest(internal_dir.1))
}

/// The name of the pipe that stands for a socket.
pub open spec fn pipe_name(internal_dir: SpelledPath, ending: Seq<char>) -> Seq<char> {
    "\\\\.\\pipe\\git-ai-"@ + short_digest(internal_dir.1) + ending
}

/// The configuration for an internal directory: everything under its `daemon`
/// directory, or under a short directory for temporary files when a socket's
/// path would be too long. Where sockets are no files they are pipes with names
/// of their own.
pub open spec fn config_for(internal_dir: SpelledPath, machine: Machine) -> (
    SpelledPath,
    SpelledPath,
    SpelledPath,
    SpelledPath,
) {
    let daemon_dir = spelled_child(internal_dir, "daemon"@);
    let trace = spelled_child(daemon_dir, "trace2.sock"@);
    let control = spelled_child(daemon_dir, "control.sock"@);
    if !machine.unix {
        (
            internal_dir,
            spelled_child(daemon_dir, "daemon.lock"@),
            spelled_of(pipe_name(internal_dir, "-trace2"@)),
            spelled_of(pipe_name(internal_dir, "-control"@)),
        )
    } else if too_long_for_socket(trace.1) || too_long_for_socket(control.1) {
        let short = short_socket_dir(internal_dir, spelled(machine.temp_dir));
        (
            internal_dir,
            spelled_child(short, "daemon.lock"@),
            spelled_child(short, "trace.sock"@),
            spelled_child(short, "control.sock"@),
        )
    } else {
        (internal_dir, spelled_child(daemon_dir, "daemon.lock"@), trace, control)
    }
}

/// The internal directory below a home directory.
pub open spec fn internal_dir_in(home: SpelledPath) -> SpelledPath {
    spelled_child(spelled_child(home, ".git-ai"@), "internal"@)
}

/// What git's trace setting must name for a socket that is spelled like this.
pub open spec fn event_target(text: Seq<char>, unix: bool) -> Seq<char> {
    if unix {
        "af_unix:stream:"@ + text
    } else {
        text
    }
}

/// An environment variable that says something: set, and not only white space.
pub open spec fn set_value(value: Option<Seq<char>>) -> Option<Seq<char>> {
    match value {
        Some(text) => if trim_of(text).len() > 0 {
            Some(text)
        } else {
            None
        },
        None => None,
    }
}

fn set_text(value: &Option<String>) -> (r: Option<String>)
    ensures
        opt_view(r) == set_value(opt_view(*value)),
{
    match value {
        Some(text) => if trim(text.as_str()).as_str().unicode_len() > 0 {
            Some(text.clone())
        } else {
            None
        },
        None => None,
    }
}

fn is_too_long(p: &RepoPath) -> (r: bool)
    ensures
        r == too_long_for_socket(p.text@),
{
    let text = p.to_text();
    let bytes = text.as_str().as_bytes();
    bytes.len() > MAX_SOCKET_PATH_BYTES
}

fn pipe_path(digest: &str, ending: &str) -> (r: RepoPath)
    ensures
        spelled(r) == spelled_of("\\\\.\\pipe\\git-ai-"@ + digest@ + ending@),
{
    let mut name: String = "\\\\.\\pipe\\git-ai-".to_owned();
    name.append(digest);
    name.append(ending);
    RepoPath::parse(name.as_str())
}

impl DaemonConfig {
    /// The configuration for an internal directory.
    pub fn from_internal_dir(internal_dir: RepoPath, machine: &Machine) -> (r: DaemonConfig)
        ensures
            config_view(r) == config_for(spelled(internal_dir), *machine),
    {
        let daemon_dir = internal_dir.child("daemon");
        if !machine.unix {
            let digest = short_digest_of(internal_dir.to_text().as_str());
            return DaemonConfig {
                internal_dir,
                lock_path: daemon_dir.child("daemon.lock"),
                trace_socket_path: pipe_path(digest.as_str(), "-trace2"),
                control_socket_path: pipe_path(digest.as_str(), "-control"),
            };
        }
        let trace = daemon_dir.child("trace2.sock");
        let control = daemon_dir.child("control.sock");
        if is_too_long(&trace) || is_too_long(&control) {
            let digest = short_digest_of(internal_dir.to_text().as_str());
            let mut name: String = "git-ai-d-".to_owned();
            name.append(digest.as_str());
            let short = machine.temp_dir.child(name.as_str());
            return DaemonConfig {
                internal_dir,
                lock_path: short.child("daemon.lock"),
                trace_socket_path: short.child("trace.sock"),
                control_socket_path: short.child("control.sock"),
            };
        }
        DaemonConfig {
            internal_dir,
            lock_path: daemon_dir.child("daemon.lock"),
            trace_socket_path: trace,
            control_socket_path: control,
        }
    }

    /// The configuration below a home directory.
    pub fn from_home(home: &RepoPath, machine: &Machine) -> (r: DaemonConfig)
        ensures
            config_view(r) == config_for(internal_dir_in(spelled(*home)), *machine),
    {
        DaemonConfig::from_internal_dir(home.child(".git-ai").child("internal"), machine)
    }

    /// The configuration for the user's internal directory, when there is one.
    pub fn from_default_paths(internal_dir: Option<RepoPath>, machine: &Machine) -> (r: Result<
        DaemonConfig,
        ConfigError,
    >)
        ensures
            internal_dir is None ==> r is Err && r->Err_0 == ConfigError::NoInternalDir,
            internal_dir is Some ==> r is Ok && config_view(r->Ok_0) == config_for(
                spelled(internal_dir->0),
                *machine,
            ),
    {
        match internal_dir {
            Some(internal_dir) => Ok(DaemonConfig::from_internal_dir(internal_dir, machine)),
            None => Err(ConfigError::NoInternalDir),
        }
    }

    /// The configuration that the environment asks for, with the user's own as
    /// the default. A variable that holds only white space asks for nothing.
    pub fn from_env_or_default_paths(
        env: &DaemonEnv,
        internal_dir: Option<RepoPath>,
        machine: &Machine,
    ) -> (r: Result<DaemonConfig, ConfigError>)
        ensures
            ({
                let home = set_value(opt_view(env.daemon_home));
                let control = set_value(opt_view(env.control_socket));
                let trace = set_value(opt_view(env.trace_socket));
                let base = match home {
                    Some(home) => Some(config_for(internal_dir_in(spelled_of(home)), *machine)),
                    None => match internal_dir {
                        Some(dir) => Some(config_for(spelled(dir), *machine)),
                        None => None,
                    },
                };
                &&& base is None ==> r is Err && r->Err_0 == ConfigError::NoInternalDir
                &&& base is Some ==> r is Ok && config_view(r->Ok_0) == (
                    (base->0).0,
                    (base->0).1,
                    if trace is Some {
                        spelled_of(trace->0)
                    } else {
                        (base->0).2
                    },
                    if control is Some {
                        spelled_of(control->0)
                    } else {
                        (base->0).3
                    },
                )
            }),
    {
        let mut config = match set_text(&env.daemon_home) {
            Some(home) => DaemonConfig::from_home(&RepoPath::parse(home.as_str()), machine),
            None => match DaemonConfig::from_default_paths(internal_dir, machine) {
                Ok(config) => config,
                Err(error) => {
                    return Err(error);
                },
            },
        };
        if let Some(path) = set_text(&env.control_socket) {
            config.control_socket_path = RepoPath::parse(path.as_str());
        }
        if let Some(path) = set_text(&env.trace_socket) {
            config.trace_socket_path = RepoPath::parse(path.as_str());
        }
        Ok(config)
    }

    /// The directories that must exist before the daemon starts: the lock
    /// file's, and the internal one.
    pub fn ensure_parent_dirs(&self) -> (r: Result<(RepoPath, RepoPath), ConfigError>)
        ensures
            crate::paths::path_parent(self.lock_path@) is None ==> r is Err && r->Err_0
                == ConfigError::LockPathHasNoParent,
            crate::paths::path_parent(self.lock_path@) is Some ==> r is Ok && r->Ok_0.0@
                == crate::paths::path_parent(self.lock_path@)->0 && r->Ok_0.0.text@ == parent_text(
                self.lock_path.text@,
            ) && spelled(r->Ok_0.1) == spelled(self.internal_dir),
    {
        match self.lock_path.parent() {
            Some(daemon_dir) => Ok((daemon_dir, self.internal_dir.copy())),
            None => Err(ConfigError::LockPathHasNoParent),
        }
    }

    /// What git's trace setting must name so that traces reach this daemon.
    pub fn trace2_event_target(&self, unix: bool) -> (r: String)
        ensures
            r@ == event_target(self.trace_socket_path.text@, unix),
    {
        DaemonConfig::trace2_event_target_for_path(&self.trace_socket_path, unix)
    }

    /// The directory of the logs in which tests look for completed work.
    pub fn test_completion_log_dir(&self) -> (r: RepoPath)
        ensures
            spelled(r) == completions_dir_in(spelled(self.internal_dir)),
    {
        self.internal_dir.child("daemon").child("test-completions")
    }

    /// The completion log of one family.
    pub fn test_completion_log_path_for_family(&self, family_key: &str) -> (r: RepoPath)
        ensures
            spelled(r) == spelled_child(
                completions_dir_in(spelled(self.internal_dir)),
                short_digest(family_key@) + ".jsonl"@,
            ),
    {
        let mut name = short_digest_of(family_key);
        name.append(".jsonl");
        self.test_completion_log_dir().child(name.as_str())
    }

    /// What git's trace setting must name for a socket at `path`.
    pub fn trace2_event_target_for_path(path: &RepoPath, unix: bool) -> (r: String)
        ensures
            r@ == event_target(path.text@, unix),
    {
        if !unix {
            return path.to_text();
        }
        let mut target: String = "af_unix:stream:".to_owned();
        target.append(path.to_text().as_str());
        target
    }
}

/// Where sockets are files, all files of a daemon lie in one directory, whichever one it is.
pub proof fn law_lock_and_sockets_share_a_directory(internal_dir: SpelledPath, machine: Machine)
    requires
        machine.unix,
    ensures
        ({
            let c = config_for(internal_dir, machine);
            let dir = crate::paths::path_parent(c.1.0);
            &&& dir is Some
            &&& crate::paths::path_parent(c.2.0) == dir
            &&& crate::paths::path_parent(c.3.0) == dir
        }),
{
    assert forall|p: PathModel, name: Seq<char>| crate::paths::path_parent(
        #[trigger] path_child(p, name),
    ) == Some(p) by {
        assert(path_child(p, name).1.drop_last() =~= p.1);
    }
}

} // verus!
