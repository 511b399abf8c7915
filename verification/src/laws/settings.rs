//! Where the daemon keeps its files, what it leaves alone, and how it reads frames.
use crate::config::{short_digest_of, to_lower_hex, ConfigError, DaemonConfig, DaemonEnv, Machine};
use crate::frames::{
    member, members_model, read_trace_line, take_trace_line, trace_payload_from, FrameValue,
};
use crate::ingest::{trace_frame_use, trace_line_verdict, FrameUse, LineVerdict};
use crate::ingress::TraceIngressState;
use crate::lifecycle::DrainProbes;
use crate::paths::{path_of, RepoPath};
use crate::text::{opt_view, trim_of, views};
use crate::trace::{SeqField, TracePayload};
use crate::untraced_fixup_ignore::{
    default_temp_roots, glob_result, normalize_to_posix, path_views, TempLocations,
    UntracedFixupIgnore,
};
use vstd::prelude::*;
use vstd::utf8::encode_utf8;

verus! {

/// The files of a daemon lie in `daemon` below its directory, under their names, where the
/// paths of the sockets are short enough.
pub proof fn law_the_daemon_keeps_its_files_below_its_directory(
    dir: RepoPath,
    machine: Machine,
    below: RepoPath,
    lock: RepoPath,
    trace: RepoPath,
    control: RepoPath,
    r: DaemonConfig,
)
    requires
        call_ensures(DaemonConfig::from_internal_dir, (dir, &machine), r),
        machine.unix,
        call_ensures(RepoPath::child, (&dir, "daemon"), below),
        call_ensures(RepoPath::child, (&below, "daemon.lock"), lock),
        call_ensures(RepoPath::child, (&below, "trace2.sock"), trace),
        call_ensures(RepoPath::child, (&below, "control.sock"), control),
    ensures
        ({
            let fits = encode_utf8(trace.text@).len() <= 99 && encode_utf8(control.text@).len()
                <= 99;
            &&& r.internal_dir@ == dir@ && r.internal_dir.text@ == dir.text@
            &&& fits ==> r.lock_path@ == lock@ && r.lock_path.text@ == lock.text@
            &&& fits ==> r.trace_socket_path@ == trace@ && r.trace_socket_path.text@ == trace.text@
            &&& fits ==> r.control_socket_path@ == control@ && r.control_socket_path.text@
                == control.text@
        }),
{
}

/// Where they are not, the lock and the sockets lie in a directory for temporary files that is
/// named after the directory of the daemon.
pub proof fn law_long_paths_are_kept_short(
    dir: RepoPath,
    machine: Machine,
    below: RepoPath,
    trace: RepoPath,
    control: RepoPath,
    text: &str,
    digest: String,
    name: &str,
    short: RepoPath,
    lock: RepoPath,
    short_trace: RepoPath,
    short_control: RepoPath,
    r: DaemonConfig,
)
    requires
        call_ensures(DaemonConfig::from_internal_dir, (dir, &machine), r),
        machine.unix,
        call_ensures(RepoPath::child, (&dir, "daemon"), below),
        call_ensures(RepoPath::child, (&below, "trace2.sock"), trace),
        call_ensures(RepoPath::child, (&below, "control.sock"), control),
        encode_utf8(trace.text@).len() > 99 || encode_utf8(control.text@).len() > 99,
        text@ == dir.text@,
        call_ensures(short_digest_of, (text,), digest),
        name@ == "git-ai-d-"@ + digest@,
        call_ensures(RepoPath::child, (&machine.temp_dir, name), short),
        call_ensures(RepoPath::child, (&short, "daemon.lock"), lock),
        call_ensures(RepoPath::child, (&short, "trace.sock"), short_trace),
        call_ensures(RepoPath::child, (&short, "control.sock"), short_control),
    ensures
        r.lock_path@ == lock@ && r.lock_path.text@ == lock.text@,
        r.trace_socket_path@ == short_trace@ && r.trace_socket_path.text@ == short_trace.text@,
        r.control_socket_path@ == short_control@ && r.control_socket_path.text@
            == short_control.text@,
        r.internal_dir@ == dir@,
{
}

/// What the environment says goes before what is usual: where the daemon lives, and each of its
/// sockets. What is blank says nothing.
pub proof fn law_the_environment_goes_first(
    env: DaemonEnv,
    dir: Option<RepoPath>,
    machine: Machine,
    usual: Result<DaemonConfig, ConfigError>,
    home: RepoPath,
    at_home: DaemonConfig,
    r: Result<DaemonConfig, ConfigError>,
)
    requires
        call_ensures(DaemonConfig::from_env_or_default_paths, (&env, dir, &machine), r),
        call_ensures(DaemonConfig::from_default_paths, (dir, &machine), usual),
        env.daemon_home is Some ==> home@ == path_of(env.daemon_home->0@) && home.text@
            == env.daemon_home->0@,
        call_ensures(DaemonConfig::from_home, (&home, &machine), at_home),
    ensures
        ({
            let homed = env.daemon_home is Some && trim_of(env.daemon_home->0@).len() > 0;
            let traced = env.trace_socket is Some && trim_of(env.trace_socket->0@).len() > 0;
            let controlled = env.control_socket is Some && trim_of(
                env.control_socket->0@,
            ).len() > 0;
            &&& homed ==> r is Ok && r->Ok_0.internal_dir@ == at_home.internal_dir@
                && r->Ok_0.lock_path@ == at_home.lock_path@
            &&& !homed ==> (r is Ok <==> dir is Some)
            &&& !homed && dir is Some ==> r->Ok_0.internal_dir@ == usual->Ok_0.internal_dir@
                && r->Ok_0.lock_path@ == usual->Ok_0.lock_path@
            &&& !homed && dir is None ==> r->Err_0 is NoInternalDir
            &&& r is Ok && traced ==> r->Ok_0.trace_socket_path.text@ == env.trace_socket->0@
            &&& r is Ok && controlled ==> r->Ok_0.control_socket_path.text@
                == env.control_socket->0@
            &&& homed && !traced ==> r->Ok_0.trace_socket_path@ == at_home.trace_socket_path@
            &&& homed && !controlled ==> r->Ok_0.control_socket_path@
                == at_home.control_socket_path@
            &&& !homed && dir is Some && !traced ==> r->Ok_0.trace_socket_path@
                == usual->Ok_0.trace_socket_path@
            &&& !homed && dir is Some && !controlled ==> r->Ok_0.control_socket_path@
                == usual->Ok_0.control_socket_path@
        }),
{
}

/// A home holds the directory of the daemon in `.git-ai/internal`.
pub proof fn law_homes_hold_the_directory_of_the_daemon(
    home: RepoPath,
    machine: Machine,
    hidden: RepoPath,
    dir: RepoPath,
    direct: DaemonConfig,
    r: DaemonConfig,
)
    requires
        call_ensures(DaemonConfig::from_home, (&home, &machine), r),
        call_ensures(RepoPath::child, (&home, ".git-ai"), hidden),
        call_ensures(RepoPath::child, (&hidden, "internal"), dir),
        call_ensures(DaemonConfig::from_internal_dir, (dir, &machine), direct),
    ensures
        r.internal_dir@ == dir@ && r.internal_dir.text@ == dir.text@,
        r.lock_path@ == direct.lock_path@ && r.trace_socket_path@ == direct.trace_socket_path@
            && r.control_socket_path@ == direct.control_socket_path@,
{
}

/// Events are sent to the trace socket, as a stream where sockets are files.
pub proof fn law_events_are_sent_to_the_trace_socket(
    config: DaemonConfig,
    unix: String,
    other: String,
    by_path: String,
)
    requires
        call_ensures(DaemonConfig::trace2_event_target, (&config, true), unix),
        call_ensures(DaemonConfig::trace2_event_target, (&config, false), other),
        call_ensures(
            DaemonConfig::trace2_event_target_for_path,
            (&config.trace_socket_path, true),
            by_path,
        ),
    ensures
        unix@ == "af_unix:stream:"@ + config.trace_socket_path.text@,
        other@ == config.trace_socket_path.text@,
        by_path@ == unix@,
{
}

/// Bytes are written as two digits each, the greater first.
pub proof fn law_bytes_are_written_in_hex(bytes: Vec<u8>, r: String, i: int)
    requires
        call_ensures(to_lower_hex, (&bytes,), r),
        0 <= i < bytes@.len(),
    ensures
        r@.len() == 2 * bytes@.len(),
        r@[2 * i] == "0123456789abcdef"@[bytes@[i] as int / 16],
        r@[2 * i + 1] == "0123456789abcdef"@[bytes@[i] as int % 16],
{
    lemma_hex(bytes@, i);
}

proof fn lemma_hex(bytes: Seq<u8>, i: int)
    requires
        0 <= i < bytes.len(),
    ensures
        crate::config::lower_hex(bytes).len() == 2 * bytes.len(),
        crate::config::lower_hex(bytes)[2 * i] == "0123456789abcdef"@[bytes[i] as int / 16],
        crate::config::lower_hex(bytes)[2 * i + 1] == "0123456789abcdef"@[bytes[i] as int % 16],
    decreases bytes.len(),
{
    reveal_with_fuel(crate::config::lower_hex, 2);
    let rest = bytes.drop_last();
    if rest.len() > 0 {
        if i < rest.len() {
            lemma_hex(rest, i);
        } else {
            lemma_hex(rest, 0);
        }
    }
}

/// A backslash stands for a slash, and everything else for itself.
pub proof fn law_paths_are_read_with_slashes(s: &str, r: String, i: int)
    requires
        call_ensures(normalize_to_posix, (s,), r),
        0 <= i < s@.len(),
    ensures
        r@.len() == s@.len(),
        s@[i] == '\\' ==> r@[i] == '/',
        s@[i] != '\\' ==> r@[i] == s@[i],
{
}

/// A repository below a place for temporary files is left alone where that is asked for, and so
/// is one that a pattern matches; any other is not.
pub proof fn law_repositories_in_temporary_places_are_left_alone(
    asked: bool,
    places: Vec<Option<RepoPath>>,
    patterns: Vec<String>,
    ignore: UntracedFixupIgnore,
    dir: &str,
    posix: String,
    under: bool,
    place: RepoPath,
    path: RepoPath,
    i: int,
    r: bool,
)
    requires
        call_ensures(UntracedFixupIgnore::from_config, (asked, places, patterns), ignore),
        call_ensures(UntracedFixupIgnore::ignores, (&ignore, dir), r),
        call_ensures(normalize_to_posix, (dir,), posix),
        path@ == path_of(dir@),
        call_ensures(RepoPath::is_under, (&path, &place), under),
    ensures
        asked && under && (exists|k: int|
            0 <= k < places@.len() && #[trigger] places@[k] is Some && places@[k]->0@ == place@)
            ==> r,
        0 <= i < patterns@.len() && glob_result(patterns@[i]@, posix@) == Some(true) ==> r,
        !asked && (forall|k: int|
            0 <= k < patterns@.len() ==> glob_result(#[trigger] patterns@[k]@, posix@) != Some(
                true,
            )) ==> !r,
{
    let globs = ignore.globs();
    assert(globs == views(patterns@));
    if asked && (exists|k: int|
        0 <= k < places@.len() && #[trigger] places@[k] is Some && places@[k]->0@ == place@) {
        assert(crate::untraced_fixup_ignore::found(places@, place@));
        assert(ignore.roots().contains(place@));
        let k = ignore.roots().index_of(place@);
        assert(ignore.roots()[k] == place@);
    }
    if 0 <= i < patterns@.len() && glob_result(patterns@[i]@, posix@) == Some(true) {
        assert(globs[i] == patterns@[i]@);
    }
    if !asked && r {
        if exists|k: int|
            0 <= k < ignore.roots().len() && crate::paths::path_under(
                path_of(dir@),
                #[trigger] ignore.roots()[k],
            ) {
            let k = choose|k: int|
                0 <= k < ignore.roots().len() && crate::paths::path_under(
                    path_of(dir@),
                    #[trigger] ignore.roots()[k],
                );
            assert(ignore.roots().contains(ignore.roots()[k]));
        } else {
            let k = choose|k: int|
                0 <= k < globs.len() && glob_result(#[trigger] globs[k], posix@) == Some(true);
            assert(globs[k] == patterns@[k]@);
        }
    }
}

/// The places for temporary files are that of the process and the usual ones of the system.
pub proof fn law_places_for_temporary_files(places: TempLocations, r: Vec<RepoPath>)
    requires
        call_ensures(default_temp_roots, (&places,), r),
    ensures
        path_views(r@).contains(places.process_temp_dir@),
        places.unix ==> path_views(r@).contains(path_of("/tmp"@)) && path_views(r@).contains(
            path_of("/var/tmp"@),
        ),
        places.macos ==> path_views(r@).contains(path_of("/private/tmp"@)) && path_views(
            r@,
        ).contains(path_of("/var/folders"@)) && path_views(r@).contains(
            path_of("/private/var/folders"@),
        ),
        forall|i: int|
            0 <= i < places.windows_temp_dirs@.len() ==> path_views(r@).contains(
                #[trigger] places.windows_temp_dirs@[i]@,
            ),
        !places.unix && !places.macos && places.windows_temp_dirs@.len() == 0
            && places.windows_local_app_data is None ==> r@.len() == 1,
{
    let all = path_views(r@);
    assert(all.len() == r@.len());
    let u: int = if places.unix {
        2
    } else {
        0
    };
    let m: int = if places.macos {
        3
    } else {
        0
    };
    assert(all[0] == places.process_temp_dir@);
    if places.unix {
        assert(all[1] == path_of("/tmp"@) && all[2] == path_of("/var/tmp"@));
    }
    if places.macos {
        assert(all[1 + u] == path_of("/private/tmp"@));
        assert(all[2 + u] == path_of("/var/folders"@));
        assert(all[3 + u] == path_of("/private/var/folders"@));
    }
    assert forall|i: int| 0 <= i < places.windows_temp_dirs@.len() implies all.contains(
        #[trigger] places.windows_temp_dirs@[i]@,
    ) by {
        assert(all[1 + u + m + i] == path_views(places.windows_temp_dirs@)[i]);
    }
}

proof fn lemma_member(members: Seq<(String, FrameValue)>, name: Seq<char>, i: int)
    requires
        0 <= i < members.len(),
        members[i].0@ == name,
        forall|k: int| 0 <= k < i ==> (#[trigger] members[k]).0@ != name,
    ensures
        member(members_model(members), name) == Some(members[i].1@),
    decreases members.len(),
{
    let model = members_model(members);
    assert(model[0].0 == members[0].0@ && model[0].1 == members[0].1@);
    if i > 0 {
        assert(members[0].0@ != name);
        let rest = members.skip(1);
        assert forall|k: int| 0 <= k < i - 1 implies (#[trigger] rest[k]).0@ != name by {
            assert(rest[k] == members[k + 1]);
        }
        lemma_member(rest, name, i - 1);
        assert(model.skip(1) =~= members_model(rest));
    }
}

proof fn lemma_no_member(members: Seq<(String, FrameValue)>, name: Seq<char>)
    requires
        forall|k: int| 0 <= k < members.len() ==> (#[trigger] members[k]).0@ != name,
    ensures
        member(members_model(members), name) is None,
    decreases members.len(),
{
    if members.len() > 0 {
        let model = members_model(members);
        let rest = members.skip(1);
        assert(model[0].0 == members[0].0@);
        assert(members[0].0@ != name);
        assert forall|k: int| 0 <= k < rest.len() implies (#[trigger] rest[k]).0@ != name by {
            assert(rest[k] == members[k + 1]);
        }
        lemma_no_member(rest, name);
        assert(model.skip(1) =~= members_model(rest));
    }
}

/// A text of a frame is what the member of its name says, the first of several; a member that
/// is no text says nothing.
pub proof fn law_frames_are_read_by_the_names_of_their_members(
    members: Vec<(String, FrameValue)>,
    raw: String,
    abs_ns: Option<u128>,
    r: TracePayload,
    name: Seq<char>,
    i: int,
    text: String,
)
    requires
        call_ensures(trace_payload_from, (&members, raw, abs_ns), r),
        0 <= i < members@.len(),
        members@[i].0@ == name,
        members@[i].1 == FrameValue::Text(text),
        forall|k: int| 0 <= k < i ==> (#[trigger] members@[k]).0@ != name,
    ensures
        name == "event"@ ==> opt_view(r.event) == Some(text@),
        name == "sid"@ ==> opt_view(r.sid) == Some(text@),
        name == "name"@ ==> opt_view(r.name) == Some(text@),
        name == "repo_working_dir"@ ==> opt_view(r.repo_working_dir) == Some(text@),
        name == "repo"@ ==> opt_view(r.repo) == Some(text@) && !r.secondary_repo,
        name == "cwd"@ ==> opt_view(r.cwd) == Some(text@),
        name == "time"@ ==> opt_view(r.time) == Some(text@),
        name == "worktree"@ ==> r.worktree.text() == Some(text@) && !(r.worktree is Absent),
        name == "time_ns"@ ==> r.time_ns is None,
        name == "ts"@ ==> r.ts is None,
        name == "git_ai_ingest_seq"@ ==> r.ingest_seq is NotNumber,
        r.raw@ == raw@,
        r.abs_ns == abs_ns,
{
    lemma_member(members@, name, i);
}

/// A number of a frame likewise; a repository with a number above one is another than the
/// command's own.
pub proof fn law_numbers_of_frames_are_read_by_name(
    members: Vec<(String, FrameValue)>,
    raw: String,
    abs_ns: Option<u128>,
    r: TracePayload,
    name: Seq<char>,
    i: int,
    n: u64,
)
    requires
        call_ensures(trace_payload_from, (&members, raw, abs_ns), r),
        0 <= i < members@.len(),
        members@[i].0@ == name,
        members@[i].1 == FrameValue::Number(Some(n)),
        forall|k: int| 0 <= k < i ==> (#[trigger] members@[k]).0@ != name,
    ensures
        name == "time_ns"@ ==> r.time_ns == Some(n),
        name == "ts"@ ==> r.ts == Some(n),
        name == "git_ai_probe_id"@ ==> r.probe_id == Some(n),
        name == "git_ai_ingest_seq"@ ==> r.ingest_seq == SeqField::Number(n),
        name == "repo"@ ==> r.secondary_repo == (n > 1) && r.repo is None,
        name == "sid"@ ==> r.sid is None,
        name == "event"@ ==> r.event is None,
{
    lemma_member(members@, name, i);
}

/// What no member names is absent.
pub proof fn law_what_no_member_names_is_absent(
    members: Vec<(String, FrameValue)>,
    raw: String,
    abs_ns: Option<u128>,
    r: TracePayload,
    name: Seq<char>,
)
    requires
        call_ensures(trace_payload_from, (&members, raw, abs_ns), r),
        forall|k: int| 0 <= k < members@.len() ==> (#[trigger] members@[k]).0@ != name,
    ensures
        name == "event"@ ==> r.event is None,
        name == "sid"@ ==> r.sid is None,
        name == "name"@ ==> r.name is None,
        name == "argv"@ ==> r.argv@.len() == 0,
        name == "worktree"@ ==> r.worktree is Absent,
        name == "repo"@ ==> r.repo is None && !r.secondary_repo,
        name == "cwd"@ ==> r.cwd is None,
        name == "time"@ ==> r.time is None,
        name == "time_ns"@ ==> r.time_ns is None,
        name == "ts"@ ==> r.ts is None,
        name == "git_ai_ingest_seq"@ ==> r.ingest_seq is Absent,
        name == "git_ai_root_reflog_start_offsets"@ ==> r.reflog_start_offsets is None,
{
    lemma_no_member(members@, name);
    assert(views(r.argv@).len() == r.argv@.len());
}

proof fn lemma_texts(list: Seq<Option<Seq<char>>>)
    requires
        forall|i: int| 0 <= i < list.len() ==> (#[trigger] list[i]) is Some,
    ensures
        crate::frames::texts_of(list) == list.map_values(|t: Option<Seq<char>>| t->0),
    decreases list.len(),
{
    if list.len() > 0 {
        assert(list[list.len() - 1] is Some);
        lemma_texts(list.drop_last());
        assert(list.map_values(|t: Option<Seq<char>>| t->0) =~= list.drop_last().map_values(
            |t: Option<Seq<char>>| t->0,
        ).push(list.last()->0));
    } else {
        assert(list.map_values(|t: Option<Seq<char>>| t->0) =~= Seq::empty());
    }
}

/// The words of a frame are those of its list, in order.
pub proof fn law_words_of_frames_are_read_in_order(
    members: Vec<(String, FrameValue)>,
    raw: String,
    r: TracePayload,
    i: int,
    words: Vec<Option<String>>,
    k: int,
)
    requires
        call_ensures(trace_payload_from, (&members, raw, None), r),
        0 <= i < members@.len(),
        members@[i].0@ == "argv"@,
        members@[i].1 == FrameValue::List(words),
        forall|j: int| 0 <= j < i ==> (#[trigger] members@[j]).0@ != "argv"@,
        forall|j: int| 0 <= j < words@.len() ==> (#[trigger] words@[j]) is Some,
        0 <= k < words@.len(),
    ensures
        r.argv@.len() == words@.len(),
        r.argv@[k]@ == words@[k]->0@,
{
    lemma_member(members@, "argv"@, i);
    let list = Seq::new(words@.len(), |j: int| opt_view(words@[j]));
    assert forall|j: int| 0 <= j < list.len() implies (#[trigger] list[j]) is Some by {
        assert(words@[j] is Some);
    }
    lemma_texts(list);
    assert(views(r.argv@).len() == r.argv@.len());
    assert(views(r.argv@)[k] == r.argv@[k]@);
    assert(list[k] == opt_view(words@[k]));
}

/// A line that is passed over gives no frame; any other gives one where it can be read. Only a
/// frame that is ingested is handed on, and a probe is noted instead.
pub proof fn law_lines_give_the_frames_that_are_used(
    ingress: &mut TraceIngressState,
    probes: &mut DrainProbes,
    seen: &mut Vec<String>,
    line: &str,
    verdict: LineVerdict,
    read: Option<TracePayload>,
    used: FrameUse,
    r: Option<TracePayload>,
)
    requires
        call_ensures(trace_line_verdict, (line,), verdict),
        call_ensures(read_trace_line, (line, None), read),
        call_ensures(take_trace_line, (ingress, probes, seen, line, None), r),
        read is Some ==> call_ensures(trace_frame_use, (&read->0,), used),
    ensures
        verdict is Skip ==> read is None && r is None,
        r is Some ==> read is Some && used is Ingest,
        read is Some && used is Ingest ==> r is Some && opt_view(r->0.sid) == opt_view(read->0.sid)
            && opt_view(r->0.event) == opt_view(read->0.event) && views(r->0.argv@) == views(
            read->0.argv@,
        ),
        read is Some && used is Ignore ==> r is None,
        read is None || !(used is Probe) ==> *final(probes) == *old(probes),
        read is Some && used is Probe && used->Probe_0 is Some && old(probes).observed
            < used->Probe_0->0 <= old(probes).issued ==> final(probes).observed
            == used->Probe_0->0,
        read is Some && used is Probe ==> r is None,
        final(probes).issued == old(probes).issued,
{
}

/// The directory of the lock has to be there, and that of the daemon.
pub proof fn law_directories_are_made_for_the_lock(
    config: DaemonConfig,
    dir: Option<RepoPath>,
    r: Result<(RepoPath, RepoPath), ConfigError>,
)
    requires
        call_ensures(DaemonConfig::ensure_parent_dirs, (&config,), r),
        call_ensures(RepoPath::parent, (&config.lock_path,), dir),
    ensures
        dir is Some <==> r is Ok,
        r is Ok ==> (r->Ok_0).0@ == dir->0@ && (r->Ok_0).1@ == config.internal_dir@,
        r is Err ==> r->Err_0 is LockPathHasNoParent,
{
}

/// What a family completed is logged below the directory of the daemon, in a file that is named
/// after the family.
pub proof fn law_families_are_logged_under_their_digest(
    config: DaemonConfig,
    family: &str,
    below: RepoPath,
    dir: RepoPath,
    digest: String,
    name: &str,
    file: RepoPath,
    r_dir: RepoPath,
    r: RepoPath,
)
    requires
        call_ensures(DaemonConfig::test_completion_log_dir, (&config,), r_dir),
        call_ensures(DaemonConfig::test_completion_log_path_for_family, (&config, family), r),
        call_ensures(RepoPath::child, (&config.internal_dir, "daemon"), below),
        call_ensures(RepoPath::child, (&below, "test-completions"), dir),
        call_ensures(short_digest_of, (family,), digest),
        name@ == digest@ + ".jsonl"@,
        call_ensures(RepoPath::child, (&dir, name), file),
    ensures
        r_dir@ == dir@ && r_dir.text@ == dir.text@,
        r@ == file@ && r.text@ == file.text@,
{
}

/// Where sockets are no files they are named pipes, named after the directory of the daemon,
/// one for the trace and one for control.
pub proof fn law_pipes_are_named_after_the_directory(
    dir: RepoPath,
    machine: Machine,
    text: &str,
    digest: String,
    r: DaemonConfig,
)
    requires
        call_ensures(DaemonConfig::from_internal_dir, (dir, &machine), r),
        !machine.unix,
        text@ == dir.text@,
        call_ensures(short_digest_of, (text,), digest),
    ensures
        r.trace_socket_path.text@ == "\\\\.\\pipe\\git-ai-"@ + digest@ + "-trace2"@,
        r.control_socket_path.text@ == "\\\\.\\pipe\\git-ai-"@ + digest@ + "-control"@,
{
}

} // verus!
