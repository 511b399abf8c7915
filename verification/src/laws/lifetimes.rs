//! How the daemon ends, restarts, watches itself and waits.
use crate::checkpoint::CheckpointGate;
use crate::lifecycle::{
    at_least_one, daemon_is_test_mode, daemon_log_dir, daemon_log_file_path, daemon_log_file_should_be_skipped, daemon_max_uptime_ns,
    env_duration_ms, env_number, ingest_loss_report, join_budget, pid_metadata_path, probe_verdict,
    process_counts_as_alive, process_stat_is_zombie, receive_buffer_to_ask,
    self_restart_history_path, self_update_outcome, should_defer_restart_for_checkpoints,
    stale_log_pid, startup_plan, update_verdict, DaemonExitAction, DaemonSelfUpdateOutcome,
    DrainProbes, Enforcement, HealthReading, HealthVerdict, HealthWatch, IngestLossSnapshot,
    Lifecycle, ProbeVerdict, SpawnFailures, StartupPlan, UpdateCheck, UpdateVerdict,
};
use crate::config::DaemonConfig;
use crate::paths::RepoPath;
use crate::text::{parse_unsigned, views, words_of};
use crate::waits::{
    needs_current_times, noted_times, recovery_preflight, recovery_timestamps, AwaitAction,
    AwaitEvent, AwaitRun, FileTimes, PreflightAction, PreflightEvent, PreflightPhase,
};
use vstd::prelude::*;

verus! {

/// What is to come after the end is told by a number and read back from it; a number that means
/// nothing is a stop.
pub proof fn law_what_comes_after_is_read_back(
    action: DaemonExitAction,
    n: u8,
    r: DaemonExitAction,
    other: u8,
    unknown: DaemonExitAction,
    restarts: bool,
)
    requires
        call_ensures(DaemonExitAction::as_u8, (action,), n),
        call_ensures(DaemonExitAction::from_u8, (n,), r),
        other > 2,
        call_ensures(DaemonExitAction::from_u8, (other,), unknown),
        call_ensures(DaemonExitAction::restarts, (action,), restarts),
    ensures
        r == action,
        unknown is Stop,
        restarts <==> !(action is Stop),
{
}

/// Who asks the daemon to end closes the intake for checkpoints and says what comes after; the
/// last to say so decides, and to ask without saying leaves that open.
pub proof fn law_the_last_request_decides_what_comes_after(
    first: &mut Lifecycle,
    second: &mut Lifecycle,
    third: &mut Lifecycle,
    fourth: &mut Lifecycle,
    a: &mut CheckpointGate,
    b: &mut CheckpointGate,
    c: &mut CheckpointGate,
    d: &mut CheckpointGate,
    one: DaemonExitAction,
    two: DaemonExitAction,
    three: DaemonExitAction,
    four: DaemonExitAction,
)
    requires
        call_ensures(Lifecycle::request_restart, (first, a), ()),
        call_ensures(Lifecycle::shutdown_action, (final(first),), one),
        *final(first) == *old(second),
        call_ensures(Lifecycle::request_shutdown, (second, b), ()),
        call_ensures(Lifecycle::shutdown_action, (final(second),), two),
        *final(second) == *old(third),
        call_ensures(Lifecycle::request_restart_after_update, (third, c), ()),
        call_ensures(Lifecycle::shutdown_action, (final(third),), three),
        *final(third) == *old(fourth),
        call_ensures(Lifecycle::request_stop, (fourth, d), ()),
        call_ensures(Lifecycle::shutdown_action, (final(fourth),), four),
    ensures
        one is Restart && two is Restart && three is RestartAfterUpdate && four is Stop,
        final(first).shutting_down && final(second).shutting_down && final(third).shutting_down
            && final(fourth).shutting_down,
        !final(a).accepting && !final(b).accepting && !final(c).accepting && !final(d).accepting,
        final(a).unadmitted == old(a).unadmitted && final(a).next_receipt_seq
            == old(a).next_receipt_seq,
{
}

/// A daemon that has not ended in its time is made to, and another is started where that was
/// asked for.
pub proof fn law_the_deadline_is_enforced(life: Lifecycle, action: DaemonExitAction, r: Enforcement)
    requires
        call_ensures(Lifecycle::enforce_deadline, (&life,), r),
        call_ensures(Lifecycle::shutdown_action, (&life,), action),
    ensures
        life.teardown_complete ==> r is Nothing,
        !life.teardown_complete && action is Stop ==> r == (Enforcement::Exit { restart: false }),
        !life.teardown_complete && !(action is Stop) ==> r == (Enforcement::Exit { restart: true }),
{
}

/// Checkpoints that are given up at the end are counted once.
pub proof fn law_losses_are_counted_once(
    first: &mut Lifecycle,
    second: &mut Lifecycle,
    n: u64,
    m: u64,
)
    requires
        !old(first).losses_counted,
        old(first).checkpoints_dropped + n <= u64::MAX,
        call_ensures(Lifecycle::count_abandoned_checkpoints_once, (first, n), ()),
        *final(first) == *old(second),
        call_ensures(Lifecycle::count_abandoned_checkpoints_once, (second, m), ()),
    ensures
        final(second).checkpoints_dropped == old(first).checkpoints_dropped + n,
        final(second).shutting_down == old(first).shutting_down,
{
}

/// A probe that was sent comes through when it is seen, and only a probe that was sent does.
pub proof fn law_probes_come_through_when_they_are_seen(
    first: &mut DrainProbes,
    second: &mut DrainProbes,
    id: u64,
    seen: u64,
    elapsed: u64,
    deadline: u64,
    before: ProbeVerdict,
    after: ProbeVerdict,
    ending: bool,
)
    requires
        old(first).wf(),
        old(first).issued < u64::MAX,
        call_ensures(DrainProbes::issue_trace_drain_probe_id, (first,), id),
        call_ensures(probe_verdict, (final(first), id, ending, elapsed, deadline), before),
        *final(first) == *old(second),
        call_ensures(DrainProbes::record_trace_drain_probe, (second, seen), ()),
        call_ensures(probe_verdict, (final(second), id, ending, elapsed, deadline), after),
    ensures
        id == old(first).issued + 1,
        !(before is Through),
        after is Through <==> seen == id,
        ending ==> before is ShuttingDown,
        !ending && elapsed >= deadline ==> before is Late,
        !ending && elapsed < deadline ==> before is Waiting,
{
}

/// Losses are reported when there are new ones, as many as are new.
pub proof fn law_new_losses_are_reported(
    last: IngestLossSnapshot,
    current: IngestLossSnapshot,
    r: Option<IngestLossSnapshot>,
)
    requires
        call_ensures(ingest_loss_report, (&last, &current), r),
        last.checkpoints_dropped <= current.checkpoints_dropped,
        last.trace_connections_dropped <= current.trace_connections_dropped,
        last.trace_payloads_dropped_queue_full <= current.trace_payloads_dropped_queue_full,
        last.telemetry_metric_batches_dropped <= current.telemetry_metric_batches_dropped,
    ensures
        r is None <==> current == last,
        r is Some ==> last.checkpoints_dropped + r->0.checkpoints_dropped
            == current.checkpoints_dropped,
        r is Some ==> last.trace_connections_dropped + r->0.trace_connections_dropped
            == current.trace_connections_dropped,
        r is Some ==> last.trace_payloads_dropped_queue_full
            + r->0.trace_payloads_dropped_queue_full == current.trace_payloads_dropped_queue_full,
        r is Some ==> last.telemetry_metric_batches_dropped
            + r->0.telemetry_metric_batches_dropped == current.telemetry_metric_batches_dropped,
{
}

/// A daemon whose sockets answer and whose frames move is healthy. One that is ill restarts,
/// unless it is ending anyway or accepted checkpoints are outstanding, and for their sake it
/// waits four times at most.
pub proof fn law_ill_daemons_restart(watch: &mut HealthWatch, reading: HealthReading, r: HealthVerdict, defers: bool)
    requires
        old(watch).stalled_intervals < usize::MAX,
        call_ensures(HealthWatch::look, (watch, &reading), r),
        call_ensures(
            should_defer_restart_for_checkpoints,
            (reading.outstanding_checkpoints, old(watch).deferrals),
            defers,
        ),
    ensures
        ({
            let answers = reading.control_ok && reading.trace_ok;
            let moves = reading.queued == 0 || reading.processed_seq != old(
                watch,
            ).last_processed_seq;
            &&& answers && moves ==> r is Healthy && final(watch).stalled_intervals == 0
            &&& answers && old(watch).stalled_intervals + 1 < 12 ==> r is Healthy
            &&& answers && !moves ==> final(watch).stalled_intervals == old(
                watch,
            ).stalled_intervals + 1
            &&& !moves && old(watch).stalled_intervals + 1 >= 12 ==> !(r is Healthy)
            &&& !answers ==> !(r is Healthy)
            &&& !(r is Healthy) && reading.shutting_down ==> r is Leave
            &&& !(r is Healthy) && !reading.shutting_down && defers ==> r is Defer
            &&& !(r is Healthy) && !reading.shutting_down && !defers ==> r is Restart
            &&& r is Healthy ==> final(watch).deferrals == 0
            &&& r is Defer ==> final(watch).deferrals == old(watch).deferrals + 1
            &&& final(watch).last_processed_seq == reading.processed_seq
        }),
        defers <==> reading.outstanding_checkpoints > 0 && old(watch).deferrals < 4,
{
}

/// An update is installed when nothing is to be done; a daemon that is up for long restarts
/// then too. Nothing happens while there is work.
pub proof fn law_updates_wait_for_the_work(
    check: UpdateCheck,
    uptime: u128,
    max: u128,
    busy: UpdateVerdict,
    idle: UpdateVerdict,
    outcome: (DaemonSelfUpdateOutcome, bool),
)
    requires
        call_ensures(update_verdict, (check, true, uptime, max), busy),
        call_ensures(update_verdict, (check, false, uptime, max), idle),
        call_ensures(self_update_outcome, (check,), outcome),
    ensures
        busy is Wait,
        check is Ready ==> idle is RestartAfterUpdate,
        !(check is Ready) && uptime >= max ==> idle is Restart,
        !(check is Ready) && uptime < max ==> idle is Wait,
        check is Ready <==> outcome.0 is Installed,
        check is NoUpdate <==> outcome.0 is NoUpdate,
        check is Failed <==> outcome.0 is Failed,
        outcome.1 <==> check is Failed,
{
}

/// Sixteen connections in a row that could not be served shut the daemon down; one that could
/// starts the count anew. All that were lost are counted.
pub proof fn law_failures_in_a_row_are_counted(
    first: &mut SpawnFailures,
    second: &mut SpawnFailures,
    failed: bool,
    served: bool,
)
    requires
        old(first).consecutive < usize::MAX,
        old(first).dropped < u64::MAX,
        call_ensures(SpawnFailures::observe, (first, false), failed),
        *final(first) == *old(second),
        old(second).consecutive < usize::MAX,
        call_ensures(SpawnFailures::observe, (second, true), served),
    ensures
        failed <==> old(first).consecutive + 1 >= 16,
        final(first).consecutive == old(first).consecutive + 1,
        final(first).dropped == old(first).dropped + 1,
        !served && final(second).consecutive == 0 && final(second).dropped == final(first).dropped,
{
}

/// A number in the environment counts where it is one, and where it stands for a time, where it
/// is not nought; otherwise the default does.
pub proof fn law_numbers_from_the_environment(
    value: Option<String>,
    default: u64,
    number: u64,
    time: u64,
    uptime: u128,
)
    requires
        call_ensures(env_number, (&value, default), number),
        call_ensures(env_duration_ms, (&value, default), time),
        call_ensures(daemon_max_uptime_ns, (&value,), uptime),
    ensures
        value is None ==> number == default && time == default && uptime == 88_200_000_000_000,
        value is Some && parse_unsigned(value->0@, 10, u64::MAX as nat) is None ==> number
            == default && time == default && uptime == 88_200_000_000_000,
        value is Some && parse_unsigned(value->0@, 10, u64::MAX as nat) is Some ==> number
            == parse_unsigned(value->0@, 10, u64::MAX as nat)->0 && uptime == 1_000_000_000
            * number,
        value is Some && parse_unsigned(value->0@, 10, u64::MAX as nat) is Some && number > 0
            ==> time == number,
        value is Some && parse_unsigned(value->0@, 10, u64::MAX as nat) is Some && number == 0
            ==> time == default,
{
}

/// A larger receive buffer is asked for only where one is wanted and the one that is there is
/// smaller; an interval is never nought.
pub proof fn law_buffers_are_only_made_larger(
    wanted: u64,
    present: Option<u64>,
    r: Option<i32>,
    interval: u64,
    at_least: u64,
)
    requires
        call_ensures(receive_buffer_to_ask, (wanted, present), r),
        call_ensures(at_least_one, (interval,), at_least),
    ensures
        r is Some ==> 0 < r->0 <= wanted,
        r is Some && wanted <= i32::MAX ==> r->0 == wanted,
        r is Some && present is Some ==> present->0 < wanted,
        r is None ==> wanted == 0 || present is Some && present->0 >= wanted,
        at_least >= 1 && (interval >= 1 ==> at_least == interval) && (interval == 0 ==> at_least
            == 1),
{
}

/// Tests keep no log, unless they ask for one.
pub proof fn law_tests_keep_no_log(a: bool, b: bool, forced: bool, test: bool, skipped: bool)
    requires
        call_ensures(daemon_is_test_mode, (a, b), test),
        call_ensures(daemon_log_file_should_be_skipped, (test, forced), skipped),
    ensures
        test <==> a || b,
        skipped <==> (a || b) && !forced,
{
}

/// The files that a daemon keeps beside its lock lie in the directory of the lock, under their
/// names; its log is named after its process.
pub proof fn law_files_lie_beside_the_lock(
    config: DaemonConfig,
    pid: u32,
    meta: RepoPath,
    history: RepoPath,
    log: RepoPath,
    dir: Option<RepoPath>,
    beside: RepoPath,
    beside_history: RepoPath,
)
    requires
        call_ensures(pid_metadata_path, (&config,), meta),
        call_ensures(self_restart_history_path, (&config,), history),
        call_ensures(RepoPath::parent, (&config.lock_path,), dir),
        dir is Some,
        call_ensures(RepoPath::child, (&dir->0, "daemon.pid.json"), beside),
        call_ensures(RepoPath::child, (&dir->0, "self_restart_history.json"), beside_history),
    ensures
        meta@ == beside@ && meta.text@ == beside.text@,
        history@ == beside_history@ && history.text@ == beside_history.text@,
{
}

/// A log is stale when it is named after a process and older than a week.
pub proof fn law_logs_grow_stale_in_a_week(stem: &str, age: Option<u128>, r: Option<u32>)
    requires
        call_ensures(stale_log_pid, (stem, age), r),
    ensures
        r is Some ==> parse_unsigned(stem@, 10, u32::MAX as nat) == Some(r->0 as nat),
        r is Some ==> age is Some && age->0 > 604_800_000_000_000,
        parse_unsigned(stem@, 10, u32::MAX as nat) is Some && age is Some && age->0
            > 604_800_000_000_000 ==> r is Some,
{
}

proof fn lemma_behind_last(name: Seq<char>, rest: Seq<char>)
    requires
        !rest.contains(')'),
    ensures
        crate::lifecycle::behind_last_bracket(name.push(')') + rest) == Some(rest),
    decreases rest.len(),
{
    let all = name.push(')') + rest;
    if rest.len() == 0 {
        assert(all.last() == ')');
        assert(rest =~= Seq::empty());
    } else {
        assert(rest.contains(rest.last()));
        let less = rest.drop_last();
        assert forall|i: int| 0 <= i < less.len() implies less[i] != ')' by {
            assert(rest[i] == less[i]);
            assert(rest.contains(rest[i]));
        }
        lemma_behind_last(name, less);
        assert(all.drop_last() =~= name.push(')') + less);
        assert(less.push(rest.last()) =~= rest);
        assert(all.last() == rest.last());
    }
}

/// A process is a zombie when the first word behind the last bracket of its entry is `Z`,
/// whatever its name holds; a zombie does not count as alive, nor does a process that is gone.
pub proof fn law_zombies_are_not_alive(
    name: Seq<char>,
    rest: Seq<char>,
    stat: &str,
    text: String,
    zombie: bool,
    alive: bool,
    gone: bool,
    unknown: bool,
)
    requires
        !rest.contains(')'),
        stat@ == name.push(')') + rest,
        text@ == stat@,
        call_ensures(process_stat_is_zombie, (stat,), zombie),
        call_ensures(process_counts_as_alive, (true, &Some(text)), alive),
        call_ensures(process_counts_as_alive, (false, &Some(text)), gone),
        call_ensures(process_counts_as_alive, (true, &None), unknown),
    ensures
        zombie <==> words_of(rest).len() > 0 && words_of(rest)[0] == "Z"@,
        alive <==> !zombie,
        !gone,
        unknown,
{
    lemma_behind_last(name, rest);
}

/// Token use is collected only where transcripts are followed, and thrown away where it is not
/// wanted; a limit on memory is counted in mebibytes.
pub proof fn law_startup_goes_by_the_settings(
    streaming: bool,
    tokens: bool,
    mb: u64,
    r: StartupPlan,
    free: StartupPlan,
)
    requires
        call_ensures(startup_plan, (streaming, tokens, Some(mb)), r),
        call_ensures(startup_plan, (streaming, tokens, None), free),
    ensures
        r.collect_token_usage <==> streaming && tokens,
        r.remove_token_usage <==> !tokens,
        r.follow_transcripts <==> streaming,
        mb <= 1_000_000 ==> r.memory_limit_bytes == Some((mb * 1_048_576) as u64),
        free.memory_limit_bytes is None,
{
}

/// A thread is waited for at most half a second, and never past the deadline.
pub proof fn law_threads_are_waited_for_a_little(deadline: u128, now: u128, r: Option<u128>)
    requires
        call_ensures(join_budget, (deadline, now), r),
    ensures
        r is None <==> now >= deadline,
        r is Some ==> 0 < r->0 <= 500_000_000 && now + r->0 <= deadline,
        r is Some && r->0 < 500_000_000 ==> now + r->0 == deadline,
{
}

/// Who waits for all work waits for the frames, drains the families and asks whether there is
/// work left, again and again until there is none; then the transcripts, the token use and the
/// telemetry follow.
pub proof fn law_awaiting_goes_in_order(
    run: &mut AwaitRun,
    event: AwaitEvent,
    now: u128,
    r: AwaitAction,
)
    requires
        call_ensures(AwaitRun::step, (run, event, now, false), r),
        now < old(run).deadline_ns,
    ensures
        ({
            let left = (old(run).deadline_ns - now) as u128;
            let phase = old(run).phase;
            let in_time = event == (AwaitEvent::Waited { timed_out: false });
            &&& phase is Pause && event is Begin ==> r == (AwaitAction::WaitForIngest {
                limit_ns: left,
            })
            &&& phase is Pause && in_time ==> r == (AwaitAction::WaitForIngest { limit_ns: left })
            &&& phase is Ingest && in_time ==> r == (AwaitAction::DrainFamilies { limit_ns: left })
            &&& phase is Drain && in_time ==> r is AskPending && final(run).phase is Pending
            &&& phase is Pending && event == (AwaitEvent::Pending { work: true }) ==> r == (
            AwaitAction::Sleep { ns: 50_000_000 })
            &&& phase is Pending && event == (AwaitEvent::Pending { work: false }) && old(
                run,
            ).has_streams ==> r == (AwaitAction::DrainStreams { limit_ns: left })
            &&& phase is Streams && in_time && old(run).has_tokens ==> r == (
            AwaitAction::DrainTokens { limit_ns: left })
            &&& phase is Tokens && in_time && old(run).has_telemetry ==> r == (
            AwaitAction::FlushTelemetry { limit_ns: left })
            &&& phase is Tokens && in_time && !old(run).has_telemetry ==> r is AskPending && final(run).phase is Final
            &&& phase is Telemetry && in_time ==> r is AskPending && final(run).phase is Final
        }),
        final(run).deadline_ns == old(run).deadline_ns,
{
}

/// What runs out of time is said to have, and is not done; what is done has nothing left.
pub proof fn law_awaiting_ends_with_what_is_left(
    first: &mut AwaitRun,
    second: &mut AwaitRun,
    event: AwaitEvent,
    now: u128,
    later: u128,
    ending: bool,
    work: bool,
    a: AwaitAction,
    b: AwaitAction,
)
    requires
        call_ensures(AwaitRun::step, (first, event, now, ending), a),
        final(first).phase is Final && !(old(first).phase is Final),
        *final(first) == *old(second),
        call_ensures(AwaitRun::step, (second, AwaitEvent::Pending { work }, later, ending), b),
        !old(first).result.timed_out,
    ensures
        a is AskPending && b is Finish,
        event == (AwaitEvent::Waited { timed_out: true }) ==> final(second).result.timed_out
            && !final(second).result.done,
        final(second).result.done <==> !final(second).result.timed_out && !work && final(second).result.metrics_remaining == 0 && final(second).result.notes_remaining == 0,
        event is Flushed && old(first).phase is Telemetry ==> final(second).result.metrics_remaining
            == event->metrics_remaining && final(second).result.notes_remaining
            == event->notes_remaining,
{
}

proof fn lemma_times(files: Seq<(String, Vec<u64>)>, only: Option<Seq<Seq<char>>>, t: u64)
    ensures
        crate::waits::times_of(files, only).contains(t) <==> exists|i: int|
            0 <= i < files.len() && (#[trigger] files[i]).1@.contains(t) && (only is None
                || only->0.contains(files[i].0@)),
    decreases files.len(),
{
    if files.len() > 0 {
        let rest = files.drop_last();
        let before = crate::waits::times_of(rest, only);
        let last = files.last();
        lemma_times(rest, only, t);
        let all = crate::waits::times_of(files, only);
        assert(files[files.len() - 1] == last);
        if before.contains(t) {
            assert(all[before.index_of(t)] == t);
            let i = choose|i: int|
                0 <= i < rest.len() && (#[trigger] rest[i]).1@.contains(t) && (only is None
                    || only->0.contains(rest[i].0@));
            assert(files[i] == rest[i]);
        }
        if (only is None || only->0.contains(last.0@)) && last.1@.contains(t) {
            assert(all[before.len() + last.1@.index_of(t)] == t);
        }
        if all.contains(t) && !before.contains(t) {
            let k = all.index_of(t);
            if k < before.len() {
                assert(before[k] == t);
            } else {
                assert(last.1@[k - before.len()] == t);
            }
        }
        if exists|i: int|
            0 <= i < files.len() && (#[trigger] files[i]).1@.contains(t) && (only is None
                || only->0.contains(files[i].0@)) {
            let i = choose|i: int|
                0 <= i < files.len() && (#[trigger] files[i]).1@.contains(t) && (only is None
                    || only->0.contains(files[i].0@));
            if i < rest.len() {
                assert(rest[i] == files[i]);
            }
        }
    }
}

/// The times that a commit is recovered by are those that were noted of its unknown files,
/// where there are any; each is told once, in order.
pub proof fn law_noted_times_of_unknown_files_count_first(
    noted: FileTimes,
    current: Option<FileTimes>,
    unknown: Vec<String>,
    r: Vec<u64>,
    needs: bool,
    i: int,
    t: u64,
)
    requires
        call_ensures(recovery_timestamps, (&Some(noted), &current, &unknown), r),
        call_ensures(needs_current_times, (&Some(noted), &unknown), needs),
        0 <= i < noted@.len(),
        noted@[i].1@.len() > 0,
        views(unknown@).contains(noted@[i].0@),
    ensures
        !needs,
        r@.contains(t) <==> exists|k: int|
            0 <= k < noted@.len() && (#[trigger] noted@[k]).1@.contains(t) && views(
                unknown@,
            ).contains(noted@[k].0@),
        forall|a: int, b: int| 0 <= a < b < r@.len() ==> r@[a] < r@[b],
{
    let only = Some(views(unknown@));
    let first = noted@[i].1@[0];
    assert(noted@[i].1@.contains(first));
    lemma_times(noted@, only, first);
    lemma_times(noted@, only, t);
    let times = crate::waits::times_of(noted@, only);
    assert(times.contains(first));
    assert(times.len() > 0);
    assert(r@.to_set().contains(t) == r@.contains(t));
    assert(times.to_set().contains(t) == times.contains(t));
}

/// Where nothing was noted of unknown files, their current times count; they are asked for
/// exactly then.
pub proof fn law_current_times_count_next(
    current: FileTimes,
    unknown: Vec<String>,
    r: Vec<u64>,
    needs: bool,
    i: int,
    t: u64,
)
    requires
        call_ensures(recovery_timestamps, (&None, &Some(current), &unknown), r),
        call_ensures(needs_current_times, (&None, &unknown), needs),
        0 <= i < current@.len(),
        current@[i].1@.len() > 0,
        views(unknown@).contains(current@[i].0@),
    ensures
        needs,
        r@.contains(t) <==> exists|k: int|
            0 <= k < current@.len() && (#[trigger] current@[k]).1@.contains(t) && views(
                unknown@,
            ).contains(current@[k].0@),
{
    let only = Some(views(unknown@));
    let first = current@[i].1@[0];
    assert(current@[i].1@.contains(first));
    lemma_times(current@, only, first);
    lemma_times(current@, only, t);
    let times = crate::waits::times_of(current@, only);
    assert(times.contains(first));
    assert(r@.to_set().contains(t) == r@.contains(t));
    assert(times.to_set().contains(t) == times.contains(t));
}

/// No files are as good as none noted.
pub proof fn law_no_files_are_none_noted(captured: Option<FileTimes>, r: Option<FileTimes>)
    requires
        call_ensures(noted_times, (captured,), r),
    ensures
        captured is None ==> r is None,
        captured is Some && captured->0@.len() == 0 ==> r is None,
        captured is Some && captured->0@.len() > 0 ==> r == captured,
{
}

/// A transcript that is known to be missing is swept for, then asked for again every tenth of a
/// second, for two seconds; one that is there or unknown is not waited for.
pub proof fn law_missing_transcripts_are_waited_for(
    now: u128,
    later: u128,
    deadline: u128,
    answer: Option<bool>,
    first: (PreflightPhase, PreflightAction),
    started: (PreflightPhase, PreflightAction),
    swept: (PreflightPhase, PreflightAction),
    slept: (PreflightPhase, PreflightAction),
    again: (PreflightPhase, PreflightAction),
)
    requires
        now < 1_000_000_000_000_000_000_000,
        now <= later,
        deadline == now + 2_000_000_000,
        call_ensures(
            recovery_preflight,
            (PreflightPhase::Asking, PreflightEvent::Answer(answer), now),
            first,
        ),
        call_ensures(
            recovery_preflight,
            (
                PreflightPhase::Starting { deadline_ns: deadline },
                PreflightEvent::SweepStarted(true),
                later,
            ),
            started,
        ),
        call_ensures(
            recovery_preflight,
            (
                PreflightPhase::Sweeping { deadline_ns: deadline },
                PreflightEvent::SweepEnded(true),
                later,
            ),
            swept,
        ),
        call_ensures(
            recovery_preflight,
            (PreflightPhase::Pausing { deadline_ns: deadline }, PreflightEvent::Slept, later),
            slept,
        ),
        call_ensures(
            recovery_preflight,
            (
                PreflightPhase::AskingAgain { deadline_ns: deadline },
                PreflightEvent::Answer(answer),
                later,
            ),
            again,
        ),
    ensures
        answer == Some(false) ==> first == (
            PreflightPhase::Starting { deadline_ns: deadline },
            PreflightAction::StartSweep,
        ),
        answer != Some(false) ==> first.1 is Finish && again.1 is Finish,
        later < deadline ==> started.1 == (PreflightAction::WaitForSweep {
            limit_ns: (deadline - later) as u128,
        }),
        later >= deadline ==> started.1 is Finish && swept.1 is Finish && again.1 is Finish,
        later + 100_000_000 <= deadline ==> swept.1 == (PreflightAction::Sleep { ns: 100_000_000 }),
        later < deadline < later + 100_000_000 ==> swept.1 == (PreflightAction::Sleep {
            ns: (deadline - later) as u128,
        }),
        slept.1 is Ask,
        answer == Some(false) ==> again == swept,
{
}

/// The log of a daemon lies below its directory and is named after its process.
pub proof fn law_logs_are_named_after_their_process(
    config: DaemonConfig,
    pid: u32,
    below: RepoPath,
    dir: RepoPath,
    number: String,
    name: &str,
    file: RepoPath,
    r_dir: RepoPath,
    r: RepoPath,
)
    requires
        call_ensures(daemon_log_dir, (&config,), r_dir),
        call_ensures(daemon_log_file_path, (&config, pid), r),
        call_ensures(RepoPath::child, (&config.internal_dir, "daemon"), below),
        call_ensures(RepoPath::child, (&below, "logs"), dir),
        call_ensures(crate::text::decimal, (pid as u64,), number),
        name@ == number@ + ".log"@,
        call_ensures(RepoPath::child, (&dir, name), file),
    ensures
        r_dir@ == dir@ && r_dir.text@ == dir.text@,
        r@ == file@ && r.text@ == file.text@,
{
}

/// The files beside a lock that lies in no directory lie in the current one.
pub proof fn law_files_beside_a_bare_lock_lie_here(
    config: DaemonConfig,
    here: RepoPath,
    meta: RepoPath,
    beside: RepoPath,
    dir: Option<RepoPath>,
)
    requires
        call_ensures(pid_metadata_path, (&config,), meta),
        call_ensures(RepoPath::parent, (&config.lock_path,), dir),
        dir is None,
        here@ == (false, seq!["."@]) && here.text@ == "."@,
        call_ensures(RepoPath::child, (&here, "daemon.pid.json"), beside),
    ensures
        meta@ == beside@ && meta.text@ == beside.text@,
{
}

} // verus!
