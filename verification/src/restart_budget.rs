//! How often the daemon may restart itself.
use vstd::prelude::*;

verus! {

/// How many restarts there may be within the window.
pub const DAEMON_SELF_RESTART_BUDGET_MAX: usize = 5;

/// The window, in seconds.
pub const DAEMON_SELF_RESTART_BUDGET_WINDOW_SECS: u64 = 3_600;

/// The times that a history file holds, if it is a list of numbers.
pub uninterp spec fn history_entries(text: Seq<char>) -> Option<Seq<u64>>;

/// The text of a list of times.
pub uninterp spec fn history_text(entries: Seq<u64>) -> Seq<char>;

/// The times in a list, if there is one.
pub open spec fn times_view(entries: Option<Vec<u64>>) -> Option<Seq<u64>> {
    match entries {
        Some(list) => Some(list@),
        None => None,
    }
}

/// `serde_json::from_str` into a list of numbers: the list that the text holds,
/// and nothing when it holds none. The result depends on the text alone.
#[verifier::external_body]
fn parse_history(text: &str) -> (r: Option<Vec<u64>>)
    ensures
        times_view(r) == history_entries(text@),
{
    serde_json::from_str::<Vec<u64>>(text).ok()
}

/// `serde_json::to_string` of a list of numbers: the text of the list, which
/// depends on the list alone and from which `serde_json::from_str` reads the same
/// list again. There is one: only a failing `Serialize`, or a map whose keys are
/// no text, has none.
#[verifier::external_body]
fn write_history(entries: &Vec<u64>) -> (r: Option<String>)
    ensures
        r is Some,
        (r->0)@ == history_text(entries@),
        history_entries((r->0)@) == Some(entries@),
{
    serde_json::to_string(entries).ok()
}

/// Whether a restart at `ts` counts: within the window, and not ahead of the clock.
pub open spec fn restart_counts(ts: u64, now_secs: u64, window_secs: u64) -> bool {
    ts <= now_secs && now_secs - ts < window_secs
}

/// The restarts that count.
pub open spec fn counted(history: Seq<u64>, now_secs: u64, window_secs: u64) -> Seq<u64>
    decreases history.len(),
{
    if history.len() == 0 {
        Seq::empty()
    } else {
        let before = counted(history.drop_last(), now_secs, window_secs);
        if restart_counts(history.last(), now_secs, window_secs) {
            before.push(history.last())
        } else {
            before
        }
    }
}

/// Whether one more restart is within the budget.
pub open spec fn has_budget(history: Seq<u64>, now_secs: u64, window_secs: u64, max: usize) -> bool {
    counted(history, now_secs, window_secs).len() < max
}

/// The history once a restart was asked for: without what no longer counts, and with
/// the restart, where the budget allows it.
pub open spec fn history_after(history: Seq<u64>, now_secs: u64, window_secs: u64, max: usize) -> Seq<
    u64,
> {
    if has_budget(history, now_secs, window_secs, max) {
        counted(history, now_secs, window_secs).push(now_secs)
    } else {
        counted(history, now_secs, window_secs)
    }
}

/// Asks the budget for a restart: whether it is allowed, and the history to keep.
pub fn take_restart(history: &Vec<u64>, now_secs: u64, window_secs: u64, max: usize) -> (r: (
    bool,
    Vec<u64>,
))
    ensures
        r.0 == has_budget(history@, now_secs, window_secs, max),
        r.1@ == history_after(history@, now_secs, window_secs, max),
{
    let mut kept: Vec<u64> = Vec::new();
    let mut i: usize = 0;
    assert(history@.take(0) =~= Seq::<u64>::empty());
    while i < history.len()
        invariant
            i <= history.len(),
            kept@ == counted(history@.take(i as int), now_secs, window_secs),
        decreases history.len() - i,
    {
        assert(history@.take(i + 1).drop_last() =~= history@.take(i as int));
        if history[i] <= now_secs && now_secs - history[i] < window_secs {
            kept.push(history[i]);
        }
        i += 1;
    }
    assert(history@.take(history@.len() as int) =~= history@);
    if kept.len() >= max {
        return (false, kept);
    }
    kept.push(now_secs);
    (true, kept)
}

/// What is on disk of the restarts.
#[derive(Debug)]
pub enum HistoryFile {
    /// Nothing yet.
    Missing,
    /// It cannot be read.
    Unreadable,
    Text(String),
}

/// What is done about a restart that was asked for.
#[derive(Debug)]
pub enum BudgetDecision {
    /// Denied.
    Deny,
    /// Denied, and the history, which makes no sense, is removed.
    DenyAndRemove,
    /// Denied, and this is written as the history.
    DenyAndWrite(String),
    /// Allowed, as soon as this is written as the history, and denied if it cannot be.
    AllowOnceWritten(String),
}

/// The times that a history file holds, where it can be read and makes sense.
pub open spec fn file_entries(file: HistoryFile) -> Option<Seq<u64>> {
    match file {
        HistoryFile::Missing => Some(Seq::empty()),
        HistoryFile::Unreadable => None,
        HistoryFile::Text(text) => history_entries(text@),
    }
}

/// Asks the budget for a restart. A history that cannot be read, makes no sense or
/// cannot be written denies it: in a loop of crashes that is what is to be expected.
pub fn consume_self_restart_budget(
    file: &HistoryFile,
    now_secs: u64,
    window_secs: u64,
    max: usize,
) -> (r: BudgetDecision)
    ensures
        match file_entries(*file) {
            Some(history) => {
                let kept = history_after(history, now_secs, window_secs, max);
                if has_budget(history, now_secs, window_secs, max) {
                    &&& r is AllowOnceWritten
                    &&& r->AllowOnceWritten_0@ == history_text(kept)
                    &&& history_entries(r->AllowOnceWritten_0@) == Some(kept)
                } else {
                    &&& r is DenyAndWrite
                    &&& r->DenyAndWrite_0@ == history_text(kept)
                    &&& history_entries(r->DenyAndWrite_0@) == Some(kept)
                }
            },
            None => if *file is Unreadable {
                r is Deny
            } else {
                r is DenyAndRemove
            },
        },
{
    let history = match file {
        HistoryFile::Missing => {
            let none: Vec<u64> = Vec::new();
            assert(none@ =~= Seq::<u64>::empty());
            none
        },
        HistoryFile::Unreadable => {
            return BudgetDecision::Deny;
        },
        HistoryFile::Text(text) => match parse_history(text.as_str()) {
            Some(history) => history,
            None => {
                return BudgetDecision::DenyAndRemove;
            },
        },
    };
    let (allowed, kept) = take_restart(&history, now_secs, window_secs, max);
    match write_history(&kept) {
        Some(text) => if allowed {
            BudgetDecision::AllowOnceWritten(text)
        } else {
            BudgetDecision::DenyAndWrite(text)
        },
        None => BudgetDecision::Deny,
    }
}

/// The history without its last restart.
pub open spec fn without_last(history: Seq<u64>) -> Seq<u64> {
    if history.len() == 0 {
        history
    } else {
        history.drop_last()
    }
}

/// Takes the last restart back.
pub fn give_restart_back(history: Vec<u64>) -> (r: Vec<u64>)
    ensures
        r@ == without_last(history@),
{
    let mut history = history;
    let ghost before = history@;
    history.pop();
    assert(history@ =~= without_last(before));
    history
}

/// Takes the last restart back, which came to nothing; returns what is written as
/// the history.
pub fn refund_self_restart_budget(file: &HistoryFile) -> (r: Option<String>)
    ensures
        r is Some <==> *file is Text && file_entries(*file) is Some,
        r is Some ==> (r->0)@ == history_text(without_last(file_entries(*file)->0))
            && history_entries((r->0)@) == Some(without_last(file_entries(*file)->0)),
{
    match file {
        HistoryFile::Text(text) => match parse_history(text.as_str()) {
            Some(history) => {
                let left = give_restart_back(history);
                write_history(&left)
            },
            None => None,
        },
        _ => None,
    }
}

proof fn lemma_counted(history: Seq<u64>, now_secs: u64, window_secs: u64)
    ensures
        forall|i: int|
            0 <= i < counted(history, now_secs, window_secs).len() ==> restart_counts(
                #[trigger] counted(history, now_secs, window_secs)[i],
                now_secs,
                window_secs,
            ),
    decreases history.len(),
{
    if history.len() > 0 {
        let before = counted(history.drop_last(), now_secs, window_secs);
        lemma_counted(history.drop_last(), now_secs, window_secs);
        assert forall|i: int| 0 <= i < counted(history, now_secs, window_secs).len() implies
            restart_counts(
            #[trigger] counted(history, now_secs, window_secs)[i],
            now_secs,
            window_secs,
        ) by {
            if i < before.len() {
                assert(counted(history, now_secs, window_secs)[i] == before[i]);
            }
        }
    }
}

/// Never more restarts are kept than the budget allows, all of them within the
/// window, and a restart that is denied is not kept.
pub proof fn law_restarts_stay_within_the_budget(
    history: Seq<u64>,
    now_secs: u64,
    window_secs: u64,
    max: usize,
)
    requires
        counted(history, now_secs, window_secs).len() <= max,
        window_secs > 0,
    ensures
        history_after(history, now_secs, window_secs, max).len() <= max,
        forall|i: int|
            0 <= i < history_after(history, now_secs, window_secs, max).len() ==> restart_counts(
                #[trigger] history_after(history, now_secs, window_secs, max)[i],
                now_secs,
                window_secs,
            ),
        !has_budget(history, now_secs, window_secs, max) ==> history_after(
            history,
            now_secs,
            window_secs,
            max,
        ) == counted(history, now_secs, window_secs),
{
    let kept = counted(history, now_secs, window_secs);
    lemma_counted(history, now_secs, window_secs);
    assert forall|i: int|
        0 <= i < history_after(history, now_secs, window_secs, max).len() implies restart_counts(
        #[trigger] history_after(history, now_secs, window_secs, max)[i],
        now_secs,
        window_secs,
    ) by {
        if i < kept.len() {
            assert(history_after(history, now_secs, window_secs, max)[i] == kept[i]);
        }
    }
}

/// A restart that came to nothing and was taken back leaves the budget as it was.
pub proof fn law_a_refund_undoes_a_restart(
    history: Seq<u64>,
    now_secs: u64,
    window_secs: u64,
    max: usize,
)
    requires
        has_budget(history, now_secs, window_secs, max),
    ensures
        without_last(history_after(history, now_secs, window_secs, max)) == counted(
            history,
            now_secs,
            window_secs,
        ),
{
    assert(without_last(history_after(history, now_secs, window_secs, max)) =~= counted(
        history,
        now_secs,
        window_secs,
    ));
}

/// A time ahead of the clock holds no restart back.
pub proof fn law_future_times_do_not_count(
    history: Seq<u64>,
    now_secs: u64,
    window_secs: u64,
    max: usize,
)
    requires
        forall|i: int| 0 <= i < history.len() ==> #[trigger] history[i] > now_secs,
        max > 0,
    ensures
        has_budget(history, now_secs, window_secs, max),
    decreases history.len(),
{
    lemma_none_count(history, now_secs, window_secs);
}

proof fn lemma_none_count(history: Seq<u64>, now_secs: u64, window_secs: u64)
    requires
        forall|i: int| 0 <= i < history.len() ==> #[trigger] history[i] > now_secs,
    ensures
        counted(history, now_secs, window_secs).len() == 0,
    decreases history.len(),
{
    if history.len() > 0 {
        assert forall|i: int| 0 <= i < history.drop_last().len() implies #[trigger]
            history.drop_last()[i] > now_secs by {
            assert(history.drop_last()[i] == history[i]);
        }
        lemma_none_count(history.drop_last(), now_secs, window_secs);
        assert(history[history.len() - 1] > now_secs);
    }
}

} // verus!
