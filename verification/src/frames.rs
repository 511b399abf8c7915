//! Frames of git's trace as text.
use crate::ingest::{
    observe_frame_root, passed_over, payload_root, root_observed, trace_frame_use,
    trace_line_verdict, FrameUse, LineVerdict,
};
use crate::ingress::TraceIngressState;
use crate::lifecycle::DrainProbes;
use crate::text::{opt_view, str_eq, trim, trim_of, views};
use crate::trace::{
    is_ingested_event, text_or_empty, SeqField, TextField, TracePayload, TRACE_DRAIN_PROBE_EVENT,
};
use serde_json::Value;
use vstd::prelude::*;

verus! {

/// Where the daemon keeps the number that it gives a frame.
pub const TRACE_INGEST_SEQ_FIELD: &'static str = "git_ai_ingest_seq";

/// Where the daemon keeps how long the reflogs were when a command started.
pub const TRACE_ROOT_REFLOG_START_OFFSETS_FIELD: &'static str = "git_ai_root_reflog_start_offsets";

/// Where the daemon's own probes carry their number.
pub const TRACE_DRAIN_PROBE_ID_FIELD: &'static str = "git_ai_probe_id";

/// A value that a frame holds under a name. Of a number it is known whether it is
/// a `u64`; of what a list or an object holds, its texts or its numbers.
#[derive(Debug)]
pub enum FrameValue {
    Null,
    Bool,
    Number(Option<u64>),
    Text(String),
    List(Vec<Option<String>>),
    Object(Vec<(String, Option<u64>)>),
}

/// What a frame holds, as a mathematical value.
pub enum ValueModel {
    Null,
    Bool,
    Number(Option<u64>),
    Text(Seq<char>),
    List(Seq<Option<Seq<char>>>),
    Object(Seq<(Seq<char>, Option<u64>)>),
}

/// The members of a frame, each under its name.
pub type MembersModel = Seq<(Seq<char>, ValueModel)>;

impl View for FrameValue {
    type V = ValueModel;

    open spec fn view(&self) -> ValueModel {
        match *self {
            FrameValue::Null => ValueModel::Null,
            FrameValue::Bool => ValueModel::Bool,
            FrameValue::Number(n) => ValueModel::Number(n),
            FrameValue::Text(s) => ValueModel::Text(s@),
            FrameValue::List(l) => ValueModel::List(
                Seq::new(l@.len(), |i: int| opt_view(l@[i])),
            ),
            FrameValue::Object(o) => ValueModel::Object(
                Seq::new(o@.len(), |i: int| (o@[i].0@, o@[i].1)),
            ),
        }
    }
}

/// The members of a frame.
pub open spec fn members_model(members: Seq<(String, FrameValue)>) -> MembersModel {
    Seq::new(members.len(), |i: int| (members[i].0@, members[i].1@))
}

/// The members of a frame that could be read.
pub open spec fn members_view(members: Option<Vec<(String, FrameValue)>>) -> Option<MembersModel> {
    match members {
        Some(list) => Some(members_model(list@)),
        None => None,
    }
}

/// The members of the object that a text holds, and nothing where it holds none.
pub uninterp spec fn frame_members(text: Seq<char>) -> Option<MembersModel>;

/// `serde_json::from_str` into a `serde_json::Value`: the members of the object that
/// the text holds, and nothing where it holds something else or cannot be read. The
/// result depends on the text alone.
#[verifier::external_body]
fn parse_members(text: &str) -> (r: Option<Vec<(String, FrameValue)>>)
    ensures
        members_view(r) == frame_members(text@),
{
    let document: Value = serde_json::from_str(text).ok()?;
    Some(document.as_object()?.iter().map(|(k, v)| (k.clone(), match v {
        Value::Null => FrameValue::Null,
        Value::Bool(_) => FrameValue::Bool,
        Value::Number(n) => FrameValue::Number(n.as_u64()),
        Value::String(s) => FrameValue::Text(s.clone()),
        Value::Array(l) => FrameValue::List(l.iter().map(|x| x.as_str().map(Into::into)).collect()),
        Value::Object(o) => FrameValue::Object(o.iter().map(|(k, x)| (k.clone(), x.as_u64())).collect()),
    })).collect())
}

/// What stands under a name.
pub open spec fn member(members: MembersModel, name: Seq<char>) -> Option<ValueModel>
    decreases members.len(),
{
    if members.len() == 0 {
        None
    } else if members[0].0 == name {
        Some(members[0].1)
    } else {
        member(members.skip(1), name)
    }
}

/// The text under a name.
pub open spec fn text_member(members: MembersModel, name: Seq<char>) -> Option<Seq<char>> {
    match member(members, name) {
        Some(ValueModel::Text(s)) => Some(s),
        _ => None,
    }
}

/// The number under a name.
pub open spec fn number_member(members: MembersModel, name: Seq<char>) -> Option<u64> {
    match member(members, name) {
        Some(ValueModel::Number(n)) => n,
        _ => None,
    }
}

/// The texts of a list.
pub open spec fn texts_of(list: Seq<Option<Seq<char>>>) -> Seq<Seq<char>>
    decreases list.len(),
{
    if list.len() == 0 {
        Seq::empty()
    } else {
        match list.last() {
            Some(text) => texts_of(list.drop_last()).push(text),
            None => texts_of(list.drop_last()),
        }
    }
}

/// The texts of the list under a name.
pub open spec fn list_member(members: MembersModel, name: Seq<char>) -> Seq<Seq<char>> {
    match member(members, name) {
        Some(ValueModel::List(list)) => texts_of(list),
        _ => Seq::empty(),
    }
}

/// The numbers of an object.
pub open spec fn numbers_of(object: Seq<(Seq<char>, Option<u64>)>) -> Seq<(Seq<char>, u64)>
    decreases object.len(),
{
    if object.len() == 0 {
        Seq::empty()
    } else {
        match object.last().1 {
            Some(n) => numbers_of(object.drop_last()).push((object.last().0, n)),
            None => numbers_of(object.drop_last()),
        }
    }
}

/// The numbers of the object under a name, where anything stands there.
pub open spec fn numbers_member(members: MembersModel, name: Seq<char>) -> Option<
    Seq<(Seq<char>, u64)>,
> {
    match member(members, name) {
        Some(ValueModel::Object(object)) => Some(numbers_of(object)),
        Some(_) => Some(Seq::empty()),
        None => None,
    }
}

/// Named numbers.
pub open spec fn named_numbers(list: Seq<(String, u64)>) -> Seq<(Seq<char>, u64)> {
    Seq::new(list.len(), |i: int| (list[i].0@, list[i].1))
}

/// The number under which the frame says that it is worked off.
pub open spec fn seq_member(members: MembersModel) -> SeqField {
    match member(members, TRACE_INGEST_SEQ_FIELD@) {
        Some(ValueModel::Number(Some(n))) => SeqField::Number(n),
        Some(_) => SeqField::NotNumber,
        None => SeqField::Absent,
    }
}

/// Whether a frame is what its members say. The repository's number says whether it is
/// another one than the command's own: that one has the number 1.
pub open spec fn reads_as(
    payload: TracePayload,
    members: MembersModel,
    raw: Seq<char>,
    abs_ns: Option<u128>,
) -> bool {
    &&& opt_view(payload.event) == text_member(members, "event"@)
    &&& opt_view(payload.sid) == text_member(members, "sid"@)
    &&& opt_view(payload.name) == text_member(members, "name"@)
    &&& views(payload.argv@) == list_member(members, "argv"@)
    &&& payload.worktree is Absent <==> member(members, "worktree"@) is None
    &&& payload.worktree.text() == text_member(members, "worktree"@)
    &&& opt_view(payload.repo_working_dir) == text_member(members, "repo_working_dir"@)
    &&& opt_view(payload.repo) == text_member(members, "repo"@)
    &&& payload.secondary_repo == (match number_member(members, "repo"@) {
        Some(n) => n > 1,
        None => false,
    })
    &&& opt_view(payload.cwd) == text_member(members, "cwd"@)
    &&& opt_view(payload.time) == text_member(members, "time"@)
    &&& payload.time_ns == number_member(members, "time_ns"@)
    &&& payload.ts == number_member(members, "ts"@)
    &&& payload.abs_ns == abs_ns
    &&& payload.probe_id == number_member(members, TRACE_DRAIN_PROBE_ID_FIELD@)
    &&& payload.ingest_seq == seq_member(members)
    &&& (match payload.reflog_start_offsets {
        Some(list) => Some(named_numbers(list@)),
        None => None,
    }) == numbers_member(members, TRACE_ROOT_REFLOG_START_OFFSETS_FIELD@)
    &&& payload.raw@ == raw
}

fn find_member<'a>(members: &'a Vec<(String, FrameValue)>, name: &str) -> (r: Option<&'a FrameValue>)
    ensures
        (match r {
            Some(v) => Some(v@),
            None => None,
        }) == member(members_model(members@), name@),
{
    let ghost model = members_model(members@);
    let mut i: usize = 0;
    assert(model.skip(0) =~= model);
    while i < members.len()
        invariant
            i <= members.len(),
            model == members_model(members@),
            member(model, name@) == member(model.skip(i as int), name@),
        decreases members.len() - i,
    {
        assert(model.skip(i as int)[0] == model[i as int]);
        assert(model.skip(i as int).skip(1) =~= model.skip(i + 1));
        if str_eq(members[i].0.as_str(), name) {
            return Some(&members[i].1);
        }
        i += 1;
    }
    None
}

fn find_text(members: &Vec<(String, FrameValue)>, name: &str) -> (r: Option<String>)
    ensures
        opt_view(r) == text_member(members_model(members@), name@),
{
    match find_member(members, name) {
        Some(FrameValue::Text(s)) => Some(s.clone()),
        _ => None,
    }
}

fn find_number(members: &Vec<(String, FrameValue)>, name: &str) -> (r: Option<u64>)
    ensures
        r == number_member(members_model(members@), name@),
{
    match find_member(members, name) {
        Some(FrameValue::Number(n)) => *n,
        _ => None,
    }
}

fn texts(list: &Vec<Option<String>>) -> (r: Vec<String>)
    ensures
        views(r@) == texts_of(Seq::new(list@.len(), |i: int| opt_view(list@[i]))),
{
    let ghost model = Seq::new(list@.len(), |i: int| opt_view(list@[i]));
    let mut out: Vec<String> = Vec::new();
    let mut i: usize = 0;
    assert(views(out@) =~= texts_of(model.take(0)));
    while i < list.len()
        invariant
            i <= list.len(),
            model == Seq::new(list@.len(), |j: int| opt_view(list@[j])),
            views(out@) == texts_of(model.take(i as int)),
        decreases list.len() - i,
    {
        assert(model.take(i + 1).drop_last() =~= model.take(i as int));
        let ghost was = views(out@);
        if let Some(text) = &list[i] {
            out.push(text.clone());
            assert(views(out@) =~= was.push(text@));
        }
        i += 1;
    }
    assert(model.take(list@.len() as int) =~= model);
    out
}

fn numbers(object: &Vec<(String, Option<u64>)>) -> (r: Vec<(String, u64)>)
    ensures
        named_numbers(r@) == numbers_of(
            Seq::new(object@.len(), |i: int| (object@[i].0@, object@[i].1)),
        ),
{
    let ghost model = Seq::new(object@.len(), |i: int| (object@[i].0@, object@[i].1));
    let mut out: Vec<(String, u64)> = Vec::new();
    let mut i: usize = 0;
    assert(named_numbers(out@) =~= numbers_of(model.take(0)));
    while i < object.len()
        invariant
            i <= object.len(),
            model == Seq::new(object@.len(), |j: int| (object@[j].0@, object@[j].1)),
            named_numbers(out@) == numbers_of(model.take(i as int)),
        decreases object.len() - i,
    {
        assert(model.take(i + 1).drop_last() =~= model.take(i as int));
        let ghost was = named_numbers(out@);
        if let Some(n) = object[i].1 {
            out.push((object[i].0.clone(), n));
            assert(named_numbers(out@) =~= was.push((object@[i as int].0@, n)));
        }
        i += 1;
    }
    assert(model.take(object@.len() as int) =~= model);
    out
}

/// The frame that its members make.
pub fn trace_payload_from(
    members: &Vec<(String, FrameValue)>,
    raw: String,
    abs_ns: Option<u128>,
) -> (r: TracePayload)
    ensures
        reads_as(r, members_model(members@), raw@, abs_ns),
{
    let argv = match find_member(members, "argv") {
        Some(FrameValue::List(list)) => texts(list),
        _ => Vec::new(),
    };
    let worktree = match find_member(members, "worktree") {
        Some(FrameValue::Text(s)) => TextField::Text(s.clone()),
        Some(_) => TextField::NotText,
        None => TextField::Absent,
    };
    let secondary_repo = match find_number(members, "repo") {
        Some(n) => n > 1,
        None => false,
    };
    let ingest_seq = match find_member(members, TRACE_INGEST_SEQ_FIELD) {
        Some(FrameValue::Number(Some(n))) => SeqField::Number(*n),
        Some(_) => SeqField::NotNumber,
        None => SeqField::Absent,
    };
    let reflog_start_offsets = match find_member(members, TRACE_ROOT_REFLOG_START_OFFSETS_FIELD) {
        Some(FrameValue::Object(object)) => Some(numbers(object)),
        Some(_) => {
            let none: Vec<(String, u64)> = Vec::new();
            assert(named_numbers(none@) =~= Seq::empty());
            Some(none)
        },
        None => None,
    };
    assert(argv@.len() == 0 ==> views(argv@) =~= Seq::empty());
    TracePayload {
        event: find_text(members, "event"),
        sid: find_text(members, "sid"),
        name: find_text(members, "name"),
        argv,
        worktree,
        repo_working_dir: find_text(members, "repo_working_dir"),
        repo: find_text(members, "repo"),
        secondary_repo,
        cwd: find_text(members, "cwd"),
        time: find_text(members, "time"),
        time_ns: find_number(members, "time_ns"),
        ts: find_number(members, "ts"),
        abs_ns,
        probe_id: find_number(members, TRACE_DRAIN_PROBE_ID_FIELD),
        ingest_seq,
        reflog_start_offsets,
        raw,
    }
}

/// Reads a line off a trace connection. A line of no use, and one that cannot be read, give
/// nothing. The time that a frame gives in seconds comes as nanoseconds.
pub fn read_trace_line(line: &str, abs_ns: Option<u128>) -> (r: Option<TracePayload>)
    ensures
        r is Some <==> !passed_over(line@) && frame_members(trim_of(line@)) is Some,
        r is Some ==> reads_as(
            r->0,
            frame_members(trim_of(line@))->0,
            trim_of(line@),
            abs_ns,
        ),
{
    match trace_line_verdict(line) {
        LineVerdict::Skip => None,
        LineVerdict::Parse => {
            let raw = trim(line);
            match parse_members(raw.as_str()) {
                Some(members) => Some(trace_payload_from(&members, raw, abs_ns)),
                None => None,
            }
        },
    }
}

/// The event of the frame that a line holds, where it holds one that is read.
pub open spec fn line_event(line: Seq<char>) -> Option<Seq<char>> {
    if passed_over(line) {
        None
    } else {
        match frame_members(trim_of(line)) {
            Some(members) => Some(text_or_empty(text_member(members, "event"@))),
            None => None,
        }
    }
}

/// The probe that a line sends through, if it does.
pub open spec fn line_probe(line: Seq<char>) -> Option<u64> {
    if line_event(line) == Some(TRACE_DRAIN_PROBE_EVENT@) {
        number_member(frame_members(trim_of(line))->0, TRACE_DRAIN_PROBE_ID_FIELD@)
    } else {
        None
    }
}

/// Takes a line of a connection that has named the roots in `observed`. A frame that is
/// to be worked off is returned, with its root noted as one of the connection's; a probe
/// is noted as seen; the rest is passed over.
pub fn take_trace_line(
    ingress: &mut TraceIngressState,
    probes: &mut DrainProbes,
    observed: &mut Vec<String>,
    line: &str,
    abs_ns: Option<u128>,
) -> (r: Option<TracePayload>)
    ensures
        r is Some <==> (line_event(line@) is Some && line_event(line@)
            != Some(TRACE_DRAIN_PROBE_EVENT@) && is_ingested_event(line_event(line@)->0)),
        r is Some ==> reads_as(
            r->0,
            frame_members(trim_of(line@))->0,
            trim_of(line@),
            abs_ns,
        ),
        root_observed(
            *old(ingress),
            *final(ingress),
            views(old(observed)@),
            views(final(observed)@),
            if r is Some {
                payload_root(r->0)
            } else {
                None
            },
        ),
        *final(probes) == (match line_probe(line@) {
            Some(id) => old(probes).seen(id),
            None => *old(probes),
        }),
{
    let payload = match read_trace_line(line, abs_ns) {
        Some(payload) => payload,
        None => {
            return None;
        },
    };
    match trace_frame_use(&payload) {
        FrameUse::Ignore => None,
        FrameUse::Probe(probe) => {
            if let Some(id) = probe {
                probes.record_trace_drain_probe(id);
            }
            None
        },
        FrameUse::Ingest => {
            observe_frame_root(ingress, observed, &payload);
            Some(payload)
        },
    }
}

} // verus!
