//! What a provider's driver reports, and how streamed deltas are batched.
use std::collections::VecDeque;
use vstd::prelude::*;
use vstd::string::*;

use crate::model::{ActivityItem, ActivityKind, CompactionState, ProviderResumeCursor, TurnStats};
use crate::text::same;

verus! {

/// An answer the user may give to a request for permission.
#[derive(Debug)]
pub struct PermissionOption {
    pub id: String,
    pub label: String,
}

/// A question the agent asks the user.
#[derive(Debug)]
pub struct UserQuestion {
    pub id: String,
    pub prompt: String,
}

/// What a transcript of background work reports.
#[derive(Debug)]
pub enum BackgroundWorkTranscriptEvent {
    Delta { text: String },
    Finished { text: String },
    Snapshot { text: String },
}

/// What work in the background reports.
#[derive(Debug)]
pub enum BackgroundWorkEvent {
    Changed { work: String },
    OutputDelta { work: String, text: String },
    Transcript(BackgroundWorkTranscriptEvent),
}

/// One report of a provider's driver.
#[derive(Debug)]
pub enum DriverEvent {
    RuntimeEventCursorAdvanced(u64),
    Connected { provider_cursor: Option<ProviderResumeCursor> },
    NativeSessionsChanged,
    AgentPresetSelected(Option<String>),
    AutoTitleUpdated(String),
    AvailableCommands(Vec<String>),
    TurnStarted,
    ProviderBusy,
    ProviderRetry { attempt: u32, message: String, action: Option<String>, next_at_ms: Option<u64> },
    TextStarted { part: String },
    TextDelta { part: String, delta: String },
    TextEnded { part: String, text: Option<String> },
    ReasoningStarted { part: String },
    ReasoningDelta { part: String, delta: String },
    ReasoningEnded { part: String, text: Option<String> },
    Activity { id: Option<String>, kind: ActivityKind, title: String, detail: Option<String>, complete: bool },
    RichActivity(ActivityItem),
    BackgroundWork(BackgroundWorkEvent),
    Permission { request_id: String, title: String, detail: Option<String>, options: Vec<PermissionOption> },
    UserInputRequested { request_id: String, questions: Vec<UserQuestion> },
    SteerAccepted { message: String },
    SteerRejected { message: String, reason: String },
    TurnStatsUpdated(TurnStats),
    PlanUsageUpdated(u64),
    UsageUpdated {
        context_tokens: Option<u64>,
        context_window: Option<u64>,
        session_total: Option<u64>,
        cache_read: Option<u64>,
        prompt_tokens: Option<u64>,
    },
    CompactionUpdated(CompactionState),
    TurnFinished { success: bool, summary: Option<String> },
    Error(String),
    ProcessExited,
}

/// The two kinds of streamed deltas.
#[derive(Clone, Copy, Debug, PartialEq, Eq, Structural)]
pub enum StreamDeltaKind {
    Text,
    Reasoning,
}

/// The part and the text of a delta of this kind.
pub open spec fn delta_of(event: DriverEvent, kind: StreamDeltaKind) -> Option<(Seq<char>, Seq<char>)> {
    match (kind, event) {
        (StreamDeltaKind::Text, DriverEvent::TextDelta { part, delta }) => Some((part@, delta@)),
        (StreamDeltaKind::Reasoning, DriverEvent::ReasoningDelta { part, delta }) => Some((part@, delta@)),
        _ => None,
    }
}

/// Which kind of delta an event is, if it is one.
pub fn stream_delta_kind(event: &DriverEvent) -> (r: Option<StreamDeltaKind>)
    ensures
        r == (match *event {
            DriverEvent::TextDelta { .. } => Some(StreamDeltaKind::Text),
            DriverEvent::ReasoningDelta { .. } => Some(StreamDeltaKind::Reasoning),
            _ => None,
        }),
{
    match event {
        DriverEvent::TextDelta { .. } => Some(StreamDeltaKind::Text),
        DriverEvent::ReasoningDelta { .. } => Some(StreamDeltaKind::Reasoning),
        _ => None,
    }
}

/// The part that a delta of this kind belongs to.
pub fn stream_delta_part(event: &DriverEvent, kind: StreamDeltaKind) -> (r: Option<&str>)
    ensures
        match r {
            Some(part) => delta_of(*event, kind) matches Some((p, _)) && p == part@,
            None => delta_of(*event, kind) is None,
        },
{
    match (kind, event) {
        (StreamDeltaKind::Text, DriverEvent::TextDelta { part, .. }) => Some(part.as_str()),
        (StreamDeltaKind::Reasoning, DriverEvent::ReasoningDelta { part, .. }) => Some(part.as_str()),
        _ => None,
    }
}

/// The text of a delta of this kind.
pub fn stream_delta_text(event: &DriverEvent, kind: StreamDeltaKind) -> (r: Option<&str>)
    ensures
        match r {
            Some(text) => delta_of(*event, kind) matches Some((_, t)) && t == text@,
            None => delta_of(*event, kind) is None,
        },
{
    match (kind, event) {
        (StreamDeltaKind::Text, DriverEvent::TextDelta { delta, .. }) => Some(delta.as_str()),
        (StreamDeltaKind::Reasoning, DriverEvent::ReasoningDelta { delta, .. }) => Some(delta.as_str()),
        _ => None,
    }
}

/// The part of the first delta, with only cursors before it.
pub open spec fn batch_part(events: Seq<DriverEvent>, kind: StreamDeltaKind) -> Option<Seq<char>>
    decreases events.len(),
{
    if events.len() == 0 {
        None
    } else if events[0] is RuntimeEventCursorAdvanced {
        batch_part(events.drop_first(), kind)
    } else {
        match delta_of(events[0], kind) {
            Some((part, _)) => Some(part),
            None => None,
        }
    }
}

/// An event belongs to a batch: a cursor, or a delta of the batch's part.
pub open spec fn in_batch(event: DriverEvent, kind: StreamDeltaKind, part: Option<Seq<char>>) -> bool {
    event is RuntimeEventCursorAdvanced || (delta_of(event, kind) matches Some((p, _)) && part == Some(p))
}

/// How many events at the front belong to the batch.
pub open spec fn batch_len(events: Seq<DriverEvent>, kind: StreamDeltaKind, part: Option<Seq<char>>) -> int
    decreases events.len(),
{
    if events.len() == 0 || !in_batch(events[0], kind, part) {
        0
    } else {
        1 + batch_len(events.drop_first(), kind, part)
    }
}

/// The text of the deltas of this kind, in order.
pub open spec fn deltas_text(events: Seq<DriverEvent>, kind: StreamDeltaKind) -> Seq<char>
    decreases events.len(),
{
    if events.len() == 0 {
        Seq::empty()
    } else {
        let before = deltas_text(events.drop_last(), kind);
        match delta_of(events.last(), kind) {
            Some((_, text)) => before + text,
            None => before,
        }
    }
}

/// The last cursor among the events.
pub open spec fn newest_cursor(events: Seq<DriverEvent>) -> Option<u64>
    decreases events.len(),
{
    if events.len() == 0 {
        None
    } else {
        match events.last() {
            DriverEvent::RuntimeEventCursorAdvanced(cursor) => Some(cursor),
            _ => newest_cursor(events.drop_last()),
        }
    }
}

/// What stays in the queue once the batch has been taken: the newest cursor of
/// the batch, then everything behind it.
pub open spec fn batch_rest(events: Seq<DriverEvent>, kind: StreamDeltaKind) -> Seq<DriverEvent> {
    let n = batch_len(events, kind, batch_part(events, kind));
    match newest_cursor(events.take(n)) {
        Some(cursor) => seq![DriverEvent::RuntimeEventCursorAdvanced(cursor)] + events.skip(n),
        None => events.skip(n),
    }
}

/// The text of the batch.
pub open spec fn batch_text(events: Seq<DriverEvent>, kind: StreamDeltaKind) -> Seq<char> {
    deltas_text(events.take(batch_len(events, kind, batch_part(events, kind))), kind)
}

/// The part that a batch is delivered under.
pub open spec fn batch_key(events: Seq<DriverEvent>, kind: StreamDeltaKind) -> Seq<char> {
    match batch_part(events, kind) {
        Some(part) => part,
        None => Seq::empty(),
    }
}

/// Takes every adjacent delta of one part off the queue as one delta, in order.
/// Cursors acknowledge rather than divide, so the newest one follows the delta.
pub fn pop_stream_batch(events: &mut VecDeque<DriverEvent>, kind: StreamDeltaKind) -> (r: Option<DriverEvent>)
    ensures
        final(events)@ == batch_rest(old(events)@, kind),
        r is Some,
        delta_of(r->0, kind) == Some((batch_key(old(events)@, kind), batch_text(old(events)@, kind))),
{
    let ghost all = events@;
    let ghost whole_part = batch_part(all, kind);
    let mut chunk = String::new();
    let mut part: Option<String> = None;
    let mut cursor: Option<u64> = None;
    let ghost mut done: int = 0;
    proof {
        assert(all.skip(0) =~= all);
        assert(all.take(0) =~= Seq::empty());
        assert(chunk@ =~= Seq::empty());
    }
    while events.len() > 0
        invariant_except_break
            0 <= done <= all.len(),
            events@ == all.skip(done),
            whole_part == batch_part(all, kind),
            batch_len(all, kind, whole_part) == done + batch_len(all.skip(done), kind, whole_part),
            chunk@ == deltas_text(all.take(done), kind),
            cursor == newest_cursor(all.take(done)),
            match part {
                Some(p) => whole_part == Some(p@),
                None => whole_part == batch_part(all.skip(done), kind),
            },
        ensures
            0 <= done <= all.len(),
            events@ == all.skip(done),
            batch_len(all, kind, whole_part) == done,
            chunk@ == deltas_text(all.take(done), kind),
            cursor == newest_cursor(all.take(done)),
            match part {
                Some(p) => whole_part == Some(p@),
                None => whole_part is None,
            },
        decreases events@.len(),
    {
        proof {
            assert(all.skip(done)[0] == all[done]);
            assert(all.skip(done).drop_first() =~= all.skip(done + 1));
            assert(all.take(done + 1).drop_last() =~= all.take(done));
            assert(all.take(done + 1).last() == all[done]);
        }
        let stop: bool = match &events[0] {
            DriverEvent::RuntimeEventCursorAdvanced(_) => false,
            event => match stream_delta_part(event, kind) {
                Some(next) => match &part {
                    Some(current) => !same(current.as_str(), next),
                    None => false,
                },
                None => true,
            },
        };
        if stop {
            break;
        }
        let ghost before = events@;
        match events.pop_front() {
            Some(DriverEvent::RuntimeEventCursorAdvanced(next)) => {
                cursor = Some(next);
            },
            Some(event) => {
                if let Some(next) = stream_delta_part(&event, kind) {
                    part = Some(next.to_owned());
                }
                if let Some(text) = stream_delta_text(&event, kind) {
                    chunk.append(text);
                }
            },
            None => {},
        }
        proof {
            assert(events@ =~= all.skip(done + 1));
            done = done + 1;
        }
    }
    if let Some(newest) = cursor {
        events.push_front(DriverEvent::RuntimeEventCursorAdvanced(newest));
        assert(events@ =~= batch_rest(all, kind));
    }
    let key = match part {
        Some(part) => part,
        None => String::new(),
    };
    assert(key@ =~= batch_key(all, kind));
    match kind {
        StreamDeltaKind::Text => Some(DriverEvent::TextDelta { part: key, delta: chunk }),
        StreamDeltaKind::Reasoning => Some(DriverEvent::ReasoningDelta { part: key, delta: chunk }),
    }
}

} // verus!
