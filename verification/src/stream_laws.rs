//! What holds of streamed output, whatever order it comes in.
use vstd::prelude::*;

use crate::desk::lemma_session_id;
use crate::driver_step::{is_output, usage_merged};
use crate::events::{
    batch_len, batch_part, batch_rest, batch_text, delta_of, deltas_text, newest_cursor, DriverEvent, StreamDeltaKind,
};
use crate::ids::{Stamp, Uuid};
use crate::live::Live;
use crate::model::{AgentSessionView, CompactionStateView, ContextUsage, MessageRole, TurnStatus};
use crate::text::{lemma_trimmed_twice, trimmed};
use crate::text_parts::{compaction_shown, shows_summary};
use crate::transcript::reasoning_bound;

verus! {

// ---- deliveries that come twice ---------------------------------------------

/// The end of a text part, delivered again with whatever text, changes nothing.
pub proof fn text_end_settles_once(
    live: Live,
    id: Uuid,
    part: Seq<char>,
    text: Option<Seq<char>>,
    stamp: Stamp,
    again: Option<Seq<char>>,
    later: Stamp,
)
    ensures
        ({
            let once = live.text_ended(id, part, text, stamp);
            once.text_ended(id, part, again, later) == once
        }),
{
}

/// The start of a text part, delivered again, does not split the sentence.
pub proof fn text_start_opens_once(live: Live, id: Uuid, part: Seq<char>, stamp: Stamp, later: Stamp)
    ensures
        ({
            let once = live.text_opened(id, part, stamp);
            once.text_opened(id, part, later) == once
        }),
{
    lemma_session_id(live.desk.state, id);
}

/// A delta that trails the end of its text part adds nothing: the end has already
/// written what is kept.
pub proof fn text_tail_adds_nothing(
    live: Live,
    id: Uuid,
    part: Seq<char>,
    text: Option<Seq<char>>,
    stamp: Stamp,
    delta: Seq<char>,
    later: Stamp,
)
    requires
        part.len() > 0,
        live.desk.session(id) is Some,
    ensures
        ({
            let ended = live.text_ended(id, part, text, stamp);
            ended.text_delta(id, part, delta, later) == ended
        }),
{
}

/// Nothing of a reasoning part that has ended reaches the transcript any more: a
/// delta that trails its end leaves the activities as they are.
pub proof fn reasoning_tail_adds_nothing(
    s: AgentSessionView,
    open: Map<Seq<char>, Uuid>,
    settled: Set<Seq<char>>,
    part: Seq<char>,
    delta: Seq<char>,
    continuing_work: bool,
    stamp: Stamp,
)
    ensures
        reasoning_bound(s, open, settled.insert(part), part, delta, continuing_work, stamp) == (s, open, false),
{
}

/// A running turn settles exactly once: finishing it again changes nothing.
pub proof fn turn_finishes_once(s: AgentSessionView, status: TurnStatus, stamp: Stamp, again: TurnStatus, later: Stamp)
    requires
        status != TurnStatus::Running,
    ensures
        s.with_turn_finished(status, stamp).active_turn() is None,
        s.with_turn_finished(status, stamp).with_turn_finished(again, later) == s.with_turn_finished(status, stamp),
{
}

/// A report of usage, delivered again, changes nothing: every value is absolute.
pub proof fn usage_merges_once(
    usage: Option<ContextUsage>,
    tokens: Option<u64>,
    window: Option<u64>,
    total: Option<u64>,
    cache_read: Option<u64>,
    prompt: Option<u64>,
)
    ensures
        ({
            let once = usage_merged(usage, tokens, window, total, cache_read, prompt);
            usage_merged(Some(once), tokens, window, total, cache_read, prompt) == once
        }),
{
}

/// The summary of a compaction enters the transcript once, however often it is
/// delivered.
pub proof fn summary_shown_once(s: AgentSessionView, state: CompactionStateView, stamp: Stamp, later: Stamp)
    ensures
        ({
            let once = compaction_shown(s, state, stamp);
            compaction_shown(once, state, later) == once
        }),
{
    let once = compaction_shown(s, state, stamp);
    if once != s {
        let summary = trimmed(state.summary->0);
        lemma_trimmed_twice(state.summary->0);
        let n = s.messages.len() as int;
        assert(once.messages[n].role == MessageRole::Compaction);
        assert(trimmed(once.messages[n].content) == summary);
        assert(shows_summary(once.messages, summary));
    }
}

/// Output that reaches a session which does not accept it is dropped: all it tells
/// is that the provider no longer backs off.
pub proof fn stale_output_is_dropped(live: Live, id: Uuid, event: DriverEvent, stamp: Stamp)
    requires
        is_output(event),
        !live.desk.accepts_turn_output(id),
    ensures
        live.output_reported(id, event, stamp) == live.with_desk(live.desk.retry_over(id)),
{
}

// ---- batching ----------------------------------------------------------------

proof fn lemma_text_concat(a: Seq<DriverEvent>, b: Seq<DriverEvent>, kind: StreamDeltaKind)
    ensures
        deltas_text(a + b, kind) == deltas_text(a, kind) + deltas_text(b, kind),
    decreases b.len(),
{
    if b.len() == 0 {
        assert(a + b =~= a);
        assert(deltas_text(a, kind) + deltas_text(b, kind) =~= deltas_text(a, kind));
    } else {
        assert((a + b).drop_last() =~= a + b.drop_last());
        assert((a + b).last() == b.last());
        lemma_text_concat(a, b.drop_last(), kind);
        assert(deltas_text(a + b, kind) =~= deltas_text(a, kind) + deltas_text(b, kind));
    }
}

proof fn lemma_batch_len(events: Seq<DriverEvent>, kind: StreamDeltaKind, part: Option<Seq<char>>)
    ensures
        0 <= batch_len(events, kind, part) <= events.len(),
        forall|i: int|
            0 <= i < batch_len(events, kind, part) ==> crate::events::in_batch(#[trigger] events[i], kind, part),
    decreases events.len(),
{
    if events.len() > 0 && crate::events::in_batch(events[0], kind, part) {
        let rest = events.drop_first();
        lemma_batch_len(rest, kind, part);
        assert forall|i: int| 0 <= i < batch_len(events, kind, part) implies crate::events::in_batch(
            #[trigger] events[i],
            kind,
            part,
        ) by {
            if i > 0 {
                assert(events[i] == rest[i - 1]);
            }
        }
    }
}

proof fn lemma_no_text(events: Seq<DriverEvent>, kind: StreamDeltaKind)
    requires
        forall|i: int| 0 <= i < events.len() ==> delta_of(#[trigger] events[i], kind) is None,
    ensures
        deltas_text(events, kind) == Seq::<char>::empty(),
    decreases events.len(),
{
    if events.len() > 0 {
        assert forall|i: int| 0 <= i < events.drop_last().len() implies delta_of(
            #[trigger] events.drop_last()[i],
            kind,
        ) is None by {
            assert(events.drop_last()[i] == events[i]);
        }
        lemma_no_text(events.drop_last(), kind);
        assert(events.last() == events[events.len() - 1]);
    }
}

/// Batching loses no text and keeps its order: what the batch holds, followed by
/// what stays in the queue, is what stood in the queue; the other kind of delta is
/// not touched.
pub proof fn batching_keeps_text(events: Seq<DriverEvent>, kind: StreamDeltaKind, other: StreamDeltaKind)
    requires
        other != kind,
    ensures
        deltas_text(events, kind) == batch_text(events, kind) + deltas_text(batch_rest(events, kind), kind),
        deltas_text(events, other) == deltas_text(batch_rest(events, kind), other),
{
    let part = batch_part(events, kind);
    let n = batch_len(events, kind, part);
    lemma_batch_len(events, kind, part);
    let front = events.take(n);
    let back = events.skip(n);
    assert(front + back =~= events);
    lemma_text_concat(front, back, kind);
    lemma_text_concat(front, back, other);
    assert forall|i: int| 0 <= i < front.len() implies delta_of(#[trigger] front[i], other) is None by {
        assert(front[i] == events[i]);
    }
    lemma_no_text(front, other);
    assert(Seq::<char>::empty() + deltas_text(back, other) =~= deltas_text(back, other));
    if newest_cursor(front) is Some {
        let head = seq![DriverEvent::RuntimeEventCursorAdvanced(newest_cursor(front)->0)];
        lemma_text_concat(head, back, kind);
        lemma_text_concat(head, back, other);
        assert(delta_of(head[0], kind) is None && delta_of(head[0], other) is None);
        lemma_no_text(head, kind);
        lemma_no_text(head, other);
        assert(Seq::<char>::empty() + deltas_text(back, kind) =~= deltas_text(back, kind));
    }
}

} // verus!
