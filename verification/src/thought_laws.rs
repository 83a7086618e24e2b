//! What the reasoning of an agent leaves in the transcript, and where its text goes.
use vstd::prelude::*;

use crate::desk::{lemma_put_get, lemma_session_id, RuntimeView, StreamPhase};
use crate::events::DriverEvent;
use crate::ids::{Stamp, Uuid};
use crate::live::{DeskView, Live};
use crate::model::{ActivityItemView, AgentSessionView, TranscriptBlockView};
use crate::output_laws::{is_message, only_message};
use crate::text::{blank, opt, trimmed};
use crate::text_parts::text_bound;
use crate::transcript::{
    activity_at, activity_pos, first_activity_at, latest_thought, latest_thought_at, reasoning_bound,
    reasoning_settled, settled_thought, thought_completed,
};
use crate::turn_laws::in_turn;

verus! {

/// The activity at this place is the first that bears the id.
pub open spec fn is_activity(blocks: Seq<TranscriptBlockView>, b: int, a: int, id: Uuid) -> bool {
    &&& 0 <= b < blocks.len()
    &&& 0 <= a < blocks[b].activities.len()
    &&& blocks[b].activities[a].id == id
    &&& forall|c: int, d: int|
        0 <= c < blocks.len() && 0 <= d < blocks[c].activities.len() && (#[trigger] blocks[c].activities[d]).id == id
            ==> b < c || (b == c && a <= d)
}

/// Of two transcripts only the activity at this place differs.
pub open spec fn only_activity(before: Seq<TranscriptBlockView>, after: Seq<TranscriptBlockView>, b: int, a: int) -> bool {
    &&& after.len() == before.len()
    &&& forall|c: int| 0 <= c < before.len() && c != b ==> #[trigger] after[c] == before[c]
    &&& after[b].activities.len() == before[b].activities.len()
    &&& after[b].after_message == before[b].after_message && after[b].turn_id == before[b].turn_id
    &&& forall|d: int|
        0 <= d < before[b].activities.len() && d != a ==> #[trigger] after[b].activities[d] == before[b].activities[d]
}

proof fn lemma_activity_pos(blocks: Seq<TranscriptBlockView>, b: int, a: int, id: Uuid)
    requires
        is_activity(blocks, b, a, id),
    ensures
        activity_pos(blocks, id) == Some((b, a)),
{
    assert(activity_at(blocks, id, b, a));
    assert(first_activity_at(blocks, id, b, a)) by {
        assert forall|c: int, d: int| #[trigger] activity_at(blocks, id, c, d) implies b < c || (b == c && a <= d) by {
            assert(blocks[c].activities[d].id == id);
        }
    }
    let (x, y) = activity_pos(blocks, id)->0;
    assert(first_activity_at(blocks, id, x, y));
    assert(activity_at(blocks, id, x, y));
}

/// More of a thought goes behind what there is of it, in the activity that its part is bound
/// to; no other activity changes, and no message does.
pub proof fn thoughts_grow_in_place(
    s: AgentSessionView,
    open: Map<Seq<char>, Uuid>,
    settled: Set<Seq<char>>,
    part: Seq<char>,
    delta: Seq<char>,
    continuing_work: bool,
    stamp: Stamp,
    b: int,
    a: int,
)
    requires
        delta.len() > 0,
        !settled.contains(part),
        open.dom().contains(part),
        is_activity(s.transcript_blocks, b, a, open[part]),
        s.transcript_blocks[b].activities[a].reasoning is Some,
    ensures
        ({
            let (t, now, fresh) = reasoning_bound(s, open, settled, part, delta, continuing_work, stamp);
            let x = s.transcript_blocks[b].activities[a];
            let y = t.transcript_blocks[b].activities[a];
            &&& only_activity(s.transcript_blocks, t.transcript_blocks, b, a)
            &&& y.reasoning is Some && y.reasoning->0.content == x.reasoning->0.content + delta
            &&& y.reasoning->0.finished_at_ms == stamp.millis && y.reasoning->0.started_at_ms == x.reasoning->0.started_at_ms
            &&& y == (ActivityItemView { reasoning: y.reasoning, ..x })
            &&& t.messages == s.messages && t.turns == s.turns
            &&& now == open && !fresh
        }),
{
    lemma_activity_pos(s.transcript_blocks, b, a, open[part]);
}

/// A thought that ends says what it ended with, or what it said so far, and is complete; its
/// part is bound no longer.
pub proof fn ended_thoughts_are_complete(
    s: AgentSessionView,
    open: Map<Seq<char>, Uuid>,
    part: Seq<char>,
    text: Option<Seq<char>>,
    continuing_work: bool,
    stamp: Stamp,
    b: int,
    a: int,
)
    requires
        open.dom().contains(part),
        is_activity(s.transcript_blocks, b, a, open[part]),
        s.transcript_blocks[b].activities[a].reasoning is Some,
        text is Some ==> trimmed(text->0).len() > 0,
    ensures
        ({
            let (t, now, at) = reasoning_settled(s, open, part, text, continuing_work, stamp);
            let x = s.transcript_blocks[b].activities[a];
            let y = t.transcript_blocks[b].activities[a];
            &&& only_activity(s.transcript_blocks, t.transcript_blocks, b, a)
            &&& y.complete
            &&& y.reasoning is Some
            &&& y.reasoning->0.content == (match text {
                Some(body) => body,
                None => x.reasoning->0.content,
            })
            &&& y.id == x.id && y.title == x.title && y.kind == x.kind
            &&& t.messages == s.messages
            &&& now == open.remove(part) && at == Some(b)
        }),
{
    lemma_activity_pos(s.transcript_blocks, b, a, open[part]);
}

/// Completing what the agent thinks about completes one open thought at most, the latest of
/// those that are bound to a part, or of all where none is; everything else stays.
pub proof fn one_thought_is_completed(s: AgentSessionView, bound: Map<Seq<char>, Uuid>, stamp: Stamp)
    ensures
        ({
            let t = thought_completed(s, bound, stamp);
            let was = s.transcript_blocks;
            &&& t.messages == s.messages && t.turns == s.turns && t.status == s.status
            &&& t.transcript_blocks == was || exists|b: int, a: int|
                0 <= b < was.len() && 0 <= a < was[b].activities.len() && #[trigger] was[b].activities[a].reasoning is Some
                    && !was[b].activities[a].complete && only_activity(was, t.transcript_blocks, b, a)
                    && t.transcript_blocks[b].activities[a] == (ActivityItemView {
                    complete: true,
                    ..was[b].activities[a]
                })
        }),
{
    if let Some((b, a)) = settled_thought(s.transcript_blocks, bound) {
        if latest_thought(s.transcript_blocks, bound, true) is Some {
            assert(latest_thought_at(s.transcript_blocks, bound, true, b, a));
        } else {
            assert(latest_thought_at(s.transcript_blocks, bound, false, b, a));
        }
        assert(s.transcript_blocks[b].activities[a].reasoning is Some);
        assert(only_activity(
            s.transcript_blocks,
            thought_completed(s, bound, stamp).transcript_blocks,
            b,
            a,
        ));
    }
}

/// Text of a part that is open reaches the message the part is bound to, in the session that it
/// was reported of.
pub proof fn text_reaches_its_message(live: Live, id: Uuid, part: Seq<char>, delta: Seq<char>, i: int, stamp: Stamp)
    requires
        part.len() > 0,
        delta.len() > 0,
        !live.runtime.settled_text.contains(part),
        live.runtime.open_text.dom().contains(part),
        live.desk.session(id) is Some,
        is_message(live.desk.session(id)->0, i, live.runtime.open_text[part]),
    ensures
        ({
            let s = live.desk.session(id)->0;
            let after = live.text_delta(id, part, delta, stamp);
            let t = after.desk.session(id)->0;
            &&& after.desk.session(id) is Some
            &&& only_message(s, t, i)
            &&& t.messages[i].content == s.messages[i].content + delta
            &&& t.messages[i].streaming
            &&& after.runtime.open_text == live.runtime.open_text
        }),
{
    let s = live.desk.session(id)->0;
    lemma_session_id(live.desk.state, id);
    crate::output_laws::deltas_go_behind_their_part(
        s,
        live.runtime.open_text,
        live.runtime.settled_text,
        part,
        delta,
        i,
        stamp,
    );
    let (next, open, opened) = text_bound(s, live.runtime.open_text, live.runtime.settled_text, part, delta, stamp);
    lemma_put_get(live.desk.state, id, next);
}

/// The end of a text part reaches the message it is bound to, and the part takes no more text.
pub proof fn ends_reach_their_message(live: Live, id: Uuid, part: Seq<char>, text: Seq<char>, i: int, stamp: Stamp)
    requires
        part.len() > 0,
        !blank(text),
        !live.runtime.settled_text.contains(part),
        live.runtime.open_text.dom().contains(part),
        live.desk.session(id) is Some,
        is_message(live.desk.session(id)->0, i, live.runtime.open_text[part]),
    ensures
        ({
            let s = live.desk.session(id)->0;
            let after = live.text_ended(id, part, Some(text), stamp);
            let t = after.desk.session(id)->0;
            &&& after.desk.session(id) is Some
            &&& only_message(s, t, i)
            &&& t.messages[i].content == text
            &&& !t.messages[i].streaming
            &&& !after.runtime.open_text.dom().contains(part)
            &&& after.runtime.settled_text.contains(part)
        }),
{
    let s = live.desk.session(id)->0;
    lemma_session_id(live.desk.state, id);
    crate::output_laws::ended_parts_say_their_text(s, live.runtime.open_text, part, Some(text), i, stamp);
    let (next, open, how) = crate::text_parts::text_settled(s, live.runtime.open_text, part, Some(text), stamp);
    lemma_put_get(live.desk.state, id, AgentSessionView { updated_at: stamp.secs, ..next });
}

/// A part of text that begins is a reply of its own, the last, with nothing in it yet, which
/// text of the part goes to.
pub proof fn begun_parts_are_replies(live: Live, id: Uuid, part: Seq<char>, stamp: Stamp)
    requires
        part.len() > 0,
        !live.runtime.settled_text.contains(part),
        !live.runtime.open_text.dom().contains(part),
        live.desk.session(id) is Some,
        live.runtime.stream_phase is None,
    ensures
        ({
            let s = live.desk.session(id)->0;
            let after = live.text_opened(id, part, stamp);
            let t = after.desk.session(id)->0;
            &&& after.desk.session(id) is Some
            &&& crate::output_laws::writes_anew(s, t, Seq::empty())
            &&& t.messages.drop_last() == s.messages
            &&& t.messages.last().id == stamp.id && t.messages.last().streaming
            &&& after.runtime.open_text == live.runtime.open_text.insert(part, stamp.id)
            &&& after.runtime.stream_phase == Some(StreamPhase::Text)
        }),
{
    let s = live.desk.session(id)->0;
    lemma_session_id(live.desk.state, id);
    let t = crate::text_parts::with_reply(s, Seq::empty(), true, stamp);
    lemma_put_get(live.desk.state, id, t);
    assert(t.messages.drop_last() =~= s.messages);
}

/// While a turn runs that was prepared, every report of output goes where it belongs: the
/// provider no longer backs off, and is not merely responding.
pub proof fn output_enters_the_running_turn(live: Live, id: Uuid, event: DriverEvent, stamp: Stamp)
    requires
        in_turn(live.desk, id),
    ensures
        ({
            let now = Live {
                desk: DeskView { provider_retries: live.desk.provider_retries.remove(id), ..live.desk },
                runtime: RuntimeView { provider_phase: None, ..live.runtime },
            };
            let after = live.output_reported(id, event, stamp);
            &&& event matches DriverEvent::TextStarted { part } ==> after == now.text_opened(id, part@, stamp)
            &&& event matches DriverEvent::TextDelta { part, delta } ==> after == now.text_delta(id, part@, delta@, stamp)
            &&& event matches DriverEvent::TextEnded { part, text } ==> after == now.text_ended(id, part@, opt(text), stamp)
            &&& event matches DriverEvent::ReasoningStarted { part } ==> after == now.reasoning_opened(id, part@, stamp)
            &&& event matches DriverEvent::ReasoningDelta { part, delta } ==> after == now.reasoning_delta(
                id,
                part@,
                delta@,
                stamp,
            )
            &&& event matches DriverEvent::ReasoningEnded { part, text } ==> after == now.reasoning_ended(
                id,
                part@,
                opt(text),
                stamp,
            )
            &&& event matches DriverEvent::RichActivity(item) ==> after == live.activity(id, item@, stamp)
        }),
{
}

} // verus!
