//! What becomes of a turn between its message and its end on the host: how it is prepared,
//! how it is stopped, and how what it changed is kept.
use vstd::prelude::*;

use crate::desk::{lemma_put_get, lemma_session_id, ComposerSubmissionView, EffectView, PendingCheckpointCaptureView};
use crate::ids::{Stamp, Uuid};
use crate::live::DeskView;
use crate::model::{
    other_turns, AgentSessionView, CheckpointView, MessageRole, MessageView, SessionStatus, TurnStatus, TurnView,
};
use crate::preparations::{turn_pos, without_capture, without_id, PreparedDriver, PreparedSubmission};
use crate::turn_laws::{calm, replied, running, says_the_same, turn_ended};

verus! {

/// The turn of the session waits for its provider.
pub open spec fn awaits_provider(s: AgentSessionView) -> bool {
    s.status == SessionStatus::Connecting && running(s) && !s.turns.last().provider_turn_started
}

/// What comes of a preparation that is not awaited any more changes nothing.
pub proof fn late_preparations_change_nothing(
    desk: DeskView,
    id: Uuid,
    submission: ComposerSubmissionView,
    prepared: Result<PreparedSubmission, String>,
    expanded: Option<Seq<char>>,
    unavailable: Seq<char>,
    stamp: Stamp,
)
    requires
        !desk.submission_preparations.contains(id),
    ensures
        desk.preparation_settled(id, submission, prepared, expanded, unavailable, stamp) == desk,
{
}

/// A turn that is prepared goes to its provider: what was submitted, or what it was expanded
/// to, is sent. The session works in the place that was prepared and is else as it was.
pub proof fn prepared_turns_are_sent(
    desk: DeskView,
    id: Uuid,
    submission: ComposerSubmissionView,
    prepared: PreparedSubmission,
    expanded: Option<Seq<char>>,
    unavailable: Seq<char>,
    stamp: Stamp,
)
    requires
        desk.submission_preparations.contains(id),
        desk.session(id) is Some,
        awaits_provider(desk.session(id)->0),
        prepared.driver is Started || (prepared.driver is Reused && desk.runtimes.dom().contains(id)),
    ensures
        ({
            let s = desk.session(id)->0;
            let after = desk.preparation_settled(id, submission, Ok(prepared), expanded, unavailable, stamp);
            let prompt = match expanded {
                Some(text) => text,
                None => submission.prompt,
            };
            &&& after.session(id) == Some(AgentSessionView { workspace: prepared.workspace@, ..s })
            &&& after.effects.contains((EffectView::DriverPrompt { session_id: id, prompt }))
            &&& after.submission_preparations == desk.submission_preparations.remove(id)
            &&& after.runtimes.dom() == desk.runtimes.dom().insert(id)
            &&& after.runtimes[id].pending_permission is None && after.runtimes[id].pending_user_input is None
            &&& after.runtimes[id].pending_steers.len() == 0
            &&& prepared.driver matches PreparedDriver::Started { supports_steer } ==> after.runtimes[id].supports_steer
                == supports_steer
            &&& !after.provider_retries.dom().contains(id)
        }),
{
    let s = desk.session(id)->0;
    lemma_session_id(desk.state, id);
    lemma_put_get(desk.state, id, AgentSessionView { workspace: prepared.workspace@, ..s });
    let after = desk.preparation_settled(id, submission, Ok(prepared), expanded, unavailable, stamp);
    let n = after.effects.len() as int;
    assert(after.effects[n - 3] is DriverPrompt);
    assert(after.runtimes.dom() =~= desk.runtimes.dom().insert(id));
}

/// A turn whose provider cannot be started has failed, and says why; the provider is asked
/// nothing.
pub proof fn turns_without_a_provider_fail(
    desk: DeskView,
    id: Uuid,
    message: Seq<char>,
    stamp: Stamp,
)
    requires
        desk.session(id) is Some,
        running(desk.session(id)->0),
    ensures
        ({
            let s = desk.session(id)->0;
            let after = desk.start_failed(id, message, stamp);
            let t = after.session(id)->0;
            &&& after.session(id) is Some
            &&& t.status == SessionStatus::Failed
            &&& turn_ended(s, t, TurnStatus::Failed, stamp)
            &&& t.messages.len() == s.messages.len() + 1
            &&& t.messages.drop_last() == s.messages
            &&& t.messages.last().role == MessageRole::Assistant
            &&& t.messages.last().content == message
            &&& t.messages.last().turn_id == Some(s.turns.last().id)
            &&& t.queued_messages == s.queued_messages
            &&& !after.submission_preparations.contains(id)
        }),
{
    let s = desk.session(id)->0;
    lemma_session_id(desk.state, id);
    let o = s.with_outcome(SessionStatus::Failed, Some(message), stamp);
    lemma_put_get(desk.state, id, o);
    let told = desk.outcome(id, SessionStatus::Failed, Some(message), stamp);
    let f = o.with_turn_finished(TurnStatus::Failed, stamp);
    lemma_put_get(told.state, id, f);
    let settled = told.turn_finished(id, TurnStatus::Failed, stamp);
    let freed = DeskView { submission_preparations: settled.submission_preparations.remove(id), ..settled };
    let asked = freed.capture_requested(id);
    captures_are_all_started(asked);
    assert(f.turns.drop_last() =~= s.turns.drop_last());
    assert(f.messages.drop_last() =~= s.messages);
}

/// Where a preparation fails, the turn is as if it had not been: it and its messages are gone,
/// and no other turn or message is. The session is at rest, and what was submitted stands in
/// the composer again, where the session is on screen.
pub proof fn failed_preparations_are_undone(
    desk: DeskView,
    id: Uuid,
    submission: ComposerSubmissionView,
    error: Seq<char>,
)
    requires
        desk.session(id) is Some,
        awaits_provider(desk.session(id)->0),
    ensures
        ({
            let s = desk.session(id)->0;
            let gone = s.turns.last().id;
            let after = desk.preparation_failed(id, submission, error);
            let t = after.session(id)->0;
            &&& after.session(id) is Some
            &&& t.status == SessionStatus::Idle
            &&& t.turns == s.turns.drop_last()
            &&& forall|m: MessageView| #[trigger] t.messages.contains(m) <==> s.messages.contains(m) && m.turn_id != Some(gone)
            &&& t == (AgentSessionView { status: t.status, turns: t.turns, messages: t.messages, ..s })
            &&& after.submission_preparations == desk.submission_preparations.remove(id)
            &&& desk.state.selected_session == Some(id) ==> after.effects.contains(EffectView::RestoreComposer(submission))
        }),
{
    let s = desk.session(id)->0;
    lemma_session_id(desk.state, id);
    let t = AgentSessionView { status: SessionStatus::Idle, ..s.with_turn_unwound(s.turns.last().id) };
    lemma_put_get(desk.state, id, t);
    lemma_other_turns(s.messages, s.turns.last().id);
    let after = desk.preparation_failed(id, submission, error);
    if desk.state.selected_session == Some(id) {
        assert(after.effects[desk.effects.len() as int + 2] == EffectView::RestoreComposer(submission));
    }
}

proof fn lemma_other_turns(messages: Seq<MessageView>, turn: Uuid)
    ensures
        forall|m: MessageView| #[trigger]
            other_turns(messages, turn).contains(m) <==> messages.contains(m) && m.turn_id != Some(turn),
    decreases messages.len(),
{
    if messages.len() > 0 {
        let rest = messages.drop_last();
        let last = messages.last();
        lemma_other_turns(rest, turn);
        let before = other_turns(rest, turn);
        let after = other_turns(messages, turn);
        assert forall|m: MessageView| #[trigger] after.contains(m) <==> messages.contains(m) && m.turn_id != Some(turn) by {
            assert(messages.contains(m) <==> rest.contains(m) || m == last) by {
                if messages.contains(m) {
                    let i = messages.index_of(m);
                    if i < rest.len() {
                        assert(rest[i] == m);
                    }
                }
                if rest.contains(m) {
                    let i = rest.index_of(m);
                    assert(messages[i] == m);
                }
                assert(messages[messages.len() - 1] == last);
            }
            if after.len() > before.len() {
                if before.contains(m) {
                    let i = before.index_of(m);
                    assert(after[i] == m);
                }
                assert(after[before.len() as int] == last);
                if after.contains(m) && m != last {
                    let i = after.index_of(m);
                    assert(before[i] == m);
                }
            }
        }
    }
}

/// Every checkpoint that waits to be taken is under way, whatever else is, and the host was
/// asked for each that was not under way before. None waits any more.
pub proof fn captures_are_all_started(desk: DeskView)
    ensures
        ({
            let after = desk.captures_started();
            &&& after.pending_checkpoint_captures.len() == 0
            &&& forall|k: int|
                0 <= k < desk.pending_checkpoint_captures.len() ==> after.checkpoint_captures_in_flight.contains(
                    (
                        (#[trigger] desk.pending_checkpoint_captures[k]).session_id,
                        desk.pending_checkpoint_captures[k].turn_count,
                    ),
                )
            &&& forall|key: (Uuid, usize)|
                desk.checkpoint_captures_in_flight.contains(key) ==> #[trigger] after.checkpoint_captures_in_flight.contains(key)
            &&& forall|k: int|
                0 <= k < desk.pending_checkpoint_captures.len() && !desk.checkpoint_captures_in_flight.contains(
                    (
                        (#[trigger] desk.pending_checkpoint_captures[k]).session_id,
                        desk.pending_checkpoint_captures[k].turn_count,
                    ),
                ) ==> exists|e: int|
                    desk.effects.len() <= e < after.effects.len() && asks_for(
                        #[trigger] after.effects[e],
                        desk.pending_checkpoint_captures[k].session_id,
                        desk.pending_checkpoint_captures[k].turn_count,
                    )
            &&& after == (DeskView {
                pending_checkpoint_captures: after.pending_checkpoint_captures,
                checkpoint_captures_in_flight: after.checkpoint_captures_in_flight,
                effects: after.effects,
                ..desk
            })
            &&& desk.effects.is_prefix_of(after.effects)
        }),
{
    let idle = DeskView { pending_checkpoint_captures: Seq::empty(), ..desk };
    lemma_capturing(idle, desk.pending_checkpoint_captures);
}

/// The host is asked to take the checkpoint of this turn.
pub open spec fn asks_for(effect: EffectView, id: Uuid, turn_count: usize) -> bool {
    effect matches EffectView::CaptureCheckpoint(capture) && capture.session_id == id && capture.turn_count == turn_count
}

proof fn lemma_capturing(desk: DeskView, captures: Seq<PendingCheckpointCaptureView>)
    ensures
        ({
            let after = desk.capturing(captures);
            &&& after == (DeskView {
                checkpoint_captures_in_flight: after.checkpoint_captures_in_flight,
                effects: after.effects,
                ..desk
            })
            &&& desk.effects.is_prefix_of(after.effects)
            &&& forall|k: int|
                0 <= k < captures.len() ==> after.checkpoint_captures_in_flight.contains(
                    ((#[trigger] captures[k]).session_id, captures[k].turn_count),
                )
            &&& forall|key: (Uuid, usize)|
                desk.checkpoint_captures_in_flight.contains(key) ==> #[trigger] after.checkpoint_captures_in_flight.contains(key)
            &&& forall|key: (Uuid, usize)| #[trigger]
                after.checkpoint_captures_in_flight.contains(key) && !desk.checkpoint_captures_in_flight.contains(key)
                    ==> exists|e: int|
                    desk.effects.len() <= e < after.effects.len() && asks_for(#[trigger] after.effects[e], key.0, key.1)
        }),
    decreases captures.len(),
{
    if captures.len() == 0 {
        assert(desk.effects.subrange(0, desk.effects.len() as int) =~= desk.effects);
    } else {
        let rest = captures.drop_last();
        lemma_capturing(desk, rest);
        let before = desk.capturing(rest);
        let after = desk.capturing(captures);
        let last = captures.last();
        let key = (last.session_id, last.turn_count);
        let flying = before.checkpoint_captures_in_flight;
        assert(desk.effects.is_prefix_of(after.effects)) by {
            let n = desk.effects.len() as int;
            if !flying.contains(key) {
                assert(after.effects == before.effects.push(EffectView::CaptureCheckpoint(last)));
                assert(after.effects.subrange(0, n) =~= before.effects.subrange(0, n));
            }
        }
        if !flying.contains(key) {
            assert(after.checkpoint_captures_in_flight == flying.push(key));
            assert(after.checkpoint_captures_in_flight[flying.len() as int] == key);
            assert(after.effects == before.effects.push(EffectView::CaptureCheckpoint(last)));
            assert forall|other: (Uuid, usize)| flying.contains(other) implies #[trigger] after.checkpoint_captures_in_flight.contains(other) by {
                let i = flying.index_of(other);
                assert(after.checkpoint_captures_in_flight[i] == other);
            }
            assert forall|other: (Uuid, usize)| #[trigger]
                after.checkpoint_captures_in_flight.contains(other) && !desk.checkpoint_captures_in_flight.contains(other) implies exists|e: int|
                desk.effects.len() <= e < after.effects.len() && asks_for(#[trigger] after.effects[e], other.0, other.1) by {
                if other == key {
                    assert(asks_for(after.effects[before.effects.len() as int], key.0, key.1));
                } else {
                    let i = after.checkpoint_captures_in_flight.index_of(other);
                    assert(flying[i] == other);
                    assert(flying.contains(other));
                    let e = choose|e: int|
                        desk.effects.len() <= e < before.effects.len() && asks_for(#[trigger] before.effects[e], other.0, other.1);
                    assert(after.effects[e] == before.effects[e]);
                }
            }
        }
        assert forall|k: int| 0 <= k < captures.len() implies after.checkpoint_captures_in_flight.contains(
            ((#[trigger] captures[k]).session_id, captures[k].turn_count),
        ) by {
            if k < rest.len() {
                assert(rest[k] == captures[k]);
                assert(flying.contains((captures[k].session_id, captures[k].turn_count)));
            }
        }
    }
}

/// A checkpoint that was taken is kept with the first turn of that count, and with no other;
/// nothing else of the session changes.
pub proof fn checkpoints_stay_with_their_turn(desk: DeskView, id: Uuid, turn_count: usize, checkpoint: CheckpointView, k: int)
    requires
        desk.session(id) is Some,
        0 <= k < desk.session(id)->0.turns.len(),
        desk.session(id)->0.turns[k].turn_count == turn_count,
        forall|j: int| 0 <= j < k ==> (#[trigger] desk.session(id)->0.turns[j]).turn_count != turn_count,
    ensures
        ({
            let s = desk.session(id)->0;
            let after = desk.with_checkpoint(id, turn_count, checkpoint);
            let t = after.session(id)->0;
            &&& after.session(id) is Some
            &&& t == (AgentSessionView { turns: t.turns, ..s })
            &&& t.turns.len() == s.turns.len()
            &&& t.turns[k] == (TurnView { checkpoint: Some(checkpoint), ..s.turns[k] })
            &&& forall|j: int| 0 <= j < s.turns.len() && j != k ==> #[trigger] t.turns[j] == s.turns[j]
            &&& desk.captured_turn(id, turn_count) == Some(s.turns[k].id)
        }),
{
    reveal(DeskView::with_checkpoint);
    reveal(DeskView::captured_turn);
    let s = desk.session(id)->0;
    lemma_session_id(desk.state, id);
    lemma_turn_pos(s.turns, turn_count, k);
    lemma_put_get(
        desk.state,
        id,
        AgentSessionView {
            turns: s.turns.update(k, TurnView { checkpoint: Some(checkpoint), ..s.turns[k] }),
            ..s
        },
    );
}

proof fn lemma_turn_pos(turns: Seq<TurnView>, turn_count: usize, k: int)
    requires
        0 <= k < turns.len(),
        turns[k].turn_count == turn_count,
        forall|j: int| 0 <= j < k ==> (#[trigger] turns[j]).turn_count != turn_count,
    ensures
        turn_pos(turns, turn_count) == Some(k),
    decreases turns.len(),
{
    if k > 0 {
        assert(turns[0].turn_count != turn_count);
        let rest = turns.drop_first();
        assert forall|j: int| 0 <= j < k - 1 implies (#[trigger] rest[j]).turn_count != turn_count by {
            assert(turns[j + 1].turn_count != turn_count);
        }
        lemma_turn_pos(rest, turn_count, k - 1);
    }
}

/// A checkpoint that landed is no longer under way, whether it was taken or failed; those of
/// other turns still are. A failure is told.
pub proof fn landed_captures_are_over(desk: DeskView, id: Uuid, turn_count: usize, error: Option<Seq<char>>)
    ensures
        ({
            let after = desk.capture_landed(id, turn_count, error);
            &&& !after.checkpoint_captures_in_flight.contains((id, turn_count))
            &&& forall|key: (Uuid, usize)|
                key != (id, turn_count) ==> (#[trigger] after.checkpoint_captures_in_flight.contains(key)
                    == desk.checkpoint_captures_in_flight.contains(key))
            &&& after.state == desk.state
            &&& (error is Some) == (exists|e: int|
                desk.effects.len() <= e < after.effects.len() && (#[trigger] after.effects[e]) is Toast)
        }),
{
    reveal(DeskView::capture_landed);
    lemma_without_capture(desk.checkpoint_captures_in_flight, (id, turn_count));
    let after = desk.capture_landed(id, turn_count, error);
    if error is Some {
        assert(after.effects[desk.effects.len() as int] is Toast);
    }
}

proof fn lemma_without_capture(captures: Seq<(Uuid, usize)>, gone: (Uuid, usize))
    ensures
        forall|key: (Uuid, usize)| #[trigger]
            without_capture(captures, gone).contains(key) <==> captures.contains(key) && key != gone,
    decreases captures.len(),
{
    if captures.len() > 0 {
        let rest = captures.drop_last();
        lemma_without_capture(rest, gone);
        let before = without_capture(rest, gone);
        let after = without_capture(captures, gone);
        assert forall|key: (Uuid, usize)| #[trigger] after.contains(key) <==> captures.contains(key) && key != gone by {
            lemma_contains_last(captures, key);
            if after.len() > before.len() {
                assert(after.drop_last() =~= before);
                lemma_contains_last(after, key);
            }
        }
    }
}

proof fn lemma_contains_last<A>(s: Seq<A>, x: A)
    requires
        s.len() > 0,
    ensures
        s.contains(x) <==> s.drop_last().contains(x) || x == s.last(),
{
    if s.contains(x) {
        let i = s.index_of(x);
        if i < s.len() - 1 {
            assert(s.drop_last()[i] == x);
        }
    }
    if s.drop_last().contains(x) {
        let i = s.drop_last().index_of(x);
        assert(s[i] == x);
    }
    assert(s[s.len() - 1] == s.last());
}

/// A session whose queue goes on is no longer one that waits to; every other one still does.
pub proof fn resumed_queues_wait_no_longer(ids: Seq<Uuid>, id: Uuid)
    ensures
        !without_id(ids, id).contains(id),
        forall|other: Uuid| other != id ==> (#[trigger] without_id(ids, id).contains(other) == ids.contains(other)),
    decreases ids.len(),
{
    if ids.len() > 0 {
        let rest = ids.drop_last();
        resumed_queues_wait_no_longer(rest, id);
        let before = without_id(rest, id);
        let after = without_id(ids, id);
        assert forall|other: Uuid| #[trigger] after.contains(other) <==> ids.contains(other) && other != id by {
            lemma_contains_last(ids, other);
            if after.len() > before.len() {
                assert(after.drop_last() =~= before);
                lemma_contains_last(after, other);
            }
        }
    }
}

/// A turn that the user stops is interrupted, and the session at rest. Nothing of the turn
/// streams or is under way any more, and nothing that it said is lost; where it said nothing,
/// it says that it was stopped. The queue does not go on by itself.
pub proof fn stopped_turns_are_interrupted(desk: DeskView, id: Uuid, text: Seq<char>, stamp: Stamp)
    requires
        desk.session(id) is Some,
        running(desk.session(id)->0),
    ensures
        ({
            let s = desk.session(id)->0;
            let after = desk.stop_settled(id, text, stamp);
            let t = after.session(id)->0;
            &&& after.session(id) is Some
            &&& t.status == SessionStatus::Idle
            &&& turn_ended(s, t, TurnStatus::Interrupted, stamp)
            &&& calm(t)
            &&& t.messages.len() == s.messages.len() + (if replied(s) {
                0int
            } else {
                1int
            })
            &&& forall|k: int| 0 <= k < s.messages.len() ==> says_the_same(#[trigger] t.messages[k], s.messages[k])
            &&& !replied(s) ==> t.messages.last().content == text && t.messages.last().role == MessageRole::Assistant
                && t.messages.last().turn_id == Some(s.turns.last().id)
            &&& t.queued_messages == s.queued_messages
            &&& after.pending_queue_drains == desk.pending_queue_drains
            &&& after.runtimes == desk.runtimes
            &&& desk.effects.is_prefix_of(after.effects)
        }),
{
    reveal(DeskView::stop_settled);
    let s = desk.session(id)->0;
    lemma_session_id(desk.state, id);
    let a = crate::text_parts::streams_stopped(s);
    lemma_put_get(desk.state, id, a);
    let quiet = desk.streams_stopped(id);
    let b = crate::activities::blocks_completed(a);
    lemma_put_get(quiet.state, id, b);
    let calmed = quiet.blocks_completed(id);
    assert(crate::text_parts::answered(b) == replied(s)) by {
        if replied(s) {
            let k = choose|k: int|
                0 <= k < s.messages.len() && (#[trigger] s.messages[k]).role == MessageRole::Assistant && s.messages[k].turn_id
                    == Some(s.turns.last().id) && !crate::text::blank(s.messages[k].content);
            assert(b.messages[k].role == MessageRole::Assistant);
        }
        if crate::text_parts::answered(b) {
            let k = choose|k: int|
                0 <= k < b.messages.len() && #[trigger] b.messages[k].role == MessageRole::Assistant && b.messages[k].turn_id
                    == Some(s.turns.last().id) && !crate::text::blank(b.messages[k].content);
            assert(s.messages[k].role == MessageRole::Assistant);
        }
    }
    let fallback = calmed.fallback(id, text);
    let o = b.with_outcome(SessionStatus::Idle, fallback, stamp);
    lemma_put_get(calmed.state, id, o);
    let told = calmed.outcome(id, SessionStatus::Idle, fallback, stamp);
    let f = o.with_turn_finished(TurnStatus::Interrupted, stamp);
    lemma_put_get(told.state, id, f);
    let settled = told.turn_finished(id, TurnStatus::Interrupted, stamp);
    let asked = settled.capture_requested(id);
    captures_are_all_started(asked);
    assert(desk.effects.is_prefix_of(asked.captures_started().effects)) by {
        let n = desk.effects.len() as int;
        let all = asked.captures_started().effects;
        assert(asked.effects == desk.effects.push(EffectView::RebuildTodoSummary(id)));
        assert forall|k: int| 0 <= k < n implies all[k] == desk.effects[k] by {
            assert(all.subrange(0, asked.effects.len() as int)[k] == all[k]);
        }
        assert(all.subrange(0, n) =~= desk.effects);
    }
    assert(f.turns.drop_last() =~= s.turns.drop_last());
    assert forall|k: int| 0 <= k < s.messages.len() implies says_the_same(#[trigger] f.messages[k], s.messages[k]) by {
        assert(b.messages[k] == crate::text_parts::stopped(s.messages[k]));
    }
    assert(calm(f)) by {
        assert forall|k: int|
            0 <= k < f.messages.len() && (#[trigger] f.messages[k]).role == MessageRole::Assistant implies !f.messages[k].streaming by {
            if k < s.messages.len() {
                assert(b.messages[k] == crate::text_parts::stopped(s.messages[k]));
            }
        }
        assert forall|x: int, y: int|
            0 <= x < f.transcript_blocks.len() && 0 <= y < f.transcript_blocks[x].activities.len() implies (
        #[trigger] f.transcript_blocks[x].activities[y]).complete by {
            assert(b.transcript_blocks[x].activities[y] == crate::activities::completed(
                s.transcript_blocks[x].activities[y],
            ));
        }
    }
}

} // verus!
