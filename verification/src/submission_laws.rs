//! What becomes of what the user submits: a turn, a place in the queue, or the composer again.
use vstd::prelude::*;

use crate::desk::{lemma_put_get, lemma_session_id, ComposerSubmissionView, EffectView};
use crate::ids::{Stamp, Uuid};
use crate::live::DeskView;
use crate::model::{AgentSessionView, CompactionStatus, MessageRole, SessionStatus, TurnStatus, DEFAULT_TITLE};
use crate::probes::CatalogView;
use crate::seqs::{first_at, lemma_pos_some};
use crate::submissions::queued_ids;
use crate::text::{blank, trimmed};
use crate::turn_laws::engaged;

verus! {

/// The checkpoint that ends the last turn of the session is still to be taken.
pub open spec fn awaits_checkpoint(desk: DeskView, id: Uuid, s: AgentSessionView) -> bool {
    &&& s.turns.len() > 0
    &&& s.turns.last().status != TurnStatus::Running
    &&& {
        ||| desk.checkpoint_captures_in_flight.contains((id, s.turns.last().turn_count))
        ||| exists|i: int|
            0 <= i < desk.pending_checkpoint_captures.len() && (#[trigger] desk.pending_checkpoint_captures[i]).session_id
                == id && desk.pending_checkpoint_captures[i].turn_count == s.turns.last().turn_count
    }
}

/// The session has what it had, and one turn more, which runs and holds the message.
pub open spec fn turn_begun(before: AgentSessionView, after: AgentSessionView, submission: ComposerSubmissionView, stamp: Stamp) -> bool {
    &&& after.turns.len() == before.turns.len() + 1
    &&& after.turns.drop_last() == before.turns
    &&& after.turns.last().id == stamp.turn
    &&& after.turns.last().status == TurnStatus::Running
    &&& after.turns.last().started_at == stamp.secs
    &&& before.turns.len() < usize::MAX ==> after.turns.last().turn_count == before.turns.len() + 1
    &&& !after.turns.last().provider_turn_started
    &&& after.turns.last().completed_at is None && after.turns.last().checkpoint is None
    &&& after.messages.len() == before.messages.len() + 1
    &&& after.messages.drop_last() == before.messages
    &&& after.messages.last().role == MessageRole::User
    &&& after.messages.last().content == submission.prompt
    &&& after.messages.last().display_content == submission.display_content
    &&& after.messages.last().attachments == submission.attachments
    &&& after.messages.last().turn_id == Some(stamp.turn)
    &&& after.status == SessionStatus::Connecting
    &&& after.queued_messages == before.queued_messages
    &&& after.transcript_blocks == before.transcript_blocks
    &&& after.workspace == before.workspace
}

/// The session has what it had, and the message last in its queue.
pub open spec fn queued_last(before: AgentSessionView, after: AgentSessionView, submission: ComposerSubmissionView) -> bool {
    &&& after.queued_messages.len() == before.queued_messages.len() + 1
    &&& after.queued_messages.drop_last() == before.queued_messages
    &&& after.queued_messages.last().prompt == trimmed(submission.prompt)
    &&& after.queued_messages.last().display_content == submission.display_content
    &&& after.queued_messages.last().attachments == submission.attachments
    &&& after.messages == before.messages && after.turns == before.turns && after.status == before.status
}

proof fn lemma_accepted(s: AgentSessionView, submission: ComposerSubmissionView, stamp: Stamp)
    ensures
        turn_begun(s, s.with_accepted(submission, stamp), submission, stamp),
        s.with_accepted(submission, stamp).id == s.id,
{
    let t = s.with_accepted(submission, stamp);
    assert(t.turns.drop_last() =~= s.turns);
    assert(t.messages.drop_last() =~= s.messages);
}

/// A message to a session at rest begins a turn of it: the message stands last in the
/// transcript, the session connects, and the host is asked to prepare for the turn. A session
/// without a name of its own is named after the message.
pub proof fn messages_begin_turns(
    desk: DeskView,
    id: Uuid,
    submission: ComposerSubmissionView,
    catalog: CatalogView,
    stamp: Stamp,
)
    requires
        desk.session(id) is Some,
        !engaged(desk.session(id)->0),
        !desk.response_fork_preparations.dom().contains(id),
        !awaits_checkpoint(desk, id, desk.session(id)->0),
        desk.state.project(desk.session(id)->0.project_id) is Some,
    ensures
        ({
            let s = desk.session(id)->0;
            let after = desk.submitted(id, submission, catalog, stamp);
            let t = after.session(id)->0;
            let human = match submission.display_content {
                Some(text) => text,
                None => submission.prompt,
            };
            &&& after.session(id) is Some
            &&& turn_begun(s, t, submission, stamp)
            &&& t.title == (if s.title == DEFAULT_TITLE@ && !blank(human) {
                trimmed(human)
            } else {
                s.title
            })
            &&& after.submission_preparations == desk.submission_preparations.insert(id)
            &&& after.effects.len() > 0
            &&& after.effects.last() matches EffectView::PrepareSubmission {
                session_id,
                project,
                workspace,
                prompt,
                turn_count,
                ..
            } && session_id == id && project == desk.state.project(s.project_id)->0 && workspace == s.workspace && prompt
                == human && turn_count == t.turns.last().turn_count
            &&& after.pending_queue_drains == desk.pending_queue_drains
            &&& desk.state.selected_session == Some(id) ==> after.message_edit is None
        }),
{
    let s = desk.session(id)->0;
    lemma_session_id(desk.state, id);
    assert(!desk.ending_checkpoint_pending(id));
    lemma_accepted(s, submission, stamp);
    lemma_put_get(desk.state, id, s.with_accepted(submission, stamp));
}

/// A message to a session whose project is gone is not lost: it stands in the composer again,
/// and the session stays as it is.
pub proof fn messages_without_a_project_come_back(
    desk: DeskView,
    id: Uuid,
    submission: ComposerSubmissionView,
    catalog: CatalogView,
    stamp: Stamp,
)
    requires
        desk.session(id) is Some,
        !engaged(desk.session(id)->0),
        !desk.response_fork_preparations.dom().contains(id),
        !awaits_checkpoint(desk, id, desk.session(id)->0),
        desk.state.project(desk.session(id)->0.project_id) is None,
    ensures
        ({
            let after = desk.submitted(id, submission, catalog, stamp);
            &&& after.state == desk.state
            &&& after.submission_preparations == desk.submission_preparations
            &&& desk.state.selected_session == Some(id) ==> after.effects.contains(EffectView::RestoreComposer(submission))
        }),
{
    assert(!desk.ending_checkpoint_pending(id));
    let after = desk.submitted(id, submission, catalog, stamp);
    if desk.state.selected_session == Some(id) {
        assert(after.effects[desk.effects.len() as int] == EffectView::RestoreComposer(submission));
    }
}

/// A message to a session that is at work, or whose last checkpoint is still to be taken,
/// waits last in its queue; in the second case the queue goes on once the checkpoint is there.
/// A message of nothing but spaces is dropped.
pub proof fn messages_wait_their_turn(
    desk: DeskView,
    id: Uuid,
    submission: ComposerSubmissionView,
    catalog: CatalogView,
    stamp: Stamp,
)
    requires
        desk.session(id) is Some,
        !desk.response_fork_preparations.dom().contains(id),
        engaged(desk.session(id)->0) || awaits_checkpoint(desk, id, desk.session(id)->0),
    ensures
        ({
            let s = desk.session(id)->0;
            let after = desk.submitted(id, submission, catalog, stamp);
            let t = after.session(id)->0;
            &&& after.session(id) is Some
            &&& if trimmed(submission.prompt).len() > 0 {
                queued_last(s, t, submission)
            } else {
                t == s
            }
            &&& after.submission_preparations == desk.submission_preparations
            &&& awaits_checkpoint(desk, id, s) ==> after.pending_queue_drains.contains(id)
            &&& !awaits_checkpoint(desk, id, s) ==> after.pending_queue_drains == desk.pending_queue_drains
        }),
{
    let s = desk.session(id)->0;
    lemma_session_id(desk.state, id);
    lemma_queued(desk, id, submission, stamp);
    assert(desk.ending_checkpoint_pending(id) == awaits_checkpoint(desk, id, s));
    let queued = desk.follow_up_queued(id, submission, stamp);
    if awaits_checkpoint(desk, id, s) && !desk.pending_queue_drains.contains(id) {
        let drains = queued.drain_deferred(id).pending_queue_drains;
        assert(drains[desk.pending_queue_drains.len() as int] == id);
    }
}

proof fn lemma_queued(desk: DeskView, id: Uuid, submission: ComposerSubmissionView, stamp: Stamp)
    requires
        desk.session(id) is Some,
    ensures
        ({
            let s = desk.session(id)->0;
            let after = desk.follow_up_queued(id, submission, stamp);
            &&& after.session(id) is Some
            &&& if trimmed(submission.prompt).len() > 0 {
                queued_last(s, after.session(id)->0, submission)
            } else {
                after == desk
            }
            &&& after == (DeskView { state: after.state, effects: after.effects, ..desk })
        }),
{
    let s = desk.session(id)->0;
    lemma_session_id(desk.state, id);
    let prompt = trimmed(submission.prompt);
    let t = AgentSessionView {
        updated_at: stamp.secs,
        ..s.with_queued(ComposerSubmissionView { prompt, ..submission }.queued(stamp.id))
    };
    lemma_put_get(desk.state, id, t);
    assert(t.queued_messages.drop_last() =~= s.queued_messages);
}

/// Once the session is at rest, its queue goes on with the message that waited longest: it
/// leaves the queue and begins a turn, and the others stay in their order.
pub proof fn queues_go_on_in_order(desk: DeskView, id: Uuid, catalog: CatalogView, stamp: Stamp)
    requires
        desk.session(id) is Some,
        !engaged(desk.session(id)->0),
        desk.session(id)->0.queued_messages.len() > 0,
        !desk.response_fork_preparations.dom().contains(id),
        !desk.undo_redo_preparations.contains(id),
        !awaits_checkpoint(desk, id, desk.session(id)->0),
        desk.state.project(desk.session(id)->0.project_id) is Some,
    ensures
        ({
            let s = desk.session(id)->0;
            let first = s.queued_messages[0];
            let after = desk.queue_drained(id, catalog, stamp);
            let t = after.session(id)->0;
            &&& after.session(id) is Some
            &&& t.queued_messages == s.queued_messages.drop_first()
            &&& t.messages.len() == s.messages.len() + 1
            &&& t.messages.drop_last() == s.messages
            &&& t.messages.last().role == MessageRole::User
            &&& t.messages.last().content == first.prompt
            &&& t.messages.last().display_content == first.display_content
            &&& t.messages.last().attachments == first.attachments
            &&& t.turns.len() == s.turns.len() + 1
            &&& t.turns.last().status == TurnStatus::Running
            &&& t.status == SessionStatus::Connecting
            &&& after.submission_preparations.contains(id)
        }),
{
    let s = desk.session(id)->0;
    lemma_session_id(desk.state, id);
    let rest = AgentSessionView { queued_messages: s.queued_messages.remove(0), ..s };
    lemma_put_get(desk.state, id, rest);
    assert(rest.queued_messages =~= s.queued_messages.drop_first());
    let mid = desk.put(id, rest);
    assert(!desk.ending_checkpoint_pending(id));
    assert(mid.session(id) == Some(rest));
    assert(!awaits_checkpoint(mid, id, rest));
    assert(mid.state.project(rest.project_id) == desk.state.project(s.project_id));
    let submission = crate::submissions::as_submission(s.queued_messages[0]);
    messages_begin_turns(mid, id, submission, catalog, stamp);
}

/// The queue of a session that is at work, or that has nothing in it, or of one that is being
/// forked or rewound, stays as it is.
pub proof fn queues_rest_with_their_session(desk: DeskView, id: Uuid, catalog: CatalogView, stamp: Stamp)
    requires
        desk.session(id) matches Some(s) ==> engaged(s) || s.queued_messages.len() == 0 || awaits_checkpoint(desk, id, s)
            || desk.response_fork_preparations.dom().contains(id) || desk.undo_redo_preparations.contains(id),
    ensures
        desk.queue_drained(id, catalog, stamp) == desk,
{
    if desk.session(id) is Some {
        assert(desk.ending_checkpoint_pending(id) == awaits_checkpoint(desk, id, desk.session(id)->0));
    }
}

/// A message that is taken out of the queue is gone from it; the others stay in their order.
pub proof fn removed_messages_leave_the_queue(desk: DeskView, id: Uuid, k: int)
    requires
        desk.session(id) is Some,
        0 <= k < desk.session(id)->0.queued_messages.len(),
        forall|j: int|
            0 <= j < k ==> (#[trigger] desk.session(id)->0.queued_messages[j]).id != desk.session(id)->0.queued_messages[k].id,
    ensures
        ({
            let s = desk.session(id)->0;
            let after = desk.unqueued(id, s.queued_messages[k].id);
            &&& desk.queued(id, s.queued_messages[k].id) == Some(s.queued_messages[k])
            &&& after.session(id) == Some(
                AgentSessionView { queued_messages: s.queued_messages.take(k) + s.queued_messages.skip(k + 1), ..s },
            )
        }),
{
    let s = desk.session(id)->0;
    lemma_session_id(desk.state, id);
    let ids = queued_ids(s.queued_messages);
    assert forall|j: int| 0 <= j < k implies ids[j] != s.queued_messages[k].id by {
        assert(ids[j] == s.queued_messages[j].id);
    }
    assert(first_at(ids, s.queued_messages[k].id, k));
    lemma_pos_some(ids, s.queued_messages[k].id, k);
    assert(s.queued_messages.remove(k) =~= s.queued_messages.take(k) + s.queued_messages.skip(k + 1));
    lemma_put_get(desk.state, id, AgentSessionView { queued_messages: s.queued_messages.remove(k), ..s });
}

/// A message that is steered into a running turn goes to the provider as it is, where the
/// provider takes such messages, and is remembered until the provider says what became of it.
/// Where it takes none, or is not there yet, the message waits in the queue.
pub proof fn steering_reaches_the_provider(
    desk: DeskView,
    id: Uuid,
    submission: ComposerSubmissionView,
    catalog: CatalogView,
    stamp: Stamp,
)
    requires
        desk.state.selected_session == Some(id),
        desk.session(id) is Some,
        engaged(desk.session(id)->0),
        !crate::submissions::asks_for_compaction(submission.prompt),
    ensures
        ({
            let s = desk.session(id)->0;
            let after = desk.steered(submission, catalog, stamp);
            let taken = s.status != SessionStatus::Connecting && desk.runtimes.dom().contains(id)
                && desk.runtimes[id].supports_steer;
            if taken {
                &&& after.effects.contains((EffectView::DriverSteer { session_id: id, prompt: submission.prompt }))
                &&& after.runtimes[id].pending_steers == desk.runtimes[id].pending_steers.push(submission)
                &&& after.state == desk.state
            } else {
                &&& after.session(id) is Some
                &&& trimmed(submission.prompt).len() > 0 ==> queued_last(s, after.session(id)->0, submission)
                &&& after.runtimes == desk.runtimes
            }
        }),
{
    lemma_queued(desk, id, submission, stamp);
    let after = desk.steered(submission, catalog, stamp);
    let steer = EffectView::DriverSteer { session_id: id, prompt: submission.prompt };
    if after.effects.len() > desk.effects.len() && after.effects[desk.effects.len() as int] == steer {
        assert(after.effects.contains(steer));
    }
}

/// A wish to compact reaches the provider where one runs and does not compact already; no
/// message is sent and none waits.
pub proof fn compaction_is_asked_for(desk: DeskView, id: Uuid)
    ensures
        ({
            let after = desk.compaction_asked(id);
            let compacting = desk.session(id) matches Some(s) && s.compaction is Some && s.compaction->0.status
                == CompactionStatus::Running;
            &&& after == (DeskView { effects: after.effects, ..desk })
            &&& compacting ==> after == desk
            &&& !compacting && desk.runtimes.dom().contains(id) ==> after.effects.contains(EffectView::DriverCompact(id))
            &&& !compacting && !desk.runtimes.dom().contains(id) ==> forall|k: int|
                desk.effects.len() <= k < after.effects.len() ==> !((#[trigger] after.effects[k]) is DriverCompact)
        }),
{
    let after = desk.compaction_asked(id);
    if after.effects.len() > desk.effects.len() && after.effects[desk.effects.len() as int] == EffectView::DriverCompact(id) {
        assert(after.effects.contains(EffectView::DriverCompact(id)));
    }
}

} // verus!
