//! What the daemon's list of tasks does to the sessions here, and what becomes of a session
//! whose runtime is looked for.
use vstd::prelude::*;

use crate::activities::{blocks_cut_off, completed, empty_thought, thoughts_kept};
use crate::attachments::{still_listed, unlisted, with_listed};
use crate::desk::{lemma_put_get, lemma_session_id, session_ids, EffectView};
use crate::ids::{Stamp, Uuid};
use crate::live::DeskView;
use crate::model::{ActivityItemView, AgentSessionView, SessionStatus, TranscriptBlockView, TurnStatus, TurnView};
use crate::seqs::{first_at, lemma_pos, lemma_pos_some, pos};
use crate::turn_laws::{calm, engaged, running};

verus! {

/// Nothing was asked in the session yet.
pub open spec fn untouched(s: AgentSessionView) -> bool {
    s.turns.len() == 0 && s.last_reply_at is None
}

/// A session that the daemon lists and that is here bears the daemon's title, project,
/// provider, model and times. Its state is the daemon's too, unless a runtime of it is
/// attached here, which knows better. Its transcript stays.
pub proof fn listed_sessions_follow_the_daemon(
    sessions: Seq<AgentSessionView>,
    remote: AgentSessionView,
    attached: Seq<Uuid>,
    i: int,
)
    requires
        0 <= i < sessions.len(),
        sessions[i].id == remote.id,
        forall|j: int| 0 <= j < i ==> (#[trigger] sessions[j]).id != remote.id,
    ensures
        ({
            let after = with_listed(sessions, remote, attached);
            let was = sessions[i];
            let now = after[i];
            &&& after.len() == sessions.len()
            &&& forall|j: int| 0 <= j < sessions.len() && j != i ==> #[trigger] after[j] == sessions[j]
            &&& now.id == was.id
            &&& now.title == remote.title && now.auto_title == remote.auto_title
            &&& now.project_id == remote.project_id && now.provider == remote.provider && now.model == remote.model
            &&& now.created_at == remote.created_at && now.last_reply_at == remote.last_reply_at
            &&& attached.contains(remote.id) ==> now.status == was.status && now.updated_at == was.updated_at
            &&& !attached.contains(remote.id) ==> now.status == remote.status && now.updated_at == remote.updated_at
            &&& now.messages == was.messages && now.turns == was.turns && now.transcript_blocks == was.transcript_blocks
            &&& now.queued_messages == was.queued_messages && now.workspace == was.workspace && now.detail_loaded
                == was.detail_loaded
        }),
{
    let ids = session_ids(sessions);
    assert forall|j: int| 0 <= j < i implies ids[j] != remote.id by {
        assert(ids[j] == sessions[j].id);
    }
    assert(ids[i] == sessions[i].id);
    assert(first_at(ids, remote.id, i));
    lemma_pos_some(ids, remote.id, i);
}

/// A session that the daemon lists and that is not here yet comes last, as the daemon has it.
pub proof fn new_sessions_come_last(sessions: Seq<AgentSessionView>, remote: AgentSessionView, attached: Seq<Uuid>)
    requires
        forall|j: int| 0 <= j < sessions.len() ==> (#[trigger] sessions[j]).id != remote.id,
    ensures
        with_listed(sessions, remote, attached) == sessions.push(remote),
{
    let ids = session_ids(sessions);
    lemma_pos(ids, remote.id);
    if let Some(i) = pos(ids, remote.id) {
        assert(ids[i] == sessions[i].id);
    }
}

/// A session stays exactly where the daemon lists it or nothing was asked in it yet; every
/// other is gone.
pub proof fn unlisted_sessions_are_gone(sessions: Seq<AgentSessionView>, listed: Seq<Uuid>)
    ensures
        forall|k: int|
            0 <= k < sessions.len() && (untouched(#[trigger] sessions[k]) || listed.contains(sessions[k].id))
                ==> still_listed(sessions, listed).contains(sessions[k]),
        forall|j: int|
            0 <= j < still_listed(sessions, listed).len() ==> (untouched(#[trigger] still_listed(sessions, listed)[j])
                || listed.contains(still_listed(sessions, listed)[j].id)) && sessions.contains(
                still_listed(sessions, listed)[j],
            ),
        forall|k: int|
            0 <= k < sessions.len() && !untouched(#[trigger] sessions[k]) && !listed.contains(sessions[k].id)
                ==> unlisted(sessions, listed).contains(sessions[k].id),
        forall|j: int|
            0 <= j < unlisted(sessions, listed).len() ==> !listed.contains(#[trigger] unlisted(sessions, listed)[j]),
    decreases sessions.len(),
{
    if sessions.len() > 0 {
        let rest = sessions.drop_last();
        unlisted_sessions_are_gone(rest, listed);
        let before = still_listed(rest, listed);
        let after = still_listed(sessions, listed);
        let gone = unlisted(rest, listed);
        let now = unlisted(sessions, listed);
        assert forall|k: int|
            0 <= k < sessions.len() && (untouched(#[trigger] sessions[k]) || listed.contains(sessions[k].id)) implies after.contains(
            sessions[k],
        ) by {
            if k < rest.len() {
                assert(rest[k] == sessions[k]);
                let j = before.index_of(rest[k]);
                assert(after[j] == sessions[k]);
            } else {
                assert(after[before.len() as int] == sessions[k]);
            }
        }
        assert forall|j: int| 0 <= j < after.len() implies (untouched(#[trigger] after[j]) || listed.contains(after[j].id))
            && sessions.contains(after[j]) by {
            if j < before.len() {
                assert(after[j] == before[j]);
                let k = rest.index_of(before[j]);
                assert(sessions[k] == after[j]);
            } else {
                assert(sessions[sessions.len() - 1] == after[j]);
            }
        }
        assert forall|k: int| 0 <= k < sessions.len() && !untouched(#[trigger] sessions[k]) && !listed.contains(sessions[k].id) implies now.contains(
            sessions[k].id,
        ) by {
            if k < rest.len() {
                assert(rest[k] == sessions[k]);
                let j = gone.index_of(rest[k].id);
                assert(now[j] == sessions[k].id);
            } else {
                assert(now[gone.len() as int] == sessions[k].id);
            }
        }
        assert forall|j: int| 0 <= j < now.len() implies !listed.contains(#[trigger] now[j]) by {
            if j < gone.len() {
                assert(now[j] == gone[j]);
            }
        }
    }
}

/// The projects are the daemon's once its list is taken.
pub proof fn projects_are_the_daemons(desk: DeskView, remote: crate::attachments::RemoteTaskStateView, attached: Seq<Uuid>)
    ensures
        desk.catalog_taken(remote, attached).state.projects == remote.projects,
{
}

proof fn lemma_thoughts_kept(activities: Seq<ActivityItemView>)
    ensures
        forall|k: int| 0 <= k < thoughts_kept(activities).len() ==> (#[trigger] thoughts_kept(activities)[k]).complete,
        forall|k: int|
            0 <= k < activities.len() && !empty_thought(#[trigger] activities[k]) ==> thoughts_kept(activities).contains(
                completed(activities[k]),
            ),
    decreases activities.len(),
{
    if activities.len() > 0 {
        let rest = activities.drop_last();
        lemma_thoughts_kept(rest);
        let before = thoughts_kept(rest);
        let after = thoughts_kept(activities);
        assert forall|k: int| 0 <= k < after.len() implies (#[trigger] after[k]).complete by {
            if k < before.len() {
                assert(after[k] == before[k]);
            }
        }
        assert forall|k: int| 0 <= k < activities.len() && !empty_thought(#[trigger] activities[k]) implies after.contains(
            completed(activities[k]),
        ) by {
            if k < rest.len() {
                assert(rest[k] == activities[k]);
                let j = before.index_of(completed(rest[k]));
                assert(after[j] == completed(activities[k]));
            } else {
                assert(after[before.len() as int] == completed(activities[k]));
            }
        }
    }
}

proof fn lemma_cut_off(blocks: Seq<TranscriptBlockView>)
    ensures
        forall|b: int, a: int|
            0 <= b < blocks_cut_off(blocks).len() && 0 <= a < blocks_cut_off(blocks)[b].activities.len() ==> (
            #[trigger] blocks_cut_off(blocks)[b].activities[a]).complete,
        forall|b: int, a: int|
            0 <= b < blocks.len() && 0 <= a < blocks[b].activities.len() && !empty_thought(
                #[trigger] blocks[b].activities[a],
            ) ==> shows(blocks_cut_off(blocks), completed(blocks[b].activities[a])),
    decreases blocks.len(),
{
    if blocks.len() > 0 {
        let rest = blocks.drop_last();
        lemma_cut_off(rest);
        lemma_thoughts_kept(blocks.last().activities);
        let before = blocks_cut_off(rest);
        let after = blocks_cut_off(blocks);
        assert forall|b: int, a: int| 0 <= b < after.len() && 0 <= a < after[b].activities.len() implies (
        #[trigger] after[b].activities[a]).complete by {
            if b < before.len() {
                assert(after[b] == before[b]);
                assert(before[b].activities[a].complete);
            }
        }
        assert forall|b: int, a: int|
            0 <= b < blocks.len() && 0 <= a < blocks[b].activities.len() && !empty_thought(
                #[trigger] blocks[b].activities[a],
            ) implies shows(after, completed(blocks[b].activities[a])) by {
            let item = completed(blocks[b].activities[a]);
            if b < rest.len() {
                assert(rest[b] == blocks[b]);
                assert(!empty_thought(rest[b].activities[a]));
                let (c, d) = choose|c: int, d: int|
                    0 <= c < before.len() && 0 <= d < before[c].activities.len() && #[trigger] before[c].activities[d] == item;
                assert(after[c] == before[c]);
                assert(after[c].activities[d] == item);
            } else {
                let kept = thoughts_kept(blocks.last().activities);
                let d = kept.index_of(item);
                assert(after[before.len() as int].activities == kept);
                assert(after[before.len() as int].activities[d] == item);
            }
        }
    }
}

/// The activity stands in one of the blocks.
pub open spec fn shows(blocks: Seq<TranscriptBlockView>, item: ActivityItemView) -> bool {
    exists|c: int, d: int|
        0 <= c < blocks.len() && 0 <= d < blocks[c].activities.len() && #[trigger] blocks[c].activities[d] == item
}

/// A session whose runtime is lost is at rest: its turn is interrupted, nothing streams, and
/// every activity is complete, but for thoughts with nothing in them, which are gone. Its
/// messages say what they said.
pub proof fn lost_runtimes_leave_a_session_at_rest(s: AgentSessionView, stamp: Stamp)
    ensures
        ({
            let t = s.orphaned(stamp);
            &&& t.status == SessionStatus::Idle
            &&& !running(t)
            &&& t.turns.len() == s.turns.len()
            &&& running(s) ==> t.turns.last() == (TurnView {
                status: TurnStatus::Interrupted,
                completed_at: Some(stamp.secs),
                ..s.turns.last()
            }) && t.turns.drop_last() == s.turns.drop_last()
            &&& !running(s) ==> t.turns == s.turns
            &&& calm(t)
            &&& t.messages.len() == s.messages.len()
            &&& forall|k: int|
                0 <= k < s.messages.len() ==> !(#[trigger] t.messages[k]).streaming && t.messages[k].content
                    == s.messages[k].content && t.messages[k].id == s.messages[k].id
            &&& forall|b: int, a: int|
                0 <= b < s.transcript_blocks.len() && 0 <= a < s.transcript_blocks[b].activities.len()
                    && s.transcript_blocks[b].activities[a].reasoning is None ==> shows(
                    t.transcript_blocks,
                    completed(#[trigger] s.transcript_blocks[b].activities[a]),
                )
            &&& t.queued_messages == s.queued_messages
        }),
{
    lemma_cut_off(s.transcript_blocks);
    let t = s.orphaned(stamp);
    if running(s) {
        assert(t.turns.drop_last() =~= s.turns.drop_last());
    }
}

/// A runtime that is attached shows the session as the daemon keeps it, and one that is here
/// already is not disturbed.
pub proof fn attached_runtimes_show_the_daemons_session(
    desk: DeskView,
    id: Uuid,
    session: AgentSessionView,
    supports_steer: bool,
    stamp: Stamp,
)
    requires
        desk.session(id) is Some,
        session.id == id,
    ensures
        ({
            let after = desk.attached(id, session, supports_steer, stamp);
            if desk.runtimes.dom().contains(id) {
                after == desk
            } else {
                &&& after.session(id) == Some(session)
                &&& after.runtimes.dom() == desk.runtimes.dom().insert(id)
                &&& after.runtimes[id].supports_steer == supports_steer
                &&& after.state.sessions.len() == desk.state.sessions.len()
            }
        }),
{
    lemma_session_id(desk.state, id);
    let i = desk.state.at(id)->0;
    let ids = session_ids(desk.state.sessions);
    assert(session_ids(desk.state.sessions.update(i, session)) =~= ids);
}

/// A runtime is looked for once at a time, and not where one is here.
pub proof fn runtimes_are_looked_for_once(desk: DeskView, id: Uuid)
    ensures
        ({
            let after = desk.attaching(id);
            let sought = desk.runtimes.dom().contains(id) || desk.runtime_attach_pending.contains(id);
            &&& sought ==> after == desk
            &&& !sought ==> after.runtime_attach_pending == desk.runtime_attach_pending.insert(id) && after.effects
                == desk.effects.push(EffectView::AttachRuntime(id))
            &&& after.attaching(id) == after
        }),
{
}

/// Of a session that is at work a runtime is here or looked for, once all are gone through.
pub proof fn working_sessions_are_attached(desk: DeskView, sessions: Seq<AgentSessionView>)
    ensures
        ({
            let after = desk.attaching_all(sessions);
            &&& after.runtimes == desk.runtimes
            &&& after.state == desk.state
            &&& forall|k: int|
                0 <= k < sessions.len() && (engaged(#[trigger] sessions[k]) || (desk.state.selected_session == Some(
                    sessions[k].id,
                ) && !untouched(sessions[k]))) ==> desk.runtimes.dom().contains(sessions[k].id)
                    || after.runtime_attach_pending.contains(sessions[k].id)
            &&& desk.runtime_attach_pending.subset_of(after.runtime_attach_pending)
            &&& forall|id: Uuid| #[trigger]
                after.runtime_attach_pending.contains(id) && !desk.runtime_attach_pending.contains(id) ==> exists|k: int|
                    0 <= k < sessions.len() && (#[trigger] sessions[k]).id == id && (engaged(sessions[k]) || !untouched(
                        sessions[k],
                    ))
        }),
    decreases sessions.len(),
{
    if sessions.len() > 0 {
        let rest = sessions.drop_last();
        working_sessions_are_attached(desk, rest);
        let before = desk.attaching_all(rest);
        let after = desk.attaching_all(sessions);
        assert(forall|k: int| 0 <= k < rest.len() ==> #[trigger] sessions[k] == rest[k]);
        assert forall|id: Uuid| #[trigger]
            after.runtime_attach_pending.contains(id) && !desk.runtime_attach_pending.contains(id) implies exists|k: int|
            0 <= k < sessions.len() && (#[trigger] sessions[k]).id == id && (engaged(sessions[k]) || !untouched(sessions[k])) by {
            if before.runtime_attach_pending.contains(id) {
                let k = choose|k: int|
                    0 <= k < rest.len() && (#[trigger] rest[k]).id == id && (engaged(rest[k]) || !untouched(rest[k]));
                assert(sessions[k] == rest[k]);
            } else {
                assert(sessions[sessions.len() - 1].id == id);
            }
        }
    }
}

/// A runtime that is not found is looked for again, three times while the session is at work;
/// the time after that the session is interrupted. A session at rest is let be.
pub proof fn missing_runtimes_are_given_up_in_the_end(desk: DeskView, id: Uuid, stamp: Stamp)
    requires
        desk.session(id) is Some,
    ensures
        ({
            let s = desk.session(id)->0;
            let after = desk.attachment_missed(id, stamp);
            let misses: int = if desk.runtime_attach_misses.dom().contains(id) {
                desk.runtime_attach_misses[id] as int
            } else {
                0
            };
            &&& !engaged(s) ==> after.state == desk.state && after.effects == desk.effects
                && !after.runtime_attach_misses.dom().contains(id)
            &&& engaged(s) && misses < 3 ==> after.state == desk.state && after.runtime_attach_misses[id] == misses + 1
                && after.effects == desk.effects.push(EffectView::AttachRuntimeSoon(id))
            &&& engaged(s) && misses >= 3 ==> after.session(id) == Some(s.orphaned(stamp))
                && !after.runtime_attach_misses.dom().contains(id)
        }),
{
    let s = desk.session(id)->0;
    lemma_session_id(desk.state, id);
    let t = s.orphaned(stamp);
    lemma_put_get(desk.state, id, t);
    if engaged(s) {
        let dropped = DeskView { runtime_attach_misses: desk.runtime_attach_misses.remove(id), ..desk };
        let settled = dropped.put(id, t);
        if running(s) && dropped.last_directory(s) is Some {
            let asked = DeskView {
                pending_checkpoint_captures: settled.pending_checkpoint_captures.push(
                    crate::desk::PendingCheckpointCaptureView {
                        session_id: id,
                        turn_count: s.turns.last().turn_count,
                        project_path: dropped.last_directory(s)->0,
                    },
                ),
                ..settled
            };
            crate::preparation_laws::captures_are_all_started(asked);
        }
    }
}

} // verus!
