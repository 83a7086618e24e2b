//! What choosing, creating and removing sessions does, and what rewinding and forking keep.
use vstd::prelude::*;

use crate::desk::{
    lemma_put_get, lemma_session_id, session_ids, ComposerSubmissionView, EffectView, MessageEditView, StateView,
};
use crate::ids::{Stamp, Uuid};
use crate::live::DeskView;
use crate::model::{
    AgentSessionView, MessageRole, MessageView, ProviderKind, SessionStatus, TranscriptBlockView, TurnView,
};
use crate::probes::CatalogView;
use crate::rewinds::{is_prompt, prompt_pos};
use crate::seqs::{first_at, lemma_pos_some};
use crate::sessions::{first_draft, newest};
use crate::truncation::{before_turns, blocks_before, first_turns, later_turns, of_turns, provider_turns, turn_ids};

verus! {

/// A session that is chosen is on screen, with its project, and what a new session would take
/// over is what this one has. No session changes. The one that was left can be gone back to,
/// and an edit that was open is dropped.
pub proof fn chosen_sessions_are_on_screen(desk: DeskView, id: Uuid)
    requires
        desk.session(id) is Some,
    ensures
        ({
            let s = desk.session(id)->0;
            let after = desk.session_selected(id);
            &&& after.state.selected_session == Some(id)
            &&& after.state.selected_project == Some(s.project_id)
            &&& after.state.sessions == desk.state.sessions
            &&& after.state.projects == desk.state.projects
            &&& after.state.prefs.last_provider == s.provider && after.state.prefs.last_model == s.model
                && after.state.prefs.last_reasoning_effort == s.reasoning_effort && after.state.prefs.last_service_tier
                == s.service_tier
            &&& after.message_edit is None
            &&& desk.state.selected_session matches Some(previous) ==> (previous != id ==> after.navigation.back
                == desk.navigation.back.push(previous) && after.navigation.forward.len() == 0)
            &&& desk.state.selected_session is None || desk.state.selected_session == Some(id) ==> after.navigation
                == desk.navigation
            &&& after.runtimes == desk.runtimes
            &&& after.pending_queue_drains == desk.pending_queue_drains
        }),
{
}

/// Choosing a session brings back the panel it had, after the panel of the one that was left is
/// kept, and reads the session in where it is not read yet.
pub proof fn panels_follow_their_session(desk: DeskView, id: Uuid, previous: Uuid)
    requires
        desk.session(id) is Some,
        desk.state.selected_session == Some(previous),
        previous != id,
    ensures
        ({
            let n = desk.effects.len() as int;
            let after = desk.session_selected(id).effects;
            let loading = !desk.session(id)->0.detail_loaded;
            let at = n + (if loading {
                1int
            } else {
                0int
            });
            &&& after.len() > at + 1
            &&& after.take(n) == desk.effects
            &&& loading ==> after[n] == EffectView::HydrateSession(id)
            &&& after[at] == EffectView::StorePanelState(previous)
            &&& after[at + 1] == EffectView::RestorePanelState(id)
        }),
{
    assert(desk.session_selected(id).effects.take(desk.effects.len() as int) =~= desk.effects);
}

/// A session that is not there cannot be chosen.
pub proof fn absent_sessions_are_not_chosen(desk: DeskView, id: Uuid)
    requires
        desk.session(id) is None,
    ensures
        desk.session_selected(id) == desk,
{
}

/// A draft of the project: nothing was asked in it yet.
pub open spec fn is_draft(s: AgentSessionView, project_id: Uuid) -> bool {
    s.project_id == project_id && s.turns.len() == 0 && s.last_reply_at is None
}

proof fn lemma_first_draft(sessions: Seq<AgentSessionView>, project_id: Uuid)
    ensures
        match first_draft(sessions, project_id) {
            Some(i) => 0 <= i < sessions.len() && is_draft(sessions[i], project_id) && forall|j: int|
                0 <= j < i ==> !is_draft(#[trigger] sessions[j], project_id),
            None => forall|j: int| 0 <= j < sessions.len() ==> !is_draft(#[trigger] sessions[j], project_id),
        },
    decreases sessions.len(),
{
    if sessions.len() > 0 && !is_draft(sessions[0], project_id) {
        let rest = sessions.drop_first();
        lemma_first_draft(rest, project_id);
        assert(forall|j: int| 0 < j < sessions.len() ==> #[trigger] sessions[j] == rest[j - 1]);
    }
}

/// A project has one draft at most from creating sessions in it: where there is a draft, it is
/// chosen and nothing is created; else one session comes to be, a draft of the project that
/// takes over what was chosen last, and it is chosen.
pub proof fn drafts_are_used_first(desk: DeskView, project_id: Uuid, provider: ProviderKind, stamp: Stamp)
    requires
        desk.session(stamp.id) is None,
    ensures
        ({
            let after = desk.session_created(project_id, provider, stamp);
            let old = desk.state.sessions;
            let drafts = exists|i: int| 0 <= i < old.len() && is_draft(#[trigger] old[i], project_id);
            let made = after.state.sessions.last();
            &&& drafts ==> after.state.sessions == old && exists|i: int|
                0 <= i < old.len() && is_draft(#[trigger] old[i], project_id) && after.state.selected_session == Some(
                    old[i].id,
                )
            &&& !drafts ==> {
                &&& after.state.sessions.len() == old.len() + 1
                &&& after.state.sessions.drop_last() == old
                &&& is_draft(made, project_id)
                &&& made.id == stamp.id && made.provider == provider && made.messages.len() == 0
                &&& made.model == desk.state.prefs.last_model && made.reasoning_effort
                    == desk.state.prefs.last_reasoning_effort && made.service_tier == desk.state.prefs.last_service_tier
                &&& after.state.selected_session == Some(stamp.id)
                &&& after.state.selected_project == Some(project_id)
            }
        }),
{
    lemma_first_draft(desk.state.sessions, project_id);
    let old = desk.state.sessions;
    match first_draft(old, project_id) {
        Some(i) => {
            assert(is_draft(old[i], project_id));
            crate::seqs::lemma_pos(session_ids(old), old[i].id);
            assert(session_ids(old)[i] == old[i].id);
            chosen_sessions_are_on_screen(desk, old[i].id);
        },
        None => {
            let made = crate::sessions::fresh_session(project_id, provider, desk.state.prefs, stamp);
            let grown = desk.with_session(made);
            let ids = session_ids(grown.state.sessions);
            crate::seqs::lemma_pos(session_ids(old), stamp.id);
            assert forall|j: int| 0 <= j < old.len() implies ids[j] != stamp.id by {
                assert(session_ids(old)[j] == ids[j]);
            }
            assert(ids[old.len() as int] == stamp.id);
            assert(first_at(ids, stamp.id, old.len() as int));
            lemma_pos_some(ids, stamp.id, old.len() as int);
            assert(grown.session(stamp.id) == Some(made));
            chosen_sessions_are_on_screen(grown, stamp.id);
            assert(grown.state.sessions.drop_last() =~= old);
        },
    }
}

/// The newest session, of a project or of all, is one that no other was updated after; there
/// is one wherever there is a session at all.
pub proof fn newest_is_updated_last(sessions: Seq<AgentSessionView>, project: Option<Uuid>)
    ensures
        match newest(sessions, project) {
            Some(n) => {
                &&& 0 <= n < sessions.len()
                &&& project is None || project == Some(sessions[n].project_id)
                &&& forall|k: int|
                    0 <= k < sessions.len() && (project is None || project == Some((#[trigger] sessions[k]).project_id))
                        ==> sessions[k].updated_at <= sessions[n].updated_at && (sessions[k].updated_at
                        == sessions[n].updated_at ==> k <= n)
            },
            None => forall|k: int|
                0 <= k < sessions.len() ==> project is Some && project != Some((#[trigger] sessions[k]).project_id),
        },
    decreases sessions.len(),
{
    if sessions.len() > 0 {
        let rest = sessions.drop_last();
        newest_is_updated_last(rest, project);
        assert(forall|k: int| 0 <= k < rest.len() ==> #[trigger] sessions[k] == rest[k]);
    }
}

/// What was removed: the record is gone from the list, and every other stays in its order; its
/// provider is told to stop, it cannot be gone back to, and what was kept of its turns is
/// deleted.
pub proof fn removed_records_are_gone(desk: DeskView, id: Uuid, i: int)
    requires
        0 <= i < desk.state.sessions.len(),
    ensures
        ({
            let after = desk.record_removed(id, i);
            let old = desk.state.sessions;
            &&& after.state.sessions == old.take(i) + old.skip(i + 1)
            &&& !after.runtimes.dom().contains(id)
            &&& forall|other: Uuid| other != id ==> (#[trigger] after.runtimes.dom().contains(other)
                == desk.runtimes.dom().contains(other))
            &&& desk.runtimes.dom().contains(id) ==> after.effects.contains(EffectView::DriverCancel(id))
            &&& after.effects.contains(EffectView::RemovePanelState(id))
            &&& !after.navigation.back.contains(id) && !after.navigation.forward.contains(id)
            &&& desk.state.project(old[i].project_id) matches Some(project) ==> after.effects.contains(
                (EffectView::DeleteCheckpointRefs {
                    session_id: id,
                    project_path: project.path,
                    turn_count: old[i].turns.len() as usize,
                }),
            )
        }),
{
    let after = desk.record_removed(id, i);
    let old = desk.state.sessions;
    assert(old.remove(i) =~= old.take(i) + old.skip(i + 1));
    crate::preparation_laws::resumed_queues_wait_no_longer(desk.navigation.back, id);
    crate::preparation_laws::resumed_queues_wait_no_longer(desk.navigation.forward, id);
    let n = desk.effects.len() as int;
    if desk.runtimes.dom().contains(id) {
        assert(after.effects[n] == EffectView::DriverCancel(id));
        assert(after.effects[n + 1] == EffectView::RemovePanelState(id));
    } else {
        assert(after.effects[n] == EffectView::RemovePanelState(id));
    }
    if let Some(project) = desk.state.project(old[i].project_id) {
        let told = EffectView::DeleteCheckpointRefs {
            session_id: id,
            project_path: project.path,
            turn_count: old[i].turns.len() as usize,
        };
        assert(after.effects[after.effects.len() - 2] == told);
    }
}

/// Where the session on screen is removed, the newest of its project takes its place.
pub proof fn the_newest_takes_the_place(desk: DeskView, project_id: Uuid, n: int, stamp: Stamp)
    requires
        newest(desk.state.sessions, Some(project_id)) == Some(n),
    ensures
        desk.replaced(project_id, stamp).state.selected_session == Some(desk.state.sessions[n].id),
        desk.replaced(project_id, stamp).state.sessions == desk.state.sessions,
{
    newest_is_updated_last(desk.state.sessions, Some(project_id));
    let left = DeskView { state: StateView { selected_session: None, ..desk.state }, ..desk };
    let old = desk.state.sessions;
    crate::seqs::lemma_pos(session_ids(old), old[n].id);
    assert(session_ids(old)[n] == old[n].id);
    chosen_sessions_are_on_screen(left, old[n].id);
}

/// What is read of a session takes the place of what was known of it, where it was not read
/// yet; what failed to be read leaves it, and says so.
pub proof fn read_sessions_are_known(desk: DeskView, id: Uuid, read: Result<AgentSessionView, Seq<char>>)
    requires
        desk.session(id) is Some,
    ensures
        ({
            let s = desk.session(id)->0;
            let after = desk.read_in(id, read);
            &&& s.detail_loaded ==> after == desk
            &&& !s.detail_loaded && read is Ok ==> after.session(id) == Some(
                AgentSessionView { id, ..read->Ok_0 },
            ) && after.effects == desk.effects
            &&& read is Err ==> after.state == desk.state
            &&& !s.detail_loaded && read is Err ==> after.effects.len() == desk.effects.len() + 1 && after.effects.last() is Toast
            &&& after.state.sessions.len() == desk.state.sessions.len()
        }),
{
    lemma_session_id(desk.state, id);
    if read is Ok {
        let i = desk.state.at(id)->0;
        let t = AgentSessionView { id, ..read->Ok_0 };
        lemma_put_get(desk.state, id, t);
        let ids = session_ids(desk.state.sessions);
        assert(session_ids(desk.state.sessions.update(i, t)) =~= ids);
    }
}

/// The number of turns that the provider saw.
pub open spec fn seen(turns: Seq<TurnView>) -> nat {
    turns.filter(|t: TurnView| t.provider_turn_started).len()
}

/// What the provider is told to take back is counted in turns that it saw.
pub proof fn provider_turns_are_the_seen_ones(turns: Seq<TurnView>)
    ensures
        provider_turns(turns) == seen(turns),
    decreases turns.len(),
{
    reveal(Seq::filter);
    if turns.len() > 0 {
        provider_turns_are_the_seen_ones(turns.drop_last());
    }
}

/// The first turns and the later ones are all the turns.
pub proof fn turns_are_parted(turns: Seq<TurnView>, count: usize)
    ensures
        first_turns(turns, count) + later_turns(turns, count) == turns,
        first_turns(turns, count).len() == (if count < turns.len() {
            count as nat
        } else {
            turns.len()
        }),
{
    assert(first_turns(turns, count) + later_turns(turns, count) =~= turns);
}

proof fn lemma_before_turns(messages: Seq<MessageView>, ids: Seq<Uuid>)
    ensures
        before_turns(messages, ids) <= messages.len(),
        forall|k: int| 0 <= k < before_turns(messages, ids) ==> !of_turns((#[trigger] messages[k]).turn_id, ids),
        before_turns(messages, ids) < messages.len() ==> of_turns(
            messages[before_turns(messages, ids) as int].turn_id,
            ids,
        ),
    decreases messages.len(),
{
    if messages.len() > 0 && !of_turns(messages[0].turn_id, ids) {
        let rest = messages.drop_first();
        lemma_before_turns(rest, ids);
        assert(forall|k: int| 0 < k < messages.len() ==> #[trigger] messages[k] == rest[k - 1]);
    }
}

/// Cutting a session off after some turns keeps those turns, and the messages before the
/// first message of a later turn: no message that is kept is of a turn that is gone, and the
/// first that is not kept is.
pub proof fn cut_sessions_end_before_the_later_turns(s: AgentSessionView, count: usize)
    ensures
        ({
            let t = s.truncated(count);
            let n = t.messages.len();
            let gone = |turn_id: Option<Uuid>| turn_id is Some && exists|k: int|
                count <= k < s.turns.len() && (#[trigger] s.turns[k]).id == turn_id->0;
            &&& t.turns == (if count < s.turns.len() {
                s.turns.take(count as int)
            } else {
                s.turns
            })
            &&& n <= s.messages.len() && t.messages == s.messages.take(n as int)
            &&& forall|k: int| 0 <= k < n ==> !gone((#[trigger] s.messages[k]).turn_id)
            &&& n < s.messages.len() ==> gone(s.messages[n as int].turn_id)
            &&& forall|b: int|
                0 <= b < s.transcript_blocks.len() && (#[trigger] s.transcript_blocks[b]).after_message <= n && !gone(
                    s.transcript_blocks[b].turn_id,
                ) ==> t.transcript_blocks.contains(s.transcript_blocks[b])
            &&& t.queued_messages == s.queued_messages && t.title == s.title && t.workspace == s.workspace
        }),
{
    let later = later_turns(s.turns, count);
    let ids = turn_ids(later);
    lemma_before_turns(s.messages, ids);
    let gone = |turn_id: Option<Uuid>| turn_id is Some && exists|k: int|
        count <= k < s.turns.len() && (#[trigger] s.turns[k]).id == turn_id->0;
    assert forall|turn_id: Option<Uuid>| #[trigger] of_turns(turn_id, ids) == gone(turn_id) by {
        if of_turns(turn_id, ids) {
            let j = ids.index_of(turn_id->0);
            assert(later[j] == s.turns[count + j]);
            assert(s.turns[count + j].id == turn_id->0);
        }
        if gone(turn_id) {
            let k = choose|k: int| count <= k < s.turns.len() && (#[trigger] s.turns[k]).id == turn_id->0;
            assert(ids[k - count] == s.turns[k].id);
        }
    }
    lemma_blocks_kept(s.transcript_blocks, before_turns(s.messages, ids), ids);
}

proof fn lemma_blocks_kept(blocks: Seq<TranscriptBlockView>, cut: nat, ids: Seq<Uuid>)
    ensures
        forall|b: int|
            0 <= b < blocks.len() && (#[trigger] blocks[b]).after_message <= cut && !of_turns(blocks[b].turn_id, ids)
                ==> blocks_before(blocks, cut, ids).contains(blocks[b]),
    decreases blocks.len(),
{
    if blocks.len() > 0 {
        let rest = blocks.drop_last();
        lemma_blocks_kept(rest, cut, ids);
        let before = blocks_before(rest, cut, ids);
        let after = blocks_before(blocks, cut, ids);
        assert forall|b: int|
            0 <= b < blocks.len() && (#[trigger] blocks[b]).after_message <= cut && !of_turns(blocks[b].turn_id, ids) implies after.contains(
            blocks[b],
        ) by {
            if b < rest.len() {
                assert(rest[b] == blocks[b]);
                let j = before.index_of(rest[b]);
                assert(after[j] == blocks[b]);
            } else {
                assert(after[before.len() as int] == blocks[b]);
            }
        }
    }
}

/// An edited message says what it was edited to, in its place, and the session connects.
pub proof fn edits_replace_the_message(s: AgentSessionView, i: int, submission: ComposerSubmissionView, stamp: Stamp)
    requires
        0 <= i < s.messages.len(),
    ensures
        ({
            let t = s.with_edit(i, submission, stamp);
            &&& t.messages.len() == s.messages.len()
            &&& forall|k: int| 0 <= k < s.messages.len() && k != i ==> #[trigger] t.messages[k] == s.messages[k]
            &&& t.messages[i].content == submission.prompt
            &&& t.messages[i].display_content == submission.display_content
            &&& t.messages[i].attachments == submission.attachments
            &&& t.messages[i].id == s.messages[i].id && t.messages[i].role == s.messages[i].role && t.messages[i].turn_id
                == s.messages[i].turn_id
            &&& t.status == SessionStatus::Connecting
            &&& t.turns == s.turns && t.transcript_blocks == s.transcript_blocks
        }),
{
}

/// What was edited is undone by putting the message back, as it was.
pub proof fn undone_edits_restore_the_message(
    s: AgentSessionView,
    i: int,
    submission: ComposerSubmissionView,
    stamp: Stamp,
)
    requires
        0 <= i < s.messages.len(),
        forall|j: int| 0 <= j < i ==> (#[trigger] s.messages[j]).id != s.messages[i].id,
    ensures
        s.with_edit(i, submission, stamp).with_edit_undone(s.messages[i], s.status) == (AgentSessionView {
            updated_at: stamp.secs,
            ..s
        }),
{
    let t = s.with_edit(i, submission, stamp);
    let ids = crate::transcript::message_ids(t.messages);
    assert forall|j: int| 0 <= j < i implies ids[j] != s.messages[i].id by {
        assert(ids[j] == s.messages[j].id);
    }
    assert(ids[i] == s.messages[i].id);
    assert(first_at(ids, s.messages[i].id, i));
    lemma_pos_some(ids, s.messages[i].id, i);
    assert(t.with_edit_undone(s.messages[i], s.status).messages =~= s.messages);
}

/// A message can be edited where the user wrote it in that turn of the session, which is at
/// rest; the editor then shows what was shown of it, and holds its attachments.
pub proof fn prompts_can_be_edited(desk: DeskView, id: Uuid, t: int, i: int)
    requires
        desk.session(id) is Some,
        desk.session(id)->0.status == SessionStatus::Idle || desk.session(id)->0.status == SessionStatus::Failed,
        0 <= t < desk.session(id)->0.turns.len(),
        forall|j: int|
            0 <= j < t ==> (#[trigger] desk.session(id)->0.turns[j]).turn_count != desk.session(id)->0.turns[t].turn_count,
        0 <= i < desk.session(id)->0.messages.len(),
        desk.session(id)->0.messages[i].role == MessageRole::User,
        desk.session(id)->0.messages[i].turn_id == Some(desk.session(id)->0.turns[t].id),
        forall|j: int|
            0 <= j < i ==> (#[trigger] desk.session(id)->0.messages[j]).id != desk.session(id)->0.messages[i].id,
    ensures
        ({
            let s = desk.session(id)->0;
            let m = s.messages[i];
            let after = desk.edit_begun(id, m.id, s.turns[t].turn_count);
            &&& after.message_edit == Some(
                MessageEditView {
                    session_id: id,
                    message_id: m.id,
                    turn_count: s.turns[t].turn_count,
                    attachments: m.attachments,
                },
            )
            &&& after.effects.contains(
                EffectView::OpenMessageEditor(
                    match m.display_content {
                        Some(text) => text,
                        None => m.content,
                    },
                ),
            )
            &&& after.state == desk.state
        }),
{
    let s = desk.session(id)->0;
    let m = s.messages[i];
    lemma_turn_at(s.turns, s.turns[t].turn_count, t);
    lemma_prompt_pos(s.messages, m.id, s.turns[t].id, i);
    let after = desk.edit_begun(id, m.id, s.turns[t].turn_count);
    assert(after.effects[desk.effects.len() as int] is OpenMessageEditor);
}

proof fn lemma_turn_at(turns: Seq<TurnView>, turn_count: usize, k: int)
    requires
        0 <= k < turns.len(),
        turns[k].turn_count == turn_count,
        forall|j: int| 0 <= j < k ==> (#[trigger] turns[j]).turn_count != turn_count,
    ensures
        crate::preparations::turn_pos(turns, turn_count) == Some(k),
    decreases turns.len(),
{
    if k > 0 {
        assert(turns[0].turn_count != turn_count);
        let rest = turns.drop_first();
        assert forall|j: int| 0 <= j < k - 1 implies (#[trigger] rest[j]).turn_count != turn_count by {
            assert(turns[j + 1].turn_count != turn_count);
        }
        lemma_turn_at(rest, turn_count, k - 1);
    }
}

proof fn lemma_prompt_pos(messages: Seq<MessageView>, id: Uuid, turn_id: Uuid, i: int)
    requires
        0 <= i < messages.len(),
        is_prompt(messages[i], id, turn_id),
        forall|j: int| 0 <= j < i ==> (#[trigger] messages[j]).id != id,
    ensures
        prompt_pos(messages, id, turn_id) == Some(i),
    decreases messages.len(),
{
    if i > 0 {
        assert(messages[0].id != id);
        let rest = messages.drop_first();
        assert forall|j: int| 0 <= j < i - 1 implies (#[trigger] rest[j]).id != id by {
            assert(messages[j + 1].id != id);
        }
        lemma_prompt_pos(rest, id, turn_id, i - 1);
    }
}

/// A rewind leaves the session at rest, cut off before the turn that was edited; an edit in it
/// that was open is closed.
pub proof fn rewinds_cut_before_the_edited_turn(desk: DeskView, edit: MessageEditView)
    requires
        desk.session(edit.session_id) is Some,
    ensures
        ({
            let s = desk.session(edit.session_id)->0;
            let after = desk.rewound(edit);
            let t = after.session(edit.session_id)->0;
            let kept = if edit.turn_count == 0 {
                0int
            } else {
                edit.turn_count - 1
            };
            &&& after.session(edit.session_id) is Some
            &&& t.status == SessionStatus::Idle
            &&& t.turns == (if kept < s.turns.len() {
                s.turns.take(kept)
            } else {
                s.turns
            })
            &&& t == (AgentSessionView { status: SessionStatus::Idle, ..s.truncated(kept as usize) })
            &&& after.message_edit matches Some(other) ==> other.session_id != edit.session_id
            &&& after.effects.contains(EffectView::ClearStagedUndo(edit.session_id))
        }),
{
    let id = edit.session_id;
    let s = desk.session(id)->0;
    lemma_session_id(desk.state, id);
    let kept = crate::rewinds::turns_kept(edit.turn_count);
    lemma_put_get(desk.state, id, AgentSessionView { status: SessionStatus::Idle, ..s.truncated(kept) });
    let after = desk.rewound(edit);
    assert(after.effects[desk.effects.len() as int] == EffectView::ClearStagedUndo(id));
}

/// A response can be forked from exactly where the session is on screen and at rest, the turn
/// is there and the provider saw it, and nothing of the session is being prepared; the
/// directory and the provider must be there too. The provider is then asked for it.
pub proof fn responses_are_forked_once(desk: DeskView, id: Uuid, turn_count: usize, catalog: CatalogView)
    ensures
        ({
            let after = desk.fork_started(id, turn_count, catalog);
            let s = desk.session(id)->0;
            let i = turn_count - 1;
            let able = {
                &&& !desk.response_fork_preparations.dom().contains(id)
                &&& !desk.submission_preparations.contains(id)
                &&& desk.session(id) is Some
                &&& desk.state.selected_session == Some(id)
                &&& s.status == SessionStatus::Idle || s.status == SessionStatus::Failed
                &&& 0 <= i < s.turns.len()
                &&& s.turns[i].turn_count == turn_count && s.turns[i].provider_turn_started
                &&& desk.state.workspace_path(s) is Some
                &&& catalog.binary() is Some
            };
            &&& turn_count > 0 && able ==> after.response_fork_preparations == desk.response_fork_preparations.insert(
                id,
                turn_count,
            ) && after.effects.last() is ForkProvider
            &&& turn_count > 0 && !able ==> after.response_fork_preparations == desk.response_fork_preparations
                && !(after.effects.last() is ForkProvider)
            &&& after.state == desk.state
        }),
{
}

} // verus!
