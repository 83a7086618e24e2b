//! When a message can be edited and sent again, what a rewind asks for, and how it ends.
use vstd::prelude::*;

use crate::desk::{
    lemma_put_get, lemma_session_id, session_ids, ComposerSubmissionView, EffectView, MessageEditView,
    PreferencesView, RuntimeView,
};
use crate::forks::PreparedResponseFork;
use crate::ids::{Stamp, Uuid};
use crate::live::DeskView;
use crate::model::{AgentSessionView, MessageView, SessionStatus};
use crate::probes::CatalogView;
use crate::rewinds::turns_kept;
use crate::seqs::{first_at, lemma_pos, lemma_pos_some, pos};
use crate::session_laws::{provider_turns_are_the_seen_ones, seen};
use crate::transcript::message_ids;
use crate::truncation::later_turns;
use crate::text::blank;

verus! {

/// The turns from the one that is edited on.
pub open spec fn undone_turns(s: AgentSessionView, turn_count: usize) -> Seq<crate::model::TurnView> {
    let kept = if turn_count == 0 {
        0int
    } else {
        turn_count - 1
    };
    if kept < s.turns.len() {
        s.turns.skip(kept)
    } else {
        Seq::empty()
    }
}

/// A message can be sent again exactly where it is a message of the user in a turn that is
/// there, its session is on screen, at rest and not being undone in, its directory is there,
/// and, where the provider saw a turn that would be undone, the provider can be found and
/// knows the session.
pub proof fn rewinds_need_a_session_at_rest(desk: DeskView, edit: MessageEditView, catalog: CatalogView)
    ensures
        desk.rewind_refusal(edit, catalog) is None <==> {
            let s = desk.session(edit.session_id)->0;
            &&& desk.session(edit.session_id) is Some
            &&& desk.state.selected_session == Some(edit.session_id)
            &&& s.status == SessionStatus::Idle || s.status == SessionStatus::Failed
            &&& !desk.undo_redo_preparations.contains(edit.session_id)
            &&& desk.state.workspace_path(s) is Some
            &&& seen(undone_turns(s, edit.turn_count)) > 0 ==> s.provider_cursor is Some && catalog.binary() is Some
            &&& s.edited_at(edit.message_id, edit.turn_count) is Some
        },
{
    if desk.session(edit.session_id) is Some {
        let s = desk.session(edit.session_id)->0;
        let later = later_turns(s.turns, turns_kept(edit.turn_count));
        assert(later == undone_turns(s, edit.turn_count));
        provider_turns_are_the_seen_ones(later);
    }
}

/// A rewind that begins shows the edited message in its place and asks the provider to take
/// back the turns that it saw from that one on; the edit is closed and the session counts as
/// being prepared. One that is refused changes nothing but to say so.
pub proof fn rewinds_ask_for_the_undone_turns(
    desk: DeskView,
    edit: MessageEditView,
    submission: ComposerSubmissionView,
    catalog: CatalogView,
    stamp: Stamp,
    i: int,
)
    requires
        desk.session(edit.session_id) is Some,
        0 <= i < desk.session(edit.session_id)->0.messages.len(),
        desk.session(edit.session_id)->0.messages[i].id == edit.message_id,
        forall|j: int|
            0 <= j < i ==> (#[trigger] desk.session(edit.session_id)->0.messages[j]).id != edit.message_id,
    ensures
        ({
            let id = edit.session_id;
            let s = desk.session(id)->0;
            let after = desk.rewind_started(edit, submission, catalog, stamp);
            let t = after.session(id)->0;
            let free = desk.rewind_refusal(edit, catalog) is None;
            &&& free ==> {
                &&& after.session(id) is Some
                &&& t.messages[i].content == submission.prompt
                &&& t.messages.len() == s.messages.len()
                &&& t.status == SessionStatus::Connecting
                &&& t.turns == s.turns
                &&& after.message_edit is None
                &&& after.submission_preparations == desk.submission_preparations.insert(id)
                &&& after.effects.last() matches EffectView::RewindProvider { session_id, rollback_turns, native_session, .. }
                    && session_id == id && native_session == s.provider_cursor && (seen(undone_turns(s, edit.turn_count))
                    <= usize::MAX ==> rollback_turns == seen(undone_turns(s, edit.turn_count)))
            }
            &&& !free ==> after == (DeskView { effects: after.effects, ..desk }) && !(after.effects.last() is RewindProvider)
        }),
{
    let id = edit.session_id;
    let s = desk.session(id)->0;
    lemma_session_id(desk.state, id);
    let ids = message_ids(s.messages);
    assert forall|j: int| 0 <= j < i implies ids[j] != edit.message_id by {
        assert(ids[j] == s.messages[j].id);
    }
    assert(ids[i] == s.messages[i].id);
    assert(first_at(ids, edit.message_id, i));
    lemma_pos_some(ids, edit.message_id, i);
    lemma_put_get(desk.state, id, s.with_edit(i, submission, stamp));
    let later = later_turns(s.turns, turns_kept(edit.turn_count));
    assert(later == undone_turns(s, edit.turn_count));
    provider_turns_are_the_seen_ones(later);
}

/// A rewind that failed leaves the message as it was and the session as it was before; the
/// edit is open again where the session is on screen and no other edit is.
pub proof fn failed_rewinds_put_the_message_back(
    desk: DeskView,
    edit: MessageEditView,
    original: MessageView,
    previous: SessionStatus,
    error: Seq<char>,
    i: int,
)
    requires
        desk.session(edit.session_id) is Some,
        0 <= i < desk.session(edit.session_id)->0.messages.len(),
        desk.session(edit.session_id)->0.messages[i].id == original.id,
        forall|j: int| 0 <= j < i ==> (#[trigger] desk.session(edit.session_id)->0.messages[j]).id != original.id,
    ensures
        ({
            let id = edit.session_id;
            let s = desk.session(id)->0;
            let after = desk.rewind_failed(edit, original, previous, error);
            let t = after.session(id)->0;
            &&& after.session(id) is Some
            &&& t.messages.len() == s.messages.len() && t.messages[i] == original
            &&& forall|j: int| 0 <= j < s.messages.len() && j != i ==> #[trigger] t.messages[j] == s.messages[j]
            &&& t.turns == s.turns
            &&& t.status == (if s.status == SessionStatus::Connecting {
                previous
            } else {
                s.status
            })
            &&& desk.state.selected_session == Some(id) && desk.message_edit is None ==> after.message_edit == Some(edit)
            &&& desk.message_edit is Some ==> after.message_edit == desk.message_edit
        }),
{
    let id = edit.session_id;
    let s = desk.session(id)->0;
    lemma_session_id(desk.state, id);
    let ids = message_ids(s.messages);
    assert forall|j: int| 0 <= j < i implies ids[j] != original.id by {
        assert(ids[j] == s.messages[j].id);
    }
    assert(ids[i] == s.messages[i].id);
    assert(first_at(ids, original.id, i));
    lemma_pos_some(ids, original.id, i);
    lemma_put_get(desk.state, id, s.with_edit_undone(original, previous));
}

/// An edit that is given up is closed, and nothing else changes; one that is being sent stays.
pub proof fn given_up_edits_are_closed(desk: DeskView)
    ensures
        ({
            let after = desk.edit_cancelled();
            &&& desk.message_edit matches Some(edit) ==> (after.message_edit is None
                <==> !desk.submission_preparations.contains(edit.session_id))
            &&& after.state == desk.state
            &&& after.runtimes == desk.runtimes
        }),
{
}

/// An edit without text and without attachments is not sent.
pub proof fn empty_edits_are_not_sent(desk: DeskView, prompt: Seq<char>, joined: Seq<char>, catalog: CatalogView, stamp: Stamp)
    requires
        desk.message_edit is Some,
        blank(prompt),
        desk.message_edit->0.attachments.len() == 0,
    ensures
        desk.edit_submitted(prompt, joined, catalog, stamp).state == desk.state,
        desk.edit_submitted(prompt, joined, catalog, stamp).message_edit == desk.message_edit,
        desk.edit_submitted(prompt, joined, catalog, stamp).submission_preparations == desk.submission_preparations,
{
}

/// A fork that is awaited and came to be is a session of its own, the last of the list, and on
/// screen; every other session stays, and the one that it was forked from is no longer being
/// forked. A fork that nobody waits for changes nothing.
pub proof fn forks_come_on_screen(
    desk: DeskView,
    id: Uuid,
    turn_count: usize,
    fork: PreparedResponseFork,
    catalog: CatalogView,
    stamp: Stamp,
)
    requires
        desk.session(fork.forked@.id) is None,
        fork.forked@.id != id,
        desk.session(id) is None || desk.session(id)->0.queued_messages.len() == 0,
    ensures
        ({
            let after = desk.fork_settled(id, turn_count, Ok(fork), catalog, stamp);
            let awaited = desk.response_fork_preparations.dom().contains(id) && desk.response_fork_preparations[id] == turn_count;
            &&& !awaited ==> after == desk
            &&& awaited ==> {
                &&& after.response_fork_preparations == desk.response_fork_preparations.remove(id)
                &&& after.state.sessions == desk.state.sessions.push(fork.forked@)
                &&& after.state.selected_session == Some(fork.forked@.id)
            }
        }),
{
    let awaited = desk.response_fork_preparations.dom().contains(id) && desk.response_fork_preparations[id] == turn_count;
    if awaited {
        let freed = DeskView { response_fork_preparations: desk.response_fork_preparations.remove(id), ..desk };
        let installed = match fork.driver {
            Some(supports_steer) if !freed.runtimes.dom().contains(id) => DeskView {
                runtimes: freed.runtimes.insert(id, RuntimeView::fresh(supports_steer, stamp)),
                ..freed
            },
            _ => freed,
        };
        let grown = installed.emit(EffectView::InvalidateCheckpointRefs).with_session(fork.forked@);
        let old = desk.state.sessions;
        let ids = session_ids(grown.state.sessions);
        let new = fork.forked@.id;
        lemma_pos(session_ids(old), new);
        assert forall|j: int| 0 <= j < old.len() implies ids[j] != new by {
            assert(session_ids(old)[j] == ids[j]);
        }
        assert(ids[old.len() as int] == new);
        assert(first_at(ids, new, old.len() as int));
        lemma_pos_some(ids, new, old.len() as int);
        crate::session_laws::chosen_sessions_are_on_screen(grown, new);
        let shown = grown.session_selected(new);
        assert(shown.state.sessions == grown.state.sessions);
        lemma_pos(ids, id);
        lemma_pos(session_ids(old), id);
        assert(shown.session(id) is Some ==> shown.session(id)->0.queued_messages.len() == 0) by {
            if shown.session(id) is Some {
                let k = pos(ids, id)->0;
                assert(k < old.len());
                assert(session_ids(old)[k] == id);
                let m = pos(session_ids(old), id)->0;
                assert(ids[m] == id);
                assert(m == k);
                assert(desk.session(id) == Some(old[k]));
            }
        }
        assert(fork.forked.id == new);
        assert(shown.queue_drained(id, catalog, stamp) == shown);
        assert(shown.response_fork_preparations == freed.response_fork_preparations);
    }
}

/// Changing an option of a session changes the session and what a new one would take over, and
/// reaches the provider; where nothing differs nothing is sent.
pub proof fn options_change_session_and_preferences(
    desk: DeskView,
    id: Uuid,
    next: AgentSessionView,
    differs: bool,
    prefs: PreferencesView,
    catalog: CatalogView,
)
    requires
        desk.session(id) is Some,
        next.id == id,
    ensures
        ({
            let after = desk.session_changed(id, next, differs, prefs, catalog);
            &&& after.session(id) == Some(next)
            &&& differs ==> after.state.prefs == prefs
            &&& !differs ==> after.state.prefs == desk.state.prefs && after.effects == desk.effects && after.runtimes
                == desk.runtimes
            &&& differs && desk.runtimes.dom().contains(id) ==> after.effects[desk.effects.len() as int] is ApplyOptions
        }),
{
    lemma_put_get(desk.state, id, next);
    let put = desk.put(id, next);
    assert(put.session(id) == Some(next));
    let after = desk.session_changed(id, next, differs, prefs, catalog);
    if differs {
        assert(put.preferring(prefs).session(id) == Some(next));
    }
}

} // verus!
