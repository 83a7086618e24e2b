//! What is cleared away, and what is kept, when runtimes, sessions and panels go.
use vstd::prelude::*;

use crate::desk::EffectView;
use crate::driver_step::Wordings;
use crate::ids::{Stamp, Uuid};
use crate::live::DeskView;
use crate::model::{ProviderKind, SessionStatus, TurnStatus};
use crate::preparation_laws::stopped_turns_are_interrupted;
use crate::pump::upto_exit;
use crate::right_panel::{terminals_of, PanelStateView, RightPanelView};
use crate::session_laws::{chosen_sessions_are_on_screen, newest_is_updated_last};
use crate::sessions::newest;
use crate::surfaces::SurfaceView;
use crate::turn_laws::{running, turn_ended};

verus! {

/// Runtimes that were idle too long are closed, each of them and no other, and the host is told
/// to.
pub proof fn idle_runtimes_are_closed(desk: DeskView, ids: Seq<Uuid>)
    ensures
        ({
            let after = desk.reaped(ids);
            &&& forall|id: Uuid| #[trigger]
                after.runtimes.dom().contains(id) <==> desk.runtimes.dom().contains(id) && !ids.contains(id)
            &&& forall|id: Uuid| #[trigger] after.runtimes.dom().contains(id) ==> after.runtimes[id] == desk.runtimes[id]
            &&& forall|k: int|
                0 <= k < ids.len() && desk.runtimes.dom().contains(#[trigger] ids[k]) ==> after.effects.contains(
                    EffectView::DriverClose(ids[k]),
                )
            &&& after.state == desk.state
            &&& after.effects.len() >= desk.effects.len()
        }),
    decreases ids.len(),
{
    if ids.len() > 0 {
        let rest = ids.drop_last();
        let last = ids.last();
        idle_runtimes_are_closed(desk, rest);
        let before = desk.reaped(rest);
        let after = desk.reaped(ids);
        assert forall|id: Uuid| ids.contains(id) <==> rest.contains(id) || id == last by {
            if ids.contains(id) {
                let k = ids.index_of(id);
                if k < rest.len() {
                    assert(rest[k] == id);
                }
            }
            if rest.contains(id) {
                let k = rest.index_of(id);
                assert(ids[k] == id);
            }
            assert(ids[ids.len() - 1] == last);
        }
        assert forall|k: int| 0 <= k < ids.len() && desk.runtimes.dom().contains(#[trigger] ids[k]) implies after.effects.contains(
            EffectView::DriverClose(ids[k]),
        ) by {
            if k < rest.len() {
                assert(rest[k] == ids[k]);
                let e = before.effects.index_of(EffectView::DriverClose(ids[k]));
                assert(after.effects[e] == before.effects[e]);
            } else if before.runtimes.dom().contains(last) {
                assert(after.effects[before.effects.len() as int] == EffectView::DriverClose(last));
            } else {
                let j = rest.index_of(last);
                assert(rest[j] == last);
                let e = before.effects.index_of(EffectView::DriverClose(last));
                assert(after.effects[e] == before.effects[e]);
            }
        }
    }
}

/// Of sessions that are gone nothing is kept: no runtime, no search for one, and no count of
/// searches; those of other sessions stay.
pub proof fn gone_sessions_leave_nothing(desk: DeskView, gone: Seq<Uuid>, id: Uuid)
    ensures
        ({
            let after = desk.forgotten(gone);
            &&& gone.contains(id) ==> !after.runtimes.dom().contains(id) && !after.runtime_attach_pending.contains(id)
                && !after.runtime_attach_misses.dom().contains(id)
            &&& !gone.contains(id) ==> after.runtimes.dom().contains(id) == desk.runtimes.dom().contains(id)
                && after.runtime_attach_pending.contains(id) == desk.runtime_attach_pending.contains(id)
                && after.runtime_attach_misses.dom().contains(id) == desk.runtime_attach_misses.dom().contains(id)
            &&& after.state == desk.state
        }),
    decreases gone.len(),
{
    if gone.len() > 0 {
        let rest = gone.drop_last();
        gone_sessions_leave_nothing(desk, rest, id);
        if gone.contains(id) {
            let k = gone.index_of(id);
            if k < rest.len() {
                assert(rest[k] == id);
            }
        }
        if rest.contains(id) {
            let k = rest.index_of(id);
            assert(gone[k] == id);
        }
        assert(gone[gone.len() - 1] == gone.last());
    }
}

/// The checkpoint of a turn that ended is asked for once, in the directory of the session; of a
/// turn that runs none is.
pub proof fn ended_turns_ask_for_their_checkpoint(desk: DeskView, id: Uuid)
    requires
        desk.session(id) is Some,
    ensures
        ({
            let s = desk.session(id)->0;
            let after = desk.capture_requested(id);
            let count = s.turns.last().turn_count;
            let waits = desk.checkpoint_captures_in_flight.contains((id, count)) || exists|i: int|
                0 <= i < desk.pending_checkpoint_captures.len() && (#[trigger] desk.pending_checkpoint_captures[i]).session_id
                    == id && desk.pending_checkpoint_captures[i].turn_count == count;
            let due = s.turns.len() > 0 && !running(s) && desk.state.workspace_path(s) is Some && !waits;
            &&& after.state == desk.state && after.effects == desk.effects
            &&& !due ==> after == desk
            &&& due ==> {
                &&& after.pending_checkpoint_captures.len() == desk.pending_checkpoint_captures.len() + 1
                &&& after.pending_checkpoint_captures.drop_last() == desk.pending_checkpoint_captures
                &&& after.pending_checkpoint_captures.last().session_id == id
                &&& after.pending_checkpoint_captures.last().turn_count == count
                &&& after.pending_checkpoint_captures.last().project_path == desk.state.workspace_path(s)->0
            }
        }),
{
    let after = desk.capture_requested(id);
    if after.pending_checkpoint_captures.len() > desk.pending_checkpoint_captures.len() {
        assert(after.pending_checkpoint_captures.drop_last() =~= desk.pending_checkpoint_captures);
    }
}

/// Stopping a session that no runtime is attached to interrupts its turn all the same.
pub proof fn detached_turns_can_be_stopped(
    desk: DeskView,
    id: Uuid,
    stamps: Seq<Stamp>,
    window_active: bool,
    words: Wordings,
    stamp: Stamp,
)
    requires
        desk.state.selected_session == Some(id),
        desk.session(id) is Some,
        running(desk.session(id)->0),
        !desk.runtimes.dom().contains(id),
    ensures
        ({
            let s = desk.session(id)->0;
            let after = desk.turn_stopped(stamps, window_active, words, stamp);
            let t = after.session(id)->0;
            &&& after.session(id) is Some
            &&& t.status == SessionStatus::Idle
            &&& turn_ended(s, t, TurnStatus::Interrupted, stamp)
            &&& t.queued_messages == s.queued_messages
            &&& after.pending_queue_drains == desk.pending_queue_drains
            &&& after.effects.contains(EffectView::Save)
        }),
{
    stopped_turns_are_interrupted(desk, id, words.stopped@, stamp);
    let after = desk.turn_stopped(stamps, window_active, words, stamp);
    assert(after.effects[after.effects.len() - 2] == EffectView::Save);
}

/// Stopping a session whose runtime has told everything tells its provider to cancel and
/// interrupts its turn. The runtime stays for the next turn, with no question open, unless the
/// provider is one that does not survive being cancelled.
pub proof fn stopped_providers_are_told(
    desk: DeskView,
    id: Uuid,
    window_active: bool,
    words: Wordings,
    stamp: Stamp,
)
    requires
        desk.state.selected_session == Some(id),
        desk.session(id) is Some,
        running(desk.session(id)->0),
        desk.runtimes.dom().contains(id),
        desk.runtimes[id].pending_events.len() == 0,
    ensures
        ({
            let s = desk.session(id)->0;
            let after = desk.turn_stopped(Seq::empty(), window_active, words, stamp);
            let t = after.session(id)->0;
            let survives = s.provider != ProviderKind::Codex && s.provider != ProviderKind::Amp;
            &&& after.session(id) is Some
            &&& t.status == SessionStatus::Idle
            &&& turn_ended(s, t, TurnStatus::Interrupted, stamp)
            &&& t.queued_messages == s.queued_messages
            &&& after.effects.contains(EffectView::DriverCancel(id))
            &&& survives ==> after.runtimes.dom().contains(id) && after.runtimes[id].pending_permission is None
                && after.runtimes[id].stream_phase is None
            &&& !survives ==> !after.runtimes.dom().contains(id)
            &&& after.pending_queue_drains == desk.pending_queue_drains
        }),
{
    let cut = DeskView { runtimes: desk.runtimes.remove(id), ..desk }.emit(EffectView::DriverCancel(id));
    assert(upto_exit(desk.runtimes[id].pending_events).len() == 0);
    let told = desk.flushed(id, Seq::empty(), window_active, words);
    assert(told.desk == cut);
    stopped_turns_are_interrupted(cut, id, words.stopped@, stamp);
    let settled = cut.stop_settled(id, words.stopped@, stamp);
    let after = desk.turn_stopped(Seq::empty(), window_active, words, stamp);
    let n = desk.effects.len() as int;
    assert(settled.effects.subrange(0, cut.effects.len() as int)[n] == settled.effects[n]);
    assert(after.effects[n] == EffectView::DriverCancel(id));
}

/// Where the session on screen is gone, the newest of its project comes on screen, or the
/// newest of all; no session changes.
pub proof fn the_newest_comes_on_screen(desk: DeskView, stamp: Stamp, n: int)
    requires
        0 <= n < desk.state.sessions.len(),
        newest(desk.state.sessions, desk.state.selected_project) == Some(n) || (newest(
            desk.state.sessions,
            desk.state.selected_project,
        ) is None && newest(desk.state.sessions, None) == Some(n)),
    ensures
        desk.refocused(stamp).state.selected_session == Some(desk.state.sessions[n].id),
        desk.refocused(stamp).state.sessions == desk.state.sessions,
{
    newest_is_updated_last(desk.state.sessions, desk.state.selected_project);
    newest_is_updated_last(desk.state.sessions, None);
    let old = desk.state.sessions;
    let left = DeskView { state: crate::desk::StateView { selected_session: None, ..desk.state }, ..desk };
    crate::seqs::lemma_pos(crate::desk::session_ids(old), old[n].id);
    assert(crate::desk::session_ids(old)[n] == old[n].id);
    chosen_sessions_are_on_screen(left, old[n].id);
}

/// The terminals of a panel are those of its tabs, in their order.
pub proof fn terminals_are_those_of_the_tabs(surfaces: Seq<SurfaceView>, id: Uuid)
    ensures
        terminals_of(surfaces).contains(id) <==> surfaces.contains(SurfaceView::Terminal(id)),
    decreases surfaces.len(),
{
    if surfaces.len() > 0 {
        let rest = surfaces.drop_last();
        terminals_are_those_of_the_tabs(rest, id);
        let before = terminals_of(rest);
        let after = terminals_of(surfaces);
        assert(surfaces.contains(SurfaceView::Terminal(id)) <==> rest.contains(SurfaceView::Terminal(id))
            || surfaces.last() == SurfaceView::Terminal(id)) by {
            if surfaces.contains(SurfaceView::Terminal(id)) {
                let k = surfaces.index_of(SurfaceView::Terminal(id));
                if k < rest.len() {
                    assert(rest[k] == SurfaceView::Terminal(id));
                }
            }
            if rest.contains(SurfaceView::Terminal(id)) {
                let k = rest.index_of(SurfaceView::Terminal(id));
                assert(surfaces[k] == SurfaceView::Terminal(id));
            }
            assert(surfaces[surfaces.len() - 1] == surfaces.last());
        }
        if after.len() > before.len() {
            if before.contains(id) {
                let k = before.index_of(id);
                assert(after[k] == id);
            }
            assert(after[before.len() as int] == surfaces.last().terminal()->0);
            if after.contains(id) && surfaces.last() != SurfaceView::Terminal(id) {
                let k = after.index_of(id);
                assert(before[k] == id);
            }
        }
    }
}

proof fn lemma_without_terminals(panel: RightPanelView, ids: Seq<Uuid>, id: Uuid)
    ensures
        panel.without_terminals(ids).terminals.dom().contains(id) <==> panel.terminals.dom().contains(id) && !ids.contains(id),
        panel.without_terminals(ids) == (RightPanelView { terminals: panel.without_terminals(ids).terminals, ..panel }),
    decreases ids.len(),
{
    if ids.len() > 0 {
        let rest = ids.drop_last();
        lemma_without_terminals(panel, rest, id);
        if ids.contains(id) {
            let k = ids.index_of(id);
            if k < rest.len() {
                assert(rest[k] == id);
            }
        }
        if rest.contains(id) {
            let k = rest.index_of(id);
            assert(ids[k] == id);
        }
        assert(ids[ids.len() - 1] == ids.last());
    }
}

/// The panel of a session that is gone is forgotten: what was kept of it, or what is on screen,
/// and its terminals with it. The panels of other sessions are not touched.
pub proof fn panels_go_with_their_session(panel: RightPanelView, id: Uuid, selected: Option<Uuid>, terminal: Uuid)
    ensures
        ({
            let after = panel.forgotten(id, selected);
            &&& selected == Some(id) ==> after.surfaces.len() == 0 && after.active_surface is None && (
            panel.surfaces.contains(SurfaceView::Terminal(terminal)) ==> !after.terminals.dom().contains(terminal))
            &&& selected != Some(id) ==> after.surfaces == panel.surfaces && after.active_surface == panel.active_surface
                && !after.states.dom().contains(id)
            &&& selected != Some(id) && panel.states.dom().contains(id) && panel.states[id].surfaces.contains(
                SurfaceView::Terminal(terminal),
            ) ==> !after.terminals.dom().contains(terminal)
            &&& forall|other: Uuid| other != id && panel.states.dom().contains(other) ==> #[trigger] after.states.dom().contains(
                other,
            ) && after.states[other] == panel.states[other]
        }),
{
    terminals_are_those_of_the_tabs(panel.surfaces, terminal);
    if selected == Some(id) {
        let empty = panel.with_kept(PanelStateView::empty(false));
        lemma_without_terminals(empty, terminals_of(panel.surfaces), terminal);
    } else if panel.states.dom().contains(id) {
        terminals_are_those_of_the_tabs(panel.states[id].surfaces, terminal);
        let gone = RightPanelView { states: panel.states.remove(id), ..panel };
        lemma_without_terminals(gone, terminals_of(panel.states[id].surfaces), terminal);
    }
}

} // verus!
