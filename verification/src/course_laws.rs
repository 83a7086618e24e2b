//! What follows when a checkpoint lands, a session is removed, the daemon sends its list, or the
//! queues go on.
use vstd::prelude::*;

use crate::attachments::{merged_catalog, RemoteTaskStateView};
use crate::attachment_laws::working_sessions_are_attached;
use crate::desk::{lemma_session_id, EffectView};
use crate::driver_step::Wordings;
use crate::events::DriverEvent;
use crate::ids::{Stamp, Uuid};
use crate::live::{DeskView, Live};
use crate::model::{AgentSessionView, CheckpointView, TurnView};
use crate::preparation_laws::{checkpoints_stay_with_their_turn, landed_captures_are_over};
use crate::probes::{CatalogView, ProviderProbeView, OPENCODE_PROVIDER};
use crate::session_laws::{removed_records_are_gone, the_newest_takes_the_place};
use crate::sessions::newest;
use crate::submission_laws::awaits_checkpoint;
use crate::upkeep_laws::gone_sessions_leave_nothing;

verus! {

/// A checkpoint that lands is kept with its turn and no longer under way, and the session is
/// saved; where no queue waited for it, nothing else of the sessions changes.
pub proof fn landed_checkpoints_are_kept(
    desk: DeskView,
    id: Uuid,
    turn_count: usize,
    checkpoint: CheckpointView,
    error: Option<Seq<char>>,
    catalog: CatalogView,
    stamp: Stamp,
    k: int,
)
    requires
        desk.session(id) is Some,
        !desk.pending_queue_drains.contains(id),
        0 <= k < desk.session(id)->0.turns.len(),
        desk.session(id)->0.turns[k].turn_count == turn_count,
        forall|j: int| 0 <= j < k ==> (#[trigger] desk.session(id)->0.turns[j]).turn_count != turn_count,
    ensures
        ({
            let s = desk.session(id)->0;
            let after = desk.checkpoint_settled(id, turn_count, checkpoint, error, catalog, stamp);
            let t = after.session(id)->0;
            &&& after.session(id) is Some
            &&& t == (AgentSessionView { turns: t.turns, ..s })
            &&& t.turns.len() == s.turns.len()
            &&& t.turns[k] == (TurnView { checkpoint: Some(checkpoint), ..s.turns[k] })
            &&& forall|j: int| 0 <= j < s.turns.len() && j != k ==> #[trigger] t.turns[j] == s.turns[j]
            &&& !after.checkpoint_captures_in_flight.contains((id, turn_count))
            &&& after.effects.last() == EffectView::SaveNextFrame
            &&& after.pending_queue_drains == desk.pending_queue_drains
        }),
{
    let told = desk.capture_landed(id, turn_count, error);
    landed_captures_are_over(desk, id, turn_count, error);
    assert(told.pending_queue_drains == desk.pending_queue_drains) by {
        reveal(DeskView::capture_landed);
    }
    assert(told.session(id) == desk.session(id));
    checkpoints_stay_with_their_turn(told, id, turn_count, checkpoint, k);
    let kept = told.with_checkpoint(id, turn_count, checkpoint);
    assert(kept == (DeskView { state: kept.state, ..told })) by {
        reveal(DeskView::with_checkpoint);
    }
    reveal(DeskView::drain_resumed);
}

/// A queue that waited for a checkpoint waits no longer once it landed, and goes on.
pub proof fn waiting_queues_resume(desk: DeskView, id: Uuid, catalog: CatalogView, stamp: Stamp)
    ensures
        ({
            let after = desk.drain_resumed(id, catalog, stamp);
            let freed = DeskView {
                pending_queue_drains: crate::preparations::without_id(desk.pending_queue_drains, id),
                ..desk
            };
            &&& !freed.pending_queue_drains.contains(id)
            &&& desk.pending_queue_drains.contains(id) ==> after == freed.queue_drained(id, catalog, stamp)
            &&& !desk.pending_queue_drains.contains(id) ==> after == desk
        }),
{
    reveal(DeskView::drain_resumed);
    crate::preparation_laws::resumed_queues_wait_no_longer(desk.pending_queue_drains, id);
}

/// A session that is removed is gone from the list, and the others stay in their order. The
/// session on screen stays there, unless it is the one that was removed; then the newest that
/// is left of its project takes its place.
pub proof fn removed_sessions_are_gone(
    desk: DeskView,
    id: Uuid,
    read: Result<AgentSessionView, Seq<char>>,
    stamp: Stamp,
    i: int,
    n: int,
)
    requires
        desk.state.at(id) == Some(i),
        desk.session(id)->0.detail_loaded,
    ensures
        ({
            let old = desk.state.sessions;
            let left = old.take(i) + old.skip(i + 1);
            let after = desk.session_removed(id, read, stamp);
            &&& 0 <= i < old.len() && old[i].id == id
            &&& desk.state.selected_session != Some(id) ==> after.state.sessions == left && after.state.selected_session
                == desk.state.selected_session && after.effects.contains(EffectView::Save)
            &&& desk.state.selected_session == Some(id) && newest(left, Some(old[i].project_id)) == Some(n)
                ==> after.state.sessions == left && after.state.selected_session == Some(left[n].id)
            &&& after.effects.last() == EffectView::SweepBlobs
        }),
{
    lemma_session_id(desk.state, id);
    let old = desk.state.sessions;
    let left = old.take(i) + old.skip(i + 1);
    let gone = desk.record_removed(id, i);
    removed_records_are_gone(desk, id, i);
    assert(gone.state.selected_session == desk.state.selected_session);
    let after = desk.session_removed(id, read, stamp);
    if desk.state.selected_session != Some(id) {
        assert(after.effects[after.effects.len() - 3] == EffectView::Save);
    } else if newest(left, Some(old[i].project_id)) == Some(n) {
        the_newest_takes_the_place(gone, old[i].project_id, n, stamp);
    }
}

/// The daemon's list, once taken, gives the projects and the sessions; the session on screen
/// stays there where it is still listed.
pub proof fn the_daemons_list_is_taken(desk: DeskView, remote: RemoteTaskStateView, attached: Seq<Uuid>, stamp: Stamp, id: Uuid)
    requires
        desk.state.selected_session == Some(id),
        exists|k: int|
            0 <= k < merged_catalog(desk.state.sessions, remote.sessions, attached).len() && (#[trigger] merged_catalog(
                desk.state.sessions,
                remote.sessions,
                attached,
            )[k]).id == id,
    ensures
        ({
            let after = desk.remote_applied(remote, attached, stamp);
            &&& after.state.sessions == merged_catalog(desk.state.sessions, remote.sessions, attached)
            &&& after.state.projects == remote.projects
            &&& after.state.selected_session == Some(id)
            &&& after.effects.last() == EffectView::RevealSidebarSession(id)
        }),
{
    let taken = desk.catalog_taken(remote, attached);
    let merged = DeskView {
        state: crate::desk::StateView {
            sessions: merged_catalog(desk.state.sessions, remote.sessions, attached),
            ..desk.state
        },
        ..desk
    };
    gone_sessions_leave_nothing(
        merged,
        crate::attachments::unlisted(desk.state.sessions, crate::desk::session_ids(remote.sessions)),
        id,
    );
    working_sessions_are_attached(taken, taken.state.sessions);
    let attaching = taken.attaching_all(taken.state.sessions);
    crate::view_laws::sessions_are_found_by_id(attaching.state, id, 0);
}

/// The queues that wait go on one after another: each begins its next turn, or waits on where
/// its checkpoint is still to be taken.
pub proof fn queues_go_on_one_by_one(
    desk: DeskView,
    ids: Seq<Uuid>,
    stamps: Seq<Stamp>,
    id: Uuid,
    stamp: Stamp,
    catalog: CatalogView,
)
    requires
        ids.len() == stamps.len(),
        desk.each_drained(ids, stamps, catalog).session(id) is Some,
    ensures
        ({
            let before = desk.each_drained(ids, stamps, catalog);
            let after = desk.each_drained(ids.push(id), stamps.push(stamp), catalog);
            let waits = awaits_checkpoint(before, id, before.session(id)->0);
            &&& waits ==> after.state == before.state && after.pending_queue_drains.contains(id)
            &&& !waits ==> after == before.queue_drained(id, catalog, stamp)
            &&& desk.each_drained(Seq::empty(), Seq::empty(), catalog) == desk
        }),
{
    assert(ids.push(id).drop_last() =~= ids);
    assert(stamps.push(stamp).drop_last() =~= stamps);
    let before = desk.each_drained(ids, stamps, catalog);
    assert(before.ending_checkpoint_pending(id) == awaits_checkpoint(before, id, before.session(id)->0));
    let after = desk.each_drained(ids.push(id), stamps.push(stamp), catalog);
    if awaits_checkpoint(before, id, before.session(id)->0) && !before.pending_queue_drains.contains(id) {
        assert(after.pending_queue_drains[before.pending_queue_drains.len() as int] == id);
    }
}

/// Reports are told in the order in which they came, each as of its own moment.
pub proof fn reports_are_told_in_order(
    live: Live,
    id: Uuid,
    events: Seq<DriverEvent>,
    stamps: Seq<Stamp>,
    event: DriverEvent,
    stamp: Stamp,
    allow_queue_drain: bool,
    window_active: bool,
    words: Wordings,
)
    requires
        events.len() == stamps.len(),
    ensures
        live.told(id, Seq::empty(), Seq::empty(), allow_queue_drain, window_active, words) == live,
        live.told(id, events.push(event), stamps.push(stamp), allow_queue_drain, window_active, words) == live.told(
            id,
            events,
            stamps,
            allow_queue_drain,
            window_active,
            words,
        ).handled(id, event, allow_queue_drain, window_active, words, stamp),
{
    assert(events.push(event).drop_last() =~= events);
    assert(stamps.push(stamp).drop_last() =~= stamps);
}

/// What a round of reports left stale is read again and stale no longer, and no checkpoint that
/// was asked for waits any more.
pub proof fn stale_views_are_read_again(desk: DeskView, changed: bool, detection_changed: bool)
    ensures
        ({
            let after = desk.pump_settled(changed, detection_changed);
            &&& !after.workspace_queries_stale && !after.composer_sources_stale
            &&& after.pending_checkpoint_captures.len() == 0
            &&& after.state == desk.state
            &&& desk.workspace_queries_stale ==> after.effects.contains(EffectView::InvalidateWorkspaceQueries)
            &&& desk.composer_sources_stale ==> after.effects.contains(EffectView::RefreshComposerSources)
            &&& changed ==> after.effects.contains(EffectView::Notify)
            &&& detection_changed ==> after.effects.contains(EffectView::ReconcileNativeSessions)
        }),
{
    let told = desk.emit_if(changed, EffectView::Notify).emit_if(detection_changed, EffectView::ReconcileNativeSessions);
    let fresh = DeskView { workspace_queries_stale: false, composer_sources_stale: false, ..told };
    let asked = fresh.emit_if(desk.workspace_queries_stale, EffectView::InvalidateWorkspaceQueries).emit_if(
        desk.composer_sources_stale,
        EffectView::RefreshComposerSources,
    );
    crate::preparation_laws::captures_are_all_started(asked);
    let after = desk.pump_settled(changed, detection_changed);
    assert forall|k: int| 0 <= k < asked.effects.len() implies after.effects[k] == #[trigger] asked.effects[k] by {
        assert(after.effects.subrange(0, asked.effects.len() as int)[k] == after.effects[k]);
    }
    let n = desk.effects.len() as int;
    if changed {
        assert(asked.effects[n] == EffectView::Notify);
    }
    if detection_changed {
        assert(asked.effects[told.effects.len() - 1] == EffectView::ReconcileNativeSessions);
    }
    if desk.workspace_queries_stale {
        assert(asked.effects[told.effects.len() as int] == EffectView::InvalidateWorkspaceQueries);
    }
    if desk.composer_sources_stale {
        assert(asked.effects[asked.effects.len() - 1] == EffectView::RefreshComposerSources);
    }
}

/// The last version that was reported of a command line is the one that is known, and it is
/// asked for no longer.
pub proof fn reported_versions_are_known(
    catalog: CatalogView,
    versions: Seq<(Seq<char>, Option<String>)>,
    name: Seq<char>,
    version: Option<String>,
    other: Seq<char>,
)
    requires
        other != name,
    ensures
        ({
            let before = catalog.versioned_all(versions);
            let after = catalog.versioned_all(versions.push((name, version)));
            &&& after.provider_versions.dom().contains(name) && after.provider_versions[name] == version
            &&& !after.provider_version_probes_pending.contains(name)
            &&& after.provider_versions.dom().contains(other) == before.provider_versions.dom().contains(other)
            &&& after.probes == before.probes
        }),
{
    assert(versions.push((name, version)).drop_last() =~= versions);
}

/// Once the provider was looked for and is installed, its version is asked for, and its models
/// are where they were not asked for yet; of one that is not installed nothing is asked.
pub proof fn found_providers_are_asked(catalog: CatalogView, probe: ProviderProbeView, stamp: Stamp)
    ensures
        ({
            let after = catalog.detections_drained(seq![probe], stamp);
            &&& after.probes.len() > 0 && after.probes[0].installed == probe.installed
            &&& probe.installed ==> after.provider_version_probes_pending.contains(OPENCODE_PROVIDER@)
                && after.provider_model_discoveries.contains(OPENCODE_PROVIDER@)
            &&& !probe.installed ==> after.provider_version_probes_pending == catalog.provider_version_probes_pending
                && after.provider_model_discoveries == catalog.provider_model_discoveries
        }),
{
    let probes = seq![probe];
    assert(probes.drop_last() =~= Seq::<ProviderProbeView>::empty());
    assert(catalog.detected_all(probes.drop_last(), stamp) == catalog);
    assert(catalog.detected_all(probes, stamp) == catalog.detected(probe, stamp));
}

} // verus!
