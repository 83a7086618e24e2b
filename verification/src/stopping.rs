//! Stopping a turn, and what is left to do after a drain.
use std::collections::VecDeque;
use vstd::prelude::*;

use crate::attachments::{takes_over, RemoteTaskState};
use crate::desk::{wording_with, Effect, EffectView, RuntimeView, SessionRuntime, Text};
use crate::driver_step::Wordings;
use crate::events::DriverEvent;
use crate::ids::{all_taken, Stamp, Uuid};
use crate::live::{live, runtime_views, Desk, DeskView, Live};
use crate::model::{SessionStatus, TurnStatus};
use crate::probes::{provider_probe_views, version_views, Catalog, ProviderProbe, Requests, OPENCODE_PROVIDER};
use crate::pump::{exits, lemma_no_exit, lemma_upto_exit, upto_exit};
use crate::sessions::{retain_runtime_after_cancel, retained_after_cancel};

verus! {

impl DeskView {
    /// The turn of a session that the user stopped is over: what was shown stays, and a
    /// turn without a reply gets one that says so.
    #[verifier::opaque]
    pub open spec fn stop_settled(self, id: Uuid, text: Seq<char>, stamp: Stamp) -> DeskView {
        let calm = self.streams_stopped(id).blocks_completed(id);
        if self.state.active_turn(id) is Some {
            calm.outcome(id, SessionStatus::Idle, calm.fallback(id, text), stamp).turn_finished(
                id,
                TurnStatus::Interrupted,
                stamp,
            ).capture_requested(id).captures_started()
        } else {
            calm
        }
    }

    /// The runtime of a stopped session goes on where its provider can be interrupted in
    /// place.
    pub open spec fn goes_on(self, id: Uuid) -> bool {
        match self.session(id) {
            Some(session) => retained_after_cancel(session.provider),
            None => false,
        }
    }

    /// A stop is drawn and saved.
    pub open spec fn stop_shown(self) -> DeskView {
        self.emit(EffectView::RemeasureTail).emit(EffectView::Save).emit(EffectView::Notify)
    }

    /// What was received of a turn before it was stopped, delivered at once; `stamps`
    /// says when.
    pub open spec fn flushed(self, id: Uuid, stamps: Seq<Stamp>, window_active: bool, words: Wordings) -> Live {
        Live {
            desk: DeskView { runtimes: self.runtimes.remove(id), ..self }.emit(EffectView::DriverCancel(id)),
            runtime: self.runtimes[id],
        }.emptied().told(id, upto_exit(self.runtimes[id].pending_events), stamps, false, window_active, words)
    }

    /// The stamps are those of what is delivered when the turn on screen is stopped.
    pub open spec fn fits_stop(self, stamps: Seq<Stamp>) -> bool {
        &&& all_taken(stamps)
        &&& stamps.len() == (match self.state.selected_session {
            Some(id) => if self.runtimes.dom().contains(id) {
                upto_exit(self.runtimes[id].pending_events).len()
            } else {
                0
            },
            None => 0,
        })
    }

    /// The user stops the turn of the session on screen.
    pub open spec fn turn_stopped(self, stamps: Seq<Stamp>, window_active: bool, words: Wordings, stamp: Stamp) -> DeskView {
        match self.state.selected_session {
            None => self,
            Some(id) => if self.runtimes.dom().contains(id) {
                let told = self.flushed(id, stamps, window_active, words);
                let settled = told.desk.stop_settled(id, words.stopped@, stamp);
                (if self.goes_on(id) && !exits(upto_exit(self.runtimes[id].pending_events)) {
                    DeskView {
                        runtimes: settled.runtimes.insert(
                            id,
                            RuntimeView {
                                pending_events: Seq::empty(),
                                stream_phase: None,
                                pending_permission: None,
                                ..told.runtime
                            },
                        ),
                        ..settled
                    }
                } else {
                    settled
                }).stop_shown()
            } else {
                self.stop_settled(id, words.stopped@, stamp).stop_shown()
            },
        }
    }
}

impl Desk {
    /// Delivers what was received before a stop, up to the end of the process; whether
    /// the process is still there.
    fn flush(&mut self, session_id: Uuid, runtime: &mut SessionRuntime, window_active: bool, words: &Wordings) -> (r: bool)
        ensures
            exists|stamps: Seq<Stamp>|
                stamps.len() == upto_exit(old(runtime)@.pending_events).len() && all_taken(stamps) && live(*final(self), *final(runtime))
                    == #[trigger] live(*old(self), *old(runtime)).emptied().told(
                    session_id,
                    upto_exit(old(runtime)@.pending_events),
                    stamps,
                    false,
                    window_active,
                    *words,
                ),
            r == !exits(upto_exit(old(runtime)@.pending_events)),
    {
        let mut queue: VecDeque<DriverEvent> = VecDeque::new();
        std::mem::swap(&mut queue, &mut runtime.pending_events);
        let ghost whole = queue@;
        let ghost start = live(*old(self), *old(runtime)).emptied();
        let ghost mut stamps: Seq<Stamp> = Seq::empty();
        let ghost mut n: int = 0;
        assert(live(*self, *runtime).runtime.pending_events =~= Seq::empty());
        assert(live(*self, *runtime) == start);
        assert(whole.skip(0) =~= whole);
        assert(whole.take(0) =~= Seq::empty());
        while queue.len() > 0
            invariant
                0 <= n <= whole.len(),
                whole == old(runtime)@.pending_events,
                start == live(*old(self), *old(runtime)).emptied(),
                queue@ == whole.skip(n),
                stamps.len() == n,
                all_taken(stamps),
                forall|k: int| 0 <= k < n ==> !((#[trigger] whole[k]) is ProcessExited),
                live(*self, *runtime) == start.told(session_id, whole.take(n), stamps, false, window_active, *words),
            decreases queue@.len(),
        {
            let event = match queue.pop_front() {
                Some(event) => event,
                None => {
                    return true;
                },
            };
            let ghost before = stamps;
            let stamp = Stamp::take();
            proof {
                assert(event == whole[n]);
                assert(whole.skip(n).subrange(1, whole.skip(n).len() as int) =~= whole.skip(n + 1));
                stamps = before.push(stamp);
                assert(stamps.drop_last() =~= before);
                assert(whole.take(n + 1).drop_last() =~= whole.take(n));
                assert(whole.take(n + 1).last() == event);
            }
            let keep = self.handle_driver_event(session_id, runtime, event, false, window_active, words, stamp);
            if !keep {
                proof {
                    lemma_upto_exit(whole, n);
                    assert(live(*self, *runtime) == start.told(
                        session_id,
                        upto_exit(old(runtime)@.pending_events),
                        stamps,
                        false,
                        window_active,
                        *words,
                    ));
                }
                return false;
            }
            proof {
                n = n + 1;
            }
        }
        proof {
            lemma_no_exit(whole);
            assert(whole.take(n) =~= whole);
            if whole.len() > 0 {
                assert(whole.last() == whole[whole.len() - 1]);
            }
            assert(live(*self, *runtime) == start.told(
                session_id,
                upto_exit(old(runtime)@.pending_events),
                stamps,
                false,
                window_active,
                *words,
            ));
        }
        true
    }

    fn settle_stop(&mut self, session_id: Uuid, words: &Wordings, stamp: Stamp)
        ensures
            final(self)@ == old(self)@.stop_settled(session_id, words.stopped@, stamp),
    {
        reveal(DeskView::stop_settled);
        let active = match self.state.session_index(session_id) {
            Some(i) => self.state.sessions[i].active_turn_id().is_some(),
            None => false,
        };
        self.finish_streaming_assistant(session_id);
        self.complete_turn_blocks(session_id);
        if active {
            let fallback = if self.turn_has_assistant_message(session_id) {
                None
            } else {
                Some(words.stopped.clone())
            };
            self.settle_outcome(session_id, SessionStatus::Idle, fallback, stamp);
            let _ = self.finish_active_turn(session_id, TurnStatus::Interrupted, stamp);
            self.capture_latest_turn_checkpoint_for(session_id);
            self.start_pending_checkpoint_captures();
        }
    }

    fn show_stop(&mut self)
        ensures
            final(self)@ == old(self)@.stop_shown(),
    {
        self.emit(Effect::RemeasureTail);
        self.emit(Effect::Save);
        self.emit(Effect::Notify);
    }

    /// Stops the turn of the session on screen. What was received is shown first; the
    /// runtime stays only where its provider can be interrupted in place.
    pub fn cancel_turn(&mut self, window_active: bool, words: &Wordings, stamp: Stamp)
        ensures
            exists|stamps: Seq<Stamp>|
                old(self)@.fits_stop(stamps) && final(self)@ == #[trigger] old(self)@.turn_stopped(
                    stamps,
                    window_active,
                    *words,
                    stamp,
                ),
    {
        let id = match self.state.selected_session {
            Some(id) => id,
            None => {
                assert(self@ == old(self)@.turn_stopped(Seq::empty(), window_active, *words, stamp));
                return;
            },
        };
        let retain = match self.state.session_index(id) {
            Some(i) => retain_runtime_after_cancel(self.state.sessions[i].provider),
            None => false,
        };
        match self.take_runtime(id) {
            Some(mut runtime) => {
                let ghost was = runtime@;
                self.emit(Effect::DriverCancel(id));
                let ghost begun = live(*self, runtime);
                let keep = self.flush(id, &mut runtime, window_active, words);
                let ghost stamps = choose|stamps: Seq<Stamp>|
                    stamps.len() == upto_exit(was.pending_events).len() && all_taken(stamps) && live(*self, runtime)
                        == #[trigger] begun.emptied().told(
                        id,
                        upto_exit(was.pending_events),
                        stamps,
                        false,
                        window_active,
                        *words,
                    );
                assert(live(*self, runtime) == old(self)@.flushed(id, stamps, window_active, *words));
                self.settle_stop(id, words, stamp);
                if retain && keep {
                    runtime.pending_events = VecDeque::new();
                    runtime.stream_phase = None;
                    runtime.pending_permission = None;
                    assert(runtime@.pending_events =~= Seq::empty());
                    self.put_runtime(id, runtime);
                }
                self.show_stop();
                assert(self@ == old(self)@.turn_stopped(stamps, window_active, *words, stamp));
            },
            None => {
                assert(self@.runtimes =~= old(self)@.runtimes);
                self.settle_stop(id, words, stamp);
                self.show_stop();
                assert(self@ == old(self)@.turn_stopped(Seq::empty(), window_active, *words, stamp));
            },
        }
    }
}

/// When the event pump looks again.
#[derive(Clone, Copy, Debug, PartialEq, Eq, Structural)]
pub enum EventPumpSchedule {
    /// With the next frame of a stream.
    StreamFrame,
    /// After this many milliseconds, for what work in the background prints.
    BackgroundOutput(u64),
    /// When it is woken.
    Idle,
}

/// What the host received since the last drain, beside what the drivers report.
#[derive(Debug)]
pub struct Received {
    /// What looking for the provider found.
    pub detections: Vec<ProviderProbe>,
    /// What asking the provider for its models found.
    pub probes: Vec<ProviderProbe>,
    /// The versions that command lines reported.
    pub versions: Vec<(String, Option<String>)>,
    /// The lists of tasks that the daemon sent.
    pub tasks: Vec<Result<RemoteTaskState, String>>,
}

impl Received {
    /// The provider was heard of.
    pub open spec fn anything(self) -> bool {
        self.detections@.len() > 0 || self.probes@.len() > 0 || self.versions@.len() > 0
    }
}

impl DeskView {
    /// Some runtime has events left, or markdown to measure again.
    pub open spec fn streaming(self) -> bool {
        exists|id: Uuid| #[trigger]
            self.runtimes.dom().contains(id) && (self.runtimes[id].pending_events.len() > 0
                || self.runtimes[id].stream_remeasure_pending)
    }

    /// What follows a drain of every source.
    pub open spec fn pump_settled(self, changed: bool, detection_changed: bool) -> DeskView {
        let told = self.emit_if(changed, EffectView::Notify).emit_if(
            detection_changed,
            EffectView::ReconcileNativeSessions,
        );
        let fresh = DeskView { workspace_queries_stale: false, composer_sources_stale: false, ..told };
        fresh.emit_if(self.workspace_queries_stale, EffectView::InvalidateWorkspaceQueries).emit_if(
            self.composer_sources_stale,
            EffectView::RefreshComposerSources,
        ).captures_started()
    }
}

impl Desk {
    fn is_streaming(&self) -> (r: bool)
        ensures
            r == self@.streaming(),
    {
        let ids = self.runtimes.keys();
        assert(runtime_views(self.runtimes@).dom() =~= self.runtimes@.dom());
        let mut i: usize = 0;
        while i < ids.len()
            invariant
                i <= ids@.len(),
                runtime_views(self.runtimes@).dom() == self.runtimes@.dom(),
                forall|k: int|
                    0 <= k < i && self@.runtimes.dom().contains(#[trigger] ids@[k]) ==> self@.runtimes[ids@[k]].pending_events.len()
                        == 0 && !self@.runtimes[ids@[k]].stream_remeasure_pending,
            decreases ids@.len() - i,
        {
            if let Some(runtime) = self.runtimes.get(ids[i]) {
                assert(self@.runtimes[ids@[i as int]] == runtime@);
                assert(self@.runtimes.dom().contains(ids@[i as int]));
                if runtime.pending_events.len() > 0 || runtime.stream_remeasure_pending {
                    return true;
                }
            }
            i = i + 1;
        }
        proof {
            if self@.streaming() {
                let id = choose|id: Uuid| #[trigger]
                    self@.runtimes.dom().contains(id) && (self@.runtimes[id].pending_events.len() > 0
                        || self@.runtimes[id].stream_remeasure_pending);
                assert(self.runtimes@.dom().contains(id));
                assert(ids@.contains(id));
                let k = ids@.index_of(id);
                assert(ids@[k] == id);
            }
        }
        false
    }

    fn settle_pump(&mut self, changed: bool, detection_changed: bool, background_delay: Option<u64>) -> (r:
        EventPumpSchedule)
        ensures
            final(self)@ == old(self)@.pump_settled(changed, detection_changed),
            r == (if final(self)@.streaming() {
                EventPumpSchedule::StreamFrame
            } else {
                match background_delay {
                    Some(delay) => EventPumpSchedule::BackgroundOutput(delay),
                    None => EventPumpSchedule::Idle,
                }
            }),
    {
        if changed {
            self.emit(Effect::Notify);
        }
        if detection_changed {
            self.emit(Effect::ReconcileNativeSessions);
        }
        let workspace = self.workspace_queries_stale;
        let composer = self.composer_sources_stale;
        self.workspace_queries_stale = false;
        self.composer_sources_stale = false;
        if workspace {
            self.emit(Effect::InvalidateWorkspaceQueries);
        }
        if composer {
            self.emit(Effect::RefreshComposerSources);
        }
        self.start_pending_checkpoint_captures();
        if self.is_streaming() {
            EventPumpSchedule::StreamFrame
        } else {
            match background_delay {
                Some(delay) => EventPumpSchedule::BackgroundOutput(delay),
                None => EventPumpSchedule::Idle,
            }
        }
    }

    /// Takes in everything that was received, and says when to do so again. Nothing that
    /// one source sent keeps the others waiting. Says too what is to be asked for now that
    /// the provider was looked for.
    pub fn drain_event_pump(
        &mut self,
        catalog: &mut Catalog,
        received: Received,
        window_active: bool,
        save_due: bool,
        words: &Wordings,
        background_delay: Option<u64>,
        stamp: Stamp,
    ) -> (r: (EventPumpSchedule, Requests))
        ensures
            ({
                let found = old(catalog)@.detections_drained(provider_probe_views(received.detections@), stamp);
                &&& final(catalog)@ == found.probed_all(provider_probe_views(received.probes@)).versioned_all(
                    version_views(received.versions@),
                )
                &&& exists|drained: DeskView, synced: DeskView, changed: bool|
                    #[trigger] old(self)@.drains_to(drained, changed, window_active, save_due, *words, found)
                        && #[trigger] drained.syncs_to(synced, received.tasks@, stamp) && final(self)@
                        == synced.pump_settled(
                        changed || received.anything() || takes_over(received.tasks@),
                        received.detections@.len() > 0,
                    )
            }),
            r.0 == (if final(self)@.streaming() {
                EventPumpSchedule::StreamFrame
            } else {
                match background_delay {
                    Some(delay) => EventPumpSchedule::BackgroundOutput(delay),
                    None => EventPumpSchedule::Idle,
                }
            }),
            r.1.changed == (received.detections@.len() > 0),
            ({
                let taken = old(catalog)@.detected_all(provider_probe_views(received.detections@), stamp);
                &&& r.1.discover_models == (r.1.changed && received.detections@.last().installed
                    && !taken.provider_model_discoveries.contains(OPENCODE_PROVIDER@) && taken.installed())
                &&& r.1.probe_version == (r.1.changed && taken.installed()
                    && !taken.provider_version_probes_pending.contains(OPENCODE_PROVIDER@))
            }),
    {
        let requests = catalog.drain_provider_detection_events(received.detections, stamp);
        let ghost found = catalog@;
        let driver = self.drain_driver_events(window_active, save_due, words, catalog);
        let ghost drained = self@;
        let probed = catalog.drain_provider_probe_events(received.probes);
        let versioned = catalog.drain_provider_version_events(received.versions);
        let synced = self.drain_task_state_sync_events(received.tasks, stamp);
        let ghost taken = self@;
        let changed = driver || probed || versioned || requests.changed || synced;
        let schedule = self.settle_pump(changed, requests.changed, background_delay);
        proof {
            assert(old(self)@.drains_to(drained, driver, window_active, save_due, *words, found));
            assert(drained.syncs_to(taken, received.tasks@, stamp));
        }
        (schedule, requests)
    }

    /// Looks at the backoff that a provider reported; whether to look again. One that has
    /// run out (`live` says whether it has not) is taken off the transcript.
    pub fn schedule_provider_retry_expiry(&mut self, session_id: Uuid, live: bool) -> (r: bool)
        ensures
            r == (old(self)@.provider_retries.dom().contains(session_id) && live),
            final(self)@ == (if old(self)@.provider_retries.dom().contains(session_id) && !live {
                DeskView { provider_retries: old(self)@.provider_retries.remove(session_id), ..old(self)@ }.emit_if(
                    old(self)@.selected(session_id),
                    EffectView::SpliceTranscriptRows(session_id),
                ).emit(EffectView::Notify)
            } else {
                old(self)@
            }),
    {
        if !self.provider_retries.contains_key(session_id) {
            return false;
        }
        if live {
            return true;
        }
        let _ = self.provider_retries.remove(session_id);
        if self.is_selected(session_id) {
            self.emit(Effect::SpliceTranscriptRows(session_id));
        }
        self.emit(Effect::Notify);
        false
    }

    /// The host has written the state, and says what went wrong. The daemon's complaint
    /// comes first.
    pub fn save(&mut self, daemon_error: Option<String>, app_error: Option<String>)
        ensures
            final(self)@ == (match (daemon_error, app_error) {
                (Some(error), _) => old(self)@.emit(
                    EffectView::Toast(wording_with("errors.save_local_state", "error", error@)),
                ),
                (None, Some(error)) => old(self)@.emit(
                    EffectView::Toast(wording_with("errors.save_local_state", "error", error@)),
                ),
                (None, None) => DeskView { stream_state_dirty: false, ..old(self)@ },
            }),
    {
        let error = match daemon_error {
            Some(error) => Some(error),
            None => app_error,
        };
        match error {
            Some(error) => {
                self.emit(Effect::Toast(Text::with("errors.save_local_state", "error", error)));
            },
            None => {
                self.stream_state_dirty = false;
            },
        }
    }
}

} // verus!
