//! The desk at work: how streamed output of a provider reaches its session.
use vstd::prelude::*;

use crate::activities::{activity_reported, blocks_completed};
use crate::desk::{
    effect_views, message_edit_opt, pending_checkpoint_capture_views, Effect, EffectView, MessageEdit,
    MessageEditView, PendingCheckpointCapture, PendingCheckpointCaptureView, PersistedState,
    ProviderRetry, RuntimeView, SessionRuntime, StateView, StreamPhase,
};
use crate::ids::{Stamp, Uuid};
use crate::keyed::{IdMap, IdSet};
use crate::model::{ActivityItemView, AgentSessionView};
use crate::navigation::{Navigation, NavigationView};
use crate::seqs::pos;
use crate::text::blank;
use crate::text_parts::{
    answered, blanks_dropped, streams_stopped, text_appended, text_bound, text_settled, with_reply,
    KeyedTextSettle,
};
use crate::transcript::{
    message_ids, reasoning_bound, reasoning_settled, settled_thought, thought_completed, with_activity,
    with_pushed,
};

verus! {

/// Every session with its runtime, what is under way for each, and what the host
/// is asked to do.
pub struct Desk {
    pub state: PersistedState,
    pub runtimes: IdMap<SessionRuntime>,
    pub provider_retries: IdMap<ProviderRetry>,
    /// The sessions whose submission is being prepared.
    pub submission_preparations: IdSet,
    /// The sessions that a response is being forked from, with its turn.
    pub response_fork_preparations: IdMap<usize>,
    pub undo_redo_preparations: IdSet,
    pub pending_queue_drains: Vec<Uuid>,
    pub pending_checkpoint_captures: Vec<PendingCheckpointCapture>,
    pub checkpoint_captures_in_flight: Vec<(Uuid, usize)>,
    pub runtime_attach_pending: IdSet,
    pub runtime_attach_misses: IdMap<u8>,
    pub message_edit: Option<MessageEdit>,
    pub navigation: Navigation,
    pub composer_sources_stale: bool,
    pub workspace_queries_stale: bool,
    pub stream_state_dirty: bool,
    /// What the host is asked to do, in order.
    pub effects: Vec<Effect>,
}

/// What a [`Desk`] holds.
#[verifier::ext_equal]
pub ghost struct DeskView {
    pub state: StateView,
    pub runtimes: Map<Uuid, RuntimeView>,
    pub provider_retries: Map<Uuid, ProviderRetry>,
    pub submission_preparations: Set<Uuid>,
    pub response_fork_preparations: Map<Uuid, usize>,
    pub undo_redo_preparations: Set<Uuid>,
    pub pending_queue_drains: Seq<Uuid>,
    pub pending_checkpoint_captures: Seq<PendingCheckpointCaptureView>,
    pub checkpoint_captures_in_flight: Seq<(Uuid, usize)>,
    pub runtime_attach_pending: Set<Uuid>,
    pub runtime_attach_misses: Map<Uuid, u8>,
    pub message_edit: Option<MessageEditView>,
    pub navigation: NavigationView,
    pub composer_sources_stale: bool,
    pub workspace_queries_stale: bool,
    pub stream_state_dirty: bool,
    pub effects: Seq<EffectView>,
}

/// What the runtimes hold.
pub open spec fn runtime_views(runtimes: Map<Uuid, SessionRuntime>) -> Map<Uuid, RuntimeView> {
    runtimes.map_values(|r: SessionRuntime| r@)
}

impl View for Desk {
    type V = DeskView;

    open spec fn view(&self) -> DeskView {
        DeskView {
            state: self.state@,
            runtimes: runtime_views(self.runtimes@),
            provider_retries: self.provider_retries@,
            submission_preparations: self.submission_preparations@,
            response_fork_preparations: self.response_fork_preparations@,
            undo_redo_preparations: self.undo_redo_preparations@,
            pending_queue_drains: self.pending_queue_drains@,
            pending_checkpoint_captures: pending_checkpoint_capture_views(self.pending_checkpoint_captures@),
            checkpoint_captures_in_flight: self.checkpoint_captures_in_flight@,
            runtime_attach_pending: self.runtime_attach_pending@,
            runtime_attach_misses: self.runtime_attach_misses@,
            message_edit: message_edit_opt(self.message_edit),
            navigation: self.navigation@,
            composer_sources_stale: self.composer_sources_stale,
            workspace_queries_stale: self.workspace_queries_stale,
            stream_state_dirty: self.stream_state_dirty,
            effects: effect_views(self.effects@),
        }
    }
}

impl DeskView {
    /// The desk with one more thing asked of the host.
    pub open spec fn emit(self, effect: EffectView) -> DeskView {
        DeskView { effects: self.effects.push(effect), ..self }
    }

    /// The desk with one more thing asked of the host, where `when` holds.
    pub open spec fn emit_if(self, when: bool, effect: EffectView) -> DeskView {
        if when {
            self.emit(effect)
        } else {
            self
        }
    }

    /// A session by its id.
    pub open spec fn session(self, id: Uuid) -> Option<AgentSessionView> {
        self.state.session(id)
    }

    /// The session is the one on screen.
    pub open spec fn selected(self, id: Uuid) -> bool {
        self.state.selected_session == Some(id)
    }

    /// The desk with a session replaced and marked for the next save.
    pub open spec fn put(self, id: Uuid, session: AgentSessionView) -> DeskView {
        DeskView { state: self.state.put(id, session), ..self }
    }

    /// Whether output of a provider may enter the session: its submission is no
    /// longer being prepared, and a turn runs in a session that is busy.
    pub open spec fn accepts_turn_output(self, id: Uuid) -> bool {
        !self.submission_preparations.contains(id) && match self.session(id) {
            Some(session) => session.active_turn() is Some && session.status.busy(),
            None => false,
        }
    }

    /// The desk once no reply of the session is streaming.
    pub open spec fn streams_stopped(self, id: Uuid) -> DeskView {
        match self.session(id) {
            Some(session) => self.put(id, streams_stopped(session)),
            None => self,
        }
    }

    /// The desk once every activity of the session is complete.
    pub open spec fn blocks_completed(self, id: Uuid) -> DeskView {
        (match self.session(id) {
            Some(session) => self.put(id, blocks_completed(session)),
            None => self,
        }).emit(EffectView::RebuildTodoSummary(id))
    }

    /// The desk once the blank replies of the running turn are gone.
    pub open spec fn blanks_dropped(self, id: Uuid, stamp: Stamp) -> DeskView {
        match self.session(id) {
            Some(session) if session.active_turn() is Some => self.put(id, blanks_dropped(session, stamp)),
            _ => self,
        }
    }

    /// Whether the running turn of the session has a reply that holds something.
    pub open spec fn answered(self, id: Uuid) -> bool {
        match self.session(id) {
            Some(session) => answered(session),
            None => false,
        }
    }
}

/// A desk together with the runtime whose output it takes in.
#[verifier::ext_equal]
pub ghost struct Live {
    pub desk: DeskView,
    pub runtime: RuntimeView,
}

/// The desk and the runtime as they stand.
pub open spec fn live(desk: Desk, runtime: SessionRuntime) -> Live {
    Live { desk: desk@, runtime: runtime@ }
}

impl Live {
    pub open spec fn phase(self, phase: Option<StreamPhase>) -> Live {
        Live { runtime: RuntimeView { stream_phase: phase, ..self.runtime }, ..self }
    }

    /// A change of phase completes the thought that was under way.
    pub open spec fn thought_completed(self, id: Uuid, stamp: Stamp) -> Live {
        match self.desk.session(id) {
            Some(session) => {
                let desk = self.desk.put(id, thought_completed(session, self.runtime.open_reasoning, stamp));
                Live {
                    desk: match settled_thought(session.transcript_blocks, self.runtime.open_reasoning) {
                        Some((b, a)) => desk.emit_if(self.desk.selected(id), EffectView::RemeasureBlock(b as usize)),
                        None => desk,
                    },
                    ..self
                }
            },
            None => self,
        }
    }

    /// What the end of a phase settles: a thought that was under way.
    pub open spec fn after_reasoning(self, id: Uuid, stamp: Stamp) -> Live {
        if self.runtime.stream_phase == Some(StreamPhase::Reasoning) {
            self.thought_completed(id, stamp)
        } else {
            self
        }
    }

    /// What the end of a phase settles: a reply that was streaming.
    pub open spec fn after_text(self, id: Uuid) -> Live {
        if self.runtime.stream_phase == Some(StreamPhase::Text) {
            Live { desk: self.desk.streams_stopped(id), ..self }
        } else {
            self
        }
    }

    /// Text that no part names.
    pub open spec fn text_appended(self, id: Uuid, delta: Seq<char>, stamp: Stamp) -> Live {
        let settled = self.after_reasoning(id, stamp);
        let continuing = self.runtime.stream_phase == Some(StreamPhase::Text);
        let state = settled.desk.state;
        Live {
            desk: DeskView {
                state: StateView {
                    sessions: match state.at(id) {
                        Some(i) => state.sessions.update(i, text_appended(state.sessions[i], continuing, delta, stamp)),
                        None => state.sessions,
                    },
                    dirty: state.dirty.insert(id),
                    ..state
                },
                ..settled.desk
            },
            ..settled
        }.phase(Some(StreamPhase::Text))
    }

    /// A text part opens.
    pub open spec fn text_opened(self, id: Uuid, part: Seq<char>, stamp: Stamp) -> Live {
        if part.len() == 0 || self.runtime.open_text.dom().contains(part) || self.runtime.settled_text.contains(part) {
            self
        } else {
            let settled = self.after_reasoning(id, stamp).after_text(id);
            match settled.desk.session(id) {
                Some(session) => Live {
                    desk: settled.desk.put(id, with_reply(session, Seq::empty(), true, stamp)),
                    runtime: RuntimeView {
                        open_text: settled.runtime.open_text.insert(part, stamp.id),
                        ..settled.runtime
                    },
                }.phase(Some(StreamPhase::Text)),
                None => settled,
            }
        }
    }

    /// A delta of a text part.
    pub open spec fn text_delta(self, id: Uuid, part: Seq<char>, delta: Seq<char>, stamp: Stamp) -> Live {
        if part.len() == 0 {
            self.text_appended(id, delta, stamp)
        } else if delta.len() == 0 || self.runtime.settled_text.contains(part) {
            self
        } else {
            let already_open = self.runtime.open_text.dom().contains(part);
            let settled = if already_open {
                self
            } else {
                self.after_reasoning(id, stamp).after_text(id)
            };
            match settled.desk.session(id) {
                None => settled,
                Some(session) => {
                    let (next, open, opened) = text_bound(
                        session,
                        settled.runtime.open_text,
                        settled.runtime.settled_text,
                        part,
                        delta,
                        stamp,
                    );
                    let bound = Live {
                        desk: settled.desk.put(id, next),
                        runtime: RuntimeView { open_text: open, ..settled.runtime },
                    };
                    if opened {
                        bound.phase(Some(StreamPhase::Text))
                    } else {
                        match pos(message_ids(next.messages), open[part]) {
                            Some(i) => Live {
                                desk: bound.desk.emit_if(
                                    already_open && self.desk.selected(id),
                                    EffectView::RemeasureMessage(i as usize),
                                ),
                                ..bound
                            },
                            None => bound,
                        }
                    }
                },
            }
        }
    }

    /// A text part ends.
    pub open spec fn text_ended(self, id: Uuid, part: Seq<char>, text: Option<Seq<char>>, stamp: Stamp) -> Live {
        if part.len() == 0 {
            if self.runtime.stream_phase == Some(StreamPhase::Text) {
                self.after_text(id).phase(Some(StreamPhase::Activity))
            } else {
                self
            }
        } else if self.runtime.settled_text.contains(part) {
            self
        } else {
            match self.desk.session(id) {
                None => self,
                Some(session) => {
                    let (next, open, how) = text_settled(session, self.runtime.open_text, part, text, stamp);
                    let desk = self.desk.put(id, AgentSessionView { updated_at: stamp.secs, ..next });
                    Live {
                        desk: match how {
                            KeyedTextSettle::Rewritten(i) => desk.emit_if(
                                self.desk.selected(id),
                                EffectView::RemeasureMessage(i),
                            ),
                            _ => desk,
                        },
                        runtime: RuntimeView {
                            open_text: open,
                            settled_text: self.runtime.settled_text.insert(part),
                            ..self.runtime
                        },
                    }.phase(Some(StreamPhase::Activity))
                },
            }
        }
    }

    /// A reasoning part opens: whatever its key stood for before is abandoned.
    pub open spec fn reasoning_opened(self, id: Uuid, part: Seq<char>, stamp: Stamp) -> Live {
        let fresh = Live {
            runtime: RuntimeView {
                open_reasoning: self.runtime.open_reasoning.remove(part),
                settled_reasoning: self.runtime.settled_reasoning.remove(part),
                ..self.runtime
            },
            ..self
        };
        if self.runtime.stream_phase == Some(StreamPhase::Reasoning) {
            fresh.thought_completed(id, stamp).phase(Some(StreamPhase::Activity))
        } else {
            fresh
        }
    }

    /// Reasoning that no part names.
    pub open spec fn reasoning_appended(self, id: Uuid, delta: Seq<char>, stamp: Stamp) -> Live {
        let continuing = self.runtime.stream_phase == Some(StreamPhase::Reasoning);
        if !continuing && blank(delta) {
            self
        } else {
            let stopped = if continuing {
                self
            } else {
                Live { desk: self.desk.streams_stopped(id), ..self }
            };
            (match stopped.desk.session(id) {
                Some(session) => Live {
                    desk: stopped.desk.put(
                        id,
                        thought_appended(session, continuing, self.runtime.continuing_work(), delta, stamp),
                    ),
                    ..stopped
                },
                None => stopped,
            }).phase(Some(StreamPhase::Reasoning))
        }
    }

    /// A delta of a reasoning part.
    pub open spec fn reasoning_delta(self, id: Uuid, part: Seq<char>, delta: Seq<char>, stamp: Stamp) -> Live {
        if part.len() == 0 {
            self.reasoning_appended(id, delta, stamp)
        } else {
            match self.desk.session(id) {
                None => self,
                Some(session) => {
                    let (next, open, opened) = reasoning_bound(
                        session,
                        self.runtime.open_reasoning,
                        self.runtime.settled_reasoning,
                        part,
                        delta,
                        self.runtime.continuing_work(),
                        stamp,
                    );
                    let desk = self.desk.put(id, AgentSessionView { updated_at: stamp.secs, ..next });
                    Live {
                        desk: if opened {
                            desk.streams_stopped(id)
                        } else {
                            desk
                        },
                        runtime: RuntimeView { open_reasoning: open, ..self.runtime },
                    }.phase(Some(StreamPhase::Reasoning))
                },
            }
        }
    }

    /// A reasoning part ends.
    pub open spec fn reasoning_ended(self, id: Uuid, part: Seq<char>, text: Option<Seq<char>>, stamp: Stamp) -> Live {
        if part.len() == 0 {
            if self.runtime.stream_phase == Some(StreamPhase::Reasoning) {
                self.thought_completed(id, stamp).phase(None)
            } else {
                self
            }
        } else {
            let settled_keys = self.runtime.settled_reasoning.insert(part);
            (match self.desk.session(id) {
                Some(session) => {
                    let (next, open, block) = reasoning_settled(
                        session,
                        self.runtime.open_reasoning,
                        part,
                        text,
                        self.runtime.continuing_work(),
                        stamp,
                    );
                    let desk = self.desk.put(id, AgentSessionView { updated_at: stamp.secs, ..next });
                    Live {
                        desk: match block {
                            Some(b) => desk.emit_if(self.desk.selected(id), EffectView::RemeasureBlock(b as usize)),
                            None => desk,
                        },
                        runtime: RuntimeView {
                            open_reasoning: open,
                            settled_reasoning: settled_keys,
                            ..self.runtime
                        },
                    }
                },
                None => Live {
                    runtime: RuntimeView { settled_reasoning: settled_keys, ..self.runtime },
                    ..self
                },
            }).phase(Some(StreamPhase::Activity))
        }
    }

    /// A report of an activity.
    pub open spec fn activity_reported(self, id: Uuid, item: ActivityItemView, stamp: Stamp) -> Live {
        let settled = self.after_text(id).after_reasoning(id, stamp);
        (match settled.desk.session(id) {
            Some(session) => {
                let (next, replaced) = activity_reported(session, item, self.runtime.continuing_work(), stamp);
                let desk = settled.desk.put(id, next);
                Live {
                    desk: match replaced {
                        Some(activity) => desk.emit(EffectView::ForgetActivityDiff(activity)),
                        None => desk,
                    },
                    ..settled
                }
            },
            None => settled,
        }).phase(Some(StreamPhase::Activity))
    }
}

/// The session once reasoning without a part has gone on: into the last activity
/// where that is a thought under way, else into a new one.
pub open spec fn thought_appended(
    s: AgentSessionView,
    continuing: bool,
    continuing_work: bool,
    delta: Seq<char>,
    stamp: Stamp,
) -> AgentSessionView {
    let blocks = s.transcript_blocks;
    if continuing && blocks.len() > 0 && blocks.last().activities.len() > 0
        && blocks.last().activities.last().reasoning is Some {
        let item = blocks.last().activities.last();
        let thought = item.reasoning->0;
        AgentSessionView {
            transcript_blocks: with_activity(
                blocks,
                blocks.len() - 1,
                blocks.last().activities.len() - 1,
                ActivityItemView {
                    reasoning: Some(
                        crate::model::ReasoningBlockView {
                            content: thought.content + delta,
                            finished_at_ms: stamp.millis,
                            ..thought
                        },
                    ),
                    ..item
                },
            ),
            updated_at: stamp.secs,
            ..s
        }
    } else {
        AgentSessionView {
            updated_at: stamp.secs,
            ..with_pushed(
                s,
                crate::model::reasoning_activity(stamp.id, None, delta, stamp.millis, false),
                continuing_work,
            )
        }
    }
}

} // verus!
