//! Taking streamed output of a provider into its session.
use vstd::prelude::*;

use crate::activities::{activity_reported, blocks_completed, complete_blocks, report_activity};
use crate::desk::{effect_views, lemma_put, Effect, SessionRuntime, StreamPhase};
use crate::ids::{Stamp, Uuid};
use crate::live::{live, thought_appended, Desk};
use crate::model::{agent_session_views, ActivityItem, AgentSession};
use crate::text::{opt, trims_to_nothing};
use crate::text_parts::{
    answered, append_text_delta_to_session, bind_keyed_text_delta, blanks_dropped, drop_blank_replies, has_reply,
    open_keyed_text_part, settle_keyed_text_fragment, stop_streaming, streams_stopped, KeyedTextSettle,
};
use crate::transcript::{
    bind_keyed_reasoning_delta, complete_reasoning_activity_bound, lemma_set_activity, message_position,
    push_transcript_activity, settle_keyed_reasoning_fragment,
};

verus! {

impl Desk {
    /// Asks something of the host.
    pub fn emit(&mut self, effect: Effect)
        ensures
            final(self)@ == old(self)@.emit(effect@),
            *final(self) == (Desk { effects: final(self).effects, ..*old(self) }),
    {
        self.effects.push(effect);
        assert(effect_views(self.effects@) =~= effect_views(old(self).effects@).push(effect@));
    }

    /// Whether output of a provider may enter the session. A turn begins when its
    /// submission is accepted; while that is still being prepared, a reused runtime
    /// could only be draining what a settled turn left behind.
    pub fn accepts_turn_output(&self, session_id: Uuid) -> (r: bool)
        ensures
            r == self@.accepts_turn_output(session_id),
    {
        if self.submission_preparations.contains(session_id) {
            return false;
        }
        match self.state.session_index(session_id) {
            Some(i) => self.state.sessions[i].active_turn_id().is_some() && self.state.sessions[i].status.is_busy(),
            None => false,
        }
    }

    /// Stops every reply of the session that is streaming.
    pub fn finish_streaming_assistant(&mut self, session_id: Uuid)
        ensures
            final(self)@ == old(self)@.streams_stopped(session_id),
    {
        if let Some(i) = self.state.session_mut(session_id) {
            stop_streaming(&mut self.state.sessions[i]);
            proof {
                lemma_put(old(self).state, self.state, session_id, i as int);
            }
        }
    }

    /// Completes every activity of the session.
    pub fn complete_turn_blocks(&mut self, session_id: Uuid)
        ensures
            final(self)@ == old(self)@.blocks_completed(session_id),
    {
        if let Some(i) = self.state.session_mut(session_id) {
            complete_blocks(&mut self.state.sessions[i]);
            proof {
                lemma_put(old(self).state, self.state, session_id, i as int);
            }
        }
        self.emit(Effect::RebuildTodoSummary(session_id));
    }

    /// Drops the replies that the running turn reserved for a text part and never
    /// filled: they are no answer.
    pub fn drop_blank_assistant_messages(&mut self, session_id: Uuid, stamp: Stamp)
        ensures
            final(self)@ == old(self)@.blanks_dropped(session_id, stamp),
    {
        let running = match self.state.session_index(session_id) {
            Some(i) => self.state.sessions[i].active_turn_id().is_some(),
            None => false,
        };
        if !running {
            return;
        }
        if let Some(i) = self.state.session_mut(session_id) {
            drop_blank_replies(&mut self.state.sessions[i], stamp);
            proof {
                lemma_put(old(self).state, self.state, session_id, i as int);
            }
        }
    }

    /// Whether the running turn of the session has a reply that holds something.
    pub fn turn_has_assistant_message(&self, session_id: Uuid) -> (r: bool)
        ensures
            r == self@.answered(session_id),
    {
        match self.state.session_index(session_id) {
            Some(i) => has_reply(&self.state.sessions[i]),
            None => false,
        }
    }

    /// Completes the thought that a change of phase settles.
    pub fn complete_reasoning_activity(&mut self, session_id: Uuid, runtime: &SessionRuntime, stamp: Stamp)
        ensures
            live(*final(self), *runtime) == live(*old(self), *runtime).thought_completed(session_id, stamp),
    {
        let mut block: Option<usize> = None;
        if let Some(i) = self.state.session_mut(session_id) {
            block = complete_reasoning_activity_bound(&mut self.state.sessions[i], &runtime.open_reasoning, stamp);
            proof {
                lemma_put(old(self).state, self.state, session_id, i as int);
            }
        }
        if self.state.selected_session == Some(session_id) {
            if let Some(b) = block {
                self.emit(Effect::RemeasureBlock(b));
            }
        }
    }

    fn settle_reasoning(&mut self, session_id: Uuid, runtime: &SessionRuntime, stamp: Stamp)
        ensures
            live(*final(self), *runtime) == live(*old(self), *runtime).after_reasoning(session_id, stamp),
    {
        if runtime.stream_phase == Some(StreamPhase::Reasoning) {
            self.complete_reasoning_activity(session_id, runtime, stamp);
        }
    }

    fn settle_text(&mut self, session_id: Uuid, runtime: &SessionRuntime)
        ensures
            live(*final(self), *runtime) == live(*old(self), *runtime).after_text(session_id),
    {
        if runtime.stream_phase == Some(StreamPhase::Text) {
            self.finish_streaming_assistant(session_id);
        }
    }

    /// Takes in text that no part names.
    pub fn append_text_delta(&mut self, session_id: Uuid, runtime: &mut SessionRuntime, delta: String, stamp: Stamp)
        ensures
            live(*final(self), *final(runtime)) == live(*old(self), *old(runtime)).text_appended(
                session_id,
                delta@,
                stamp,
            ),
    {
        let continuing = runtime.stream_phase == Some(StreamPhase::Text);
        self.settle_reasoning(session_id, runtime, stamp);
        let ghost settled = *self;
        if let Some(i) = self.state.session_index(session_id) {
            append_text_delta_to_session(&mut self.state.sessions[i], continuing, delta, stamp);
            assert(agent_session_views(self.state.sessions@) =~= agent_session_views(settled.state.sessions@).update(
                i as int,
                self.state.sessions@[i as int]@,
            ));
        }
        self.state.mark_session_dirty(session_id);
        runtime.stream_phase = Some(StreamPhase::Text);
    }

    /// Reserves the reply of a text part. Tools that arrive before the part's
    /// batched tail then anchor after this reply, so that the tail fills the
    /// sentence. A start delivered again for an open part changes nothing.
    pub fn open_text_fragment(&mut self, session_id: Uuid, runtime: &mut SessionRuntime, part: String, stamp: Stamp)
        ensures
            live(*final(self), *final(runtime)) == live(*old(self), *old(runtime)).text_opened(
                session_id,
                part@,
                stamp,
            ),
    {
        if part.as_str().unicode_len() == 0 || runtime.open_text.contains_key(part.as_str())
            || runtime.settled_text.contains(part.as_str()) {
            return;
        }
        self.settle_reasoning(session_id, runtime, stamp);
        self.settle_text(session_id, runtime);
        let ghost settled = *self;
        if let Some(i) = self.state.session_mut(session_id) {
            let _ = open_keyed_text_part(
                &mut self.state.sessions[i],
                &mut runtime.open_text,
                &runtime.settled_text,
                part.as_str(),
                stamp,
            );
            proof {
                lemma_put(settled.state, self.state, session_id, i as int);
            }
            runtime.stream_phase = Some(StreamPhase::Text);
        }
    }

    /// Routes one delta of text. The delta of an open part goes there even after
    /// tools, and does not bring the phase back to text: the next tool keeps
    /// grouping with the block under way.
    pub fn append_keyed_text_delta(
        &mut self,
        session_id: Uuid,
        runtime: &mut SessionRuntime,
        part: String,
        delta: String,
        stamp: Stamp,
    )
        ensures
            live(*final(self), *final(runtime)) == live(*old(self), *old(runtime)).text_delta(
                session_id,
                part@,
                delta@,
                stamp,
            ),
    {
        if part.as_str().unicode_len() == 0 {
            self.append_text_delta(session_id, runtime, delta, stamp);
            return;
        }
        if delta.as_str().unicode_len() == 0 || runtime.settled_text.contains(part.as_str()) {
            return;
        }
        let already_open = runtime.open_text.contains_key(part.as_str());
        if !already_open {
            self.settle_reasoning(session_id, runtime, stamp);
            self.settle_text(session_id, runtime);
        }
        let ghost settled = *self;
        let i = match self.state.session_mut(session_id) {
            Some(i) => i,
            None => {
                return;
            },
        };
        let opened = bind_keyed_text_delta(
            &mut self.state.sessions[i],
            &mut runtime.open_text,
            &runtime.settled_text,
            part.as_str(),
            delta.as_str(),
            stamp,
        );
        proof {
            lemma_put(settled.state, self.state, session_id, i as int);
        }
        if opened {
            runtime.stream_phase = Some(StreamPhase::Text);
        } else if already_open && self.state.selected_session == Some(session_id) {
            if let Some(id) = runtime.open_text.get(part.as_str()) {
                if let Some(index) = message_position(&self.state.sessions[i].messages, *id) {
                    self.emit(Effect::RemeasureMessage(index));
                }
            }
        }
    }

    /// Closes a text part with the text that is kept. The phase becomes activity,
    /// so that the next tool does not look like a fresh stretch of text. An end
    /// delivered again changes nothing.
    pub fn complete_text_fragment(
        &mut self,
        session_id: Uuid,
        runtime: &mut SessionRuntime,
        part: String,
        text: Option<String>,
        stamp: Stamp,
    )
        ensures
            live(*final(self), *final(runtime)) == live(*old(self), *old(runtime)).text_ended(
                session_id,
                part@,
                opt(text),
                stamp,
            ),
    {
        if part.as_str().unicode_len() == 0 {
            if runtime.stream_phase == Some(StreamPhase::Text) {
                self.finish_streaming_assistant(session_id);
                runtime.stream_phase = Some(StreamPhase::Activity);
            }
            return;
        }
        if runtime.settled_text.contains(part.as_str()) {
            return;
        }
        let i = match self.state.session_mut(session_id) {
            Some(i) => i,
            None => {
                return;
            },
        };
        let body = match &text {
            Some(text) => Some(text.as_str()),
            None => None,
        };
        let settled = settle_keyed_text_fragment(
            &mut self.state.sessions[i],
            &mut runtime.open_text,
            part.as_str(),
            body,
            stamp,
        );
        self.state.sessions[i].updated_at = stamp.secs;
        proof {
            assert(self.state.sessions@ =~= old(self).state.sessions@.update(i as int, self.state.sessions@[i as int]));
            lemma_put(old(self).state, self.state, session_id, i as int);
        }
        let _ = runtime.settled_text.insert(part);
        runtime.stream_phase = Some(StreamPhase::Activity);
        if self.state.selected_session == Some(session_id) {
            if let KeyedTextSettle::Rewritten(index) = settled {
                self.emit(Effect::RemeasureMessage(index));
            }
        }
    }

    /// Opens a reasoning part. Its deltas go by its key rather than by where the
    /// transcript stands: a tail may be flushed after the next tool's events.
    pub fn open_reasoning_fragment(&mut self, session_id: Uuid, runtime: &mut SessionRuntime, part: String, stamp: Stamp)
        ensures
            live(*final(self), *final(runtime)) == live(*old(self), *old(runtime)).reasoning_opened(
                session_id,
                part@,
                stamp,
            ),
    {
        let _ = runtime.open_reasoning.remove(part.as_str());
        let _ = runtime.settled_reasoning.remove(part.as_str());
        if runtime.stream_phase == Some(StreamPhase::Reasoning) {
            self.complete_reasoning_activity(session_id, runtime, stamp);
            runtime.stream_phase = Some(StreamPhase::Activity);
        }
    }

    /// Routes one delta of reasoning.
    pub fn append_reasoning_delta(
        &mut self,
        session_id: Uuid,
        runtime: &mut SessionRuntime,
        part: String,
        delta: String,
        stamp: Stamp,
    )
        ensures
            live(*final(self), *final(runtime)) == live(*old(self), *old(runtime)).reasoning_delta(
                session_id,
                part@,
                delta@,
                stamp,
            ),
    {
        if part.as_str().unicode_len() == 0 {
            self.append_unkeyed_reasoning_delta(session_id, runtime, delta, stamp);
            return;
        }
        let continuing_work = runtime.is_continuing_work();
        let i = match self.state.session_mut(session_id) {
            Some(i) => i,
            None => {
                return;
            },
        };
        let opened = bind_keyed_reasoning_delta(
            &mut self.state.sessions[i],
            &mut runtime.open_reasoning,
            &runtime.settled_reasoning,
            part.as_str(),
            delta.as_str(),
            continuing_work,
            stamp,
        );
        self.state.sessions[i].updated_at = stamp.secs;
        proof {
            assert(self.state.sessions@ =~= old(self).state.sessions@.update(i as int, self.state.sessions@[i as int]));
            lemma_put(old(self).state, self.state, session_id, i as int);
        }
        if opened {
            self.finish_streaming_assistant(session_id);
        }
        runtime.stream_phase = Some(StreamPhase::Reasoning);
    }

    /// Closes a reasoning part with the text that is kept, which overwrites what
    /// the deltas gathered. The turn stays at work: the next part's activity joins
    /// the same block, and a delta without a part cannot reach the settled thought.
    pub fn complete_reasoning_fragment(
        &mut self,
        session_id: Uuid,
        runtime: &mut SessionRuntime,
        part: String,
        text: Option<String>,
        stamp: Stamp,
    )
        ensures
            live(*final(self), *final(runtime)) == live(*old(self), *old(runtime)).reasoning_ended(
                session_id,
                part@,
                opt(text),
                stamp,
            ),
    {
        if part.as_str().unicode_len() == 0 {
            if runtime.stream_phase == Some(StreamPhase::Reasoning) {
                self.complete_reasoning_activity(session_id, runtime, stamp);
                runtime.stream_phase = None;
            }
            return;
        }
        let continuing_work = runtime.is_continuing_work();
        let mut block: Option<usize> = None;
        if let Some(i) = self.state.session_mut(session_id) {
            let body = match &text {
                Some(text) => Some(text.as_str()),
                None => None,
            };
            block = settle_keyed_reasoning_fragment(
                &mut self.state.sessions[i],
                &mut runtime.open_reasoning,
                part.as_str(),
                body,
                continuing_work,
                stamp,
            );
            self.state.sessions[i].updated_at = stamp.secs;
            proof {
                assert(self.state.sessions@ =~= old(self).state.sessions@.update(
                    i as int,
                    self.state.sessions@[i as int],
                ));
                lemma_put(old(self).state, self.state, session_id, i as int);
            }
        }
        let _ = runtime.settled_reasoning.insert(part);
        if self.state.selected_session == Some(session_id) {
            if let Some(b) = block {
                self.emit(Effect::RemeasureBlock(b));
            }
        }
        runtime.stream_phase = Some(StreamPhase::Activity);
    }

    /// Takes in reasoning that no part names: it groups by the phase alone.
    pub fn append_unkeyed_reasoning_delta(
        &mut self,
        session_id: Uuid,
        runtime: &mut SessionRuntime,
        delta: String,
        stamp: Stamp,
    )
        ensures
            live(*final(self), *final(runtime)) == live(*old(self), *old(runtime)).reasoning_appended(
                session_id,
                delta@,
                stamp,
            ),
    {
        let continuing = runtime.stream_phase == Some(StreamPhase::Reasoning);
        if !continuing && trims_to_nothing(delta.as_str()) {
            return;
        }
        if !continuing {
            self.finish_streaming_assistant(session_id);
        }
        let ghost stopped = *self;
        let continuing_work = runtime.is_continuing_work();
        if let Some(i) = self.state.session_mut(session_id) {
            append_thought(&mut self.state.sessions[i], continuing, continuing_work, delta, stamp);
            proof {
                lemma_put(stopped.state, self.state, session_id, i as int);
            }
        }
        runtime.stream_phase = Some(StreamPhase::Reasoning);
    }

    /// Takes in a report of an activity.
    pub fn update_activity(&mut self, session_id: Uuid, runtime: &mut SessionRuntime, item: ActivityItem, stamp: Stamp)
        ensures
            live(*final(self), *final(runtime)) == live(*old(self), *old(runtime)).activity_reported(
                session_id,
                item@,
                stamp,
            ),
    {
        let continuing_work = runtime.is_continuing_work();
        self.settle_text(session_id, runtime);
        self.settle_reasoning(session_id, runtime, stamp);
        let ghost settled = *self;
        if let Some(i) = self.state.session_mut(session_id) {
            let replaced = report_activity(&mut self.state.sessions[i], item, continuing_work, stamp);
            proof {
                lemma_put(settled.state, self.state, session_id, i as int);
            }
            if let Some(activity) = replaced {
                self.emit(Effect::ForgetActivityDiff(activity));
            }
        }
        runtime.stream_phase = Some(StreamPhase::Activity);
    }
}

/// Goes on with the last activity where that is a thought under way, else opens one.
pub fn append_thought(
    session: &mut AgentSession,
    continuing: bool,
    continuing_work: bool,
    delta: String,
    stamp: Stamp,
)
    ensures
        final(session)@ == thought_appended(old(session)@, continuing, continuing_work, delta@, stamp),
{
    let n = session.transcript_blocks.len();
    if continuing && n > 0 {
        let m = session.transcript_blocks[n - 1].activities.len();
        assert(session@.transcript_blocks.last() == session.transcript_blocks@[n - 1]@);
        if m > 0 {
            assert(session@.transcript_blocks.last().activities.last()
                == session.transcript_blocks@[n - 1].activities@[m - 1]@);
            if session.transcript_blocks[n - 1].activities[m - 1].reasoning.is_some() {
                if let Some(reasoning) = &mut session.transcript_blocks[n - 1].activities[m - 1].reasoning {
                    reasoning.content.append(delta.as_str());
                    reasoning.finished_at_ms = stamp.millis;
                }
                session.updated_at = stamp.secs;
                proof {
                    lemma_set_activity(
                        old(session).transcript_blocks@,
                        session.transcript_blocks@,
                        n - 1,
                        m - 1,
                    );
                }
                return;
            }
        }
    }
    let item = ActivityItem::from_reasoning(stamp.id, None, delta, stamp.millis, false);
    push_transcript_activity(session, item, continuing_work);
    session.updated_at = stamp.secs;
}

} // verus!
