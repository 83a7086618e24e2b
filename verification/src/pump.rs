//! Delivering what providers reported: in order, deltas of one part at a time, and
//! until a process is gone.
use std::collections::VecDeque;
use vstd::prelude::*;

use crate::desk::{Effect, EffectView, RuntimeView, SessionRuntime};
use crate::driver_step::Wordings;
use crate::events::{
    batch_key, batch_len, batch_part, batch_rest, batch_text, delta_of, in_batch, newest_cursor, pop_stream_batch,
    stream_delta_kind, BackgroundWorkEvent, BackgroundWorkTranscriptEvent, DriverEvent, StreamDeltaKind,
};
use crate::ids::{all_taken, Stamp, Uuid};
use crate::live::{live, runtime_views, Desk, DeskView, Live};
use crate::probes::{Catalog, CatalogView};

verus! {

/// Which kind of delta an event is, if it is one.
pub open spec fn kind_of(event: DriverEvent) -> Option<StreamDeltaKind> {
    match event {
        DriverEvent::TextDelta { .. } => Some(StreamDeltaKind::Text),
        DriverEvent::ReasoningDelta { .. } => Some(StreamDeltaKind::Reasoning),
        _ => None,
    }
}

/// What is left of a queue once its next event is delivered.
pub open spec fn popped(queue: Seq<DriverEvent>) -> Seq<DriverEvent> {
    match kind_of(queue[0]) {
        Some(kind) => batch_rest(queue, kind),
        None => queue.drop_first(),
    }
}

/// The event is the next one that a queue delivers: the first, or the first with every
/// delta that follows it in its part.
pub open spec fn is_next(queue: Seq<DriverEvent>, event: DriverEvent) -> bool {
    queue.len() > 0 && match kind_of(queue[0]) {
        Some(kind) => delta_of(event, kind) == Some((batch_key(queue, kind), batch_text(queue, kind))),
        None => event == queue[0],
    }
}

/// What is left of a queue after `n` deliveries.
pub open spec fn queue_after(queue: Seq<DriverEvent>, n: nat) -> Seq<DriverEvent>
    decreases n,
{
    if n == 0 {
        queue
    } else {
        popped(queue_after(queue, (n - 1) as nat))
    }
}

/// The events are deliveries of the queue, one after the other, and the process was
/// there until the last.
pub open spec fn are_next(queue: Seq<DriverEvent>, events: Seq<DriverEvent>) -> bool {
    &&& forall|k: int| 0 <= k < events.len() ==> is_next(#[trigger] queue_after(queue, k as nat), events[k])
    &&& forall|k: int| 0 <= k < events.len() - 1 ==> !((#[trigger] events[k]) is ProcessExited)
}

/// The process is gone after these events.
pub open spec fn exits(events: Seq<DriverEvent>) -> bool {
    events.len() > 0 && events.last() is ProcessExited
}

/// The events are all that the queue delivers: every one, or those up to the end of
/// the process. Each has the stamp of its delivery.
pub open spec fn is_run(queue: Seq<DriverEvent>, events: Seq<DriverEvent>, stamps: Seq<Stamp>) -> bool {
    &&& are_next(queue, events)
    &&& stamps.len() == events.len()
    &&& all_taken(stamps)
    &&& queue_after(queue, events.len()).len() == 0 || exits(events)
}

/// What a drain has to do afterwards.
#[derive(Clone, Copy, Debug, PartialEq, Eq, Structural)]
pub struct Drained {
    pub runtime_changed: bool,
    pub background_changed: bool,
    pub background_persisted: bool,
    pub force_save: bool,
    pub markdown_changed: bool,
}

/// Nothing has to be done.
pub open spec fn nothing_drained() -> Drained {
    Drained {
        runtime_changed: false,
        background_changed: false,
        background_persisted: false,
        force_save: false,
        markdown_changed: false,
    }
}

/// The event reports on work in the background.
pub open spec fn is_background(event: DriverEvent) -> bool {
    event is BackgroundWork
}

/// The event is a piece of what work in the background prints: it is drawn later, in
/// one go.
pub open spec fn is_background_output(event: DriverEvent) -> bool {
    event matches DriverEvent::BackgroundWork(work) && work is OutputDelta
}

/// The event completes the transcript of work in the background.
pub open spec fn is_background_transcript(event: DriverEvent) -> bool {
    event matches DriverEvent::BackgroundWork(BackgroundWorkEvent::Transcript(transcript)) && (transcript is Finished
        || transcript is Snapshot)
}

/// The state is written at once after this event.
pub open spec fn must_save(event: DriverEvent) -> bool {
    event is Connected || event is AgentPresetSelected || event is AutoTitleUpdated || event is Permission
        || event is SteerAccepted || event is SteerRejected || event is TurnFinished || event is Error
        || event is ProcessExited
}

/// The event changes markdown that is being streamed.
pub open spec fn is_markdown(event: DriverEvent) -> bool {
    event is TextDelta || event is ReasoningDelta || event is ReasoningEnded
}

impl Drained {
    /// One more event was delivered.
    pub open spec fn noted(self, event: DriverEvent) -> Drained {
        Drained {
            runtime_changed: self.runtime_changed || !is_background(event),
            background_changed: self.background_changed || (is_background(event) && !is_background_output(event)),
            background_persisted: self.background_persisted || is_background_transcript(event),
            force_save: self.force_save || must_save(event),
            markdown_changed: self.markdown_changed || is_markdown(event),
        }
    }

    fn note(self, event: &DriverEvent) -> (r: Drained)
        ensures
            r == self.noted(*event),
    {
        let background = matches!(event, DriverEvent::BackgroundWork(_));
        let output = matches!(event, DriverEvent::BackgroundWork(BackgroundWorkEvent::OutputDelta { .. }));
        let transcript = match event {
            DriverEvent::BackgroundWork(BackgroundWorkEvent::Transcript(transcript)) => match transcript {
                BackgroundWorkTranscriptEvent::Finished { .. } | BackgroundWorkTranscriptEvent::Snapshot { .. } => true,
                BackgroundWorkTranscriptEvent::Delta { .. } => false,
            },
            _ => false,
        };
        let save = matches!(
            event,
            DriverEvent::Connected { .. } | DriverEvent::AgentPresetSelected(_) | DriverEvent::AutoTitleUpdated(_)
            | DriverEvent::Permission { .. } | DriverEvent::SteerAccepted { .. } | DriverEvent::SteerRejected { .. }
            | DriverEvent::TurnFinished { .. } | DriverEvent::Error(_) | DriverEvent::ProcessExited
        );
        let markdown = matches!(
            event,
            DriverEvent::TextDelta { .. } | DriverEvent::ReasoningDelta { .. } | DriverEvent::ReasoningEnded { .. }
        );
        Drained {
            runtime_changed: self.runtime_changed || !background,
            background_changed: self.background_changed || (background && !output),
            background_persisted: self.background_persisted || transcript,
            force_save: self.force_save || save,
            markdown_changed: self.markdown_changed || markdown,
        }
    }
}

/// What has to be done after the events.
pub open spec fn notes(events: Seq<DriverEvent>) -> Drained
    decreases events.len(),
{
    if events.len() == 0 {
        nothing_drained()
    } else {
        notes(events.drop_last()).noted(events.last())
    }
}

impl Live {
    /// What reports do, one after the other.
    pub open spec fn told(
        self,
        id: Uuid,
        events: Seq<DriverEvent>,
        stamps: Seq<Stamp>,
        allow_queue_drain: bool,
        window_active: bool,
        words: Wordings,
    ) -> Live
        decreases events.len(),
    {
        if events.len() == 0 {
            self
        } else {
            self.told(id, events.drop_last(), stamps.drop_last(), allow_queue_drain, window_active, words).handled(
                id,
                events.last(),
                allow_queue_drain,
                window_active,
                words,
                stamps.last(),
            )
        }
    }

    /// The runtime with its queue taken out.
    pub open spec fn emptied(self) -> Live {
        Live { runtime: RuntimeView { pending_events: Seq::empty(), ..self.runtime }, ..self }
    }

    /// The runtime with this queue.
    pub open spec fn queueing(self, queue: Seq<DriverEvent>) -> Live {
        Live { runtime: RuntimeView { pending_events: queue, ..self.runtime }, ..self }
    }
}

/// The events of a queue up to the end of the process.
pub open spec fn upto_exit(queue: Seq<DriverEvent>) -> Seq<DriverEvent>
    decreases queue.len(),
{
    if queue.len() == 0 {
        queue
    } else if queue[0] is ProcessExited {
        seq![queue[0]]
    } else {
        seq![queue[0]] + upto_exit(queue.drop_first())
    }
}

pub(crate) proof fn lemma_upto_exit(queue: Seq<DriverEvent>, n: int)
    requires
        0 <= n < queue.len(),
        forall|k: int| 0 <= k < n ==> !((#[trigger] queue[k]) is ProcessExited),
        queue[n] is ProcessExited,
    ensures
        upto_exit(queue) == queue.take(n + 1),
    decreases queue.len(),
{
    if n == 0 {
        assert(queue.take(1) =~= seq![queue[0]]);
    } else {
        let rest = queue.drop_first();
        assert forall|k: int| 0 <= k < n - 1 implies !((#[trigger] rest[k]) is ProcessExited) by {
            assert(rest[k] == queue[k + 1]);
        }
        lemma_upto_exit(rest, n - 1);
        assert(queue.take(n + 1) =~= seq![queue[0]] + rest.take(n));
    }
}

pub(crate) proof fn lemma_no_exit(queue: Seq<DriverEvent>)
    requires
        forall|k: int| 0 <= k < queue.len() ==> !((#[trigger] queue[k]) is ProcessExited),
    ensures
        upto_exit(queue) == queue,
    decreases queue.len(),
{
    if queue.len() > 0 {
        let rest = queue.drop_first();
        assert forall|k: int| 0 <= k < rest.len() implies !((#[trigger] rest[k]) is ProcessExited) by {
            assert(rest[k] == queue[k + 1]);
        }
        lemma_no_exit(rest);
        assert(queue =~= seq![queue[0]] + rest);
    }
}

proof fn lemma_batch_len(events: Seq<DriverEvent>, kind: StreamDeltaKind, part: Option<Seq<char>>)
    ensures
        0 <= batch_len(events, kind, part) <= events.len(),
    decreases events.len(),
{
    if events.len() > 0 && in_batch(events[0], kind, part) {
        lemma_batch_len(events.drop_first(), kind, part);
    }
}

proof fn lemma_single_cursor(events: Seq<DriverEvent>)
    requires
        events.len() == 1,
        !(events[0] is RuntimeEventCursorAdvanced),
    ensures
        newest_cursor(events) is None,
{
    assert(events.last() == events[0]);
    assert(newest_cursor(events.drop_last()) is None);
}

proof fn lemma_popped_shorter(queue: Seq<DriverEvent>)
    requires
        queue.len() > 0,
    ensures
        popped(queue).len() < queue.len(),
{
    if let Some(kind) = kind_of(queue[0]) {
        let part = batch_part(queue, kind);
        let n = batch_len(queue, kind, part);
        lemma_batch_len(queue.drop_first(), kind, part);
        assert(in_batch(queue[0], kind, part));
        lemma_batch_len(queue, kind, part);
        if n == 1 {
            assert(queue.take(1)[0] == queue[0]);
            lemma_single_cursor(queue.take(1));
        }
    }
}

/// A run as it is under way.
spec fn under_way(
    start: Live,
    now: Live,
    queue: Seq<DriverEvent>,
    left: Seq<DriverEvent>,
    events: Seq<DriverEvent>,
    stamps: Seq<Stamp>,
    id: Uuid,
    window_active: bool,
    words: Wordings,
) -> bool {
    &&& are_next(queue, events)
    &&& stamps.len() == events.len()
    &&& all_taken(stamps)
    &&& left == queue_after(queue, events.len())
    &&& now == start.told(id, events, stamps, true, window_active, words)
}

impl Desk {
    /// Adds what the host received to the queue of a session.
    pub fn collect_runtime_events(&mut self, session_id: Uuid, events: Vec<DriverEvent>)
        ensures
            final(self)@ == (if old(self)@.runtimes.dom().contains(session_id) {
                DeskView {
                    runtimes: old(self)@.runtimes.insert(
                        session_id,
                        RuntimeView {
                            pending_events: old(self)@.runtimes[session_id].pending_events + events@,
                            ..old(self)@.runtimes[session_id]
                        },
                    ),
                    ..old(self)@
                }
            } else {
                old(self)@
            }),
    {
        match self.take_runtime(session_id) {
            Some(mut runtime) => {
                let ghost before = runtime@;
                let mut all = events;
                let ghost whole = all@;
                let ghost mut done: int = 0;
                assert(whole.skip(0) =~= whole);
                assert(runtime@.pending_events =~= before.pending_events + whole.take(0));
                while all.len() > 0
                    invariant
                        0 <= done <= whole.len(),
                        all@ == whole.skip(done),
                        runtime@ == (RuntimeView {
                            pending_events: before.pending_events + whole.take(done),
                            ..before
                        }),
                    decreases all@.len(),
                {
                    let event = all.remove(0);
                    assert(whole.skip(done).remove(0) =~= whole.skip(done + 1));
                    runtime.pending_events.push_back(event);
                    assert(runtime@.pending_events =~= before.pending_events + whole.take(done + 1));
                    proof {
                        done = done + 1;
                    }
                }
                assert(whole.take(done) =~= whole);
                self.put_runtime(session_id, runtime);
                assert(self@.runtimes =~= old(self)@.runtimes.insert(session_id, runtime@));
            },
            None => {
                assert(self@.runtimes =~= old(self)@.runtimes);
            },
        }
    }

    /// Delivers everything in the queue of a runtime, and says what has to be done
    /// afterwards and whether the process is still there.
    fn deliver(&mut self, session_id: Uuid, runtime: &mut SessionRuntime, window_active: bool, words: &Wordings) -> (r: (
        Drained,
        bool,
    ))
        ensures
            exists|events: Seq<DriverEvent>, stamps: Seq<Stamp>|
                #[trigger] is_run(old(runtime)@.pending_events, events, stamps) && live(*final(self), *final(runtime))
                    == live(*old(self), *old(runtime)).emptied().told(
                    session_id,
                    events,
                    stamps,
                    true,
                    window_active,
                    *words,
                ).queueing(queue_after(old(runtime)@.pending_events, events.len())) && r.0 == notes(events) && r.1
                    == !exits(events),
    {
        let mut queue: VecDeque<DriverEvent> = VecDeque::new();
        std::mem::swap(&mut queue, &mut runtime.pending_events);
        let ghost whole = queue@;
        let ghost start = live(*old(self), *old(runtime)).emptied();
        let ghost mut events: Seq<DriverEvent> = Seq::empty();
        let ghost mut stamps: Seq<Stamp> = Seq::empty();
        assert(live(*self, *runtime).runtime.pending_events =~= Seq::empty());
        assert(live(*self, *runtime) == start);
        let mut drained = Drained {
            runtime_changed: false,
            background_changed: false,
            background_persisted: false,
            force_save: false,
            markdown_changed: false,
        };
        let mut keep = true;
        while keep && queue.len() > 0
            invariant
                start == live(*old(self), *old(runtime)).emptied(),
                under_way(start, live(*self, *runtime), whole, queue@, events, stamps, session_id, window_active, *words),
                drained == notes(events),
                keep == !exits(events),
            decreases queue@.len(),
        {
            let ghost before = queue@;
            proof {
                lemma_popped_shorter(before);
            }
            let next = match stream_delta_kind(&queue[0]) {
                Some(kind) => pop_stream_batch(&mut queue, kind),
                None => queue.pop_front(),
            };
            if let Some(event) = next {
                proof {
                    assert(before.drop_first() =~= before.subrange(1, before.len() as int));
                    assert(queue@ =~= popped(before));
                    assert(is_next(before, event));
                }
                drained = drained.note(&event);
                let stamp = Stamp::take();
                let ghost told = events;
                let ghost times = stamps;
                proof {
                    events = told.push(event);
                    stamps = times.push(stamp);
                    assert(events.drop_last() =~= told);
                    assert(stamps.drop_last() =~= times);
                    assert forall|k: int| 0 <= k < events.len() implies is_next(
                        #[trigger] queue_after(whole, k as nat),
                        events[k],
                    ) by {
                        if k < told.len() {
                            assert(events[k] == told[k]);
                        } else {
                            assert(events[k] == event);
                        }
                    }
                    assert forall|k: int| 0 <= k < events.len() - 1 implies !((#[trigger] events[k]) is ProcessExited) by {
                        assert(events[k] == told[k]);
                        if k == told.len() - 1 {
                            assert(told.last() == told[k]);
                        }
                    }
                }
                keep = self.handle_driver_event(session_id, runtime, event, true, window_active, words, stamp);
            }
        }
        runtime.pending_events = queue;
        proof {
            assert(whole == old(runtime)@.pending_events);
            assert(is_run(old(runtime)@.pending_events, events, stamps));
            assert(live(*self, *runtime) == start.told(session_id, events, stamps, true, window_active, *words).queueing(
                queue_after(whole, events.len()),
            ));
        }
        (drained, keep)
    }
}

/// The deliveries of one session in a drain.
pub ghost struct Run {
    pub id: Uuid,
    pub events: Seq<DriverEvent>,
    pub stamps: Seq<Stamp>,
}

/// What a drain of several sessions has to do afterwards.
#[derive(Clone, Copy, Debug, PartialEq, Eq, Structural)]
pub struct Totals {
    pub changed: bool,
    pub persisted: bool,
    pub force_save: bool,
    pub selected_changed: bool,
}

impl DeskView {
    /// The session is drained: its runtime stays while its process is there.
    #[verifier::opaque]
    pub open spec fn ran(self, run: Run, window_active: bool, words: Wordings) -> DeskView {
        if !self.runtimes.dom().contains(run.id) {
            self
        } else {
            let runtime = self.runtimes[run.id];
            let told = Live {
                desk: DeskView { runtimes: self.runtimes.remove(run.id), ..self },
                runtime: RuntimeView { stream_remeasure_pending: false, ..runtime },
            }.emptied().told(run.id, run.events, run.stamps, true, window_active, words);
            if exits(run.events) {
                told.desk
            } else {
                DeskView {
                    runtimes: told.desk.runtimes.insert(
                        run.id,
                        RuntimeView {
                            pending_events: queue_after(runtime.pending_events, run.events.len()),
                            stream_remeasure_pending: notes(run.events).markdown_changed,
                            ..told.runtime
                        },
                    ),
                    ..told.desk
                }
            }
        }
    }

    /// What the drain of one session adds to what has to be done.
    pub open spec fn counted(self, totals: Totals, run: Run, window_active: bool, words: Wordings) -> Totals {
        if !self.runtimes.dom().contains(run.id) {
            totals
        } else {
            let done = notes(run.events);
            Totals {
                changed: totals.changed || done.runtime_changed || done.background_changed,
                persisted: totals.persisted || done.runtime_changed || done.background_persisted,
                force_save: totals.force_save || done.force_save || done.background_persisted,
                selected_changed: totals.selected_changed || (self.ran(run, window_active, words).selected(run.id) && (
                done.runtime_changed || self.runtimes[run.id].stream_remeasure_pending)),
            }
        }
    }

    /// The run is one of the session as it is now.
    pub open spec fn fits_run(self, run: Run) -> bool {
        self.runtimes.dom().contains(run.id) ==> is_run(self.runtimes[run.id].pending_events, run.events, run.stamps)
    }

    /// The sessions are drained one after the other.
    pub open spec fn all_ran(self, runs: Seq<Run>, window_active: bool, words: Wordings) -> DeskView
        decreases runs.len(),
    {
        if runs.len() == 0 {
            self
        } else {
            self.all_ran(runs.drop_last(), window_active, words).ran(runs.last(), window_active, words)
        }
    }

    /// What the drain of the sessions has to do afterwards.
    pub open spec fn totals(self, runs: Seq<Run>, window_active: bool, words: Wordings) -> Totals
        decreases runs.len(),
    {
        if runs.len() == 0 {
            Totals { changed: false, persisted: false, force_save: false, selected_changed: false }
        } else {
            self.all_ran(runs.drop_last(), window_active, words).counted(
                self.totals(runs.drop_last(), window_active, words),
                runs.last(),
                window_active,
                words,
            )
        }
    }

    /// Each run is one of its session at its time.
    pub open spec fn fits_runs(self, runs: Seq<Run>, window_active: bool, words: Wordings) -> bool
        decreases runs.len(),
    {
        runs.len() > 0 ==> self.fits_runs(runs.drop_last(), window_active, words) && self.all_ran(
            runs.drop_last(),
            window_active,
            words,
        ).fits_run(runs.last())
    }

    /// Queues whose drain was put off are drained, or put off again while the last
    /// checkpoint is on its way.
    pub open spec fn each_drained(self, ids: Seq<Uuid>, stamps: Seq<Stamp>, catalog: CatalogView) -> DeskView
        decreases ids.len(),
    {
        if ids.len() == 0 {
            self
        } else {
            let before = self.each_drained(ids.drop_last(), stamps.drop_last(), catalog);
            if before.ending_checkpoint_pending(ids.last()) {
                before.drain_deferred(ids.last())
            } else {
                before.queue_drained(ids.last(), catalog, stamps.last())
            }
        }
    }

    /// Every queue whose drain was put off is seen to.
    #[verifier::opaque]
    pub open spec fn drains_run(self, stamps: Seq<Stamp>, catalog: CatalogView) -> DeskView {
        DeskView { pending_queue_drains: Seq::empty(), ..self }.each_drained(self.pending_queue_drains, stamps, catalog)
    }

    /// What a drain leaves to be saved and drawn.
    pub open spec fn drain_settled(self, totals: Totals, save_due: bool) -> DeskView {
        let marked = DeskView { stream_state_dirty: self.stream_state_dirty || totals.persisted, ..self };
        marked.emit_if(totals.selected_changed, EffectView::RemeasureTail).emit_if(
            marked.stream_state_dirty && (totals.force_save || save_due),
            EffectView::Save,
        )
    }

    /// A whole drain.
    pub open spec fn pumped(
        self,
        runs: Seq<Run>,
        drains: Seq<Stamp>,
        window_active: bool,
        save_due: bool,
        words: Wordings,
        catalog: CatalogView,
    ) -> DeskView {
        self.all_ran(runs, window_active, words).drains_run(drains, catalog).drain_settled(
            self.totals(runs, window_active, words),
            save_due,
        )
    }

    /// A whole drain leads from here to there, in whatever order the sessions come;
    /// `changed` says whether it changed something. Every delivery, and every queue that was
    /// put off, has a stamp of its own.
    #[verifier::opaque]
    pub open spec fn drains_to(
        self,
        after: DeskView,
        changed: bool,
        window_active: bool,
        save_due: bool,
        words: Wordings,
        catalog: CatalogView,
    ) -> bool {
        exists|runs: Seq<Run>, drains: Seq<Stamp>|
            self.fits_runs(runs, window_active, words) && run_ids(runs).no_duplicates() && (forall|id: Uuid|
                run_ids(runs).contains(id) <==> #[trigger] self.runtimes.dom().contains(id)) && drains.len()
                == self.all_ran(runs, window_active, words).pending_queue_drains.len() && all_taken(drains) && after
                == #[trigger] self.pumped(runs, drains, window_active, save_due, words, catalog) && changed == (
            self.totals(runs, window_active, words).changed || self.totals(
                runs,
                window_active,
                words,
            ).selected_changed || self.all_ran(runs, window_active, words).pending_queue_drains.len() > 0)
    }
}

/// The ids of the runs.
pub open spec fn run_ids(runs: Seq<Run>) -> Seq<Uuid> {
    runs.map_values(|run: Run| run.id)
}

impl Desk {
    fn drain_session(
        &mut self,
        session_id: Uuid,
        totals: Totals,
        window_active: bool,
        words: &Wordings,
    ) -> (r: Totals)
        ensures
            exists|run: Run| #[trigger]
                old(self)@.fits_run(run) && run.id == session_id && final(self)@ == old(self)@.ran(
                    run,
                    window_active,
                    *words,
                ) && r == old(self)@.counted(totals, run, window_active, *words),
    {
        reveal(DeskView::ran);
        let mut runtime = match self.take_runtime(session_id) {
            Some(runtime) => runtime,
            None => {
                assert(self@.runtimes =~= old(self)@.runtimes);
                proof {
                    let run = Run { id: session_id, events: Seq::empty(), stamps: Seq::empty() };
                    assert(old(self)@.fits_run(run));
                }
                return totals;
            },
        };
        let ghost was = runtime@;
        let follow_up = runtime.stream_remeasure_pending;
        runtime.stream_remeasure_pending = false;
        let ghost begun = live(*self, runtime);
        let (drained, keep) = self.deliver(session_id, &mut runtime, window_active, words);
        let ghost (events, stamps): (Seq<DriverEvent>, Seq<Stamp>) = choose|events: Seq<DriverEvent>, stamps: Seq<Stamp>|
            #[trigger] is_run(was.pending_events, events, stamps) && live(*self, runtime) == begun.emptied().told(
                session_id,
                events,
                stamps,
                true,
                window_active,
                *words,
            ).queueing(queue_after(was.pending_events, events.len())) && drained == notes(events) && keep == !exits(events);
        let ghost run = Run { id: session_id, events, stamps };
        runtime.stream_remeasure_pending = drained.markdown_changed;
        if keep {
            self.put_runtime(session_id, runtime);
        }
        proof {
            assert(old(self)@.fits_run(run));
            assert(begun.desk == DeskView { runtimes: old(self)@.runtimes.remove(session_id), ..old(self)@ });
            assert(self@ == old(self)@.ran(run, window_active, *words));
        }
        Totals {
            changed: totals.changed || drained.runtime_changed || drained.background_changed,
            persisted: totals.persisted || drained.runtime_changed || drained.background_persisted,
            force_save: totals.force_save || drained.force_save || drained.background_persisted,
            selected_changed: totals.selected_changed || (self.is_selected(session_id) && (drained.runtime_changed
                || follow_up)),
        }
    }

    fn drain_sessions(&mut self, window_active: bool, words: &Wordings) -> (r: Totals)
        ensures
            exists|runs: Seq<Run>| #[trigger]
                old(self)@.fits_runs(runs, window_active, *words) && run_ids(runs).no_duplicates() && (forall|id: Uuid|
                    run_ids(runs).contains(id) <==> #[trigger] old(self)@.runtimes.dom().contains(id)) && final(self)@
                    == old(self)@.all_ran(runs, window_active, *words) && r == old(self)@.totals(
                    runs,
                    window_active,
                    *words,
                ),
    {
        let ids = self.runtimes.keys();
        let ghost mut runs: Seq<Run> = Seq::empty();
        let mut totals = Totals { changed: false, persisted: false, force_save: false, selected_changed: false };
        let mut i: usize = 0;
        assert(run_ids(runs) =~= ids@.take(0));
        while i < ids.len()
            invariant
                i <= ids@.len(),
                run_ids(runs) == ids@.take(i as int),
                runs.len() == i,
                old(self)@.fits_runs(runs, window_active, *words),
                self@ == old(self)@.all_ran(runs, window_active, *words),
                totals == old(self)@.totals(runs, window_active, *words),
            decreases ids@.len() - i,
        {
            let ghost before = self@;
            let ghost counted = totals;
            totals = self.drain_session(ids[i], totals, window_active, words);
            proof {
                let run = choose|run: Run| #[trigger]
                    before.fits_run(run) && run.id == ids@[i as int] && self@ == before.ran(run, window_active, *words)
                        && totals == before.counted(counted, run, window_active, *words);
                let longer = runs.push(run);
                assert(longer.drop_last() =~= runs);
                assert(run_ids(longer) =~= ids@.take(i + 1));
                runs = longer;
            }
            i = i + 1;
        }
        proof {
            assert(ids@.take(i as int) =~= ids@);
            assert forall|id: Uuid| run_ids(runs).contains(id) <==> #[trigger] old(self)@.runtimes.dom().contains(id) by {
                assert(runtime_views(old(self).runtimes@).dom().contains(id) == old(self).runtimes@.dom().contains(id));
            }
        }
        totals
    }

    fn run_drains(&mut self, catalog: &Catalog) -> (r: bool)
        ensures
            exists|stamps: Seq<Stamp>|
                stamps.len() == old(self)@.pending_queue_drains.len() && all_taken(stamps) && final(self)@
                    == #[trigger] old(self)@.drains_run(stamps, catalog@),
            r == (old(self)@.pending_queue_drains.len() > 0),
    {
        reveal(DeskView::drains_run);
        let mut ids: Vec<Uuid> = Vec::new();
        std::mem::swap(&mut ids, &mut self.pending_queue_drains);
        let ghost start = self@;
        let ghost mut stamps: Seq<Stamp> = Seq::empty();
        let mut i: usize = 0;
        proof {
            assert(start.pending_queue_drains =~= Seq::empty());
            assert(ids@.take(0) =~= Seq::empty());
        }
        while i < ids.len()
            invariant
                i <= ids@.len(),
                stamps.len() == i,
                all_taken(stamps),
                self@ == start.each_drained(ids@.take(i as int), stamps, catalog@),
            decreases ids@.len() - i,
        {
            let id = ids[i];
            let stamp = Stamp::take();
            let ghost times = stamps;
            proof {
                assert(ids@.take(i + 1).drop_last() =~= ids@.take(i as int));
                stamps = times.push(stamp);
                assert(stamps.drop_last() =~= times);
            }
            if self.ending_checkpoint_pending(id) {
                self.defer_queue_drain(id);
            } else {
                self.drain_queued_message(id, catalog, stamp);
            }
            i = i + 1;
        }
        proof {
            assert(ids@.take(i as int) =~= ids@);
            assert(self@ == old(self)@.drains_run(stamps, catalog@));
        }
        ids.len() > 0
    }

    fn settle_drain(&mut self, totals: Totals, save_due: bool)
        ensures
            final(self)@ == old(self)@.drain_settled(totals, save_due),
    {
        if totals.persisted {
            self.stream_state_dirty = true;
        }
        if totals.selected_changed {
            self.emit(Effect::RemeasureTail);
        }
        if self.stream_state_dirty && (totals.force_save || save_due) {
            self.emit(Effect::Save);
        }
    }

    /// Delivers what every provider reported, then drains the queues that were put off;
    /// whether anything changed. `save_due` says that the state was last written long
    /// enough ago.
    pub fn drain_driver_events(&mut self, window_active: bool, save_due: bool, words: &Wordings, catalog: &Catalog) -> (r: bool)
        ensures
            old(self)@.drains_to(final(self)@, r, window_active, save_due, *words, catalog@),
    {
        let totals = self.drain_sessions(window_active, words);
        let ghost ran = self@;
        let ghost runs = choose|runs: Seq<Run>| #[trigger]
            old(self)@.fits_runs(runs, window_active, *words) && run_ids(runs).no_duplicates() && (forall|id: Uuid|
                run_ids(runs).contains(id) <==> #[trigger] old(self)@.runtimes.dom().contains(id)) && ran
                == old(self)@.all_ran(runs, window_active, *words) && totals == old(self)@.totals(
                runs,
                window_active,
                *words,
            );
        let drained = self.run_drains(catalog);
        let ghost drains = choose|stamps: Seq<Stamp>|
            stamps.len() == ran.pending_queue_drains.len() && all_taken(stamps) && self@ == #[trigger] ran.drains_run(stamps, catalog@);
        self.settle_drain(totals, save_due);
        proof {
            reveal(DeskView::drains_to);
            assert(self@ == old(self)@.pumped(runs, drains, window_active, save_due, *words, catalog@));
        }
        totals.changed || drained || totals.selected_changed
    }
}

} // verus!
