//! What a provider's reports come to, whatever else stands on the desk: what a turn leaves
//! behind, what the user is asked, and what is recorded of the session.
use vstd::prelude::*;

use crate::desk::{
    lemma_put_get, lemma_session_id, wording, EffectView, PendingPermission, PendingUserInput, ProviderRetry,
    RuntimeView, TextView,
};
use crate::driver_step::Wordings;
use crate::events::{DriverEvent, PermissionOption, UserQuestion};
use crate::ids::{Stamp, Uuid};
use crate::live::{DeskView, Live};
use crate::model::{
    provider_resume_cursor_opt, AgentSessionView, CompactionStateView, CompactionStatus, MessageRole, MessageView,
    SessionStatus, TurnStats, TurnStatus, TurnView,
};
use crate::text::{blank, opt, texts, trimmed};
use crate::text_parts::{blank_before, filled};

verus! {

/// A turn of the session runs.
pub open spec fn running(s: AgentSessionView) -> bool {
    s.turns.len() > 0 && s.turns.last().status == TurnStatus::Running
}

/// The session is connecting, working, or waiting for an answer.
pub open spec fn engaged(s: AgentSessionView) -> bool {
    s.status == SessionStatus::Connecting || s.status == SessionStatus::Working || s.status == SessionStatus::Waiting
}

/// The session is there, a turn of it runs, and its submission is prepared.
pub open spec fn in_turn(desk: DeskView, id: Uuid) -> bool {
    &&& !desk.submission_preparations.contains(id)
    &&& desk.session(id) matches Some(s) && running(s) && engaged(s)
}

/// Output of a provider enters a session exactly while a turn of it runs that was prepared,
/// and the session is connecting, working or waiting.
pub proof fn output_is_taken_while_a_turn_runs(desk: DeskView, id: Uuid)
    ensures
        desk.accepts_turn_output(id) == in_turn(desk, id),
{
}

proof fn lemma_closed_session(desk: DeskView, id: Uuid, stamp: Stamp)
    requires
        desk.session(id) is Some,
        running(desk.session(id)->0),
    ensures
        ({
            let s = desk.session(id)->0;
            let t = desk.closed(id, stamp).session(id);
            &&& t is Some
            &&& t->0.turns == s.turns
            &&& t->0.id == id
            &&& t->0.project_id == s.project_id
            &&& t->0.workspace == s.workspace
            &&& t->0.queued_messages == s.queued_messages
            &&& desk.closed(id, stamp) == (DeskView {
                state: desk.closed(id, stamp).state,
                effects: desk.effects.push(EffectView::RebuildTodoSummary(id)),
                ..desk
            })
            &&& desk.closed(id, stamp).state.selected_session == desk.state.selected_session
            &&& desk.closed(id, stamp).state.projects == desk.state.projects
            &&& calm(t->0)
            &&& kept_of(s, t->0)
        }),
{
    let s = desk.session(id)->0;
    lemma_session_id(desk.state, id);
    let a = crate::text_parts::streams_stopped(s);
    lemma_put_get(desk.state, id, a);
    let stopped = desk.streams_stopped(id);
    let b = crate::activities::blocks_completed(a);
    lemma_put_get(stopped.state, id, b);
    let complete = stopped.blocks_completed(id);
    let c = crate::text_parts::blanks_dropped(b, stamp);
    lemma_put_get(complete.state, id, c);
    lemma_kept(s, stamp);
}

/// Nothing of the session is under way: no reply streams, and every activity is complete.
pub open spec fn calm(s: AgentSessionView) -> bool {
    &&& forall|k: int|
        0 <= k < s.messages.len() && (#[trigger] s.messages[k]).role == MessageRole::Assistant ==> !s.messages[k].streaming
    &&& forall|b: int, a: int|
        0 <= b < s.transcript_blocks.len() && 0 <= a < s.transcript_blocks[b].activities.len()
            ==> (#[trigger] s.transcript_blocks[b].activities[a]).complete
}

/// A message with nothing in it that the running turn of the session reserved.
pub open spec fn hollow(s: AgentSessionView, m: MessageView) -> bool {
    m.role == MessageRole::Assistant && m.turn_id == Some(s.turns.last().id) && blank(m.content)
}

/// One message says what another does, whether or not more of it may come.
pub open spec fn says_the_same(a: MessageView, b: MessageView) -> bool {
    a == (MessageView { streaming: a.streaming, ..b })
}

/// What a session said, another still says: every message that is not a hollow one is there,
/// and none came to it.
pub open spec fn kept_of(before: AgentSessionView, after: AgentSessionView) -> bool {
    &&& after.messages.len() <= before.messages.len()
    &&& forall|k: int|
        0 <= k < before.messages.len() && !hollow(before, #[trigger] before.messages[k]) ==> exists|j: int|
            0 <= j < after.messages.len() && says_the_same(#[trigger] after.messages[j], before.messages[k])
    &&& forall|j: int|
        0 <= j < after.messages.len() ==> !hollow(before, #[trigger] after.messages[j]) && exists|k: int|
            0 <= k < before.messages.len() && says_the_same(after.messages[j], #[trigger] before.messages[k])
}

proof fn lemma_filled(messages: Seq<MessageView>, turn: Uuid, k: int)
    requires
        0 <= k <= messages.len(),
    ensures
        filled(messages, turn, k).len() <= k,
        forall|i: int|
            0 <= i < k && !crate::text_parts::blank_reply(#[trigger] messages[i], turn) ==> filled(messages, turn, k).contains(
                messages[i],
            ),
        forall|j: int|
            0 <= j < filled(messages, turn, k).len() ==> !crate::text_parts::blank_reply(
                #[trigger] filled(messages, turn, k)[j],
                turn,
            ) && messages.contains(filled(messages, turn, k)[j]),
        blank_before(messages, turn, k) == 0 ==> filled(messages, turn, k) == messages.take(k),
        blank_before(messages, turn, k) >= 0,
    decreases k,
{
    if k > 0 {
        lemma_filled(messages, turn, k - 1);
        let before = filled(messages, turn, k - 1);
        let after = filled(messages, turn, k);
        assert forall|i: int|
            0 <= i < k && !crate::text_parts::blank_reply(#[trigger] messages[i], turn) implies after.contains(
            messages[i],
        ) by {
            if i < k - 1 {
                let j = before.index_of(messages[i]);
                assert(after[j] == messages[i]);
            } else {
                assert(after[before.len() as int] == messages[i]);
            }
        }
        if blank_before(messages, turn, k) == 0 {
            assert(messages.take(k - 1).push(messages[k - 1]) =~= messages.take(k));
        }
    } else {
        assert(messages.take(0) =~= Seq::empty());
    }
}

proof fn lemma_kept(s: AgentSessionView, stamp: Stamp)
    requires
        running(s),
    ensures
        ({
            let t = crate::text_parts::blanks_dropped(
                crate::activities::blocks_completed(crate::text_parts::streams_stopped(s)),
                stamp,
            );
            calm(t) && kept_of(s, t)
        }),
{
    let a = crate::text_parts::streams_stopped(s);
    let b = crate::activities::blocks_completed(a);
    let turn = s.turns.last().id;
    let n = b.messages.len() as int;
    let t = crate::text_parts::blanks_dropped(b, stamp);
    lemma_filled(b.messages, turn, n);
    assert(b.messages.take(n) =~= b.messages);
    assert(t.messages == filled(b.messages, turn, n));
    assert forall|k: int| 0 <= k < s.messages.len() && !hollow(s, #[trigger] s.messages[k]) implies exists|j: int|
        0 <= j < t.messages.len() && says_the_same(#[trigger] t.messages[j], s.messages[k]) by {
        assert(says_the_same(b.messages[k], s.messages[k]));
        let j = t.messages.index_of(b.messages[k]);
        assert(says_the_same(t.messages[j], s.messages[k]));
    }
    assert forall|j: int| 0 <= j < t.messages.len() implies !hollow(s, #[trigger] t.messages[j]) && exists|k: int|
        0 <= k < s.messages.len() && says_the_same(t.messages[j], #[trigger] s.messages[k]) by {
        let k = b.messages.index_of(t.messages[j]);
        assert(b.messages[k] == crate::text_parts::stopped(s.messages[k]));
        assert(says_the_same(t.messages[j], s.messages[k]));
    }
    assert forall|k: int|
        0 <= k < t.messages.len() && (#[trigger] t.messages[k]).role == MessageRole::Assistant implies !t.messages[k].streaming by {
        let j = b.messages.index_of(t.messages[k]);
        assert(b.messages[j] == crate::text_parts::stopped(s.messages[j]));
    }
    assert forall|x: int, y: int|
        0 <= x < t.transcript_blocks.len() && 0 <= y < t.transcript_blocks[x].activities.len() implies (
    #[trigger] t.transcript_blocks[x].activities[y]).complete by {
        assert(t.transcript_blocks[x].activities == b.transcript_blocks[x].activities);
        assert(b.transcript_blocks[x].activities[y] == crate::activities::completed(
            s.transcript_blocks[x].activities[y],
        ));
    }
}

/// The turn that ran is over: it ended as `status` says, now, and no other turn changed.
pub open spec fn turn_ended(before: AgentSessionView, after: AgentSessionView, status: TurnStatus, stamp: Stamp) -> bool {
    &&& after.turns.len() == before.turns.len()
    &&& after.turns.drop_last() == before.turns.drop_last()
    &&& after.turns.last() == (TurnView { status, completed_at: Some(stamp.secs), ..before.turns.last() })
    &&& after.last_reply_at == Some(stamp.secs)
}

/// The running turn said something.
pub open spec fn replied(s: AgentSessionView) -> bool {
    exists|k: int|
        0 <= k < s.messages.len() && (#[trigger] s.messages[k]).role == MessageRole::Assistant && s.messages[k].turn_id
            == Some(s.turns.last().id) && !blank(s.messages[k].content)
}

/// A session says the same as another and then one thing more, as the reply of its turn.
pub open spec fn replies_with(before: AgentSessionView, after: AgentSessionView, text: Seq<char>) -> bool {
    &&& after.messages.len() > 0
    &&& after.messages.last().role == MessageRole::Assistant
    &&& after.messages.last().content == text
    &&& after.messages.last().turn_id == Some(before.turns.last().id)
    &&& !after.messages.last().streaming
    &&& kept_of(before, AgentSessionView { messages: after.messages.drop_last(), ..after })
}

proof fn lemma_answered(before: AgentSessionView, after: AgentSessionView)
    requires
        running(before),
        after.turns == before.turns,
        kept_of(before, after),
    ensures
        crate::text_parts::answered(after) == replied(before),
{
    if replied(before) {
        let k = choose|k: int|
            0 <= k < before.messages.len() && (#[trigger] before.messages[k]).role == MessageRole::Assistant
                && before.messages[k].turn_id == Some(before.turns.last().id) && !blank(before.messages[k].content);
        assert(!hollow(before, before.messages[k]));
        let j = choose|j: int|
            0 <= j < after.messages.len() && says_the_same(#[trigger] after.messages[j], before.messages[k]);
        assert(after.messages[j].role == MessageRole::Assistant);
    }
    if crate::text_parts::answered(after) {
        let j = choose|j: int|
            0 <= j < after.messages.len() && #[trigger] after.messages[j].role == MessageRole::Assistant
                && after.messages[j].turn_id == Some(before.turns.last().id) && !blank(after.messages[j].content);
        let k = choose|k: int|
            0 <= k < before.messages.len() && says_the_same(after.messages[j], #[trigger] before.messages[k]);
        assert(before.messages[k].role == MessageRole::Assistant);
    }
}

/// The desk once the turn has been closed, told of and settled.
spec fn ended_desk(begun: DeskView, id: Uuid, success: bool, text: Seq<char>, stamp: Stamp) -> DeskView {
    let closed = begun.closed(id, stamp);
    closed.outcome(
        id,
        if success {
            SessionStatus::Idle
        } else {
            SessionStatus::Failed
        },
        closed.fallback(id, text),
        stamp,
    ).turn_finished(
        id,
        if success {
            TurnStatus::Completed
        } else {
            TurnStatus::Failed
        },
        stamp,
    )
}

/// What is said at the end of a turn that said nothing.
spec fn last_words(success: bool, summary: Option<Seq<char>>, words: Wordings) -> Seq<char> {
    match summary {
        Some(text) => text,
        None => if success {
            words.turn_completed@
        } else {
            words.stopped_before_response@
        },
    }
}

/// The session of a turn that ended, against what it was.
spec fn well_ended(s: AgentSessionView, t: AgentSessionView, success: bool, text: Seq<char>, stamp: Stamp) -> bool {
    &&& t.status == (if success {
        SessionStatus::Idle
    } else {
        SessionStatus::Failed
    })
    &&& turn_ended(
        s,
        t,
        if success {
            TurnStatus::Completed
        } else {
            TurnStatus::Failed
        },
        stamp,
    )
    &&& calm(t)
    &&& if replied(s) {
        kept_of(s, t)
    } else {
        replies_with(s, t, text)
    }
    &&& t.queued_messages == s.queued_messages
    &&& t.project_id == s.project_id
    &&& t.workspace == s.workspace
}

proof fn lemma_told(s: AgentSessionView, c: AgentSessionView, success: bool, text: Seq<char>, stamp: Stamp)
    requires
        running(s),
        c.turns == s.turns,
        c.queued_messages == s.queued_messages,
        c.project_id == s.project_id,
        c.workspace == s.workspace,
        calm(c),
        kept_of(s, c),
    ensures
        ({
            let status = if success {
                SessionStatus::Idle
            } else {
                SessionStatus::Failed
            };
            let ended = if success {
                TurnStatus::Completed
            } else {
                TurnStatus::Failed
            };
            let fallback = if replied(s) {
                None
            } else {
                Some(text)
            };
            let f = c.with_outcome(status, fallback, stamp).with_turn_finished(ended, stamp);
            well_ended(s, f, success, text, stamp) && f.id == c.id
        }),
{
    let status = if success {
        SessionStatus::Idle
    } else {
        SessionStatus::Failed
    };
    let ended = if success {
        TurnStatus::Completed
    } else {
        TurnStatus::Failed
    };
    let fallback = if replied(s) {
        None
    } else {
        Some(text)
    };
    let f = c.with_outcome(status, fallback, stamp).with_turn_finished(ended, stamp);
    assert(f.turns.drop_last() =~= s.turns.drop_last());
    if fallback is Some {
        assert(f.messages.drop_last() =~= c.messages);
        assert(kept_of(s, AgentSessionView { messages: f.messages.drop_last(), ..f }));
        assert forall|k: int|
            0 <= k < f.messages.len() && (#[trigger] f.messages[k]).role == MessageRole::Assistant implies !f.messages[k].streaming by {
            if k < c.messages.len() {
                assert(f.messages[k] == c.messages[k]);
            }
        }
    }
}

proof fn lemma_ended(begun: DeskView, id: Uuid, success: bool, text: Seq<char>, stamp: Stamp)
    requires
        begun.session(id) is Some,
        running(begun.session(id)->0),
    ensures
        ({
            let settled = ended_desk(begun, id, success, text, stamp);
            &&& settled.session(id) is Some
            &&& settled.session(id)->0.id == id
            &&& well_ended(begun.session(id)->0, settled.session(id)->0, success, text, stamp)
            &&& settled == (DeskView {
                state: settled.state,
                effects: begun.effects.push(EffectView::RebuildTodoSummary(id)),
                ..begun
            })
            &&& settled.state.selected_session == begun.state.selected_session
            &&& settled.state.projects == begun.state.projects
        }),
{
    let s = begun.session(id)->0;
    lemma_closed_session(begun, id, stamp);
    let closed = begun.closed(id, stamp);
    let c = closed.session(id)->0;
    lemma_answered(s, c);
    lemma_told(s, c, success, text, stamp);
    let status = if success {
        SessionStatus::Idle
    } else {
        SessionStatus::Failed
    };
    let ended = if success {
        TurnStatus::Completed
    } else {
        TurnStatus::Failed
    };
    let fallback = closed.fallback(id, text);
    let o = c.with_outcome(status, fallback, stamp);
    lemma_put_get(closed.state, id, o);
    let told = closed.outcome(id, status, fallback, stamp);
    lemma_put_get(told.state, id, o.with_turn_finished(ended, stamp));
}

proof fn lemma_reported_over(
    live: Live,
    id: Uuid,
    success: bool,
    summary: Option<Seq<char>>,
    allow_queue_drain: bool,
    window_active: bool,
    words: Wordings,
    stamp: Stamp,
)
    requires
        live.desk.session(id) is Some,
        running(live.desk.session(id)->0),
    ensures
        ({
            let begun = live.desk.emit(EffectView::SettleForegroundWork { session_id: id, completed: success });
            let settled = ended_desk(begun, id, success, last_words(success, summary, words), stamp);
            let shown = settled.handed_over(id, allow_queue_drain && success).spliced(id);
            live.turn_over(id, success, summary, allow_queue_drain, window_active, words, stamp) == Live {
                desk: if !window_active {
                    shown.emit(
                        EffectView::TaskNotification {
                            session_id: id,
                            title: begun.notice_title(id)->0,
                            body: wording(
                                if success {
                                    "session.turn_completed"
                                } else {
                                    "session.stopped"
                                },
                            ),
                        },
                    )
                } else {
                    shown
                },
                runtime: RuntimeView {
                    pending_permission: None,
                    pending_user_input: None,
                    last_driver_error: None,
                    ..live.runtime.stream_cleared()
                },
            }
        }),
{
}

/// A turn that a provider reports as over has ended: as completed, with the session idle, or
/// as failed, with the session failed. Nothing of it streams or is under way any more, nothing
/// that was said is lost, and a turn that said nothing says how it ended. The queue goes on by
/// itself exactly after a turn that succeeded, where it may; else it stays in the user's
/// hands. No question of the turn is left open.
pub proof fn turns_end_as_reported(
    live: Live,
    id: Uuid,
    success: bool,
    summary: Option<Seq<char>>,
    allow_queue_drain: bool,
    window_active: bool,
    words: Wordings,
    stamp: Stamp,
)
    requires
        live.desk.session(id) matches Some(s) && running(s),
    ensures
        ({
            let s = live.desk.session(id)->0;
            let after = live.turn_over(id, success, summary, allow_queue_drain, window_active, words, stamp);
            let t = after.desk.session(id)->0;
            let text = match summary {
                Some(text) => text,
                None => if success {
                    words.turn_completed@
                } else {
                    words.stopped_before_response@
                },
            };
            &&& after.desk.session(id) is Some
            &&& t.status == (if success {
                SessionStatus::Idle
            } else {
                SessionStatus::Failed
            })
            &&& turn_ended(
                s,
                t,
                if success {
                    TurnStatus::Completed
                } else {
                    TurnStatus::Failed
                },
                stamp,
            )
            &&& calm(t)
            &&& if replied(s) {
                kept_of(s, t)
            } else {
                replies_with(s, t, text)
            }
            &&& t.queued_messages == s.queued_messages
            &&& after.desk.pending_queue_drains == (if success && allow_queue_drain {
                live.desk.pending_queue_drains.push(id)
            } else {
                live.desk.pending_queue_drains
            })
            &&& after.runtime.pending_permission is None
            &&& after.runtime.pending_user_input is None
            &&& after.runtime.last_driver_error is None
            &&& after.runtime.open_text == Map::<Seq<char>, Uuid>::empty()
            &&& after.runtime.open_reasoning == Map::<Seq<char>, Uuid>::empty()
            &&& after.runtime.stream_phase is None
            &&& after.runtime.pending_steers == live.runtime.pending_steers
        }),
{
    let begun = live.desk.emit(EffectView::SettleForegroundWork { session_id: id, completed: success });
    lemma_reported_over(live, id, success, summary, allow_queue_drain, window_active, words, stamp);
    lemma_ended(begun, id, success, last_words(success, summary, words), stamp);
}

/// Where a turn is reported as over, the checkpoint that ends it is on its way, as long as
/// the session's project is there.
pub proof fn ended_turns_are_captured(
    live: Live,
    id: Uuid,
    success: bool,
    summary: Option<Seq<char>>,
    allow_queue_drain: bool,
    window_active: bool,
    words: Wordings,
    stamp: Stamp,
)
    requires
        live.desk.session(id) matches Some(s) && running(s) && live.desk.state.project(s.project_id) is Some,
    ensures
        ({
            let after = live.turn_over(id, success, summary, allow_queue_drain, window_active, words, stamp).desk;
            let count = live.desk.session(id)->0.turns.last().turn_count;
            after.checkpoint_captures_in_flight.contains((id, count)) || exists|i: int|
                0 <= i < after.pending_checkpoint_captures.len() && (#[trigger] after.pending_checkpoint_captures[i]).session_id
                    == id && after.pending_checkpoint_captures[i].turn_count == count
        }),
{
    let begun = live.desk.emit(EffectView::SettleForegroundWork { session_id: id, completed: success });
    lemma_reported_over(live, id, success, summary, allow_queue_drain, window_active, words, stamp);
    lemma_ended(begun, id, success, last_words(success, summary, words), stamp);
    let settled = ended_desk(begun, id, success, last_words(success, summary, words), stamp);
    let after = live.turn_over(id, success, summary, allow_queue_drain, window_active, words, stamp).desk;
    let f = settled.session(id)->0;
    let count = live.desk.session(id)->0.turns.last().turn_count;
    assert(f.turns.last().turn_count == count);
    assert(settled.state.workspace_path(f) is Some);
    if !settled.checkpoint_pending(id, count) {
        assert(after.pending_checkpoint_captures[settled.pending_checkpoint_captures.len() as int].session_id == id);
    } else if !settled.checkpoint_captures_in_flight.contains((id, count)) {
        let i = choose|i: int|
            0 <= i < settled.pending_checkpoint_captures.len() && #[trigger] settled.pending_checkpoint_captures[i].session_id
                == id && settled.pending_checkpoint_captures[i].turn_count == count;
        assert(after.pending_checkpoint_captures[i].session_id == id);
    }
}

/// A turn that ends while the window is not in front is told by a notification about that
/// session, which says how it ended; else nothing is notified.
pub proof fn unwatched_turns_are_notified(
    live: Live,
    id: Uuid,
    success: bool,
    summary: Option<Seq<char>>,
    allow_queue_drain: bool,
    window_active: bool,
    words: Wordings,
    stamp: Stamp,
)
    requires
        live.desk.session(id) matches Some(s) && running(s),
    ensures
        ({
            let after = live.turn_over(id, success, summary, allow_queue_drain, window_active, words, stamp).desk;
            let n = live.desk.effects.len() as int;
            &&& n < after.effects.len()
            &&& after.effects.take(n) == live.desk.effects
            &&& after.effects[n] == (EffectView::SettleForegroundWork { session_id: id, completed: success })
            &&& forall|k: int|
                n <= k < after.effects.len() && (#[trigger] after.effects[k]) is TaskNotification ==> !window_active && k
                    == after.effects.len() - 1
            &&& !window_active ==> (after.effects.last() matches EffectView::TaskNotification { session_id, body, .. }
                && session_id == id && body == wording(
                if success {
                    "session.turn_completed"
                } else {
                    "session.stopped"
                },
            ))
        }),
{
    let begun = live.desk.emit(EffectView::SettleForegroundWork { session_id: id, completed: success });
    lemma_reported_over(live, id, success, summary, allow_queue_drain, window_active, words, stamp);
    lemma_ended(begun, id, success, last_words(success, summary, words), stamp);
    let after = live.turn_over(id, success, summary, allow_queue_drain, window_active, words, stamp).desk;
    assert(after.effects.take(live.desk.effects.len() as int) =~= live.desk.effects);
}

/// The end of a turn that is over already leaves the session, the queue and what is asked of
/// the user as they are.
pub proof fn late_ends_change_nothing(
    live: Live,
    id: Uuid,
    success: bool,
    summary: Option<Seq<char>>,
    allow_queue_drain: bool,
    window_active: bool,
    words: Wordings,
    stamp: Stamp,
)
    requires
        live.desk.session(id) matches Some(s) ==> !running(s),
    ensures
        ({
            let after = live.turn_over(id, success, summary, allow_queue_drain, window_active, words, stamp);
            &&& after.desk == (DeskView { effects: after.desk.effects, ..live.desk })
            &&& after.runtime == (RuntimeView {
                last_driver_error: None,
                ..live.runtime
            })
        }),
{
}

/// A request for permission in a running turn waits for the user, with all that it says, and
/// so does the session. Outside a turn it is not asked.
pub proof fn permissions_wait_for_the_user(
    live: Live,
    id: Uuid,
    request_id: String,
    title: String,
    detail: Option<String>,
    options: Vec<PermissionOption>,
)
    ensures
        ({
            let permission = PendingPermission { request_id, title, detail, options };
            let after = live.permission_asked(id, permission);
            if in_turn(live.desk, id) {
                &&& after.runtime.pending_permission == Some(permission)
                &&& after.desk.session(id) == Some(
                    AgentSessionView { status: SessionStatus::Waiting, ..live.desk.session(id)->0 },
                )
                &&& after.runtime.pending_user_input == live.runtime.pending_user_input
            } else {
                after == live
            }
        }),
{
    if live.desk.session(id) is Some {
        lemma_session_id(live.desk.state, id);
        let s = live.desk.session(id)->0;
        lemma_put_get(live.desk.state, id, AgentSessionView { status: SessionStatus::Waiting, ..s });
    }
}

/// Questions that the agent asks in a running turn wait for the user, however many they are,
/// and so does the session. Without a question, or outside a turn, nothing is asked.
pub proof fn questions_wait_for_the_user(
    live: Live,
    id: Uuid,
    request_id: String,
    questions: Vec<UserQuestion>,
)
    ensures
        ({
            let input = PendingUserInput { request_id, questions };
            let after = live.input_asked(id, input);
            if in_turn(live.desk, id) && questions@.len() != 0 {
                &&& after.runtime.pending_user_input == Some(input)
                &&& after.desk.session(id) == Some(
                    AgentSessionView { status: SessionStatus::Waiting, ..live.desk.session(id)->0 },
                )
                &&& after.runtime.pending_permission == live.runtime.pending_permission
                &&& live.desk.state.selected_session == Some(id) ==> after.desk.effects == live.desk.effects.push(
                    EffectView::ClearUserInputAnswer,
                )
            } else {
                after == live
            }
        }),
{
    if live.desk.session(id) is Some {
        lemma_session_id(live.desk.state, id);
        let s = live.desk.session(id)->0;
        lemma_put_get(live.desk.state, id, AgentSessionView { status: SessionStatus::Waiting, ..s });
    }
}

/// A message that the provider took into the running turn stands last in the transcript, as
/// the user's, with what was shown of it; one message fewer waits to be taken.
pub proof fn steered_messages_enter_the_transcript(
    live: Live,
    id: Uuid,
    message: Seq<char>,
    stamp: Stamp,
)
    requires
        live.desk.session(id) is Some,
    ensures
        ({
            let s = live.desk.session(id)->0;
            let after = live.steer_accepted(id, message, stamp);
            let t = after.desk.session(id)->0;
            let steers = live.runtime.pending_steers;
            &&& after.desk.session(id) is Some
            &&& t.messages.len() == s.messages.len() + 1
            &&& t.messages.drop_last() == s.messages
            &&& t.messages.last().role == MessageRole::User
            &&& t.messages.last().content == message
            &&& running(s) ==> t.messages.last().turn_id == Some(s.turns.last().id)
            &&& t.queued_messages == s.queued_messages && t.turns == s.turns && t.status == s.status
            &&& after.runtime.pending_steers.len() == (if steers.len() > 0 {
                steers.len() - 1
            } else {
                0
            })
            &&& (forall|k: int| 0 <= k < steers.len() ==> (#[trigger] steers[k]).prompt != message) && steers.len() > 0
                ==> t.messages.last().display_content == steers[0].display_content && t.messages.last().attachments
                == steers[0].attachments
            &&& (exists|k: int| 0 <= k < steers.len() && (#[trigger] steers[k]).prompt == message) ==> exists|k: int|
                0 <= k < steers.len() && (#[trigger] steers[k]).prompt == message && t.messages.last().display_content
                    == steers[k].display_content && t.messages.last().attachments == steers[k].attachments
        }),
{
    lemma_session_id(live.desk.state, id);
    let s = live.desk.session(id)->0;
    let steers = live.runtime.pending_steers;
    lemma_first_steer(steers, message);
    let (submission, rest) = crate::driver_step::steer_taken(steers, message);
    let t = s.with_steer(message, submission, stamp);
    lemma_put_get(live.desk.state, id, t);
    assert(t.messages.drop_last() =~= s.messages);
    if let Some(k) = crate::driver_step::first_steer(steers, message) {
        assert(steers[k].prompt == message);
    }
}

proof fn lemma_first_steer(steers: Seq<crate::desk::ComposerSubmissionView>, message: Seq<char>)
    ensures
        match crate::driver_step::first_steer(steers, message) {
            Some(i) => 0 <= i < steers.len() && steers[i].prompt == message,
            None => forall|k: int| 0 <= k < steers.len() ==> (#[trigger] steers[k]).prompt != message,
        },
    decreases steers.len(),
{
    if steers.len() > 0 {
        let rest = steers.drop_first();
        lemma_first_steer(rest, message);
        if crate::driver_step::first_steer(steers, message) is None {
            assert forall|k: int| 0 <= k < steers.len() implies (#[trigger] steers[k]).prompt != message by {
                if k > 0 {
                    assert(rest[k - 1] == steers[k]);
                }
            }
        }
    }
}

/// A message that the provider would not take into the turn is not lost: it waits in the
/// queue of the session, behind what waits there, or before it where the last turn is
/// completed and nothing runs. Only in that case, and where it may, does the queue go on.
pub proof fn refused_messages_wait(
    live: Live,
    id: Uuid,
    message: Seq<char>,
    reason: Seq<char>,
    allow_queue_drain: bool,
    stamp: Stamp,
)
    requires
        live.desk.session(id) is Some,
        live.runtime.pending_steers.len() == 0,
        trimmed(message) == message && message.len() > 0,
    ensures
        ({
            let s = live.desk.session(id)->0;
            let after = live.steer_rejected(id, message, reason, allow_queue_drain, stamp);
            let t = after.desk.session(id)->0;
            let first = !engaged(s) && s.turns.len() > 0 && s.turns.last().status == TurnStatus::Completed;
            &&& after.desk.session(id) is Some
            &&& t.queued_messages.len() == s.queued_messages.len() + 1
            &&& t.messages == s.messages && t.turns == s.turns && t.status == s.status
            &&& if first {
                &&& t.queued_messages[0].prompt == message
                &&& t.queued_messages.drop_first() == s.queued_messages
                &&& after.desk.pending_queue_drains == (if allow_queue_drain {
                    live.desk.pending_queue_drains.push(id)
                } else {
                    live.desk.pending_queue_drains
                })
            } else {
                &&& t.queued_messages.last().prompt == message
                &&& t.queued_messages.drop_last() == s.queued_messages
                &&& after.desk.pending_queue_drains == live.desk.pending_queue_drains
            }
        }),
{
    lemma_session_id(live.desk.state, id);
    let s = live.desk.session(id)->0;
    let steers = live.runtime.pending_steers;
    lemma_first_steer(steers, message);
    let (submission, rest) = crate::driver_step::steer_taken(steers, message);
    let front = AgentSessionView {
        queued_messages: s.queued_messages.insert(0, submission.queued(stamp.id)),
        ..s
    };
    lemma_put_get(live.desk.state, id, front);
    assert(front.queued_messages.drop_first() =~= s.queued_messages);
    let behind = AgentSessionView {
        updated_at: stamp.secs,
        ..s.with_queued(
            crate::desk::ComposerSubmissionView { prompt: trimmed(submission.prompt), ..submission }.queued(stamp.id),
        )
    };
    lemma_put_get(live.desk.state, id, behind);
    assert(behind.queued_messages.drop_last() =~= s.queued_messages);
}

/// A steering message that is refused is queued as it was submitted, with what was shown of it
/// and its attachments, and is no longer one that waits for the provider's answer; the others
/// that wait stay in their order.
pub proof fn refused_steers_wait_as_submitted(
    live: Live,
    id: Uuid,
    k: int,
    reason: Seq<char>,
    allow_queue_drain: bool,
    stamp: Stamp,
)
    requires
        live.desk.session(id) is Some,
        0 <= k < live.runtime.pending_steers.len(),
        trimmed(live.runtime.pending_steers[k].prompt) == live.runtime.pending_steers[k].prompt,
        live.runtime.pending_steers[k].prompt.len() > 0,
        forall|j: int|
            0 <= j < k ==> (#[trigger] live.runtime.pending_steers[j]).prompt != live.runtime.pending_steers[k].prompt,
    ensures
        ({
            let s = live.desk.session(id)->0;
            let steers = live.runtime.pending_steers;
            let after = live.steer_rejected(id, steers[k].prompt, reason, allow_queue_drain, stamp);
            let t = after.desk.session(id)->0;
            let first = !engaged(s) && s.turns.len() > 0 && s.turns.last().status == TurnStatus::Completed;
            let queued = if first {
                t.queued_messages[0]
            } else {
                t.queued_messages.last()
            };
            &&& after.desk.session(id) is Some
            &&& t.queued_messages.len() == s.queued_messages.len() + 1
            &&& queued.prompt == steers[k].prompt
            &&& queued.display_content == steers[k].display_content
            &&& queued.attachments == steers[k].attachments
            &&& after.runtime.pending_steers == steers.take(k) + steers.skip(k + 1)
        }),
{
    lemma_session_id(live.desk.state, id);
    let s = live.desk.session(id)->0;
    let steers = live.runtime.pending_steers;
    lemma_steer_at(steers, k);
    assert(steers.remove(k) =~= steers.take(k) + steers.skip(k + 1));
    let submission = steers[k];
    let front = AgentSessionView {
        queued_messages: s.queued_messages.insert(0, submission.queued(stamp.id)),
        ..s
    };
    lemma_put_get(live.desk.state, id, front);
    let behind = AgentSessionView {
        updated_at: stamp.secs,
        ..s.with_queued(
            crate::desk::ComposerSubmissionView { prompt: trimmed(submission.prompt), ..submission }.queued(stamp.id),
        )
    };
    lemma_put_get(live.desk.state, id, behind);
}

proof fn lemma_steer_at(steers: Seq<crate::desk::ComposerSubmissionView>, k: int)
    requires
        0 <= k < steers.len(),
        forall|j: int| 0 <= j < k ==> (#[trigger] steers[j]).prompt != steers[k].prompt,
    ensures
        crate::driver_step::first_steer(steers, steers[k].prompt) == Some(k),
    decreases steers.len(),
{
    if k > 0 {
        assert(steers[0].prompt != steers[k].prompt);
        let rest = steers.drop_first();
        assert(forall|j: int| 0 <= j < rest.len() ==> #[trigger] rest[j] == steers[j + 1]);
        lemma_steer_at(rest, k - 1);
    }
}

/// That the provider is busy is known while a turn runs; what it reports of work in the
/// background, and that its sessions changed, is passed on to the host. No session changes.
pub proof fn notices_are_passed_on(live: Live, id: Uuid, event: DriverEvent, stamp: Stamp)
    requires
        event is ProviderBusy || event is BackgroundWork || event is NativeSessionsChanged || event is PlanUsageUpdated,
    ensures
        ({
            let after = live.session_reported(id, event, stamp);
            &&& after.desk.state == live.desk.state
            &&& event is ProviderBusy && in_turn(live.desk, id) ==> after.runtime.provider_phase is Some
                && after.runtime.provider_phase->0.since == stamp.secs
            &&& event is ProviderBusy && !in_turn(live.desk, id) ==> after.runtime == live.runtime
            &&& event is ProviderBusy ==> !after.desk.provider_retries.dom().contains(id)
            &&& event matches DriverEvent::BackgroundWork(work) ==> after.desk.effects == live.desk.effects.push(
                EffectView::BackgroundWork { session_id: id, event: work },
            )
            &&& event is NativeSessionsChanged ==> after.desk.effects == live.desk.effects.push(
                EffectView::ReconcileNativeSessions,
            )
            &&& event is PlanUsageUpdated ==> after == live
        }),
{
}

/// An error is remembered, and told where the session is on screen. It fails a session whose turn has
/// not got to work, and such a turn that said nothing says the error; a turn that is at work
/// goes on.
pub proof fn errors_fail_turns_that_do_not_work(
    live: Live,
    id: Uuid,
    error: Seq<char>,
    stamp: Stamp,
)
    requires
        live.desk.session(id) is Some,
    ensures
        ({
            let s = live.desk.session(id)->0;
            let after = live.failed(id, error, stamp);
            let t = after.desk.session(id)->0;
            &&& after.desk.session(id) is Some
            &&& after.runtime.last_driver_error == Some(crate::turns::compacted(error))
            &&& t.turns == s.turns
            &&& t.queued_messages == s.queued_messages
            &&& !running(s) || s.status == SessionStatus::Working ==> t.status == s.status && t.messages.len()
                <= s.messages.len()
            &&& s.status == SessionStatus::Working ==> t.messages == s.messages
            &&& running(s) && s.status != SessionStatus::Working ==> t.status == SessionStatus::Failed
            &&& running(s) && s.status != SessionStatus::Working && !replied(s) ==> t.messages.len() > 0
                && t.messages.last().content == crate::turns::compacted(error) && t.messages.last().role
                == MessageRole::Assistant && t.messages.last().turn_id == Some(s.turns.last().id)
            &&& live.desk.state.selected_session == Some(id) ==> after.desk.effects.contains(
                EffectView::Toast(TextView::Plain(crate::turns::compacted(error))),
            )
        }),
{
    lemma_session_id(live.desk.state, id);
    let s = live.desk.session(id)->0;
    let text = crate::turns::compacted(error);
    let toast = EffectView::Toast(TextView::Plain(text));
    let warned = live.desk.retry_over(id).emit_if(live.desk.selected(id), toast);
    let not_working = s.status != SessionStatus::Working;
    let d = crate::text_parts::blanks_dropped(s, stamp);
    lemma_put_get(warned.state, id, d);
    let cleared = if not_working {
        warned.blanks_dropped(id, stamp)
    } else {
        warned
    };
    let c = cleared.session(id)->0;
    if running(s) {
        let n = s.messages.len() as int;
        lemma_filled(s.messages, s.turns.last().id, n);
        assert(s.messages.take(n) =~= s.messages);
        if crate::text_parts::answered(c) {
            let j = choose|j: int|
                0 <= j < c.messages.len() && #[trigger] c.messages[j].role == MessageRole::Assistant && c.messages[j].turn_id
                    == Some(s.turns.last().id) && !blank(c.messages[j].content);
            let k = s.messages.index_of(c.messages[j]);
            assert(s.messages[k] == c.messages[j]);
            assert(replied(s));
        }
    }
    let status = if c.status != SessionStatus::Working {
        SessionStatus::Failed
    } else {
        c.status
    };
    let fallback = if not_working && !cleared.answered(id) {
        Some(text)
    } else {
        None
    };
    let next = if running(s) {
        c.with_outcome(status, fallback, stamp)
    } else {
        c
    };
    lemma_put_get(cleared.state, id, next);
    let after = live.failed(id, error, stamp);
    if live.desk.selected(id) {
        assert(after.desk.effects[live.desk.effects.len() as int] == toast);
    }
}

proof fn lemma_exit(begun: DeskView, id: Uuid, why: Seq<char>, stamp: Stamp)
    requires
        begun.session(id) is Some,
        running(begun.session(id)->0),
        engaged(begun.session(id)->0),
    ensures
        ({
            let settled = begun.closed(id, stamp).retry_over(id).exit_settled(id, why, stamp);
            &&& settled.session(id) is Some
            &&& well_ended(begun.session(id)->0, settled.session(id)->0, false, why, stamp)
            &&& settled.pending_queue_drains == begun.pending_queue_drains
            &&& settled.provider_retries == begun.provider_retries.remove(id)
        }),
{
    let s = begun.session(id)->0;
    lemma_closed_session(begun, id, stamp);
    lemma_closed_status(begun, id, stamp);
    let closed = begun.closed(id, stamp).retry_over(id);
    let c = closed.session(id)->0;
    lemma_answered(s, c);
    lemma_told(s, c, false, why, stamp);
    let fallback = closed.fallback(id, why);
    let o = c.with_outcome(SessionStatus::Failed, fallback, stamp);
    lemma_put_get(closed.state, id, o);
    let failed = closed.outcome(id, SessionStatus::Failed, fallback, stamp);
    let d = AgentSessionView { updated_at: stamp.secs, ..o };
    lemma_put_get(failed.state, id, d);
    let dated = failed.put(id, d);
    let f = d.with_turn_finished(TurnStatus::Failed, stamp);
    lemma_put_get(dated.state, id, f);
    assert(f == o.with_turn_finished(TurnStatus::Failed, stamp));
}

/// Once the process of a provider is gone, a session that it was at work in has failed, and so
/// has its turn, which says why where it said nothing else. Nothing of it streams, no
/// question is left open, and the queue stays in the user's hands.
pub proof fn lost_processes_fail_their_turn(
    live: Live,
    id: Uuid,
    words: Wordings,
    stamp: Stamp,
)
    requires
        live.desk.session(id) matches Some(s) && running(s) && engaged(s),
    ensures
        ({
            let s = live.desk.session(id)->0;
            let after = live.exited(id, words, stamp);
            let t = after.desk.session(id)->0;
            let why = match live.runtime.last_driver_error {
                Some(error) => error,
                None => words.exited_before_response@,
            };
            &&& after.desk.session(id) is Some
            &&& t.status == SessionStatus::Failed
            &&& turn_ended(s, t, TurnStatus::Failed, stamp)
            &&& calm(t)
            &&& if replied(s) {
                kept_of(s, t)
            } else {
                replies_with(s, t, why)
            }
            &&& t.queued_messages == s.queued_messages
            &&& after.desk.pending_queue_drains == live.desk.pending_queue_drains
            &&& after.runtime.pending_permission is None
            &&& after.runtime.pending_user_input is None
            &&& after.runtime.last_driver_error is None
            &&& !after.desk.provider_retries.dom().contains(id)
        }),
{
    let begun = live.desk.emit(EffectView::LoseBackgroundWork(id));
    let why = match live.runtime.last_driver_error {
        Some(error) => error,
        None => words.exited_before_response@,
    };
    lemma_exit(begun, id, why, stamp);
    let settled = begun.closed(id, stamp).retry_over(id).exit_settled(id, why, stamp);
    let after = live.exited(id, words, stamp);
    assert(after == Live {
        desk: settled.spliced(id),
        runtime: RuntimeView {
            pending_permission: None,
            pending_user_input: None,
            last_driver_error: None,
            ..live.runtime.stream_cleared()
        },
    });
}

proof fn lemma_closed_status(desk: DeskView, id: Uuid, stamp: Stamp)
    requires
        desk.session(id) is Some,
    ensures
        desk.closed(id, stamp).session(id) is Some,
        desk.closed(id, stamp).session(id)->0.status == desk.session(id)->0.status,
{
    let s = desk.session(id)->0;
    lemma_session_id(desk.state, id);
    let a = crate::text_parts::streams_stopped(s);
    lemma_put_get(desk.state, id, a);
    let stopped = desk.streams_stopped(id);
    let b = crate::activities::blocks_completed(a);
    lemma_put_get(stopped.state, id, b);
    let complete = stopped.blocks_completed(id);
    lemma_put_get(complete.state, id, crate::text_parts::blanks_dropped(b, stamp));
}

/// A title that the provider suggests is the session's suggested title, and nothing else of
/// the session changes.
pub proof fn suggested_titles_are_known(
    live: Live,
    id: Uuid,
    title: String,
    stamp: Stamp,
)
    requires
        live.desk.session(id) is Some,
    ensures
        ({
            let s = live.desk.session(id)->0;
            let event = DriverEvent::AutoTitleUpdated(title);
            let after = live.session_reported(id, event, stamp);
            &&& after.desk.session(id) == Some(AgentSessionView { auto_title: Some(title@), ..s })
            &&& after.desk.effects == live.desk.effects
        }),
{
    lemma_session_id(live.desk.state, id);
    let s = live.desk.session(id)->0;
    lemma_put_get(live.desk.state, id, AgentSessionView { auto_title: Some(title@), ..s });
}

/// A preset that the provider reports is the session's, and nothing else of it changes.
pub proof fn presets_are_known(
    live: Live,
    id: Uuid,
    preset: Option<String>,
    stamp: Stamp,
)
    requires
        live.desk.session(id) is Some,
    ensures
        ({
            let s = live.desk.session(id)->0;
            let event = DriverEvent::AgentPresetSelected(preset);
            let after = live.session_reported(id, event, stamp);
            after.desk.session(id) == Some(AgentSessionView { agent_preset: opt(preset), ..s })
        }),
{
    lemma_session_id(live.desk.state, id);
    let s = live.desk.session(id)->0;
    lemma_put_get(live.desk.state, id, AgentSessionView { agent_preset: opt(preset), ..s });
}

/// The commands that the provider offers are the session's, and what the composer offers is
/// found anew where they changed.
pub proof fn offered_commands_are_known(
    live: Live,
    id: Uuid,
    names: Seq<Seq<char>>,
)
    requires
        live.desk.session(id) is Some,
    ensures
        ({
            let s = live.desk.session(id)->0;
            let after = live.commands_offered(id, names);
            &&& after.desk.session(id) == Some(AgentSessionView { available_commands: names, ..s })
            &&& after.desk.composer_sources_stale == (live.desk.composer_sources_stale || s.available_commands != names)
        }),
{
    lemma_session_id(live.desk.state, id);
    let s = live.desk.session(id)->0;
    lemma_put_get(live.desk.state, id, AgentSessionView { available_commands: names, ..s });
}

/// How far the reports of a provider were read is known of the session.
pub proof fn reports_read_are_known(
    live: Live,
    id: Uuid,
    cursor: u64,
    stamp: Stamp,
)
    requires
        live.desk.session(id) is Some,
    ensures
        ({
            let s = live.desk.session(id)->0;
            let event = DriverEvent::RuntimeEventCursorAdvanced(cursor);
            let after = live.session_reported(id, event, stamp);
            after.desk.session(id) == Some(AgentSessionView { runtime_event_cursor: Some(cursor), ..s })
        }),
{
    lemma_session_id(live.desk.state, id);
    let s = live.desk.session(id)->0;
    lemma_put_get(live.desk.state, id, AgentSessionView { runtime_event_cursor: Some(cursor), ..s });
}

/// What a turn cost is known of the running turn, and of no other.
pub proof fn costs_are_known(
    live: Live,
    id: Uuid,
    stats: TurnStats,
    stamp: Stamp,
)
    requires
        live.desk.session(id) is Some,
    ensures
        ({
            let s = live.desk.session(id)->0;
            let event = DriverEvent::TurnStatsUpdated(stats);
            let after = live.session_reported(id, event, stamp);
            let t = after.desk.session(id)->0;
            &&& after.desk.session(id) is Some
            &&& t == (AgentSessionView { turns: t.turns, ..s })
            &&& t.turns.len() == s.turns.len()
            &&& forall|k: int|
                0 <= k < s.turns.len() ==> #[trigger] t.turns[k] == (if k == s.turns.len() - 1 && running(s) {
                    TurnView { stats: Some(stats), ..s.turns[k] }
                } else {
                    s.turns[k]
                })
        }),
{
    lemma_session_id(live.desk.state, id);
    let s = live.desk.session(id)->0;
    lemma_put_get(live.desk.state, id, s.with_turn_stats(stats));
}

/// A report of usage replaces the numbers that it gives and keeps those that it does not.
pub proof fn usage_keeps_what_is_not_reported(
    live: Live,
    id: Uuid,
    context_tokens: Option<u64>,
    context_window: Option<u64>,
    session_total: Option<u64>,
    cache_read: Option<u64>,
    prompt_tokens: Option<u64>,
    stamp: Stamp,
)
    requires
        live.desk.session(id) is Some,
    ensures
        ({
            let s = live.desk.session(id)->0;
            let event = DriverEvent::UsageUpdated {
                context_tokens,
                context_window,
                session_total,
                cache_read,
                prompt_tokens,
            };
            let after = live.session_reported(id, event, stamp).desk.session(id);
            let t = after->0;
            let now = t.context_usage->0;
            &&& after is Some
            &&& t == (AgentSessionView { context_usage: t.context_usage, ..s })
            &&& t.context_usage is Some
            &&& context_tokens matches Some(n) ==> now.tokens == n
            &&& context_window is Some ==> now.window == context_window
            &&& session_total is Some ==> now.total_tokens == session_total
            &&& cache_read is Some ==> now.cache_read == cache_read
            &&& prompt_tokens is Some ==> now.prompt_tokens == prompt_tokens
            &&& s.context_usage matches Some(was) ==> {
                &&& context_tokens is None ==> now.tokens == was.tokens
                &&& context_window is None ==> now.window == was.window
                &&& session_total is None ==> now.total_tokens == was.total_tokens
                &&& cache_read is None ==> now.cache_read == was.cache_read
                &&& prompt_tokens is None ==> now.prompt_tokens == was.prompt_tokens
            }
            &&& s.context_usage is None ==> {
                &&& context_tokens is None ==> now.tokens == 0
                &&& now.window == context_window && now.total_tokens == session_total
                &&& now.cache_read == cache_read && now.prompt_tokens == prompt_tokens
            }
        }),
{
    lemma_session_id(live.desk.state, id);
    let s = live.desk.session(id)->0;
    let usage = crate::driver_step::usage_merged(
        s.context_usage,
        context_tokens,
        context_window,
        session_total,
        cache_read,
        prompt_tokens,
    );
    lemma_put_get(live.desk.state, id, AgentSessionView { context_usage: Some(usage), ..s });
}

/// A session whose provider is connected knows where to resume it, and one that was connecting
/// is at work. Once the provider took the turn up, the session is at work and the turn counts
/// as one that the provider saw. Either way the provider no longer backs off, and what it
/// failed with before is forgotten.
pub proof fn providers_take_turns_up(
    live: Live,
    id: Uuid,
    cursor: Option<Seq<char>>,
    stamp: Stamp,
)
    requires
        live.desk.session(id) is Some,
    ensures
        ({
            let s = live.desk.session(id)->0;
            let linked = live.connected(id, cursor, stamp);
            let begun = live.turn_started(id);
            &&& linked.desk.session(id) == Some(
                AgentSessionView {
                    provider_cursor: cursor,
                    native_session_id: cursor,
                    status: if s.status == SessionStatus::Connecting {
                        SessionStatus::Working
                    } else {
                        s.status
                    },
                    ..s
                },
            )
            &&& linked.runtime.last_driver_error is None
            &&& !linked.desk.provider_retries.dom().contains(id)
            &&& begun.desk.session(id) matches Some(t) && t.status == SessionStatus::Working && t.messages == s.messages
                && t.turns.len() == s.turns.len() && (running(s) ==> t.turns.last() == (TurnView {
                provider_turn_started: true,
                ..s.turns.last()
            })) && (forall|k: int| 0 <= k < s.turns.len() - 1 ==> #[trigger] t.turns[k] == s.turns[k]) && (!running(s)
                ==> t.turns == s.turns)
            &&& begun.runtime.last_driver_error is None
            &&& begun.runtime.provider_phase is None
            &&& !begun.desk.provider_retries.dom().contains(id)
        }),
{
    lemma_session_id(live.desk.state, id);
    let s = live.desk.session(id)->0;
    lemma_put_get(live.desk.state, id, s.with_connected(cursor));
    lemma_put_get(live.desk.state, id, s.with_provider_turn());
}

/// A backoff of the provider is known from then on, as it was reported, and its expiry is
/// scheduled once.
pub proof fn backoffs_are_known(live: Live, id: Uuid, retry: ProviderRetry)
    ensures
        ({
            let after = live.retrying(id, retry);
            &&& after.desk.provider_retries.dom() == live.desk.provider_retries.dom().insert(id)
            &&& after.desk.provider_retries[id] == retry
            &&& after.desk.state == live.desk.state
            &&& after.desk.effects == (if live.desk.provider_retries.dom().contains(id) {
                live.desk.effects
            } else {
                live.desk.effects.push(EffectView::ScheduleRetryExpiry(id))
            })
        }),
{
}

/// What a compaction has come to is known of the session. One that is completed shows its
/// summary last in the transcript, unless it shows it already or has none; what else there is
/// stays. A change is announced for the session on screen, and no repeat.
pub proof fn compactions_are_known(
    live: Live,
    id: Uuid,
    state: CompactionStateView,
    stamp: Stamp,
)
    requires
        live.desk.session(id) is Some,
    ensures
        ({
            let s = live.desk.session(id)->0;
            let after = live.compaction_moved(id, state, stamp).desk;
            let t = after.session(id)->0;
            let summary = match state.summary {
                Some(text) => trimmed(text),
                None => Seq::empty(),
            };
            let shown = exists|k: int|
                0 <= k < s.messages.len() && (#[trigger] s.messages[k]).role == MessageRole::Compaction && trimmed(
                    s.messages[k].content,
                ) == summary;
            let fresh = !(s.compaction matches Some(c) && c.status == state.status) && live.desk.state.selected_session
                == Some(id);
            let n = live.desk.effects.len() as int;
            &&& after.session(id) is Some
            &&& t.compaction == Some(state)
            &&& t.status == s.status && t.turns == s.turns && t.queued_messages == s.queued_messages
            &&& if state.status == CompactionStatus::Completed && summary.len() > 0 && !shown {
                &&& t.messages.len() == s.messages.len() + 1
                &&& t.messages.drop_last() == s.messages
                &&& t.messages.last().role == MessageRole::Compaction
                &&& t.messages.last().content == summary
            } else {
                t.messages == s.messages
            }
            &&& forall|k: int|
                n <= k < after.effects.len() && (#[trigger] after.effects[k]) is Toast ==> fresh && (state.status
                    == CompactionStatus::Completed || state.status == CompactionStatus::Failed)
            &&& fresh && state.status == CompactionStatus::Completed ==> after.effects.last() == EffectView::Toast(
                wording("session.compaction_completed"),
            )
            &&& fresh && state.status == CompactionStatus::Failed ==> after.effects.last() == EffectView::Toast(
                wording("session.compaction_failed"),
            )
        }),
{
    lemma_session_id(live.desk.state, id);
    let s = live.desk.session(id)->0;
    let known = AgentSessionView { compaction: Some(state), ..s };
    let next = if state.status == CompactionStatus::Completed {
        crate::text_parts::compaction_shown(known, state, stamp)
    } else {
        known
    };
    lemma_put_get(live.desk.state, id, next);
    if next.messages.len() > s.messages.len() {
        assert(next.messages.drop_last() =~= s.messages);
    }
}

/// Every report reaches the step that is for it, at the session it names, as of the moment it
/// came in.
pub proof fn reports_reach_their_step(
    live: Live,
    id: Uuid,
    event: DriverEvent,
    allow_queue_drain: bool,
    window_active: bool,
    words: Wordings,
    stamp: Stamp,
)
    ensures
        ({
            let now = Live { desk: live.desk, runtime: RuntimeView { last_active_at: stamp.millis, ..live.runtime } };
            let after = live.handled(id, event, allow_queue_drain, window_active, words, stamp);
            &&& event matches DriverEvent::TurnFinished { success, summary } ==> after == now.turn_over(
                id,
                success,
                opt(summary),
                allow_queue_drain,
                window_active,
                words,
                stamp,
            )
            &&& event matches DriverEvent::Permission { request_id, title, detail, options } ==> after
                == now.permission_asked(id, PendingPermission { request_id, title, detail, options })
            &&& event matches DriverEvent::UserInputRequested { request_id, questions } ==> after == now.input_asked(
                id,
                PendingUserInput { request_id, questions },
            )
            &&& event matches DriverEvent::SteerAccepted { message } ==> after == now.steer_accepted(id, message@, stamp)
            &&& event matches DriverEvent::SteerRejected { message, reason } ==> after == now.steer_rejected(
                id,
                message@,
                reason@,
                allow_queue_drain,
                stamp,
            )
            &&& event matches DriverEvent::CompactionUpdated(state) ==> after == now.compaction_moved(id, state@, stamp)
            &&& event matches DriverEvent::Error(error) ==> after == now.failed(id, error@, stamp)
            &&& event is ProcessExited ==> after == now.exited(id, words, stamp)
            &&& event matches DriverEvent::AvailableCommands(names) ==> after == now.commands_offered(id, texts(names@))
            &&& event is TurnStarted ==> after == now.turn_started(id)
            &&& event matches DriverEvent::Connected { provider_cursor } ==> after == now.connected(
                id,
                provider_resume_cursor_opt(provider_cursor),
                stamp,
            )
            &&& event matches DriverEvent::ProviderRetry { attempt, message, action, next_at_ms } ==> after == now.retrying(
                id,
                ProviderRetry { attempt, message, action, next_at_ms, received_at_ms: stamp.millis },
            )
            &&& event is AutoTitleUpdated || event is AgentPresetSelected || event is RuntimeEventCursorAdvanced || event is TurnStatsUpdated
                || event is UsageUpdated || event is ProviderBusy || event is BackgroundWork || event is NativeSessionsChanged ==> after
                == now.session_reported(id, event, stamp)
            &&& event is TextStarted || event is TextDelta || event is TextEnded || event is ReasoningStarted
                || event is ReasoningDelta || event is ReasoningEnded || event is Activity || event is RichActivity ==> after
                == now.output_reported(id, event, stamp)
        }),
{
    reveal(Live::handled);
}

} // verus!
