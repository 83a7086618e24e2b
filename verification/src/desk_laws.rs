//! What every report keeps: other sessions stay as they are, and every block of
//! activities stays anchored inside its transcript.
use vstd::prelude::*;

use crate::activities::{activity_reported, blocks_completed};
use crate::desk::{lemma_session_id, session_ids, ComposerSubmissionView, EffectView, RuntimeView, StateView};
use crate::driver_step::{is_course, is_output, steer_taken, Wordings};
use crate::events::DriverEvent;
use crate::ids::{Stamp, Uuid};
use crate::live::{thought_appended, DeskView, Live};
use crate::model::{ActivityItemView, AgentSessionView, MessageView, SessionStatus, TranscriptBlockView, TurnStatus};
use crate::seqs::lemma_pos;
use crate::text_parts::{
    blank_before, blanks_dropped, compaction_shown, filled, last_streaming, lemma_blank_before, streams_stopped,
    text_appended, text_bound, text_settled, with_message_removed, with_reply,
};
use crate::transcript::{
    activity_pos, message_ids, reasoning_bound, reasoning_settled, settled_thought, thought_completed, with_activity,
    with_activity_removed, with_pushed,
};

verus! {

/// Every block of activities stands after messages that are there.
pub open spec fn anchored(s: AgentSessionView) -> bool {
    forall|j: int|
        0 <= j < s.transcript_blocks.len() ==> #[trigger] s.transcript_blocks[j].after_message <= s.messages.len()
}

/// A change of the state that concerns one session: every other session, the
/// projects and the selection stay, no session comes or goes, and blocks that were
/// anchored still are. No transcript grows by more than `grow` messages.
pub open spec fn tame(before: StateView, after: StateView, id: Uuid, grow: int) -> bool {
    &&& before.sessions.len() == after.sessions.len()
    &&& before.projects == after.projects
    &&& before.selected_session == after.selected_session
    &&& before.selected_project == after.selected_project
    &&& before.prefs == after.prefs
    &&& forall|j: int| 0 <= j < before.sessions.len() ==> tame_session(#[trigger] before.sessions[j], after.sessions[j], id, grow)
}

/// How one session may change while `id` is concerned.
pub open spec fn tame_session(before: AgentSessionView, after: AgentSessionView, id: Uuid, grow: int) -> bool {
    &&& before.id == after.id
    &&& before.id != id ==> before == after
    &&& anchored(before) ==> anchored(after)
    &&& after.messages.len() <= before.messages.len() + grow
}

/// The transcript of the session fits a machine's count.
pub open spec fn fits(state: StateView, id: Uuid) -> bool {
    match state.session(id) {
        Some(session) => session.messages.len() <= usize::MAX,
        None => true,
    }
}

proof fn lemma_tame_refl(state: StateView, id: Uuid)
    ensures
        tame(state, state, id, 0),
        tame(state, state, id, 1),
{
}

proof fn lemma_last_streaming(messages: Seq<MessageView>)
    ensures
        last_streaming(messages) matches Some(i) ==> 0 <= i < messages.len(),
    decreases messages.len(),
{
    if messages.len() > 0 {
        lemma_last_streaming(messages.drop_last());
    }
}

proof fn lemma_tame_trans(a: StateView, b: StateView, c: StateView, id: Uuid, m: int, n: int)
    requires
        tame(a, b, id, m),
        tame(b, c, id, n),
        m >= 0,
        n >= 0,
    ensures
        tame(a, c, id, m + n),
{
    assert forall|j: int| 0 <= j < a.sessions.len() implies tame_session(
        #[trigger] a.sessions[j],
        c.sessions[j],
        id,
        m + n,
    ) by {
        assert(tame_session(a.sessions[j], b.sessions[j], id, m));
        assert(tame_session(b.sessions[j], c.sessions[j], id, n));
    }
}

proof fn lemma_tame_at(a: StateView, b: StateView, id: Uuid, grow: int)
    requires
        tame(a, b, id, grow),
    ensures
        a.at(id) == b.at(id),
        a.session(id) is Some == b.session(id) is Some,
        a.session(id) is Some ==> tame_session(a.session(id)->0, b.session(id)->0, id, grow) && b.session(id)->0.id == id,
{
    assert(session_ids(a.sessions) =~= session_ids(b.sessions)) by {
        assert forall|j: int| 0 <= j < a.sessions.len() implies a.sessions[j].id == b.sessions[j].id by {
            assert(tame_session(a.sessions[j], b.sessions[j], id, grow));
        }
    }
    lemma_session_id(a, id);
    lemma_session_id(b, id);
}

proof fn lemma_put_tame(state: StateView, id: Uuid, session: AgentSessionView, grow: int)
    requires
        grow >= 0,
        state.session(id) is Some ==> tame_session(state.session(id)->0, session, id, grow),
    ensures
        tame(state, state.put(id, session), id, grow),
{
    lemma_session_id(state, id);
}

// ---- what each change does to one session ------------------------------------

proof fn lemma_with_activity(s: AgentSessionView, b: int, a: int, item: ActivityItemView)
    requires
        0 <= b < s.transcript_blocks.len(),
    ensures
        anchored(s) ==> anchored(AgentSessionView {
            transcript_blocks: with_activity(s.transcript_blocks, b, a, item),
            ..s
        }),
{
    let t = AgentSessionView { transcript_blocks: with_activity(s.transcript_blocks, b, a, item), ..s };
    if anchored(s) {
        assert forall|j: int| 0 <= j < t.transcript_blocks.len() implies
            #[trigger] t.transcript_blocks[j].after_message <= t.messages.len() by {
            assert(s.transcript_blocks[j].after_message <= s.messages.len());
        }
    }
}

proof fn lemma_pushed(s: AgentSessionView, item: ActivityItemView, continuing_work: bool)
    requires
        s.messages.len() <= usize::MAX,
    ensures
        anchored(s) ==> anchored(with_pushed(s, item, continuing_work)),
        with_pushed(s, item, continuing_work).messages == s.messages,
        with_pushed(s, item, continuing_work).id == s.id,
{
    let t = with_pushed(s, item, continuing_work);
    if anchored(s) {
        assert forall|j: int| 0 <= j < t.transcript_blocks.len() implies
            #[trigger] t.transcript_blocks[j].after_message <= t.messages.len() by {
            if j < s.transcript_blocks.len() {
                assert(s.transcript_blocks[j].after_message <= s.messages.len());
            }
        }
    }
}

proof fn lemma_grown(s: AgentSessionView, t: AgentSessionView)
    requires
        s.transcript_blocks == t.transcript_blocks,
        s.messages.len() <= t.messages.len(),
    ensures
        anchored(s) ==> anchored(t),
{
    if anchored(s) {
        assert forall|j: int| 0 <= j < t.transcript_blocks.len() implies
            #[trigger] t.transcript_blocks[j].after_message <= t.messages.len() by {
            assert(s.transcript_blocks[j].after_message <= s.messages.len());
        }
    }
}

proof fn lemma_message_removed(s: AgentSessionView, i: int, stamp: Stamp)
    requires
        0 <= i < s.messages.len(),
    ensures
        anchored(s) ==> anchored(with_message_removed(s, i, stamp)),
{
    let t = with_message_removed(s, i, stamp);
    if anchored(s) {
        assert forall|j: int| 0 <= j < t.transcript_blocks.len() implies
            #[trigger] t.transcript_blocks[j].after_message <= t.messages.len() by {
            assert(s.transcript_blocks[j].after_message <= s.messages.len());
        }
    }
}

proof fn lemma_filled_len(messages: Seq<MessageView>, turn: Uuid, k: int)
    requires
        0 <= k <= messages.len(),
    ensures
        filled(messages, turn, k).len() == k - blank_before(messages, turn, k),
    decreases k,
{
    if k > 0 {
        lemma_filled_len(messages, turn, k - 1);
    }
}

/// Dropping blank replies keeps every block anchored.
pub proof fn dropping_blanks_keeps_anchors(s: AgentSessionView, stamp: Stamp)
    ensures
        anchored(s) ==> anchored(blanks_dropped(s, stamp)),
        blanks_dropped(s, stamp).messages.len() <= s.messages.len(),
        blanks_dropped(s, stamp).id == s.id,
{
    if s.active_turn() is Some {
        let turn = s.active_turn()->0;
        let n = s.messages.len() as int;
        let t = blanks_dropped(s, stamp);
        lemma_blank_before(s.messages, turn, 0, n);
        lemma_filled_len(s.messages, turn, n);
        if anchored(s) && blank_before(s.messages, turn, n) > 0 {
            assert forall|j: int| 0 <= j < t.transcript_blocks.len() implies
                #[trigger] t.transcript_blocks[j].after_message <= t.messages.len() by {
                let anchor = s.transcript_blocks[j].after_message as int;
                assert(s.transcript_blocks[j].after_message <= s.messages.len());
                lemma_blank_before(s.messages, turn, 0, anchor);
                lemma_blank_before(s.messages, turn, anchor, n);
            }
        }
    }
}

proof fn lemma_blocks_completed(s: AgentSessionView)
    ensures
        anchored(s) ==> anchored(blocks_completed(s)),
{
    let t = blocks_completed(s);
    if anchored(s) {
        assert forall|j: int| 0 <= j < t.transcript_blocks.len() implies
            #[trigger] t.transcript_blocks[j].after_message <= t.messages.len() by {
            assert(s.transcript_blocks[j].after_message <= s.messages.len());
        }
    }
}

proof fn lemma_thought_completed(s: AgentSessionView, bound: Map<Seq<char>, Uuid>, stamp: Stamp)
    ensures
        tame_session(s, thought_completed(s, bound, stamp), s.id, 0),
{
    lemma_settled_thought(s, bound);
    if settled_thought(s.transcript_blocks, bound) is Some {
        let (b, a) = settled_thought(s.transcript_blocks, bound)->0;
        let item = ActivityItemView { complete: true, ..s.transcript_blocks[b].activities[a] };
        lemma_with_activity(s, b, a, item);
        lemma_grown(
            AgentSessionView { transcript_blocks: with_activity(s.transcript_blocks, b, a, item), ..s },
            thought_completed(s, bound, stamp),
        );
    }
}

proof fn lemma_settled_thought(s: AgentSessionView, bound: Map<Seq<char>, Uuid>)
    ensures
        settled_thought(s.transcript_blocks, bound) matches Some((b, a)) ==> 0 <= b < s.transcript_blocks.len() && 0 <= a
            < s.transcript_blocks[b].activities.len(),
{
}

proof fn lemma_activity_pos(blocks: Seq<TranscriptBlockView>, id: Uuid)
    ensures
        activity_pos(blocks, id) matches Some((b, a)) ==> 0 <= b < blocks.len() && 0 <= a < blocks[b].activities.len(),
{
}

// ---- what each change does to the state ---------------------------------------

proof fn lemma_streams(desk: DeskView, id: Uuid)
    ensures
        tame(desk.state, desk.streams_stopped(id).state, id, 0),
{
    lemma_session_id(desk.state, id);
    if desk.session(id) is Some {
        let s = desk.session(id)->0;
        lemma_grown(s, streams_stopped(s));
        lemma_put_tame(desk.state, id, streams_stopped(s), 0);
    }
}

proof fn lemma_blocks(desk: DeskView, id: Uuid)
    ensures
        tame(desk.state, desk.blocks_completed(id).state, id, 0),
{
    lemma_session_id(desk.state, id);
    if desk.session(id) is Some {
        let s = desk.session(id)->0;
        lemma_blocks_completed(s);
        lemma_put_tame(desk.state, id, blocks_completed(s), 0);
    }
}

proof fn lemma_blanks(desk: DeskView, id: Uuid, stamp: Stamp)
    ensures
        tame(desk.state, desk.blanks_dropped(id, stamp).state, id, 0),
{
    lemma_session_id(desk.state, id);
    if desk.session(id) is Some {
        let s = desk.session(id)->0;
        dropping_blanks_keeps_anchors(s, stamp);
        lemma_put_tame(desk.state, id, blanks_dropped(s, stamp), 0);
    }
}

proof fn lemma_closed(desk: DeskView, id: Uuid, stamp: Stamp)
    ensures
        tame(desk.state, desk.closed(id, stamp).state, id, 0),
{
    let a = desk.streams_stopped(id);
    let b = a.blocks_completed(id);
    lemma_streams(desk, id);
    lemma_blocks(a, id);
    lemma_blanks(b, id, stamp);
    lemma_tame_trans(desk.state, a.state, b.state, id, 0, 0);
    lemma_tame_trans(desk.state, b.state, b.blanks_dropped(id, stamp).state, id, 0, 0);
}

proof fn lemma_thought(live: Live, id: Uuid, stamp: Stamp)
    ensures
        tame(live.desk.state, live.thought_completed(id, stamp).desk.state, id, 0),
{
    lemma_session_id(live.desk.state, id);
    if live.desk.session(id) is Some {
        let s = live.desk.session(id)->0;
        lemma_thought_completed(s, live.runtime.open_reasoning, stamp);
        lemma_put_tame(live.desk.state, id, thought_completed(s, live.runtime.open_reasoning, stamp), 0);
    }
}

proof fn lemma_settled(live: Live, id: Uuid, stamp: Stamp)
    ensures
        tame(live.desk.state, live.after_reasoning(id, stamp).desk.state, id, 0),
        tame(live.desk.state, live.after_text(id).desk.state, id, 0),
        tame(live.desk.state, live.after_reasoning(id, stamp).after_text(id).desk.state, id, 0),
        tame(live.desk.state, live.after_text(id).after_reasoning(id, stamp).desk.state, id, 0),
{
    lemma_tame_refl(live.desk.state, id);
    lemma_thought(live, id, stamp);
    lemma_streams(live.desk, id);
    let a = live.after_reasoning(id, stamp);
    lemma_streams(a.desk, id);
    lemma_tame_refl(a.desk.state, id);
    lemma_tame_trans(live.desk.state, a.desk.state, a.after_text(id).desk.state, id, 0, 0);
    let b = live.after_text(id);
    lemma_thought(b, id, stamp);
    lemma_tame_refl(b.desk.state, id);
    lemma_tame_trans(live.desk.state, b.desk.state, b.after_reasoning(id, stamp).desk.state, id, 0, 0);
}

proof fn lemma_text_appended(live: Live, id: Uuid, delta: Seq<char>, stamp: Stamp)
    ensures
        tame(live.desk.state, live.text_appended(id, delta, stamp).desk.state, id, 1),
{
    let settled = live.after_reasoning(id, stamp);
    let continuing = live.runtime.stream_phase == Some(crate::desk::StreamPhase::Text);
    let state = settled.desk.state;
    lemma_settled(live, id, stamp);
    lemma_session_id(state, id);
    if state.session(id) is Some {
        let s = state.session(id)->0;
        lemma_last_streaming(s.messages);
        lemma_grown(s, text_appended(s, continuing, delta, stamp));
        lemma_put_tame(state, id, text_appended(s, continuing, delta, stamp), 1);
    }
    lemma_tame_refl(state, id);
    lemma_tame_trans(live.desk.state, state, live.text_appended(id, delta, stamp).desk.state, id, 0, 1);
}

proof fn lemma_text_opened(live: Live, id: Uuid, part: Seq<char>, stamp: Stamp)
    ensures
        tame(live.desk.state, live.text_opened(id, part, stamp).desk.state, id, 1),
{
    let settled = live.after_reasoning(id, stamp).after_text(id);
    let state = settled.desk.state;
    lemma_tame_refl(live.desk.state, id);
    lemma_settled(live, id, stamp);
    lemma_session_id(state, id);
    if state.session(id) is Some {
        let s = state.session(id)->0;
        lemma_grown(s, with_reply(s, Seq::empty(), true, stamp));
        lemma_put_tame(state, id, with_reply(s, Seq::empty(), true, stamp), 1);
    }
    lemma_tame_refl(state, id);
    if !(part.len() == 0 || live.runtime.open_text.dom().contains(part) || live.runtime.settled_text.contains(part)) {
        lemma_tame_trans(live.desk.state, state, live.text_opened(id, part, stamp).desk.state, id, 0, 1);
    }
}

proof fn lemma_text_delta(live: Live, id: Uuid, part: Seq<char>, delta: Seq<char>, stamp: Stamp)
    ensures
        tame(live.desk.state, live.text_delta(id, part, delta, stamp).desk.state, id, 1),
{
    lemma_tame_refl(live.desk.state, id);
    lemma_text_appended(live, id, delta, stamp);
    let already_open = live.runtime.open_text.dom().contains(part);
    let settled = if already_open {
        live
    } else {
        live.after_reasoning(id, stamp).after_text(id)
    };
    let state = settled.desk.state;
    lemma_settled(live, id, stamp);
    lemma_session_id(state, id);
    if state.session(id) is Some {
        let s = state.session(id)->0;
        let next = text_bound(
            s,
            settled.runtime.open_text,
            settled.runtime.settled_text,
            part,
            delta,
            stamp,
        ).0;
        lemma_grown(s, next);
        lemma_put_tame(state, id, next, 1);
        lemma_tame_trans(live.desk.state, state, state.put(id, next), id, 0, 1);
    }
}

proof fn lemma_text_ended(live: Live, id: Uuid, part: Seq<char>, text: Option<Seq<char>>, stamp: Stamp)
    ensures
        tame(live.desk.state, live.text_ended(id, part, text, stamp).desk.state, id, 1),
{
    let state = live.desk.state;
    lemma_tame_refl(state, id);
    lemma_settled(live, id, stamp);
    lemma_session_id(state, id);
    if state.session(id) is Some {
        let s = state.session(id)->0;
        let next = text_settled(s, live.runtime.open_text, part, text, stamp).0;
        let at = crate::seqs::pos(message_ids(s.messages), live.runtime.open_text[part]);
        lemma_pos(message_ids(s.messages), live.runtime.open_text[part]);
        if live.runtime.open_text.dom().contains(part) && at is Some {
            lemma_message_removed(s, at->0, stamp);
        }
        if next.transcript_blocks == s.transcript_blocks && s.messages.len() <= next.messages.len() {
            lemma_grown(s, next);
        }
        let dated = AgentSessionView { updated_at: stamp.secs, ..next };
        lemma_grown(next, dated);
        lemma_put_tame(state, id, dated, 1);
    }
}

proof fn lemma_reasoning_opened(live: Live, id: Uuid, part: Seq<char>, stamp: Stamp)
    ensures
        tame(live.desk.state, live.reasoning_opened(id, part, stamp).desk.state, id, 0),
{
    lemma_tame_refl(live.desk.state, id);
    let fresh = Live {
        runtime: RuntimeView {
            open_reasoning: live.runtime.open_reasoning.remove(part),
            settled_reasoning: live.runtime.settled_reasoning.remove(part),
            ..live.runtime
        },
        ..live
    };
    lemma_thought(fresh, id, stamp);
}

proof fn lemma_reasoning_appended(live: Live, id: Uuid, delta: Seq<char>, stamp: Stamp)
    requires
        fits(live.desk.state, id),
    ensures
        tame(live.desk.state, live.reasoning_appended(id, delta, stamp).desk.state, id, 0),
{
    let continuing = live.runtime.stream_phase == Some(crate::desk::StreamPhase::Reasoning);
    lemma_tame_refl(live.desk.state, id);
    lemma_streams(live.desk, id);
    let stopped = if continuing {
        live
    } else {
        Live { desk: live.desk.streams_stopped(id), ..live }
    };
    let state = stopped.desk.state;
    lemma_tame_at(live.desk.state, state, id, 0);
    if state.session(id) is Some {
        let s = state.session(id)->0;
        let next = thought_appended(s, continuing, live.runtime.continuing_work(), delta, stamp);
        let item = crate::model::reasoning_activity(stamp.id, None, delta, stamp.millis, false);
        lemma_pushed(s, item, live.runtime.continuing_work());
        let n = s.transcript_blocks.len() as int;
        if n > 0 {
            let m = s.transcript_blocks.last().activities.len() as int;
            if m > 0 && next.transcript_blocks.len() == n {
                lemma_with_activity(s, n - 1, m - 1, next.transcript_blocks.last().activities[m - 1]);
            }
        }
        lemma_grown(with_pushed(s, item, live.runtime.continuing_work()), AgentSessionView {
            updated_at: stamp.secs,
            ..with_pushed(s, item, live.runtime.continuing_work())
        });
        lemma_put_tame(state, id, next, 0);
        lemma_tame_trans(live.desk.state, state, state.put(id, next), id, 0, 0);
    }
}

proof fn lemma_reasoning_delta(live: Live, id: Uuid, part: Seq<char>, delta: Seq<char>, stamp: Stamp)
    requires
        fits(live.desk.state, id),
    ensures
        tame(live.desk.state, live.reasoning_delta(id, part, delta, stamp).desk.state, id, 0),
{
    let state = live.desk.state;
    lemma_tame_refl(state, id);
    lemma_reasoning_appended(live, id, delta, stamp);
    lemma_session_id(state, id);
    if state.session(id) is Some {
        let s = state.session(id)->0;
        let work = live.runtime.continuing_work();
        let next = reasoning_bound(
            s,
            live.runtime.open_reasoning,
            live.runtime.settled_reasoning,
            part,
            delta,
            work,
            stamp,
        ).0;
        lemma_pushed(s, crate::model::reasoning_activity(stamp.id, Some(part), delta, stamp.millis, false), work);
        lemma_activity_pos(s.transcript_blocks, live.runtime.open_reasoning[part]);
        if activity_pos(s.transcript_blocks, live.runtime.open_reasoning[part]) is Some {
            let (b, a) = activity_pos(s.transcript_blocks, live.runtime.open_reasoning[part])->0;
            lemma_with_activity(s, b, a, next.transcript_blocks[b].activities[a]);
        }
        let dated = AgentSessionView { updated_at: stamp.secs, ..next };
        lemma_grown(next, dated);
        lemma_put_tame(state, id, dated, 0);
        let put = live.desk.put(id, dated);
        lemma_streams(put, id);
        lemma_tame_trans(state, put.state, put.streams_stopped(id).state, id, 0, 0);
    }
}

proof fn lemma_activity_removed(s: AgentSessionView, b: int, id: Uuid)
    ensures
        anchored(s) ==> anchored(AgentSessionView {
            transcript_blocks: with_activity_removed(s.transcript_blocks, b, id),
            ..s
        }),
{
    let t = AgentSessionView { transcript_blocks: with_activity_removed(s.transcript_blocks, b, id), ..s };
    if anchored(s) {
        assert forall|j: int| 0 <= j < t.transcript_blocks.len() implies
            #[trigger] t.transcript_blocks[j].after_message <= t.messages.len() by {
            assert(s.transcript_blocks[j].after_message <= s.messages.len());
            if j + 1 < s.transcript_blocks.len() {
                assert(s.transcript_blocks[j + 1].after_message <= s.messages.len());
            }
        }
    }
}

proof fn lemma_reasoning_ended(live: Live, id: Uuid, part: Seq<char>, text: Option<Seq<char>>, stamp: Stamp)
    requires
        fits(live.desk.state, id),
    ensures
        tame(live.desk.state, live.reasoning_ended(id, part, text, stamp).desk.state, id, 0),
{
    let state = live.desk.state;
    lemma_tame_refl(state, id);
    lemma_thought(live, id, stamp);
    lemma_session_id(state, id);
    if state.session(id) is Some {
        let s = state.session(id)->0;
        let work = live.runtime.continuing_work();
        let next = reasoning_settled(s, live.runtime.open_reasoning, part, text, work, stamp).0;
        if text is Some {
            lemma_pushed(
                s,
                crate::model::reasoning_activity(
                    stamp.id,
                    Some(part),
                    crate::text::trimmed(text->0),
                    stamp.millis,
                    true,
                ),
                work,
            );
        }
        lemma_activity_pos(s.transcript_blocks, live.runtime.open_reasoning[part]);
        if activity_pos(s.transcript_blocks, live.runtime.open_reasoning[part]) is Some {
            let (b, a) = activity_pos(s.transcript_blocks, live.runtime.open_reasoning[part])->0;
            lemma_with_activity(s, b, a, next.transcript_blocks[b].activities[a]);
            lemma_activity_removed(s, b, s.transcript_blocks[b].activities[a].id);
        }
        let dated = AgentSessionView { updated_at: stamp.secs, ..next };
        lemma_grown(next, dated);
        lemma_put_tame(state, id, dated, 0);
    }
}

proof fn lemma_activity(live: Live, id: Uuid, item: ActivityItemView, stamp: Stamp)
    requires
        fits(live.desk.state, id),
    ensures
        tame(live.desk.state, live.activity_reported(id, item, stamp).desk.state, id, 0),
{
    let settled = live.after_text(id).after_reasoning(id, stamp);
    let state = settled.desk.state;
    lemma_settled(live, id, stamp);
    lemma_tame_at(live.desk.state, state, id, 0);
    if state.session(id) is Some {
        let s = state.session(id)->0;
        let work = live.runtime.continuing_work();
        let next = activity_reported(s, item, work, stamp).0;
        lemma_pushed(s, item, work);
        let at = crate::activities::latest_match(s.transcript_blocks, item);
        if at is Some {
            let (b, a) = at->0;
            lemma_with_activity(s, b, a, next.transcript_blocks[b].activities[a]);
            lemma_grown(
                AgentSessionView { transcript_blocks: next.transcript_blocks, ..s },
                next,
            );
        } else {
            lemma_grown(with_pushed(s, item, work), next);
        }
        lemma_put_tame(state, id, next, 0);
        lemma_tame_trans(live.desk.state, state, state.put(id, next), id, 0, 0);
    }
}

proof fn lemma_outcome(desk: DeskView, id: Uuid, status: SessionStatus, fallback: Option<Seq<char>>, stamp: Stamp)
    ensures
        tame(desk.state, desk.outcome(id, status, fallback, stamp).state, id, 1),
{
    lemma_tame_refl(desk.state, id);
    lemma_session_id(desk.state, id);
    if desk.session(id) is Some {
        let s = desk.session(id)->0;
        lemma_grown(s, s.with_outcome(status, fallback, stamp));
        lemma_put_tame(desk.state, id, s.with_outcome(status, fallback, stamp), 1);
    }
}

proof fn lemma_turn_finished(desk: DeskView, id: Uuid, status: TurnStatus, stamp: Stamp)
    ensures
        tame(desk.state, desk.turn_finished(id, status, stamp).state, id, 0),
{
    lemma_tame_refl(desk.state, id);
    lemma_session_id(desk.state, id);
    if desk.session(id) is Some {
        let s = desk.session(id)->0;
        lemma_grown(s, s.with_turn_finished(status, stamp));
        lemma_put_tame(desk.state, id, s.with_turn_finished(status, stamp), 0);
    }
}

proof fn lemma_put_same(desk: DeskView, id: Uuid, session: AgentSessionView, grow: int)
    requires
        0 <= grow <= 1,
        desk.session(id) is Some,
        session.id == desk.session(id)->0.id,
        session.transcript_blocks == desk.session(id)->0.transcript_blocks,
        desk.session(id)->0.messages.len() <= session.messages.len() <= desk.session(id)->0.messages.len() + grow,
    ensures
        tame(desk.state, desk.put(id, session).state, id, grow),
{
    lemma_session_id(desk.state, id);
    lemma_grown(desk.session(id)->0, session);
    lemma_put_tame(desk.state, id, session, grow);
}

proof fn lemma_follow_up(desk: DeskView, id: Uuid, submission: ComposerSubmissionView, stamp: Stamp)
    ensures
        tame(desk.state, desk.follow_up_queued(id, submission, stamp).state, id, 0),
{
    lemma_tame_refl(desk.state, id);
    if desk.session(id) is Some {
        let s = desk.session(id)->0;
        let prompt = crate::text::trimmed(submission.prompt);
        let next = AgentSessionView {
            updated_at: stamp.secs,
            ..s.with_queued(ComposerSubmissionView { prompt, ..submission }.queued(stamp.id))
        };
        lemma_put_same(desk, id, next, 0);
    }
}

proof fn lemma_turn_over(
    live: Live,
    id: Uuid,
    success: bool,
    summary: Option<Seq<char>>,
    allow_queue_drain: bool,
    window_active: bool,
    words: Wordings,
    stamp: Stamp,
)
    ensures
        tame(
            live.desk.state,
            live.turn_over(id, success, summary, allow_queue_drain, window_active, words, stamp).desk.state,
            id,
            1,
        ),
{
    lemma_tame_refl(live.desk.state, id);
    let begun = live.desk.emit(EffectView::SettleForegroundWork { session_id: id, completed: success });
    let closed = begun.closed(id, stamp);
    lemma_closed(begun, id, stamp);
    let text = match summary {
        Some(text) => text,
        None => if success {
            words.turn_completed@
        } else {
            words.stopped_before_response@
        },
    };
    let status = if success {
        SessionStatus::Idle
    } else {
        SessionStatus::Failed
    };
    let told = closed.outcome(id, status, closed.fallback(id, text), stamp);
    lemma_outcome(closed, id, status, closed.fallback(id, text), stamp);
    let turn = if success {
        TurnStatus::Completed
    } else {
        TurnStatus::Failed
    };
    lemma_turn_finished(told, id, turn, stamp);
    let settled = told.turn_finished(id, turn, stamp);
    lemma_tame_trans(live.desk.state, closed.state, told.state, id, 0, 1);
    lemma_tame_trans(live.desk.state, told.state, settled.state, id, 1, 0);
    assert(settled.handed_over(id, allow_queue_drain && success).state == settled.state);
}

proof fn lemma_failed(live: Live, id: Uuid, error: Seq<char>, stamp: Stamp)
    ensures
        tame(live.desk.state, live.failed(id, error, stamp).desk.state, id, 1),
{
    let text = crate::turns::compacted(error);
    let warned = live.desk.retry_over(id).emit_if(
        live.desk.selected(id),
        EffectView::Toast(crate::desk::TextView::Plain(text)),
    );
    lemma_tame_refl(live.desk.state, id);
    lemma_blanks(warned, id, stamp);
    let not_working = match warned.session(id) {
        Some(session) => session.status != SessionStatus::Working,
        None => false,
    };
    let cleared = if not_working {
        warned.blanks_dropped(id, stamp)
    } else {
        warned
    };
    lemma_session_id(cleared.state, id);
    if cleared.session(id) is Some {
        let s = cleared.session(id)->0;
        let status = if s.status != SessionStatus::Working {
            SessionStatus::Failed
        } else {
            s.status
        };
        let fallback = if not_working && !cleared.answered(id) {
            Some(text)
        } else {
            None
        };
        let next = if warned.state.active_turn(id) is Some {
            s.with_outcome(status, fallback, stamp)
        } else {
            s
        };
        lemma_put_same(cleared, id, next, 1);
        lemma_tame_trans(live.desk.state, cleared.state, cleared.put(id, next).state, id, 0, 1);
    }
}

proof fn lemma_exited(live: Live, id: Uuid, words: Wordings, stamp: Stamp)
    ensures
        tame(live.desk.state, live.exited(id, words, stamp).desk.state, id, 1),
{
    let begun = live.desk.emit(EffectView::LoseBackgroundWork(id));
    let message = match live.runtime.last_driver_error {
        Some(error) => error,
        None => words.exited_before_response@,
    };
    let closed = begun.closed(id, stamp).retry_over(id);
    lemma_closed(begun, id, stamp);
    lemma_tame_refl(closed.state, id);
    lemma_session_id(closed.state, id);
    if closed.session(id) is Some {
        let s = closed.session(id)->0;
        lemma_put_same(closed, id, s, 0);
        let fallback = closed.fallback(id, message);
        let failed = closed.outcome(id, SessionStatus::Failed, fallback, stamp);
        lemma_outcome(closed, id, SessionStatus::Failed, fallback, stamp);
        lemma_tame_at(closed.state, failed.state, id, 1);
        let dated = failed.put(id, AgentSessionView { updated_at: stamp.secs, ..failed.session(id)->0 });
        lemma_put_same(failed, id, AgentSessionView { updated_at: stamp.secs, ..failed.session(id)->0 }, 0);
        lemma_turn_finished(dated, id, TurnStatus::Failed, stamp);
        let done = dated.turn_finished(id, TurnStatus::Failed, stamp);
        lemma_tame_trans(closed.state, failed.state, dated.state, id, 1, 0);
        lemma_tame_trans(closed.state, dated.state, done.state, id, 1, 0);
        lemma_tame_trans(live.desk.state, closed.state, done.state, id, 0, 1);
        lemma_tame_trans(live.desk.state, closed.state, closed.put(id, s).state, id, 0, 0);
    }
}

proof fn lemma_output(live: Live, id: Uuid, event: DriverEvent, stamp: Stamp)
    requires
        is_output(event),
        fits(live.desk.state, id),
    ensures
        tame(live.desk.state, live.output_reported(id, event, stamp).desk.state, id, 1),
{
    let calm = live.with_desk(live.desk.retry_over(id));
    let begun = calm.output_begun();
    lemma_tame_refl(live.desk.state, id);
    match event {
        DriverEvent::TextStarted { part } => lemma_text_opened(begun, id, part@, stamp),
        DriverEvent::TextDelta { part, delta } => lemma_text_delta(begun, id, part@, delta@, stamp),
        DriverEvent::TextEnded { part, text } => lemma_text_ended(begun, id, part@, crate::text::opt(text), stamp),
        DriverEvent::ReasoningStarted { part } => lemma_reasoning_opened(begun, id, part@, stamp),
        DriverEvent::ReasoningDelta { part, delta } => lemma_reasoning_delta(begun, id, part@, delta@, stamp),
        DriverEvent::ReasoningEnded { part, text } => lemma_reasoning_ended(
            begun,
            id,
            part@,
            crate::text::opt(text),
            stamp,
        ),
        DriverEvent::Activity { id: source, kind, title, detail, complete } => lemma_activity_event(
            live,
            id,
            crate::model::new_activity(
                stamp.id,
                crate::text::opt(source),
                kind,
                title@,
                crate::text::opt(detail),
                complete,
            ),
            stamp,
        ),
        DriverEvent::RichActivity(item) => lemma_activity_event(live, id, item@, stamp),
        _ => {},
    }
}

proof fn lemma_activity_event(live: Live, id: Uuid, item: ActivityItemView, stamp: Stamp)
    requires
        fits(live.desk.state, id),
    ensures
        tame(live.desk.state, live.activity(id, item, stamp).desk.state, id, 0),
{
    let calm = live.with_desk(live.desk.retry_over(id));
    lemma_tame_refl(live.desk.state, id);
    lemma_activity(
        calm.output_begun().with_desk(
            calm.desk.emit(EffectView::ObserveForegroundCommand { session_id: id, activity: item }),
        ),
        id,
        item,
        stamp,
    );
}

proof fn lemma_course(
    live: Live,
    id: Uuid,
    event: DriverEvent,
    allow_queue_drain: bool,
    window_active: bool,
    words: Wordings,
    stamp: Stamp,
)
    requires
        is_course(event),
    ensures
        tame(
            live.desk.state,
            live.course_reported(id, event, allow_queue_drain, window_active, words, stamp).desk.state,
            id,
            1,
        ),
{
    lemma_tame_refl(live.desk.state, id);
    lemma_session_id(live.desk.state, id);
    match event {
        DriverEvent::Permission { .. } | DriverEvent::UserInputRequested { .. } => {
            if live.desk.session(id) is Some {
                let s = live.desk.session(id)->0;
                lemma_put_same(live.desk, id, AgentSessionView { status: SessionStatus::Waiting, ..s }, 1);
                let asked = live.desk.emit(EffectView::ClearUserInputAnswer);
                lemma_put_same(asked, id, AgentSessionView { status: SessionStatus::Waiting, ..s }, 1);
            }
        },
        DriverEvent::SteerAccepted { message } => {
            if live.desk.session(id) is Some {
                let s = live.desk.session(id)->0;
                let submission = steer_taken(live.runtime.pending_steers, message@).0;
                lemma_put_same(live.desk, id, s.with_steer(message@, submission, stamp), 1);
            }
        },
        DriverEvent::SteerRejected { message, reason } => {
            let submission = steer_taken(live.runtime.pending_steers, message@).0;
            lemma_follow_up(live.desk, id, submission, stamp);
            if live.desk.session(id) is Some {
                let s = live.desk.session(id)->0;
                lemma_put_same(
                    live.desk,
                    id,
                    AgentSessionView {
                        queued_messages: s.queued_messages.insert(0, submission.queued(stamp.id)),
                        ..s
                    },
                    1,
                );
            }
        },
        DriverEvent::CompactionUpdated(state) => {
            if live.desk.session(id) is Some {
                let s = live.desk.session(id)->0;
                let known = AgentSessionView { compaction: Some(state@), ..s };
                lemma_put_same(live.desk, id, known, 1);
                lemma_put_same(live.desk, id, compaction_shown(known, state@, stamp), 1);
            }
        },
        DriverEvent::TurnFinished { success, summary } => lemma_turn_over(
            live,
            id,
            success,
            crate::text::opt(summary),
            allow_queue_drain,
            window_active,
            words,
            stamp,
        ),
        DriverEvent::Error(error) => lemma_failed(live, id, error@, stamp),
        DriverEvent::ProcessExited => lemma_exited(live, id, words, stamp),
        _ => {},
    }
}

/// Whatever a provider reports about one session: no session comes or goes, every
/// other session, the projects and the selection stay as they are, the transcript
/// grows by at most one message, and every block of activities that stood after
/// messages that are there still does.
pub proof fn a_report_stays_in_its_session(
    live: Live,
    id: Uuid,
    event: DriverEvent,
    allow_queue_drain: bool,
    window_active: bool,
    words: Wordings,
    stamp: Stamp,
)
    requires
        fits(live.desk.state, id),
    ensures
        tame(
            live.desk.state,
            live.handled(id, event, allow_queue_drain, window_active, words, stamp).desk.state,
            id,
            1,
        ),
{
    reveal(Live::handled);
    let awake = live.with_runtime(RuntimeView { last_active_at: stamp.millis, ..live.runtime });
    if is_output(event) {
        lemma_output(awake, id, event, stamp);
    } else if is_course(event) {
        lemma_course(awake, id, event, allow_queue_drain, window_active, words, stamp);
    } else {
        lemma_tame_refl(live.desk.state, id);
        lemma_session_id(live.desk.state, id);
        if live.desk.session(id) is Some {
            lemma_session_report(awake, id, event, stamp);
        }
    }
}

proof fn lemma_session_report(live: Live, id: Uuid, event: DriverEvent, stamp: Stamp)
    requires
        !is_output(event),
        !is_course(event),
        live.desk.session(id) is Some,
    ensures
        tame(live.desk.state, live.session_reported(id, event, stamp).desk.state, id, 1),
{
    lemma_tame_refl(live.desk.state, id);
    lemma_session_id(live.desk.state, id);
    let s = live.desk.session(id)->0;
    match event {
        DriverEvent::RuntimeEventCursorAdvanced(cursor) => lemma_put_same(
            live.desk,
            id,
            AgentSessionView { runtime_event_cursor: Some(cursor), ..s },
            1,
        ),
        DriverEvent::Connected { provider_cursor } => {
            let desk = live.desk.retry_over(id).emit(EffectView::RefreshBackgroundWork(id));
            lemma_put_same(
                desk,
                id,
                s.with_connected(crate::model::provider_resume_cursor_opt(provider_cursor)),
                1,
            );
        },
        DriverEvent::AgentPresetSelected(preset) => lemma_put_same(
            live.desk,
            id,
            AgentSessionView { agent_preset: crate::text::opt(preset), ..s },
            1,
        ),
        DriverEvent::AutoTitleUpdated(title) => lemma_put_same(
            live.desk,
            id,
            AgentSessionView { auto_title: Some(title@), ..s },
            1,
        ),
        DriverEvent::AvailableCommands(names) => lemma_put_same(
            live.desk,
            id,
            AgentSessionView { available_commands: crate::text::texts(names@), ..s },
            1,
        ),
        DriverEvent::TurnStarted => lemma_put_same(live.desk.retry_over(id), id, s.with_provider_turn(), 1),
        DriverEvent::TurnStatsUpdated(stats) => lemma_put_same(live.desk, id, s.with_turn_stats(stats), 1),
        DriverEvent::UsageUpdated { context_tokens, context_window, session_total, cache_read, prompt_tokens } => {
            lemma_put_same(
                live.desk,
                id,
                AgentSessionView {
                    context_usage: Some(
                        crate::driver_step::usage_merged(
                            s.context_usage,
                            context_tokens,
                            context_window,
                            session_total,
                            cache_read,
                            prompt_tokens,
                        ),
                    ),
                    ..s
                },
                1,
            );
        },
        _ => {},
    }
}

} // verus!
