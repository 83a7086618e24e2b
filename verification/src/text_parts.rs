//! The messages of a transcript: reserving, filling, settling and dropping them.
use vstd::prelude::*;

use crate::ids::{Stamp, Uuid};
use crate::keyed::{StrMap, StrSet};
use crate::model::{
    AgentSession, AgentSessionView, CompactionState, CompactionStateView, Message, MessageRole,
    MessageView, TranscriptBlockView,
};
use crate::model::{message_views, new_message, transcript_block_views};
use crate::seqs::pos;
use crate::text::{blank, opt_str, same, trim, trimmed, trims_to_nothing};
use crate::transcript::{message_ids, message_position};

verus! {

/// What settling a text part did to the message reserved for it.
#[derive(Clone, Copy, Debug, PartialEq, Eq, Structural)]
pub enum KeyedTextSettle {
    /// No message was bound. A text that holds something was written at the end.
    Missing,
    /// The bound message now holds the settled text.
    Rewritten(usize),
    /// An empty part was dropped, and later block anchors were pulled back.
    Removed,
}

/// The session with one more message of the agent.
pub open spec fn with_reply(s: AgentSessionView, content: Seq<char>, streaming: bool, stamp: Stamp) -> AgentSessionView {
    AgentSessionView {
        messages: s.messages.push(
            MessageView { streaming, ..new_message(stamp.id, MessageRole::Assistant, content, s.active_turn()) },
        ),
        updated_at: stamp.secs,
        ..s
    }
}

/// Writes a message of the agent, in the running turn if there is one, and
/// returns its id.
pub fn push_streaming_assistant(session: &mut AgentSession, content: String, streaming: bool, stamp: Stamp) -> (r: Uuid)
    ensures
        final(session)@ == with_reply(old(session)@, content@, streaming, stamp),
        r == stamp.id,
{
    let mut message = Message::new(stamp.id, MessageRole::Assistant, content);
    message.turn_id = session.active_turn_id();
    message.streaming = streaming;
    session.messages.push(message);
    session.updated_at = stamp.secs;
    assert(message_views(session.messages@) =~= message_views(old(session).messages@).push(message@));
    stamp.id
}

/// Reserves a message for a text part at the end of the transcript. A part that
/// is open or settled is left alone, so a start that is delivered again does not
/// split the sentence. Whether a message was created.
pub fn open_keyed_text_part(
    session: &mut AgentSession,
    open_text: &mut StrMap<Uuid>,
    settled: &StrSet,
    part: &str,
    stamp: Stamp,
) -> (r: bool)
    ensures
        r == (part@.len() > 0 && !old(open_text)@.dom().contains(part@) && !settled@.contains(part@)),
        final(session)@ == (if r {
            with_reply(old(session)@, Seq::empty(), true, stamp)
        } else {
            old(session)@
        }),
        final(open_text)@ == (if r {
            old(open_text)@.insert(part@, stamp.id)
        } else {
            old(open_text)@
        }),
{
    if part.unicode_len() == 0 || open_text.contains_key(part) || settled.contains(part) {
        return false;
    }
    let id = push_streaming_assistant(session, String::new(), true, stamp);
    let _ = open_text.insert(part.to_owned(), id);
    assert(session@.messages.last().content =~= Seq::empty());
    true
}

/// What a delta of text does to the session and to the parts that are open.
pub open spec fn text_bound(
    s: AgentSessionView,
    open: Map<Seq<char>, Uuid>,
    settled: Set<Seq<char>>,
    part: Seq<char>,
    delta: Seq<char>,
    stamp: Stamp,
) -> (AgentSessionView, Map<Seq<char>, Uuid>, bool) {
    if part.len() == 0 || delta.len() == 0 || settled.contains(part) {
        (s, open, false)
    } else {
        let at = if open.dom().contains(part) {
            pos(message_ids(s.messages), open[part])
        } else {
            None
        };
        match at {
            Some(i) => (
                AgentSessionView {
                    messages: s.messages.update(
                        i,
                        MessageView { content: s.messages[i].content + delta, streaming: true, ..s.messages[i] },
                    ),
                    updated_at: stamp.secs,
                    ..s
                },
                open,
                false,
            ),
            None => (with_reply(s, delta, true, stamp), open.insert(part, stamp.id), true),
        }
    }
}

/// Appends a delta to the message that its part owns, or opens one where the
/// start never arrived. Whether a message was opened.
pub fn bind_keyed_text_delta(
    session: &mut AgentSession,
    open_text: &mut StrMap<Uuid>,
    settled: &StrSet,
    part: &str,
    delta: &str,
    stamp: Stamp,
) -> (r: bool)
    ensures
        (final(session)@, final(open_text)@, r) == text_bound(
            old(session)@,
            old(open_text)@,
            settled@,
            part@,
            delta@,
            stamp,
        ),
{
    if part.unicode_len() == 0 || delta.unicode_len() == 0 || settled.contains(part) {
        return false;
    }
    let bound: Option<Uuid> = match open_text.get(part) {
        Some(id) => Some(*id),
        None => None,
    };
    if let Some(id) = bound {
        if let Some(i) = message_position(&session.messages, id) {
            session.messages[i].content.append(delta);
            session.messages[i].streaming = true;
            session.updated_at = stamp.secs;
            assert(message_views(session.messages@) =~= text_bound(
                old(session)@,
                old(open_text)@,
                settled@,
                part@,
                delta@,
                stamp,
            ).0.messages);
            return false;
        }
    }
    let id = push_streaming_assistant(session, delta.to_owned(), true, stamp);
    let _ = open_text.insert(part.to_owned(), id);
    true
}

/// A block once the message at `index` is gone.
pub open spec fn pulled_back(block: TranscriptBlockView, index: int) -> TranscriptBlockView {
    if block.after_message > index {
        TranscriptBlockView { after_message: (block.after_message - 1) as usize, ..block }
    } else {
        block
    }
}

/// The session without the message at `index`; blocks that stood after it move
/// back by one.
pub open spec fn with_message_removed(s: AgentSessionView, index: int, stamp: Stamp) -> AgentSessionView {
    AgentSessionView {
        messages: s.messages.remove(index),
        transcript_blocks: s.transcript_blocks.map_values(|b: TranscriptBlockView| pulled_back(b, index)),
        updated_at: stamp.secs,
        ..s
    }
}

/// Drops one message and pulls the anchors of the blocks after it back by one.
pub fn remove_message_at(session: &mut AgentSession, index: usize, stamp: Stamp)
    ensures
        final(session)@ == (if index < old(session)@.messages.len() {
            with_message_removed(old(session)@, index as int, stamp)
        } else {
            old(session)@
        }),
{
    if index >= session.messages.len() {
        return;
    }
    let _ = session.messages.remove(index);
    session.updated_at = stamp.secs;
    assert(message_views(session.messages@) =~= message_views(old(session).messages@).remove(index as int));
    let ghost before = session.transcript_blocks@;
    let mut i: usize = 0;
    while i < session.transcript_blocks.len()
        invariant
            i <= session.transcript_blocks@.len() == before.len(),
            forall|j: int| 0 <= j < i ==> #[trigger] session.transcript_blocks@[j]@ == pulled_back(
                before[j]@,
                index as int,
            ),
            forall|j: int| i <= j < before.len() ==> #[trigger] session.transcript_blocks@[j] == before[j],
            *session == (AgentSession { transcript_blocks: session.transcript_blocks, ..*session }),
            session@ == (AgentSessionView {
                transcript_blocks: session@.transcript_blocks,
                messages: old(session)@.messages.remove(index as int),
                updated_at: stamp.secs,
                ..old(session)@
            }),
        decreases before.len() - i,
    {
        if session.transcript_blocks[i].after_message > index {
            let anchor = session.transcript_blocks[i].after_message;
            session.transcript_blocks[i].after_message = anchor - 1;
        }
        i = i + 1;
    }
    assert(transcript_block_views(session.transcript_blocks@) =~= with_message_removed(
        old(session)@,
        index as int,
        stamp,
    ).transcript_blocks);
}

/// What the end of a text part does: the session, the parts still open, and how
/// it went.
pub open spec fn text_settled(
    s: AgentSessionView,
    open: Map<Seq<char>, Uuid>,
    part: Seq<char>,
    text: Option<Seq<char>>,
    stamp: Stamp,
) -> (AgentSessionView, Map<Seq<char>, Uuid>, KeyedTextSettle) {
    if !open.dom().contains(part) {
        (
            if text is Some && trimmed(text->0).len() > 0 {
                with_reply(s, trimmed(text->0), false, stamp)
            } else {
                s
            },
            open,
            KeyedTextSettle::Missing,
        )
    } else {
        match pos(message_ids(s.messages), open[part]) {
            None => (
                if text is Some && trimmed(text->0).len() > 0 {
                    with_reply(s, trimmed(text->0), false, stamp)
                } else {
                    s
                },
                open.remove(part),
                KeyedTextSettle::Missing,
            ),
            Some(i) => {
                let body = match text {
                    Some(body) => body,
                    None => s.messages[i].content,
                };
                if blank(body) {
                    (with_message_removed(s, i, stamp), open.remove(part), KeyedTextSettle::Removed)
                } else {
                    (
                        AgentSessionView {
                            messages: s.messages.update(
                                i,
                                MessageView { content: body, streaming: false, ..s.messages[i] },
                            ),
                            updated_at: stamp.secs,
                            ..s
                        },
                        open.remove(part),
                        KeyedTextSettle::Rewritten(i as usize),
                    )
                }
            },
        }
    }
}

fn write_settled_text(session: &mut AgentSession, text: Option<&str>, stamp: Stamp)
    ensures
        final(session)@ == (match opt_str(text) {
            Some(body) => if trimmed(body).len() > 0 {
                with_reply(old(session)@, trimmed(body), false, stamp)
            } else {
                old(session)@
            },
            None => old(session)@,
        }),
{
    if let Some(body) = text {
        if !trims_to_nothing(body) {
            let _ = push_streaming_assistant(session, trim(body).to_owned(), false, stamp);
        }
    }
}

/// Closes a text part with the text that the stored part keeps. An empty body
/// removes the reserved message; a part that never opened, or whose message is gone, is
/// written from a body that holds something.
pub fn settle_keyed_text_fragment(
    session: &mut AgentSession,
    open_text: &mut StrMap<Uuid>,
    part: &str,
    text: Option<&str>,
    stamp: Stamp,
) -> (r: KeyedTextSettle)
    ensures
        (final(session)@, final(open_text)@, r) == text_settled(
            old(session)@,
            old(open_text)@,
            part@,
            opt_str(text),
            stamp,
        ),
{
    let id = match open_text.remove(part) {
        Some(id) => id,
        None => {
            assert(open_text@ =~= old(open_text)@);
            write_settled_text(session, text, stamp);
            return KeyedTextSettle::Missing;
        },
    };
    let i = match message_position(&session.messages, id) {
        Some(i) => i,
        None => {
            write_settled_text(session, text, stamp);
            return KeyedTextSettle::Missing;
        },
    };
    let empty: bool = match text {
        Some(body) => trims_to_nothing(body),
        None => trims_to_nothing(session.messages[i].content.as_str()),
    };
    if empty {
        remove_message_at(session, i, stamp);
        return KeyedTextSettle::Removed;
    }
    if let Some(body) = text {
        session.messages[i].content = body.to_owned();
    }
    session.messages[i].streaming = false;
    session.updated_at = stamp.secs;
    assert(message_views(session.messages@) =~= text_settled(
        old(session)@,
        old(open_text)@,
        part@,
        opt_str(text),
        stamp,
    ).0.messages);
    KeyedTextSettle::Rewritten(i)
}

/// A message once streaming has stopped: a reply is no longer streaming.
pub open spec fn stopped(m: MessageView) -> MessageView {
    if m.role == MessageRole::Assistant {
        MessageView { streaming: false, ..m }
    } else {
        m
    }
}

/// The session in which no reply is streaming.
pub open spec fn streams_stopped(s: AgentSessionView) -> AgentSessionView {
    AgentSessionView { messages: s.messages.map_values(|m: MessageView| stopped(m)), ..s }
}

/// Stops every reply that is streaming.
pub fn stop_streaming(session: &mut AgentSession)
    ensures
        final(session)@ == streams_stopped(old(session)@),
{
    let ghost before = session.messages@;
    let mut i: usize = 0;
    while i < session.messages.len()
        invariant
            i <= session.messages@.len() == before.len(),
            forall|j: int| 0 <= j < i ==> #[trigger] session.messages@[j]@ == stopped(before[j]@),
            forall|j: int| i <= j < before.len() ==> #[trigger] session.messages@[j] == before[j],
            session@ == (AgentSessionView { messages: session@.messages, ..old(session)@ }),
        decreases before.len() - i,
    {
        if session.messages[i].role == MessageRole::Assistant && session.messages[i].streaming {
            session.messages[i].streaming = false;
        }
        i = i + 1;
    }
    assert(message_views(session.messages@) =~= streams_stopped(old(session)@).messages);
}

/// The last reply that is streaming.
pub open spec fn last_streaming(messages: Seq<MessageView>) -> Option<int>
    decreases messages.len(),
{
    if messages.len() == 0 {
        None
    } else if messages.last().role == MessageRole::Assistant && messages.last().streaming {
        Some(messages.len() - 1)
    } else {
        last_streaming(messages.drop_last())
    }
}

/// What a delta without a part does: it goes on with the reply that is streaming
/// where `continuing`, else it opens a new one and every other stops.
pub open spec fn text_appended(s: AgentSessionView, continuing: bool, delta: Seq<char>, stamp: Stamp) -> AgentSessionView {
    if continuing {
        match last_streaming(s.messages) {
            Some(i) => AgentSessionView {
                messages: s.messages.update(
                    i,
                    MessageView { content: s.messages[i].content + delta, ..s.messages[i] },
                ),
                updated_at: stamp.secs,
                ..s
            },
            None => with_reply(s, delta, true, stamp),
        }
    } else {
        with_reply(streams_stopped(s), delta, true, stamp)
    }
}

/// Appends text that no part names to the session.
pub fn append_text_delta_to_session(session: &mut AgentSession, continuing: bool, delta: String, stamp: Stamp)
    ensures
        final(session)@ == text_appended(old(session)@, continuing, delta@, stamp),
{
    if !continuing {
        stop_streaming(session);
        let _ = push_streaming_assistant(session, delta, true, stamp);
        return;
    }
    let mut i: usize = session.messages.len();
    let ghost views = message_views(session.messages@);
    assert(views.take(i as int) =~= views);
    while i > 0
        invariant
            i <= session.messages@.len(),
            continuing,
            *session == *old(session),
            views == message_views(session.messages@),
            last_streaming(views) == last_streaming(views.take(i as int)),
        decreases i,
    {
        assert(views.take(i as int).drop_last() =~= views.take(i - 1));
        assert(views[i - 1] == session.messages@[i - 1]@);
        if session.messages[i - 1].role == MessageRole::Assistant && session.messages[i - 1].streaming {
            session.messages[i - 1].content.append(delta.as_str());
            session.updated_at = stamp.secs;
            assert(message_views(session.messages@) =~= text_appended(
                old(session)@,
                continuing,
                delta@,
                stamp,
            ).messages);
            return;
        }
        i = i - 1;
    }
    let _ = push_streaming_assistant(session, delta, true, stamp);
}

/// A reply of the turn that holds nothing.
pub open spec fn blank_reply(m: MessageView, turn: Uuid) -> bool {
    m.role == MessageRole::Assistant && m.turn_id == Some(turn) && blank(m.content)
}

/// How many of the first `k` messages are blank replies of the turn.
pub open spec fn blank_before(messages: Seq<MessageView>, turn: Uuid, k: int) -> int
    decreases k,
{
    if k <= 0 {
        0
    } else {
        blank_before(messages, turn, k - 1) + (if blank_reply(messages[k - 1], turn) {
            1int
        } else {
            0
        })
    }
}

/// The first `k` messages without the blank replies of the turn.
pub open spec fn filled(messages: Seq<MessageView>, turn: Uuid, k: int) -> Seq<MessageView>
    decreases k,
{
    if k <= 0 {
        Seq::empty()
    } else if blank_reply(messages[k - 1], turn) {
        filled(messages, turn, k - 1)
    } else {
        filled(messages, turn, k - 1).push(messages[k - 1])
    }
}

/// A block once the blank replies before it are gone.
pub open spec fn shifted(block: TranscriptBlockView, messages: Seq<MessageView>, turn: Uuid) -> TranscriptBlockView {
    let anchor = if block.after_message <= messages.len() {
        block.after_message as int
    } else {
        messages.len() as int
    };
    TranscriptBlockView {
        after_message: (block.after_message - blank_before(messages, turn, anchor)) as usize,
        ..block
    }
}

/// The session without the blank replies of its running turn.
pub open spec fn blanks_dropped(s: AgentSessionView, stamp: Stamp) -> AgentSessionView {
    match s.active_turn() {
        Some(turn) if blank_before(s.messages, turn, s.messages.len() as int) > 0 => AgentSessionView {
            messages: filled(s.messages, turn, s.messages.len() as int),
            transcript_blocks: s.transcript_blocks.map_values(
                |b: TranscriptBlockView| shifted(b, s.messages, turn),
            ),
            updated_at: stamp.secs,
            ..s
        },
        _ => s,
    }
}

pub(crate) proof fn lemma_blank_before(messages: Seq<MessageView>, turn: Uuid, a: int, b: int)
    requires
        0 <= a <= b,
    ensures
        0 <= blank_before(messages, turn, b) - blank_before(messages, turn, a) <= b - a,
    decreases b - a,
{
    if a < b {
        lemma_blank_before(messages, turn, a, b - 1);
    }
}

/// A block while the messages from `i` on have been looked through.
spec fn shifted_from(block: TranscriptBlockView, messages: Seq<MessageView>, turn: Uuid, i: int) -> TranscriptBlockView {
    let anchor = if block.after_message <= messages.len() {
        block.after_message as int
    } else {
        messages.len() as int
    };
    let low = if anchor <= i {
        anchor
    } else {
        i
    };
    TranscriptBlockView {
        after_message: (block.after_message - (blank_before(messages, turn, anchor) - blank_before(
            messages,
            turn,
            low,
        ))) as usize,
        ..block
    }
}

proof fn lemma_shift_step(block: TranscriptBlockView, messages: Seq<MessageView>, turn: Uuid, i: int)
    requires
        0 < i <= messages.len(),
    ensures
        blank_reply(messages[i - 1], turn) ==> shifted_from(block, messages, turn, i - 1) == pulled_back(
            shifted_from(block, messages, turn, i),
            i - 1,
        ),
        !blank_reply(messages[i - 1], turn) ==> shifted_from(block, messages, turn, i - 1) == shifted_from(
            block,
            messages,
            turn,
            i,
        ),
{
    let anchor = if block.after_message <= messages.len() {
        block.after_message as int
    } else {
        messages.len() as int
    };
    lemma_blank_before(messages, turn, 0, anchor);
    if anchor >= i {
        lemma_blank_before(messages, turn, i, anchor);
        lemma_blank_before(messages, turn, i - 1, anchor);
    }
}

/// Whether a message is a blank reply of the turn.
pub fn is_blank_reply(message: &Message, turn: Uuid) -> (r: bool)
    ensures
        r == blank_reply(message@, turn),
{
    message.role == MessageRole::Assistant && message.turn_id == Some(turn) && trims_to_nothing(
        message.content.as_str(),
    )
}

/// Drops the replies that the running turn reserved and never filled.
pub fn drop_blank_replies(session: &mut AgentSession, stamp: Stamp)
    ensures
        final(session)@ == blanks_dropped(old(session)@, stamp),
{
    let turn = match session.active_turn_id() {
        Some(turn) => turn,
        None => {
            return;
        },
    };
    let ghost s = session@;
    let ghost ms = s.messages;
    let ghost n = ms.len() as int;
    let mut i: usize = session.messages.len();
    let ghost mut tail: Seq<MessageView> = Seq::empty();
    proof {
        assert(ms.take(n) + tail =~= ms);
        assert(filled(ms, turn, n) + tail =~= filled(ms, turn, n));
        assert forall|j: int| 0 <= j < s.transcript_blocks.len() implies #[trigger] s.transcript_blocks[j]
            == shifted_from(s.transcript_blocks[j], ms, turn, n) by {
            lemma_blank_before(ms, turn, 0, n);
        }
    }
    while i > 0
        invariant
            i <= n,
            n == ms.len(),
            ms == s.messages,
            session@.messages == ms.take(i as int) + tail,
            filled(ms, turn, n) == filled(ms, turn, i as int) + tail,
            session@.transcript_blocks.len() == s.transcript_blocks.len(),
            forall|j: int| 0 <= j < s.transcript_blocks.len() ==> #[trigger] session@.transcript_blocks[j]
                == shifted_from(s.transcript_blocks[j], ms, turn, i as int),
            blank_before(ms, turn, n) == blank_before(ms, turn, i as int) ==> session@ == s,
            session@ == (AgentSessionView {
                messages: session@.messages,
                transcript_blocks: session@.transcript_blocks,
                updated_at: if blank_before(ms, turn, n) > blank_before(ms, turn, i as int) {
                    stamp.secs
                } else {
                    s.updated_at
                },
                ..s
            }),
        decreases i,
    {
        let ghost before = session@;
        assert(message_views(session.messages@).len() == session.messages@.len());
        assert(session@.messages[i - 1] == ms[i - 1]);
        assert(session@.messages[i - 1] == session.messages@[i - 1]@);
        proof {
            lemma_blank_before(ms, turn, i as int, n);
            assert forall|j: int| 0 <= j < s.transcript_blocks.len() implies (blank_reply(ms[i - 1], turn)
                ==> #[trigger] shifted_from(s.transcript_blocks[j], ms, turn, i - 1) == pulled_back(
                before.transcript_blocks[j],
                i - 1,
            )) && (!blank_reply(ms[i - 1], turn) ==> shifted_from(s.transcript_blocks[j], ms, turn, i - 1)
                == before.transcript_blocks[j]) by {
                lemma_shift_step(s.transcript_blocks[j], ms, turn, i as int);
                assert(before.transcript_blocks[j] == shifted_from(s.transcript_blocks[j], ms, turn, i as int));
            }
        }
        let drop = is_blank_reply(&session.messages[i - 1], turn);
        if drop {
            remove_message_at(session, i - 1, stamp);
            assert(session@.messages =~= ms.take(i - 1) + tail);
        } else {
            proof {
                tail = seq![ms[i - 1]] + tail;
                assert(session@.messages =~= ms.take(i - 1) + tail);
                assert(filled(ms, turn, n) =~= filled(ms, turn, i - 1) + tail);
            }
        }
        i = i - 1;
    }
    proof {
        lemma_blank_before(ms, turn, 0, n);
        assert(ms.take(0) + tail =~= tail);
        assert(filled(ms, turn, 0) + tail =~= tail);
        let goal = s.transcript_blocks.map_values(|b: TranscriptBlockView| shifted(b, ms, turn));
        assert forall|j: int| 0 <= j < s.transcript_blocks.len() implies #[trigger] session@.transcript_blocks[j]
            == goal[j] by {
            lemma_blank_before(ms, turn, 0, n);
        }
        assert(session@.transcript_blocks =~= goal);
    }
}

/// The running turn has a reply that holds something.
pub open spec fn answered(s: AgentSessionView) -> bool {
    match s.active_turn() {
        Some(turn) => exists|i: int|
            0 <= i < s.messages.len() && #[trigger] s.messages[i].role == MessageRole::Assistant && s.messages[i].turn_id
                == Some(turn) && !blank(s.messages[i].content),
        None => false,
    }
}

/// Whether the running turn has a reply that holds something.
pub fn has_reply(session: &AgentSession) -> (r: bool)
    ensures
        r == answered(session@),
{
    let turn = match session.active_turn_id() {
        Some(turn) => turn,
        None => {
            return false;
        },
    };
    let mut i: usize = 0;
    while i < session.messages.len()
        invariant
            i <= session.messages@.len(),
            session@.active_turn() == Some(turn),
            forall|j: int|
                0 <= j < i ==> !(#[trigger] session@.messages[j].role == MessageRole::Assistant && session@.messages[j].turn_id
                    == Some(turn) && !blank(session@.messages[j].content)),
        decreases session.messages@.len() - i,
    {
        assert(session@.messages[i as int] == session.messages@[i as int]@);
        if session.messages[i].role == MessageRole::Assistant && session.messages[i].turn_id == Some(turn)
            && !trims_to_nothing(session.messages[i].content.as_str()) {
            return true;
        }
        i = i + 1;
    }
    false
}

/// The transcript already shows this summary.
pub open spec fn shows_summary(messages: Seq<MessageView>, summary: Seq<char>) -> bool {
    exists|i: int|
        0 <= i < messages.len() && #[trigger] messages[i].role == MessageRole::Compaction && trimmed(messages[i].content)
            == summary
}

/// The session with the summary of a compaction in its transcript, once.
pub open spec fn compaction_shown(s: AgentSessionView, state: CompactionStateView, stamp: Stamp) -> AgentSessionView {
    match state.summary {
        Some(summary) if trimmed(summary).len() > 0 && !shows_summary(s.messages, trimmed(summary)) => AgentSessionView {
            messages: s.messages.push(new_message(stamp.id, MessageRole::Compaction, trimmed(summary), None)),
            updated_at: stamp.secs,
            ..s
        },
        _ => s,
    }
}

/// Writes the summary of a compaction into the transcript once: the same body
/// delivered again changes nothing. It belongs to no turn.
pub fn upsert_compaction_transcript(session: &mut AgentSession, state: &CompactionState, stamp: Stamp)
    ensures
        final(session)@ == compaction_shown(old(session)@, state@, stamp),
{
    let summary = match &state.summary {
        Some(summary) => trim(summary.as_str()),
        None => {
            return;
        },
    };
    if summary.unicode_len() == 0 {
        return;
    }
    let mut i: usize = 0;
    while i < session.messages.len()
        invariant
            i <= session.messages@.len(),
            *session == *old(session),
            state@.summary is Some,
            summary@ == trimmed(state@.summary->0),
            forall|j: int|
                0 <= j < i ==> !(#[trigger] session@.messages[j].role == MessageRole::Compaction && trimmed(
                    session@.messages[j].content,
                ) == summary@),
        decreases session.messages@.len() - i,
    {
        assert(session@.messages[i as int] == session.messages@[i as int]@);
        if session.messages[i].role == MessageRole::Compaction && same(
            trim(session.messages[i].content.as_str()),
            summary,
        ) {
            return;
        }
        i = i + 1;
    }
    let message = Message::new(stamp.id, MessageRole::Compaction, summary.to_owned());
    session.messages.push(message);
    session.updated_at = stamp.secs;
    assert(message_views(session.messages@) =~= message_views(old(session).messages@).push(message@));
}

} // verus!
