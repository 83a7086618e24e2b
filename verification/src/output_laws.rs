//! What the output of a provider leaves in the transcript, part by part.
use vstd::prelude::*;

use crate::activities::{activity_reported, is_about, latest_match, latest_match_at, match_at};
use crate::ids::{Stamp, Uuid};
use crate::model::{ActivityItemView, AgentSessionView, MessageRole, MessageView, TranscriptBlockView};
use crate::seqs::{first_at, lemma_pos, lemma_pos_some, pos};
use crate::text::{blank, trimmed};
use crate::text_parts::{last_streaming, text_appended, text_bound, text_settled, KeyedTextSettle};
use crate::transcript::{message_ids, with_pushed};
use crate::turn_laws::running;

verus! {

/// The message at `i` is the first that bears the id.
pub open spec fn is_message(s: AgentSessionView, i: int, id: Uuid) -> bool {
    &&& 0 <= i < s.messages.len()
    &&& s.messages[i].id == id
    &&& forall|j: int| 0 <= j < i ==> (#[trigger] s.messages[j]).id != id
}

/// No message bears the id.
pub open spec fn no_message(s: AgentSessionView, id: Uuid) -> bool {
    forall|j: int| 0 <= j < s.messages.len() ==> (#[trigger] s.messages[j]).id != id
}

/// The session has one message more, the last, which the agent is writing in the running turn.
pub open spec fn writes_anew(before: AgentSessionView, after: AgentSessionView, text: Seq<char>) -> bool {
    &&& after.messages.len() == before.messages.len() + 1
    &&& after.messages.last().role == MessageRole::Assistant
    &&& after.messages.last().content == text
    &&& running(before) ==> after.messages.last().turn_id == Some(before.turns.last().id)
    &&& !running(before) ==> after.messages.last().turn_id is None
}

/// Of two sessions only the message at `i` differs, and when they were updated.
pub open spec fn only_message(before: AgentSessionView, after: AgentSessionView, i: int) -> bool {
    &&& after.messages.len() == before.messages.len()
    &&& forall|j: int| 0 <= j < before.messages.len() && j != i ==> #[trigger] after.messages[j] == before.messages[j]
    &&& after == (AgentSessionView { messages: after.messages, updated_at: after.updated_at, ..before })
}

proof fn lemma_is_message(s: AgentSessionView, i: int, id: Uuid)
    requires
        is_message(s, i, id),
    ensures
        pos(message_ids(s.messages), id) == Some(i),
{
    let ids = message_ids(s.messages);
    assert forall|j: int| 0 <= j < i implies ids[j] != id by {
        assert(ids[j] == s.messages[j].id);
    }
    assert(ids[i] == s.messages[i].id);
    assert(first_at(ids, id, i));
    lemma_pos_some(ids, id, i);
}

proof fn lemma_no_message(s: AgentSessionView, id: Uuid)
    requires
        no_message(s, id),
    ensures
        pos(message_ids(s.messages), id) is None,
{
    let ids = message_ids(s.messages);
    lemma_pos(ids, id);
    if let Some(i) = pos(ids, id) {
        assert(ids[i] == s.messages[i].id);
    }
}

/// More of a text part goes behind what there is of it, into the message that the part is
/// bound to; no other message changes.
pub proof fn deltas_go_behind_their_part(
    s: AgentSessionView,
    open: Map<Seq<char>, Uuid>,
    settled: Set<Seq<char>>,
    part: Seq<char>,
    delta: Seq<char>,
    i: int,
    stamp: Stamp,
)
    requires
        part.len() > 0,
        delta.len() > 0,
        !settled.contains(part),
        open.dom().contains(part),
        is_message(s, i, open[part]),
    ensures
        ({
            let (t, now, fresh) = text_bound(s, open, settled, part, delta, stamp);
            &&& only_message(s, t, i)
            &&& t.messages[i].content == s.messages[i].content + delta
            &&& t.messages[i] == (MessageView { content: t.messages[i].content, streaming: true, ..s.messages[i] })
            &&& now == open && !fresh
        }),
{
    lemma_is_message(s, i, open[part]);
}

/// The first text of a part begins a message of its own at the end, which the part is bound
/// to from then on; so does text of a part whose message is gone.
pub proof fn new_parts_begin_a_message(
    s: AgentSessionView,
    open: Map<Seq<char>, Uuid>,
    settled: Set<Seq<char>>,
    part: Seq<char>,
    delta: Seq<char>,
    stamp: Stamp,
)
    requires
        part.len() > 0,
        delta.len() > 0,
        !settled.contains(part),
        !open.dom().contains(part) || no_message(s, open[part]),
    ensures
        ({
            let (t, now, fresh) = text_bound(s, open, settled, part, delta, stamp);
            &&& writes_anew(s, t, delta)
            &&& t.messages.drop_last() == s.messages
            &&& t.messages.last().streaming
            &&& t.messages.last().id == stamp.id
            &&& now == open.insert(part, stamp.id) && fresh
        }),
{
    if open.dom().contains(part) {
        lemma_no_message(s, open[part]);
    }
    let t = text_bound(s, open, settled, part, delta, stamp).0;
    assert(t.messages.drop_last() =~= s.messages);
}

/// A text part that ends says what it ended with, or what it said so far, and no more of it
/// comes.
pub proof fn ended_parts_say_their_text(
    s: AgentSessionView,
    open: Map<Seq<char>, Uuid>,
    part: Seq<char>,
    text: Option<Seq<char>>,
    i: int,
    stamp: Stamp,
)
    requires
        open.dom().contains(part),
        is_message(s, i, open[part]),
        text is Some ==> !blank(text->0),
        text is None ==> !blank(s.messages[i].content),
    ensures
        ({
            let (t, now, how) = text_settled(s, open, part, text, stamp);
            &&& only_message(s, t, i)
            &&& t.messages[i].content == (match text {
                Some(body) => body,
                None => s.messages[i].content,
            })
            &&& !t.messages[i].streaming
            &&& t.messages[i] == (MessageView { content: t.messages[i].content, streaming: false, ..s.messages[i] })
            &&& now == open.remove(part)
            &&& how == KeyedTextSettle::Rewritten(i as usize)
        }),
{
    lemma_is_message(s, i, open[part]);
}

/// A text part that ends with nothing leaves no message: the one it was bound to is gone, and
/// the others stay in their order.
pub proof fn empty_parts_leave_no_message(
    s: AgentSessionView,
    open: Map<Seq<char>, Uuid>,
    part: Seq<char>,
    text: Option<Seq<char>>,
    i: int,
    stamp: Stamp,
)
    requires
        open.dom().contains(part),
        is_message(s, i, open[part]),
        text is Some ==> blank(text->0),
        text is None ==> blank(s.messages[i].content),
    ensures
        ({
            let (t, now, how) = text_settled(s, open, part, text, stamp);
            &&& t.messages == s.messages.take(i) + s.messages.skip(i + 1)
            &&& t.turns == s.turns && t.status == s.status && t.queued_messages == s.queued_messages
            &&& t.transcript_blocks.len() == s.transcript_blocks.len()
            &&& forall|b: int|
                0 <= b < s.transcript_blocks.len() ==> (#[trigger] t.transcript_blocks[b]).activities
                    == s.transcript_blocks[b].activities && t.transcript_blocks[b].after_message == (
                s.transcript_blocks[b].after_message - (if s.transcript_blocks[b].after_message > i {
                    1int
                } else {
                    0int
                }))
            &&& now == open.remove(part) && how == KeyedTextSettle::Removed
        }),
{
    lemma_is_message(s, i, open[part]);
    let t = text_settled(s, open, part, text, stamp).0;
    assert(s.messages.remove(i) =~= s.messages.take(i) + s.messages.skip(i + 1));
    assert forall|b: int| 0 <= b < s.transcript_blocks.len() implies (#[trigger] t.transcript_blocks[b]).activities
        == s.transcript_blocks[b].activities && t.transcript_blocks[b].after_message == (
    s.transcript_blocks[b].after_message - (if s.transcript_blocks[b].after_message > i {
        1int
    } else {
        0int
    })) by {
        assert(t.transcript_blocks[b] == crate::text_parts::pulled_back(s.transcript_blocks[b], i));
    }
}

/// A text part that ends without having begun is said all the same, at the end, where it says
/// something.
pub proof fn unannounced_parts_are_said(
    s: AgentSessionView,
    open: Map<Seq<char>, Uuid>,
    part: Seq<char>,
    text: Option<Seq<char>>,
    stamp: Stamp,
)
    requires
        !open.dom().contains(part) || no_message(s, open[part]),
    ensures
        ({
            let (t, now, how) = text_settled(s, open, part, text, stamp);
            &&& !now.dom().contains(part)
            &&& how == KeyedTextSettle::Missing
            &&& text is Some && trimmed(text->0).len() > 0 ==> writes_anew(s, t, trimmed(text->0)) && t.messages.drop_last()
                == s.messages && !t.messages.last().streaming
            &&& text is None || trimmed(text->0).len() == 0 ==> t == s
        }),
{
    if open.dom().contains(part) {
        lemma_no_message(s, open[part]);
    }
    let t = text_settled(s, open, part, text, stamp).0;
    if t.messages.len() > s.messages.len() {
        assert(t.messages.drop_last() =~= s.messages);
    }
}

/// Text that names no part goes behind the last reply that is still written, while text was
/// what came last; else it begins a reply of its own, and no earlier one is written any more.
pub proof fn plain_text_continues_the_reply(s: AgentSessionView, continuing: bool, delta: Seq<char>, i: int, stamp: Stamp)
    ensures
        ({
            let t = text_appended(s, continuing, delta, stamp);
            let written = |m: MessageView| m.role == MessageRole::Assistant && m.streaming;
            &&& continuing && 0 <= i < s.messages.len() && written(s.messages[i]) && (forall|j: int|
                i < j < s.messages.len() ==> !written(#[trigger] s.messages[j])) ==> only_message(s, t, i)
                && t.messages[i].content == s.messages[i].content + delta && t.messages[i].streaming
            &&& continuing && (forall|j: int| 0 <= j < s.messages.len() ==> !written(#[trigger] s.messages[j]))
                ==> writes_anew(s, t, delta) && t.messages.drop_last() == s.messages && t.messages.last().streaming
            &&& !continuing ==> writes_anew(s, t, delta) && t.messages.last().streaming && (forall|j: int|
                0 <= j < s.messages.len() ==> !written(#[trigger] t.messages[j]) && t.messages[j].content
                    == s.messages[j].content && t.messages[j].id == s.messages[j].id)
        }),
{
    lemma_last_streaming(s.messages, i);
    let t = text_appended(s, continuing, delta, stamp);
    if !continuing || last_streaming(s.messages) is None {
        if continuing {
            assert(t.messages.drop_last() =~= s.messages);
        } else {
            let calm = crate::text_parts::streams_stopped(s);
            assert forall|j: int| 0 <= j < s.messages.len() implies t.messages[j] == crate::text_parts::stopped(
                #[trigger] s.messages[j],
            ) by {
                assert(t.messages[j] == calm.messages[j]);
            }
        }
    }
}

proof fn lemma_last_streaming(messages: Seq<MessageView>, i: int)
    ensures
        0 <= i < messages.len() && messages[i].role == MessageRole::Assistant && messages[i].streaming && (forall|j: int|
            i < j < messages.len() ==> !((#[trigger] messages[j]).role == MessageRole::Assistant && messages[j].streaming))
            ==> last_streaming(messages) == Some(i),
        (forall|j: int|
            0 <= j < messages.len() ==> !((#[trigger] messages[j]).role == MessageRole::Assistant && messages[j].streaming))
            ==> last_streaming(messages) is None,
    decreases messages.len(),
{
    if messages.len() > 0 {
        let rest = messages.drop_last();
        assert(messages[messages.len() - 1] == messages.last());
        assert(forall|j: int| 0 <= j < rest.len() ==> #[trigger] rest[j] == messages[j]);
        lemma_last_streaming(rest, i);
    }
}

/// The activity stands in the transcript, and everything else of it is as before.
pub open spec fn lists(blocks: Seq<TranscriptBlockView>, item: ActivityItemView) -> bool {
    exists|b: int, a: int|
        0 <= b < blocks.len() && 0 <= a < blocks[b].activities.len() && #[trigger] blocks[b].activities[a] == item
}

/// An activity that none in the transcript is about is added to it as it is, as the last: to
/// the last block, where work goes on behind the last message in the same turn, else in a
/// block of its own behind the last message.
pub proof fn new_activities_are_listed_last(s: AgentSessionView, item: ActivityItemView, continuing_work: bool, stamp: Stamp)
    requires
        s.messages.len() <= usize::MAX,
        forall|b: int, a: int|
            0 <= b < s.transcript_blocks.len() && 0 <= a < s.transcript_blocks[b].activities.len() ==> !is_about(
                #[trigger] s.transcript_blocks[b].activities[a],
                item,
            ),
    ensures
        ({
            let (t, replaced) = activity_reported(s, item, continuing_work, stamp);
            let was = s.transcript_blocks;
            let now = t.transcript_blocks;
            let joins = continuing_work && was.len() > 0 && was.last().after_message == s.messages.len() && was.last().turn_id
                == (if running(s) {
                Some(s.turns.last().id)
            } else {
                None
            });
            &&& replaced is None
            &&& t.messages == s.messages && t.turns == s.turns && t.status == s.status
            &&& now.len() == was.len() + (if joins {
                0int
            } else {
                1int
            })
            &&& now.last().activities.last() == item
            &&& now.last().after_message == s.messages.len()
            &&& joins ==> now.drop_last() == was.drop_last() && now.last().activities.drop_last() == was.last().activities
            &&& !joins ==> now.drop_last() == was && now.last().activities == seq![item]
            &&& lists(now, item)
        }),
{
    if let Some((b, a)) = latest_match(s.transcript_blocks, item) {
        assert(latest_match_at(s.transcript_blocks, item, b, a));
        assert(is_about(s.transcript_blocks[b].activities[a], item));
    }
    let t = with_pushed(s, item, continuing_work);
    let now = t.transcript_blocks;
    if now.len() == s.transcript_blocks.len() {
        assert(now.drop_last() =~= s.transcript_blocks.drop_last());
        assert(now.last().activities.drop_last() =~= s.transcript_blocks.last().activities);
    } else {
        assert(now.drop_last() =~= s.transcript_blocks);
    }
    assert(now[now.len() - 1].activities[now.last().activities.len() - 1] == item);
}

/// A report about an activity that is in the transcript goes to the latest that it is about,
/// which stays where it is; nothing is added, and no other activity changes.
pub proof fn known_activities_are_brought_up_to_date(
    s: AgentSessionView,
    item: ActivityItemView,
    continuing_work: bool,
    stamp: Stamp,
    b: int,
    a: int,
)
    requires
        0 <= b < s.transcript_blocks.len(),
        0 <= a < s.transcript_blocks[b].activities.len(),
        is_about(s.transcript_blocks[b].activities[a], item),
        forall|c: int, d: int|
            0 <= c < s.transcript_blocks.len() && 0 <= d < s.transcript_blocks[c].activities.len() && is_about(
                #[trigger] s.transcript_blocks[c].activities[d],
                item,
            ) ==> c < b || (c == b && d <= a),
    ensures
        ({
            let (t, replaced) = activity_reported(s, item, continuing_work, stamp);
            let was = s.transcript_blocks;
            let now = t.transcript_blocks;
            let x = was[b].activities[a];
            let y = now[b].activities[a];
            &&& now.len() == was.len()
            &&& forall|c: int| 0 <= c < was.len() && c != b ==> #[trigger] now[c] == was[c]
            &&& now[b].activities.len() == was[b].activities.len()
            &&& forall|d: int|
                0 <= d < was[b].activities.len() && d != a ==> #[trigger] now[b].activities[d] == was[b].activities[d]
            &&& y.id == x.id && y.source_id == x.source_id
            &&& y.kind == item.kind && y.title == item.title && y.complete == item.complete && y.failed == item.failed
            &&& y.detail == (if item.detail is Some {
                item.detail
            } else {
                x.detail
            })
            &&& y.output == (if item.output is Some {
                item.output
            } else {
                x.output
            })
            &&& y.arguments == (if item.arguments is Some {
                item.arguments
            } else {
                x.arguments
            })
            &&& y.file_changes == (if item.file_changes.len() > 0 {
                item.file_changes
            } else {
                x.file_changes
            })
            &&& t.messages == s.messages && t.turns == s.turns && t.status == s.status
            &&& replaced == (if item.file_changes.len() > 0 {
                Some(x.id)
            } else {
                None
            })
        }),
{
    assert(match_at(s.transcript_blocks, item, b, a));
    assert(latest_match_at(s.transcript_blocks, item, b, a)) by {
        assert forall|c: int, d: int| #[trigger] match_at(s.transcript_blocks, item, c, d) implies c < b || (c == b && d <= a) by {
            assert(is_about(s.transcript_blocks[c].activities[d], item));
        }
    }
    let (x, y) = latest_match(s.transcript_blocks, item)->0;
    assert(latest_match_at(s.transcript_blocks, item, x, y));
    assert(match_at(s.transcript_blocks, item, x, y));
}

/// A report is about the activity that its source names, or, where it names none, about one
/// of its title that is not complete.
pub proof fn reports_name_their_activity(activity: ActivityItemView, item: ActivityItemView)
    ensures
        item.source_id is Some ==> (is_about(activity, item) <==> activity.source_id == item.source_id),
        item.source_id is None ==> (is_about(activity, item) <==> activity.title == item.title && !activity.complete),
{
}

} // verus!
