//! The transcript of a session: where streamed text, reasoning and activities go.
use vstd::prelude::*;

use crate::ids::{Stamp, Uuid};
use crate::keyed::{StrMap, StrSet};
use crate::model::{
    ActivityItem, ActivityItemView, AgentSession, AgentSessionView, Message, MessageView,
    ReasoningBlockView, TranscriptBlock, TranscriptBlockView,
};
use crate::model::{activity_item_views, message_views, reasoning_activity, transcript_block_views};
use crate::seqs::{lemma_pos_none, lemma_pos_some, pos};
use crate::text::{opt_str, trim, trimmed, trims_to_nothing};

verus! {

/// The ids of the messages.
pub open spec fn message_ids(messages: Seq<MessageView>) -> Seq<Uuid> {
    messages.map_values(|m: MessageView| m.id)
}

/// The blocks with one activity replaced.
pub open spec fn with_activity(
    blocks: Seq<TranscriptBlockView>,
    b: int,
    a: int,
    item: ActivityItemView,
) -> Seq<TranscriptBlockView> {
    blocks.update(b, TranscriptBlockView { activities: blocks[b].activities.update(a, item), ..blocks[b] })
}

pub(crate) proof fn lemma_set_activity(before: Seq<TranscriptBlock>, after: Seq<TranscriptBlock>, b: int, a: int)
    requires
        0 <= b < before.len(),
        0 <= a < before[b].activities@.len(),
        after == before.update(b, after[b]),
        after[b].after_message == before[b].after_message,
        after[b].turn_id == before[b].turn_id,
        after[b].activities@ == before[b].activities@.update(a, after[b].activities@[a]),
    ensures
        transcript_block_views(after) == with_activity(
            transcript_block_views(before),
            b,
            a,
            after[b].activities@[a]@,
        ),
{
    assert(activity_item_views(after[b].activities@) =~= activity_item_views(before[b].activities@).update(
        a,
        after[b].activities@[a]@,
    ));
    assert(transcript_block_views(after) =~= with_activity(
        transcript_block_views(before),
        b,
        a,
        after[b].activities@[a]@,
    ));
}

/// Where a message stands.
pub fn message_position(messages: &Vec<Message>, id: Uuid) -> (r: Option<usize>)
    ensures
        match r {
            Some(i) => pos(message_ids(message_views(messages@)), id) == Some(i as int) && i < messages@.len(),
            None => pos(message_ids(message_views(messages@)), id) is None,
        },
{
    let ghost ids = message_ids(message_views(messages@));
    let mut i: usize = 0;
    while i < messages.len()
        invariant
            i <= messages@.len(),
            ids == message_ids(message_views(messages@)),
            forall|j: int| 0 <= j < i ==> ids[j] != id,
        decreases messages@.len() - i,
    {
        assert(ids[i as int] == messages@[i as int].id);
        if messages[i].id == id {
            proof {
                lemma_pos_some(ids, id, i as int);
            }
            return Some(i);
        }
        i = i + 1;
    }
    proof {
        lemma_pos_none(ids, id);
    }
    None
}

// ---- reasoning -------------------------------------------------------------

/// A stretch of reasoning that has not been completed; where `only_bound`, one
/// that the provider still has open.
pub open spec fn open_thought(
    blocks: Seq<TranscriptBlockView>,
    bound: Map<Seq<char>, Uuid>,
    only_bound: bool,
    b: int,
    a: int,
) -> bool {
    &&& 0 <= b < blocks.len()
    &&& 0 <= a < blocks[b].activities.len()
    &&& blocks[b].activities[a].reasoning is Some
    &&& !blocks[b].activities[a].complete
    &&& only_bound ==> bound.contains_value(blocks[b].activities[a].id)
}

/// No open thought stands after `(b, a)`.
pub open spec fn latest_thought_at(
    blocks: Seq<TranscriptBlockView>,
    bound: Map<Seq<char>, Uuid>,
    only_bound: bool,
    b: int,
    a: int,
) -> bool {
    &&& open_thought(blocks, bound, only_bound, b, a)
    &&& forall|c: int, d: int|
        #[trigger] open_thought(blocks, bound, only_bound, c, d) ==> c < b || (c == b && d <= a)
}

/// The latest open thought.
pub open spec fn latest_thought(
    blocks: Seq<TranscriptBlockView>,
    bound: Map<Seq<char>, Uuid>,
    only_bound: bool,
) -> Option<(int, int)> {
    if exists|b: int, a: int| latest_thought_at(blocks, bound, only_bound, b, a) {
        let (b, a) = choose|b: int, a: int| latest_thought_at(blocks, bound, only_bound, b, a);
        Some((b, a))
    } else {
        None
    }
}

/// The thought that a change of phase completes: the latest one the provider
/// still has open, else the latest one.
pub open spec fn settled_thought(
    blocks: Seq<TranscriptBlockView>,
    bound: Map<Seq<char>, Uuid>,
) -> Option<(int, int)> {
    match latest_thought(blocks, bound, true) {
        Some(at) => Some(at),
        None => latest_thought(blocks, bound, false),
    }
}

fn find_latest_thought(blocks: &Vec<TranscriptBlock>, bound: &StrMap<Uuid>, only_bound: bool) -> (r: Option<
    (usize, usize),
>)
    ensures
        match r {
            Some((b, a)) => latest_thought(transcript_block_views(blocks@), bound@, only_bound) == Some(
                (b as int, a as int),
            ) && open_thought(transcript_block_views(blocks@), bound@, only_bound, b as int, a as int),
            None => latest_thought(transcript_block_views(blocks@), bound@, only_bound) is None,
        },
{
    let ghost views = transcript_block_views(blocks@);
    let mut b: usize = blocks.len();
    while b > 0
        invariant
            b <= blocks@.len(),
            views == transcript_block_views(blocks@),
            forall|c: int, d: int| #[trigger] open_thought(views, bound@, only_bound, c, d) ==> c < b,
        decreases b,
    {
        b = b - 1;
        let mut a: usize = blocks[b].activities.len();
        assert(views[b as int] == blocks@[b as int]@);
        while a > 0
            invariant
                b < blocks@.len(),
                a <= blocks@[b as int].activities@.len(),
                views == transcript_block_views(blocks@),
                views[b as int] == blocks@[b as int]@,
                forall|c: int, d: int|
                    #[trigger] open_thought(views, bound@, only_bound, c, d) ==> c < b || (c == b && d < a),
            decreases a,
        {
            a = a - 1;
            let activity = &blocks[b].activities[a];
            assert(views[b as int].activities[a as int] == activity@);
            let open: bool = activity.reasoning.is_some() && !activity.complete;
            if open && (!only_bound || bound.has_value(activity.id)) {
                proof {
                    assert(latest_thought_at(views, bound@, only_bound, b as int, a as int));
                    let (c, d) = choose|c: int, d: int| latest_thought_at(views, bound@, only_bound, c, d);
                    assert(latest_thought_at(views, bound@, only_bound, c, d));
                    assert(open_thought(views, bound@, only_bound, c, d));
                }
                return Some((b, a));
            }
        }
    }
    None
}

/// Completes the thought that a change of phase settles and says in which block
/// it stands. A thought the provider still has open is preferred to a later one
/// that it has closed: a tail may trail a tool.
pub fn complete_reasoning_activity_bound(session: &mut AgentSession, bound: &StrMap<Uuid>, stamp: Stamp) -> (r: Option<
    usize,
>)
    ensures
        final(session)@ == thought_completed(old(session)@, bound@, stamp),
        match settled_thought(old(session)@.transcript_blocks, bound@) {
            Some((b, a)) => r == Some(b as usize) && b == b as usize,
            None => r is None,
        },
{
    let found = match find_latest_thought(&session.transcript_blocks, bound, true) {
        Some(at) => Some(at),
        None => find_latest_thought(&session.transcript_blocks, bound, false),
    };
    match found {
        Some((b, a)) => {
            session.transcript_blocks[b].activities[a].complete = true;
            session.updated_at = stamp.secs;
            proof {
                lemma_set_activity(old(session).transcript_blocks@, session.transcript_blocks@, b as int, a as int);
            }
            Some(b)
        },
        None => None,
    }
}

/// The session with the settled thought completed.
pub open spec fn thought_completed(s: AgentSessionView, bound: Map<Seq<char>, Uuid>, stamp: Stamp) -> AgentSessionView {
    match settled_thought(s.transcript_blocks, bound) {
        Some((b, a)) => AgentSessionView {
            transcript_blocks: with_activity(
                s.transcript_blocks,
                b,
                a,
                ActivityItemView { complete: true, ..s.transcript_blocks[b].activities[a] },
            ),
            updated_at: stamp.secs,
            ..s
        },
        None => s,
    }
}

/// The activity `id` stands at `(b, a)`.
pub open spec fn activity_at(blocks: Seq<TranscriptBlockView>, id: Uuid, b: int, a: int) -> bool {
    0 <= b < blocks.len() && 0 <= a < blocks[b].activities.len() && blocks[b].activities[a].id == id
}

/// The activity `id` stands at `(b, a)` and nowhere before.
pub open spec fn first_activity_at(blocks: Seq<TranscriptBlockView>, id: Uuid, b: int, a: int) -> bool {
    &&& activity_at(blocks, id, b, a)
    &&& forall|c: int, d: int| #[trigger] activity_at(blocks, id, c, d) ==> b < c || (b == c && a <= d)
}

/// Where the activity `id` first stands.
pub open spec fn activity_pos(blocks: Seq<TranscriptBlockView>, id: Uuid) -> Option<(int, int)> {
    if exists|b: int, a: int| first_activity_at(blocks, id, b, a) {
        let (b, a) = choose|b: int, a: int| first_activity_at(blocks, id, b, a);
        Some((b, a))
    } else {
        None
    }
}

/// Finds the activity a reasoning fragment is bound to.
pub fn find_activity(blocks: &Vec<TranscriptBlock>, id: Uuid) -> (r: Option<(usize, usize)>)
    ensures
        match r {
            Some((b, a)) => activity_pos(transcript_block_views(blocks@), id) == Some((b as int, a as int))
                && activity_at(transcript_block_views(blocks@), id, b as int, a as int),
            None => activity_pos(transcript_block_views(blocks@), id) is None,
        },
{
    let ghost views = transcript_block_views(blocks@);
    let mut b: usize = 0;
    while b < blocks.len()
        invariant
            b <= blocks@.len(),
            views == transcript_block_views(blocks@),
            forall|c: int, d: int| #[trigger] activity_at(views, id, c, d) ==> b <= c,
        decreases blocks@.len() - b,
    {
        let mut a: usize = 0;
        assert(views[b as int] == blocks@[b as int]@);
        while a < blocks[b].activities.len()
            invariant
                b < blocks@.len(),
                a <= blocks@[b as int].activities@.len(),
                views == transcript_block_views(blocks@),
                views[b as int] == blocks@[b as int]@,
                forall|c: int, d: int| #[trigger] activity_at(views, id, c, d) ==> b < c || (b == c && a <= d),
            decreases blocks@[b as int].activities@.len() - a,
        {
            assert(views[b as int].activities[a as int] == blocks@[b as int].activities@[a as int]@);
            if blocks[b].activities[a].id == id {
                proof {
                    assert(first_activity_at(views, id, b as int, a as int));
                    let (c, d) = choose|c: int, d: int| first_activity_at(views, id, c, d);
                    assert(first_activity_at(views, id, c, d));
                    assert(activity_at(views, id, c, d));
                }
                return Some((b, a));
            }
            a = a + 1;
        }
        b = b + 1;
    }
    None
}

/// The session with one more activity: in the last block where the work goes on
/// there, else in a block of its own.
pub open spec fn with_pushed(s: AgentSessionView, item: ActivityItemView, continuing_work: bool) -> AgentSessionView {
    let blocks = s.transcript_blocks;
    if continuing_work && blocks.len() > 0 && blocks.last().after_message == s.messages.len()
        && blocks.last().turn_id == s.active_turn() {
        AgentSessionView {
            transcript_blocks: blocks.update(
                blocks.len() - 1,
                TranscriptBlockView { activities: blocks.last().activities.push(item), ..blocks.last() },
            ),
            ..s
        }
    } else {
        AgentSessionView {
            transcript_blocks: blocks.push(
                TranscriptBlockView {
                    after_message: s.messages.len() as usize,
                    turn_id: s.active_turn(),
                    activities: seq![item],
                },
            ),
            ..s
        }
    }
}

/// Adds an activity to the transcript.
pub fn push_transcript_activity(session: &mut AgentSession, item: ActivityItem, continuing_work: bool)
    ensures
        final(session)@ == with_pushed(old(session)@, item@, continuing_work),
{
    let after_message = session.messages.len();
    let turn_id = session.active_turn_id();
    let n = session.transcript_blocks.len();
    let ghost before = session.transcript_blocks@;
    let ghost view = item@;
    if continuing_work && n > 0 && session.transcript_blocks[n - 1].after_message == after_message
        && session.transcript_blocks[n - 1].turn_id == turn_id {
        session.transcript_blocks[n - 1].activities.push(item);
        proof {
            let after = session.transcript_blocks@;
            assert(activity_item_views(after[n - 1].activities@) =~= activity_item_views(
                before[n - 1].activities@,
            ).push(view));
            assert(transcript_block_views(after) =~= with_pushed(old(session)@, view, continuing_work).transcript_blocks);
        }
    } else {
        let mut activities: Vec<ActivityItem> = Vec::new();
        activities.push(item);
        assert(activity_item_views(activities@) =~= seq![view]);
        session.transcript_blocks.push(TranscriptBlock { after_message, turn_id, activities });
        assert(transcript_block_views(session.transcript_blocks@) =~= with_pushed(
            old(session)@,
            view,
            continuing_work,
        ).transcript_blocks);
    }
}

/// What a delta of reasoning does to the session and to the fragments that are open.
pub open spec fn reasoning_bound(
    s: AgentSessionView,
    open: Map<Seq<char>, Uuid>,
    settled: Set<Seq<char>>,
    part: Seq<char>,
    delta: Seq<char>,
    continuing_work: bool,
    stamp: Stamp,
) -> (AgentSessionView, Map<Seq<char>, Uuid>, bool) {
    if delta.len() == 0 || settled.contains(part) {
        (s, open, false)
    } else {
        let at = if open.dom().contains(part) {
            activity_pos(s.transcript_blocks, open[part])
        } else {
            None
        };
        match at {
            Some((b, a)) if s.transcript_blocks[b].activities[a].reasoning is Some => {
                let item = s.transcript_blocks[b].activities[a];
                let thought = item.reasoning->0;
                (
                    AgentSessionView {
                        transcript_blocks: with_activity(
                            s.transcript_blocks,
                            b,
                            a,
                            ActivityItemView {
                                reasoning: Some(
                                    ReasoningBlockView {
                                        content: thought.content + delta,
                                        finished_at_ms: stamp.millis,
                                        ..thought
                                    },
                                ),
                                ..item
                            },
                        ),
                        ..s
                    },
                    open,
                    false,
                )
            },
            _ => (
                with_pushed(s, reasoning_activity(stamp.id, Some(part), delta, stamp.millis, false), continuing_work),
                open.insert(part, stamp.id),
                true,
            ),
        }
    }
}

/// Routes one delta of reasoning to its own fragment. The delta of an open
/// fragment goes there even after a tool has intervened; a delta that trails
/// its fragment's end, or holds nothing, changes nothing. Whether a new
/// activity was opened.
pub fn bind_keyed_reasoning_delta(
    session: &mut AgentSession,
    open_reasoning: &mut StrMap<Uuid>,
    settled: &StrSet,
    part: &str,
    delta: &str,
    continuing_work: bool,
    stamp: Stamp,
) -> (r: bool)
    ensures
        (final(session)@, final(open_reasoning)@, r) == reasoning_bound(
            old(session)@,
            old(open_reasoning)@,
            settled@,
            part@,
            delta@,
            continuing_work,
            stamp,
        ),
{
    if delta.unicode_len() == 0 || settled.contains(part) {
        return false;
    }
    let bound: Option<Uuid> = match open_reasoning.get(part) {
        Some(id) => Some(*id),
        None => None,
    };
    if let Some(id) = bound {
        if let Some((b, a)) = find_activity(&session.transcript_blocks, id) {
            assert(session@.transcript_blocks[b as int].activities[a as int]
                == session.transcript_blocks@[b as int].activities@[a as int]@);
            if session.transcript_blocks[b].activities[a].reasoning.is_some() {
                if let Some(reasoning) = &mut session.transcript_blocks[b].activities[a].reasoning {
                    reasoning.content.append(delta);
                    reasoning.finished_at_ms = stamp.millis;
                }
                proof {
                    lemma_set_activity(
                        old(session).transcript_blocks@,
                        session.transcript_blocks@,
                        b as int,
                        a as int,
                    );
                }
                return false;
            }
        }
    }
    let item = ActivityItem::from_reasoning(stamp.id, Some(part.to_owned()), delta.to_owned(), stamp.millis, false);
    push_transcript_activity(session, item, continuing_work);
    let _ = open_reasoning.insert(part.to_owned(), stamp.id);
    true
}

/// The activities other than `id`.
pub open spec fn without_activity(activities: Seq<ActivityItemView>, id: Uuid) -> Seq<ActivityItemView>
    decreases activities.len(),
{
    if activities.len() == 0 {
        activities
    } else {
        let rest = without_activity(activities.drop_last(), id);
        if activities.last().id != id {
            rest.push(activities.last())
        } else {
            rest
        }
    }
}

/// The blocks without the activity `id` of block `b`, and without that block
/// where nothing is left in it.
pub open spec fn with_activity_removed(blocks: Seq<TranscriptBlockView>, b: int, id: Uuid) -> Seq<TranscriptBlockView> {
    if 0 <= b < blocks.len() {
        let rest = without_activity(blocks[b].activities, id);
        if rest.len() == 0 {
            blocks.remove(b)
        } else {
            blocks.update(b, TranscriptBlockView { activities: rest, ..blocks[b] })
        }
    } else {
        blocks
    }
}

/// Drops one activity from its block, and the block where that leaves it empty.
pub fn remove_activity(session: &mut AgentSession, block_index: usize, activity_id: Uuid)
    ensures
        final(session)@ == (AgentSessionView {
            transcript_blocks: with_activity_removed(
                old(session)@.transcript_blocks,
                block_index as int,
                activity_id,
            ),
            ..old(session)@
        }),
{
    if block_index >= session.transcript_blocks.len() {
        return;
    }
    let ghost before = session.transcript_blocks@;
    let mut all: Vec<ActivityItem> = Vec::new();
    std::mem::swap(&mut all, &mut session.transcript_blocks[block_index].activities);
    let ghost whole = all@;
    let mut rest: Vec<ActivityItem> = Vec::new();
    let ghost mut done: int = 0;
    assert(whole.skip(0) =~= whole);
    assert(activity_item_views(whole.take(0)) =~= Seq::empty());
    while all.len() > 0
        invariant
            0 <= done <= whole.len(),
            all@ == whole.skip(done),
            activity_item_views(rest@) == without_activity(activity_item_views(whole.take(done)), activity_id),
        decreases all@.len(),
    {
        let item = all.remove(0);
        proof {
            assert(whole.skip(done).remove(0) =~= whole.skip(done + 1));
            assert(activity_item_views(whole.take(done + 1)).drop_last() =~= activity_item_views(whole.take(done)));
            assert(activity_item_views(whole.take(done + 1)).last() == whole[done]@);
        }
        let other: bool = item.id != activity_id;
        if other {
            let ghost kept = rest@;
            rest.push(item);
            assert(activity_item_views(rest@) =~= activity_item_views(kept).push(whole[done]@));
        }
        proof {
            done = done + 1;
        }
    }
    assert(whole.take(done) =~= whole);
    if rest.len() == 0 {
        let _ = session.transcript_blocks.remove(block_index);
        assert(transcript_block_views(session.transcript_blocks@) =~= transcript_block_views(before).remove(
            block_index as int,
        ));
    } else {
        session.transcript_blocks[block_index].activities = rest;
        assert(transcript_block_views(session.transcript_blocks@) =~= with_activity_removed(
            transcript_block_views(before),
            block_index as int,
            activity_id,
        ));
    }
}

/// What the end of a reasoning fragment does: the session, the fragments still
/// open, and the block to measure again.
pub open spec fn reasoning_settled(
    s: AgentSessionView,
    open: Map<Seq<char>, Uuid>,
    part: Seq<char>,
    text: Option<Seq<char>>,
    continuing_work: bool,
    stamp: Stamp,
) -> (AgentSessionView, Map<Seq<char>, Uuid>, Option<int>) {
    let at = if open.dom().contains(part) {
        activity_pos(s.transcript_blocks, open[part])
    } else {
        None
    };
    match at {
        Some((b, a)) => {
            let item = s.transcript_blocks[b].activities[a];
            if text is Some && trimmed(text->0).len() == 0 {
                (
                    AgentSessionView {
                        transcript_blocks: with_activity_removed(s.transcript_blocks, b, item.id),
                        ..s
                    },
                    open.remove(part),
                    None,
                )
            } else {
                (
                    AgentSessionView {
                        transcript_blocks: with_activity(
                            s.transcript_blocks,
                            b,
                            a,
                            ActivityItemView {
                                complete: true,
                                reasoning: match (item.reasoning, text) {
                                    (Some(thought), Some(body)) => Some(
                                        ReasoningBlockView {
                                            content: body,
                                            finished_at_ms: stamp.millis,
                                            ..thought
                                        },
                                    ),
                                    _ => item.reasoning,
                                },
                                ..item
                            },
                        ),
                        ..s
                    },
                    open.remove(part),
                    Some(b),
                )
            }
        },
        None => (
            if text is Some && trimmed(text->0).len() > 0 {
                with_pushed(
                    s,
                    reasoning_activity(stamp.id, Some(part), trimmed(text->0), stamp.millis, true),
                    continuing_work,
                )
            } else {
                s
            },
            open.remove(part),
            None,
        ),
    }
}

/// Closes a reasoning fragment with the text that the stored part keeps. An
/// empty text retires the fragment's activity; a fragment that never opened is
/// written from a text that holds something. Returns the block to measure again.
pub fn settle_keyed_reasoning_fragment(
    session: &mut AgentSession,
    open_reasoning: &mut StrMap<Uuid>,
    part: &str,
    text: Option<&str>,
    continuing_work: bool,
    stamp: Stamp,
) -> (r: Option<usize>)
    ensures
        ({
            let (s, open, block) = reasoning_settled(
                old(session)@,
                old(open_reasoning)@,
                part@,
                opt_str(text),
                continuing_work,
                stamp,
            );
            &&& final(session)@ == s
            &&& final(open_reasoning)@ == open
            &&& match block {
                Some(b) => r == Some(b as usize) && b == b as usize,
                None => r is None,
            }
        }),
{
    let located = match open_reasoning.remove(part) {
        Some(id) => find_activity(&session.transcript_blocks, id),
        None => None,
    };
    if let Some((b, a)) = located {
        assert(session@.transcript_blocks[b as int].activities[a as int]
            == session.transcript_blocks@[b as int].activities@[a as int]@);
        let retired: bool = match text {
            Some(body) => trims_to_nothing(body),
            None => false,
        };
        if retired {
            let id = session.transcript_blocks[b].activities[a].id;
            remove_activity(session, b, id);
            return None;
        }
        if let Some(body) = text {
            if let Some(reasoning) = &mut session.transcript_blocks[b].activities[a].reasoning {
                reasoning.content = body.to_owned();
                reasoning.finished_at_ms = stamp.millis;
            }
        }
        session.transcript_blocks[b].activities[a].complete = true;
        proof {
            let before = old(session).transcript_blocks@;
            let after = session.transcript_blocks@;
            assert(after =~= before.update(b as int, after[b as int]));
            assert(after[b as int].activities@ =~= before[b as int].activities@.update(
                a as int,
                after[b as int].activities@[a as int],
            ));
            lemma_set_activity(before, after, b as int, a as int);
        }
        return Some(b);
    }
    if let Some(body) = text {
        if !trims_to_nothing(body) {
            let item = ActivityItem::from_reasoning(
                stamp.id,
                Some(part.to_owned()),
                trim(body).to_owned(),
                stamp.millis,
                true,
            );
            push_transcript_activity(session, item, continuing_work);
        }
    }
    None
}

} // verus!
