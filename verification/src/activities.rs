//! The activities of a transcript: merging reports, completing them, cleaning up.
use vstd::prelude::*;

use crate::ids::{Stamp, Uuid};
use crate::model::{
    ActivityItem, ActivityItemView, ActivityKind, AgentSession, AgentSessionView, FileChange,
    TranscriptBlock, TranscriptBlockView,
};
use crate::model::{activity_item_views, transcript_block_views};
use crate::text::{blank, same, trims_to_nothing};
use crate::transcript::{lemma_set_activity, push_transcript_activity, with_activity, with_pushed};

verus! {

/// A completed edit or shell command is the earliest point at which its effects
/// on the file system are stable enough to be read again.
pub fn should_refresh_branch_after_activity(kind: ActivityKind, complete: bool) -> (r: bool)
    ensures
        r == (complete && (kind == ActivityKind::Command || kind == ActivityKind::FileChange)),
{
    complete && matches!(kind, ActivityKind::Command | ActivityKind::FileChange)
}

/// A report is about an activity: by the provider's name for it, or, where it
/// gives none, by the title of one that is still running.
pub open spec fn is_about(activity: ActivityItemView, item: ActivityItemView) -> bool {
    match item.source_id {
        Some(id) => activity.source_id == Some(id),
        None => activity.title == item.title && !activity.complete,
    }
}

/// The activity with what a later report says of it. A report that leaves
/// something out does not take it away.
pub open spec fn merged(activity: ActivityItemView, item: ActivityItemView) -> ActivityItemView {
    ActivityItemView {
        id: activity.id,
        source_id: activity.source_id,
        kind: item.kind,
        title: item.title,
        complete: item.complete,
        failed: item.failed,
        detail: if item.detail is Some {
            item.detail
        } else {
            activity.detail
        },
        arguments: if item.arguments is Some {
            item.arguments
        } else {
            activity.arguments
        },
        output: if item.output is Some {
            item.output
        } else {
            activity.output
        },
        image_urls: if item.image_urls.len() > 0 {
            item.image_urls
        } else {
            activity.image_urls
        },
        file_changes: if item.file_changes.len() > 0 {
            item.file_changes
        } else {
            activity.file_changes
        },
        display_target: if item.display_target is Some {
            item.display_target
        } else {
            activity.display_target
        },
        display_description: if item.display_description is Some && (activity.display_description is None
            || item.arguments is Some) {
            item.display_description
        } else {
            activity.display_description
        },
        reasoning: if item.reasoning is Some {
            item.reasoning
        } else {
            activity.reasoning
        },
    }
}

/// Takes over what a later report says of an activity.
pub fn merge_into(activity: &mut ActivityItem, item: ActivityItem)
    ensures
        final(activity)@ == merged(old(activity)@, item@),
{
    let has_arguments = item.arguments.is_some();
    activity.kind = item.kind;
    activity.title = item.title;
    activity.complete = item.complete;
    activity.failed = item.failed;
    if item.detail.is_some() {
        activity.detail = item.detail;
    }
    if item.arguments.is_some() {
        activity.arguments = item.arguments;
    }
    if item.output.is_some() {
        activity.output = item.output;
    }
    if item.image_urls.len() > 0 {
        activity.image_urls = item.image_urls;
    }
    if item.file_changes.len() > 0 {
        activity.file_changes = item.file_changes;
    }
    if item.display_target.is_some() {
        activity.display_target = item.display_target;
    }
    if item.display_description.is_some() && (activity.display_description.is_none() || has_arguments) {
        activity.display_description = item.display_description;
    }
    if item.reasoning.is_some() {
        activity.reasoning = item.reasoning;
    }
}

/// The activity at `(b, a)` is one that the report is about.
pub open spec fn match_at(blocks: Seq<TranscriptBlockView>, item: ActivityItemView, b: int, a: int) -> bool {
    0 <= b < blocks.len() && 0 <= a < blocks[b].activities.len() && is_about(blocks[b].activities[a], item)
}

/// No activity after `(b, a)` is one that the report is about.
pub open spec fn latest_match_at(blocks: Seq<TranscriptBlockView>, item: ActivityItemView, b: int, a: int) -> bool {
    &&& match_at(blocks, item, b, a)
    &&& forall|c: int, d: int| #[trigger] match_at(blocks, item, c, d) ==> c < b || (c == b && d <= a)
}

/// The latest activity that the report is about.
pub open spec fn latest_match(blocks: Seq<TranscriptBlockView>, item: ActivityItemView) -> Option<(int, int)> {
    if exists|b: int, a: int| latest_match_at(blocks, item, b, a) {
        let (b, a) = choose|b: int, a: int| latest_match_at(blocks, item, b, a);
        Some((b, a))
    } else {
        None
    }
}

/// Whether a report is about an activity.
pub fn reports_on(item: &ActivityItem, activity: &ActivityItem) -> (r: bool)
    ensures
        r == is_about(activity@, item@),
{
    match &item.source_id {
        Some(id) => match &activity.source_id {
            Some(other) => same(id.as_str(), other.as_str()),
            None => false,
        },
        None => same(activity.title.as_str(), item.title.as_str()) && !activity.complete,
    }
}

fn find_latest_match(blocks: &Vec<TranscriptBlock>, item: &ActivityItem) -> (r: Option<(usize, usize)>)
    ensures
        match r {
            Some((b, a)) => latest_match(transcript_block_views(blocks@), item@) == Some((b as int, a as int))
                && match_at(transcript_block_views(blocks@), item@, b as int, a as int),
            None => latest_match(transcript_block_views(blocks@), item@) is None,
        },
{
    let ghost views = transcript_block_views(blocks@);
    let mut b: usize = blocks.len();
    while b > 0
        invariant
            b <= blocks@.len(),
            views == transcript_block_views(blocks@),
            forall|c: int, d: int| #[trigger] match_at(views, item@, c, d) ==> c < b,
        decreases b,
    {
        b = b - 1;
        let mut a: usize = blocks[b].activities.len();
        assert(views[b as int] == blocks@[b as int]@);
        while a > 0
            invariant
                b < blocks@.len(),
                a <= blocks@[b as int].activities@.len(),
                views == transcript_block_views(blocks@),
                views[b as int] == blocks@[b as int]@,
                forall|c: int, d: int| #[trigger] match_at(views, item@, c, d) ==> c < b || (c == b && d < a),
            decreases a,
        {
            a = a - 1;
            assert(views[b as int].activities[a as int] == blocks@[b as int].activities@[a as int]@);
            if reports_on(item, &blocks[b].activities[a]) {
                proof {
                    assert(latest_match_at(views, item@, b as int, a as int));
                    let (c, d) = choose|c: int, d: int| latest_match_at(views, item@, c, d);
                    assert(latest_match_at(views, item@, c, d));
                    assert(match_at(views, item@, c, d));
                }
                return Some((b, a));
            }
        }
    }
    None
}

/// What a report of an activity does: the session, and the activity whose
/// changed files were replaced.
pub open spec fn activity_reported(
    s: AgentSessionView,
    item: ActivityItemView,
    continuing_work: bool,
    stamp: Stamp,
) -> (AgentSessionView, Option<Uuid>) {
    match latest_match(s.transcript_blocks, item) {
        Some((b, a)) => {
            let activity = s.transcript_blocks[b].activities[a];
            (
                AgentSessionView {
                    transcript_blocks: with_activity(s.transcript_blocks, b, a, merged(activity, item)),
                    updated_at: stamp.secs,
                    ..s
                },
                if item.file_changes.len() > 0 {
                    Some(activity.id)
                } else {
                    None
                },
            )
        },
        None => (AgentSessionView { updated_at: stamp.secs, ..with_pushed(s, item, continuing_work) }, None),
    }
}

/// Merges a report into the latest activity that it is about, or adds it to the
/// transcript. Returns the activity whose changed files were replaced.
pub fn report_activity(session: &mut AgentSession, item: ActivityItem, continuing_work: bool, stamp: Stamp) -> (r: Option<
    Uuid,
>)
    ensures
        (final(session)@, r) == activity_reported(old(session)@, item@, continuing_work, stamp),
{
    match find_latest_match(&session.transcript_blocks, &item) {
        Some((b, a)) => {
            assert(session@.transcript_blocks[b as int].activities[a as int]
                == session.transcript_blocks@[b as int].activities@[a as int]@);
            let id = session.transcript_blocks[b].activities[a].id;
            let replaces = item.file_changes.len() > 0;
            merge_into(&mut session.transcript_blocks[b].activities[a], item);
            session.updated_at = stamp.secs;
            proof {
                lemma_set_activity(old(session).transcript_blocks@, session.transcript_blocks@, b as int, a as int);
            }
            if replaces {
                Some(id)
            } else {
                None
            }
        },
        None => {
            push_transcript_activity(session, item, continuing_work);
            session.updated_at = stamp.secs;
            None
        },
    }
}

/// The activity, completed.
pub open spec fn completed(activity: ActivityItemView) -> ActivityItemView {
    ActivityItemView { complete: true, ..activity }
}

/// The block with every activity completed.
pub open spec fn block_completed(block: TranscriptBlockView) -> TranscriptBlockView {
    TranscriptBlockView { activities: block.activities.map_values(|a: ActivityItemView| completed(a)), ..block }
}

/// The session with every activity completed.
pub open spec fn blocks_completed(s: AgentSessionView) -> AgentSessionView {
    AgentSessionView {
        transcript_blocks: s.transcript_blocks.map_values(|b: TranscriptBlockView| block_completed(b)),
        ..s
    }
}

fn complete_block(block: &mut TranscriptBlock)
    ensures
        final(block)@ == block_completed(old(block)@),
{
    let ghost before = block.activities@;
    let mut i: usize = 0;
    while i < block.activities.len()
        invariant
            i <= block.activities@.len() == before.len(),
            forall|j: int| 0 <= j < i ==> #[trigger] block.activities@[j]@ == completed(before[j]@),
            forall|j: int| i <= j < before.len() ==> #[trigger] block.activities@[j] == before[j],
            block.after_message == old(block).after_message,
            block.turn_id == old(block).turn_id,
        decreases before.len() - i,
    {
        block.activities[i].complete = true;
        i = i + 1;
    }
    assert(activity_item_views(block.activities@) =~= block_completed(old(block)@).activities);
}

/// Completes every activity of the session.
pub fn complete_blocks(session: &mut AgentSession)
    ensures
        final(session)@ == blocks_completed(old(session)@),
{
    let ghost before = session.transcript_blocks@;
    let mut i: usize = 0;
    while i < session.transcript_blocks.len()
        invariant
            i <= session.transcript_blocks@.len() == before.len(),
            forall|j: int| 0 <= j < i ==> #[trigger] session.transcript_blocks@[j]@ == block_completed(before[j]@),
            forall|j: int| i <= j < before.len() ==> #[trigger] session.transcript_blocks@[j] == before[j],
            session@ == (AgentSessionView { transcript_blocks: session@.transcript_blocks, ..old(session)@ }),
        decreases before.len() - i,
    {
        complete_block(&mut session.transcript_blocks[i]);
        i = i + 1;
    }
    assert(transcript_block_views(session.transcript_blocks@) =~= blocks_completed(old(session)@).transcript_blocks);
}

/// A thought that holds nothing.
pub open spec fn empty_thought(activity: ActivityItemView) -> bool {
    activity.reasoning is Some && blank(activity.reasoning->0.content)
}

/// The activities other than thoughts that hold nothing, completed.
pub open spec fn thoughts_kept(activities: Seq<ActivityItemView>) -> Seq<ActivityItemView>
    decreases activities.len(),
{
    if activities.len() == 0 {
        activities
    } else {
        let rest = thoughts_kept(activities.drop_last());
        if empty_thought(activities.last()) {
            rest
        } else {
            rest.push(completed(activities.last()))
        }
    }
}

/// The blocks once the turn they belong to was cut off: thoughts that hold
/// nothing go, the rest is complete, and blocks left empty go too.
pub open spec fn blocks_cut_off(blocks: Seq<TranscriptBlockView>) -> Seq<TranscriptBlockView>
    decreases blocks.len(),
{
    if blocks.len() == 0 {
        blocks
    } else {
        let rest = blocks_cut_off(blocks.drop_last());
        let activities = thoughts_kept(blocks.last().activities);
        if activities.len() == 0 {
            rest
        } else {
            rest.push(TranscriptBlockView { activities, ..blocks.last() })
        }
    }
}

fn keep_thoughts(all: Vec<ActivityItem>) -> (r: Vec<ActivityItem>)
    ensures
        activity_item_views(r@) == thoughts_kept(activity_item_views(all@)),
{
    let ghost whole = all@;
    let mut all = all;
    let mut rest: Vec<ActivityItem> = Vec::new();
    let ghost mut done: int = 0;
    assert(whole.skip(0) =~= whole);
    assert(activity_item_views(whole.take(0)) =~= Seq::empty());
    while all.len() > 0
        invariant
            0 <= done <= whole.len(),
            all@ == whole.skip(done),
            activity_item_views(rest@) == thoughts_kept(activity_item_views(whole.take(done))),
        decreases all@.len(),
    {
        let mut item = all.remove(0);
        proof {
            assert(whole.skip(done).remove(0) =~= whole.skip(done + 1));
            assert(activity_item_views(whole.take(done + 1)).drop_last() =~= activity_item_views(whole.take(done)));
            assert(activity_item_views(whole.take(done + 1)).last() == whole[done]@);
        }
        let empty: bool = match &item.reasoning {
            Some(reasoning) => trims_to_nothing(reasoning.content.as_str()),
            None => false,
        };
        if !empty {
            let ghost kept = rest@;
            item.complete = true;
            rest.push(item);
            assert(activity_item_views(rest@) =~= activity_item_views(kept).push(completed(whole[done]@)));
        }
        proof {
            done = done + 1;
        }
    }
    assert(whole.take(done) =~= whole);
    rest
}

/// Cleans up the transcript of a turn that was cut off.
pub fn cut_off_blocks(session: &mut AgentSession)
    ensures
        final(session)@ == (AgentSessionView {
            transcript_blocks: blocks_cut_off(old(session)@.transcript_blocks),
            ..old(session)@
        }),
{
    let mut all: Vec<TranscriptBlock> = Vec::new();
    std::mem::swap(&mut all, &mut session.transcript_blocks);
    let ghost whole = all@;
    let mut rest: Vec<TranscriptBlock> = Vec::new();
    let ghost mut done: int = 0;
    assert(whole.skip(0) =~= whole);
    assert(transcript_block_views(whole.take(0)) =~= Seq::empty());
    while all.len() > 0
        invariant
            0 <= done <= whole.len(),
            all@ == whole.skip(done),
            transcript_block_views(rest@) == blocks_cut_off(transcript_block_views(whole.take(done))),
        decreases all@.len(),
    {
        let block = all.remove(0);
        proof {
            assert(whole.skip(done).remove(0) =~= whole.skip(done + 1));
            assert(transcript_block_views(whole.take(done + 1)).drop_last() =~= transcript_block_views(
                whole.take(done),
            ));
            assert(transcript_block_views(whole.take(done + 1)).last() == whole[done]@);
        }
        let activities = keep_thoughts(block.activities);
        assert(activity_item_views(activities@).len() == activities@.len());
        if activities.len() > 0 {
            let ghost kept = rest@;
            let next = TranscriptBlock {
                after_message: block.after_message,
                turn_id: block.turn_id,
                activities,
            };
            rest.push(next);
            assert(transcript_block_views(rest@) =~= transcript_block_views(kept).push(next@));
        }
        proof {
            done = done + 1;
        }
    }
    assert(whole.take(done) =~= whole);
    session.transcript_blocks = rest;
}

} // verus!
