//! Cutting a transcript off after a turn, and branching a session off there.
use vstd::prelude::*;

use crate::desk_laws::anchored;
use crate::ids::{Stamp, Uuid};
use crate::keyed::has_id;
use crate::model::{
    message_views, queued_message_views, transcript_block_views, turn_views,
    AgentSession, AgentSessionView, CheckpointView, MessageView, ProviderResumeCursor,
    SessionStatus, TranscriptBlock, TranscriptBlockView, Turn, TurnView,
};
use crate::text::texts;

verus! {

/// The ids of turns.
pub open spec fn turn_ids(turns: Seq<TurnView>) -> Seq<Uuid> {
    turns.map_values(|t: TurnView| t.id)
}

/// Something belongs to one of the turns.
pub open spec fn of_turns(turn_id: Option<Uuid>, ids: Seq<Uuid>) -> bool {
    match turn_id {
        Some(id) => ids.contains(id),
        None => false,
    }
}

/// How many messages stand before the first that belongs to one of the turns.
pub open spec fn before_turns(messages: Seq<MessageView>, ids: Seq<Uuid>) -> nat
    decreases messages.len(),
{
    if messages.len() == 0 || of_turns(messages[0].turn_id, ids) {
        0
    } else {
        1 + before_turns(messages.drop_first(), ids)
    }
}

/// The blocks that stand among the first `cut` messages and belong to none of the turns.
pub open spec fn blocks_before(blocks: Seq<TranscriptBlockView>, cut: nat, ids: Seq<Uuid>) -> Seq<TranscriptBlockView>
    decreases blocks.len(),
{
    if blocks.len() == 0 {
        blocks
    } else {
        let rest = blocks_before(blocks.drop_last(), cut, ids);
        if blocks.last().after_message <= cut && !of_turns(blocks.last().turn_id, ids) {
            rest.push(blocks.last())
        } else {
            rest
        }
    }
}

/// How many of the turns reached the provider.
pub open spec fn provider_turns(turns: Seq<TurnView>) -> nat
    decreases turns.len(),
{
    if turns.len() == 0 {
        0
    } else if turns.last().provider_turn_started {
        provider_turns(turns.drop_last()) + 1
    } else {
        provider_turns(turns.drop_last())
    }
}

/// The first `count` turns, or all where there are fewer.
pub open spec fn first_turns(turns: Seq<TurnView>, count: usize) -> Seq<TurnView> {
    if count < turns.len() {
        turns.take(count as int)
    } else {
        turns
    }
}

/// The turns after the first `count`.
pub open spec fn later_turns(turns: Seq<TurnView>, count: usize) -> Seq<TurnView> {
    if count < turns.len() {
        turns.skip(count as int)
    } else {
        Seq::empty()
    }
}

/// A checkpoint under another name.
pub open spec fn renamed(checkpoint: Option<CheckpointView>, name: Seq<char>) -> Option<CheckpointView> {
    match checkpoint {
        Some(checkpoint) => Some(CheckpointView { git_ref: name, ..checkpoint }),
        None => None,
    }
}

/// The turns with their checkpoints under new names, as far as there are names.
pub open spec fn with_refs(turns: Seq<TurnView>, refs: Seq<Seq<char>>) -> Seq<TurnView> {
    Seq::new(
        turns.len(),
        |i: int|
            if i < refs.len() {
                TurnView { checkpoint: renamed(turns[i].checkpoint, refs[i]), ..turns[i] }
            } else {
                turns[i]
            },
    )
}

impl AgentSessionView {
    /// The session with nothing after its first turns.
    pub open spec fn truncated(self, count: usize) -> AgentSessionView {
        let gone = turn_ids(later_turns(self.turns, count));
        let cut = before_turns(self.messages, gone);
        AgentSessionView {
            turns: first_turns(self.turns, count),
            messages: self.messages.take(cut as int),
            transcript_blocks: blocks_before(self.transcript_blocks, cut, gone),
            ..self
        }
    }

    /// A session of its own that starts out as this one was after a turn.
    pub open spec fn forked(
        self,
        count: usize,
        cursor: Seq<char>,
        title: Seq<char>,
        refs: Seq<Seq<char>>,
        stamp: Stamp,
    ) -> AgentSessionView {
        let base = self.truncated(count);
        AgentSessionView {
            id: stamp.id,
            title,
            auto_title: None,
            status: SessionStatus::Idle,
            turns: with_refs(base.turns, refs),
            queued_messages: Seq::empty(),
            provider_cursor: Some(cursor),
            native_session_id: Some(cursor),
            runtime_event_cursor: None,
            compaction: None,
            created_at: stamp.secs,
            updated_at: stamp.secs,
            detail_loaded: true,
            ..base
        }
    }

    /// There is a response to branch off after.
    pub open spec fn can_fork_after(self, count: usize) -> bool {
        0 < count <= self.turns.len() && self.turns[count - 1].turn_count == count
    }
}

pub(crate) proof fn lemma_before_turns(messages: Seq<MessageView>, ids: Seq<Uuid>)
    ensures
        before_turns(messages, ids) <= messages.len(),
        forall|j: int| 0 <= j < before_turns(messages, ids) ==> !of_turns(#[trigger] messages[j].turn_id, ids),
        before_turns(messages, ids) < messages.len() ==> of_turns(
            messages[before_turns(messages, ids) as int].turn_id,
            ids,
        ),
    decreases messages.len(),
{
    if messages.len() > 0 && !of_turns(messages[0].turn_id, ids) {
        let rest = messages.drop_first();
        lemma_before_turns(rest, ids);
        assert forall|j: int| 0 <= j < before_turns(messages, ids) implies !of_turns(#[trigger] messages[j].turn_id, ids) by {
            if j > 0 {
                assert(messages[j] == rest[j - 1]);
            }
        }
    }
}

fn belongs(turn_id: Option<Uuid>, ids: &Vec<Uuid>) -> (r: bool)
    ensures
        r == of_turns(turn_id, ids@),
{
    match turn_id {
        Some(id) => has_id(ids, id),
        None => false,
    }
}

/// Counts the turns from `from` to `to` that reached the provider.
fn count_provider_turns(turns: &Vec<Turn>, from: usize, to: usize) -> (r: usize)
    requires
        from <= to <= turns@.len(),
    ensures
        r == provider_turns(turn_views(turns@).subrange(from as int, to as int)),
{
    let ghost views = turn_views(turns@);
    let mut r: usize = 0;
    let mut i: usize = from;
    assert(views.subrange(from as int, from as int) =~= Seq::empty());
    while i < to
        invariant
            from <= i <= to <= turns@.len(),
            views == turn_views(turns@),
            r <= i - from,
            r == provider_turns(views.subrange(from as int, i as int)),
        decreases to - i,
    {
        assert(views.subrange(from as int, i + 1).drop_last() =~= views.subrange(from as int, i as int));
        assert(views.subrange(from as int, i + 1).last() == turns@[i as int]@);
        if turns[i].provider_turn_started {
            r = r + 1;
        }
        i = i + 1;
    }
    r
}

impl AgentSession {
    /// Counts the turns after the first `count` that reached the provider.
    pub fn provider_turns_after(&self, count: usize) -> (r: usize)
        ensures
            r == provider_turns(later_turns(self@.turns, count)),
    {
        let n = self.turns.len();
        if count < n {
            assert(self@.turns.skip(count as int) =~= self@.turns.subrange(count as int, n as int));
            count_provider_turns(&self.turns, count, n)
        } else {
            0
        }
    }

    /// Counts those of the first `count` turns that reached the provider.
    pub fn provider_turns_before(&self, count: usize) -> (r: usize)
        ensures
            r == provider_turns(first_turns(self@.turns, count)),
    {
        let n = self.turns.len();
        let end = if count < n {
            count
        } else {
            n
        };
        assert(first_turns(self@.turns, count) =~= self@.turns.subrange(0, end as int));
        count_provider_turns(&self.turns, 0, end)
    }

    /// Drops every turn after the first `count`, with its messages and activities.
    pub fn truncate_after_turn(&mut self, count: usize)
        ensures
            final(self)@ == old(self)@.truncated(count),
    {
        let mut gone: Vec<Uuid> = Vec::new();
        let mut i: usize = count;
        let ghost later = later_turns(self@.turns, count);
        assert(turn_ids(later).take(0) =~= gone@);
        while i < self.turns.len()
            invariant
                count <= i,
                i <= self.turns@.len() || i == count,
                later == later_turns(self@.turns, count),
                i > count ==> count < self.turns@.len(),
                gone@ == turn_ids(later).take(i - count),
            decreases self.turns@.len() - i,
        {
            assert(turn_ids(later)[i - count] == self.turns@[i as int].id);
            gone.push(self.turns[i].id);
            assert(gone@ =~= turn_ids(later).take(i - count + 1));
            i = i + 1;
        }
        assert(gone@ =~= turn_ids(later));
        let mut cut: usize = 0;
        let ghost messages = self@.messages;
        assert(messages.skip(0) =~= messages);
        while cut < self.messages.len() && !belongs(self.messages[cut].turn_id, &gone)
            invariant
                cut <= self.messages@.len(),
                messages == message_views(self.messages@),
                before_turns(messages, gone@) == cut + before_turns(messages.skip(cut as int), gone@),
            decreases self.messages@.len() - cut,
        {
            assert(messages.skip(cut as int)[0] == self.messages@[cut as int]@);
            assert(messages.skip(cut as int).drop_first() =~= messages.skip(cut + 1));
            cut = cut + 1;
        }
        proof {
            if cut < self.messages@.len() {
                assert(messages.skip(cut as int)[0] == self.messages@[cut as int]@);
            }
        }
        assert(before_turns(messages, gone@) == cut);
        self.messages.truncate(cut);
        assert(message_views(self.messages@) =~= messages.take(cut as int));
        self.turns.truncate(count);
        assert(turn_views(self.turns@) =~= first_turns(old(self)@.turns, count));
        retain_blocks(&mut self.transcript_blocks, cut, &gone);
    }

    /// A session of its own that starts out as this one was after a turn, or nothing
    /// where the turn is not there. `refs` names the checkpoints of its turns.
    pub fn fork_through_turn(
        &self,
        count: usize,
        cursor: ProviderResumeCursor,
        title: &str,
        refs: &Vec<String>,
        stamp: Stamp,
    ) -> (r: Option<AgentSession>)
        ensures
            r is Some == self@.can_fork_after(count),
            r matches Some(fork) ==> fork@ == self@.forked(count, cursor@, title@, texts(refs@), stamp),
    {
        if count == 0 || count > self.turns.len() || self.turns[count - 1].turn_count != count {
            return None;
        }
        let mut fork = self.clone();
        fork.truncate_after_turn(count);
        rename_checkpoints(&mut fork.turns, refs);
        fork.id = stamp.id;
        fork.title = title.to_owned();
        fork.auto_title = None;
        fork.status = SessionStatus::Idle;
        fork.queued_messages = Vec::new();
        assert(queued_message_views(fork.queued_messages@) =~= Seq::empty());
        fork.native_session_id = Some(cursor.native_id().to_owned());
        fork.provider_cursor = Some(cursor);
        fork.runtime_event_cursor = None;
        fork.compaction = None;
        fork.created_at = stamp.secs;
        fork.updated_at = stamp.secs;
        fork.detail_loaded = true;
        Some(fork)
    }
}

fn retain_blocks(blocks: &mut Vec<TranscriptBlock>, cut: usize, gone: &Vec<Uuid>)
    ensures
        transcript_block_views(final(blocks)@) == blocks_before(transcript_block_views(old(blocks)@), cut as nat, gone@),
{
    let mut rest: Vec<TranscriptBlock> = Vec::new();
    let mut all: Vec<TranscriptBlock> = Vec::new();
    std::mem::swap(&mut all, blocks);
    let ghost whole = all@;
    let ghost mut done: int = 0;
    assert(whole.skip(0) =~= whole);
    assert(transcript_block_views(whole.take(0)) =~= Seq::empty());
    assert(transcript_block_views(rest@) =~= Seq::empty());
    while all.len() > 0
        invariant
            0 <= done <= whole.len(),
            all@ == whole.skip(done),
            transcript_block_views(rest@) == blocks_before(transcript_block_views(whole.take(done)), cut as nat, gone@),
        decreases all@.len(),
    {
        let block = all.remove(0);
        proof {
            assert(whole.skip(done).remove(0) =~= whole.skip(done + 1));
            assert(transcript_block_views(whole.take(done + 1)).drop_last() =~= transcript_block_views(whole.take(done)));
            assert(transcript_block_views(whole.take(done + 1)).last() == whole[done]@);
        }
        if block.after_message <= cut && !belongs(block.turn_id, gone) {
            let ghost before = rest@;
            rest.push(block);
            assert(transcript_block_views(rest@) =~= transcript_block_views(before).push(whole[done]@));
        }
        proof {
            done = done + 1;
        }
    }
    assert(whole.take(done) =~= whole);
    *blocks = rest;
}

fn rename_checkpoints(turns: &mut Vec<Turn>, refs: &Vec<String>)
    ensures
        turn_views(final(turns)@) == with_refs(turn_views(old(turns)@), texts(refs@)),
{
    let ghost before = turns@;
    let mut i: usize = 0;
    while i < turns.len() && i < refs.len()
        invariant
            i <= turns@.len() == before.len(),
            i <= refs@.len(),
            forall|j: int| i <= j < before.len() ==> turns@[j] == #[trigger] before[j],
            forall|j: int|
                0 <= j < i ==> (#[trigger] turns@[j])@ == (TurnView {
                    checkpoint: renamed(before[j]@.checkpoint, texts(refs@)[j]),
                    ..before[j]@
                }),
        decreases turns@.len() - i,
    {
        let ghost step = turns@;
        assert(texts(refs@)[i as int] == refs@[i as int]@);
        if turns[i].checkpoint.is_some() {
            let mut checkpoint: Option<crate::model::Checkpoint> = None;
            std::mem::swap(&mut checkpoint, &mut turns[i].checkpoint);
            if let Some(mut point) = checkpoint {
                point.git_ref = refs[i].clone();
                turns[i].checkpoint = Some(point);
            }
            assert(turns@ =~= step.update(i as int, turns@[i as int]));
        }
        i = i + 1;
    }
    assert(turn_views(turns@) =~= with_refs(turn_views(before), texts(refs@)));
}

proof fn lemma_blocks_before(blocks: Seq<TranscriptBlockView>, cut: nat, ids: Seq<Uuid>, j: int)
    requires
        0 <= j < blocks_before(blocks, cut, ids).len(),
    ensures
        blocks_before(blocks, cut, ids)[j].after_message <= cut,
        !of_turns(blocks_before(blocks, cut, ids)[j].turn_id, ids),
    decreases blocks.len(),
{
    if blocks.len() > 0 {
        let rest = blocks_before(blocks.drop_last(), cut, ids);
        if j < rest.len() {
            lemma_blocks_before(blocks.drop_last(), cut, ids, j);
        }
    }
}

/// Cutting a transcript off leaves a prefix of its messages, in which nothing of a
/// dropped turn is left, and keeps every block of activities anchored in it.
pub proof fn truncation_leaves_a_prefix(session: AgentSessionView, count: usize)
    ensures
        session.truncated(count).messages.is_prefix_of(session.messages),
        session.truncated(count).turns.is_prefix_of(session.turns),
        anchored(session.truncated(count)),
        forall|j: int|
            0 <= j < session.truncated(count).messages.len() ==> !of_turns(
                #[trigger] session.truncated(count).messages[j].turn_id,
                turn_ids(later_turns(session.turns, count)),
            ),
        forall|j: int|
            0 <= j < session.truncated(count).transcript_blocks.len() ==> !of_turns(
                #[trigger] session.truncated(count).transcript_blocks[j].turn_id,
                turn_ids(later_turns(session.turns, count)),
            ),
{
    let gone = turn_ids(later_turns(session.turns, count));
    let cut = before_turns(session.messages, gone);
    lemma_before_turns(session.messages, gone);
    let after = session.truncated(count);
    assert(after.turns =~= session.turns.take(after.turns.len() as int));
    assert forall|j: int| 0 <= j < after.transcript_blocks.len() implies #[trigger] after.transcript_blocks[j].after_message
        <= after.messages.len() by {
        lemma_blocks_before(session.transcript_blocks, cut, gone, j);
    }
    assert forall|j: int| 0 <= j < after.transcript_blocks.len() implies !of_turns(
        #[trigger] after.transcript_blocks[j].turn_id,
        gone,
    ) by {
        lemma_blocks_before(session.transcript_blocks, cut, gone, j);
    }
    assert forall|j: int| 0 <= j < after.messages.len() implies !of_turns(#[trigger] after.messages[j].turn_id, gone) by {
        assert(after.messages[j] == session.messages[j]);
    }
}

/// A fork is a session of its own: it bears another id than the one it was forked
/// from, waits for a prompt, and shows the same messages up to the response.
pub proof fn a_fork_stands_alone(
    session: AgentSessionView,
    count: usize,
    cursor: Seq<char>,
    title: Seq<char>,
    refs: Seq<Seq<char>>,
    stamp: Stamp,
)
    requires
        session.can_fork_after(count),
        stamp.id != session.id,
    ensures
        ({
            let fork = session.forked(count, cursor, title, refs, stamp);
            &&& fork.id != session.id
            &&& fork.status == SessionStatus::Idle
            &&& fork.messages.is_prefix_of(session.messages)
            &&& fork.turns.len() == count
            &&& anchored(fork)
            &&& fork.queued_messages.len() == 0
        }),
{
    truncation_leaves_a_prefix(session, count);
    let fork = session.forked(count, cursor, title, refs, stamp);
    let base = session.truncated(count);
    assert forall|j: int| 0 <= j < fork.transcript_blocks.len() implies #[trigger] fork.transcript_blocks[j].after_message
        <= fork.messages.len() by {
        assert(base.transcript_blocks[j].after_message <= base.messages.len());
    }
}

} // verus!
