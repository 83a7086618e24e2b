//! What holds of sessions, turns and activities in themselves.
use vstd::prelude::*;

use crate::activities::{activity_reported, merged};
use crate::desk::{lemma_put_get, lemma_session_id, ComposerSubmissionView, EffectView, RuntimeView, StreamPhase};
use crate::ids::{Stamp, Uuid};
use crate::live::Live;
use crate::model::{
    draft_session, other_turns, ActivityItemView, AgentSessionView, CheckpointView, MessageRole, MessageView,
    SessionStatus, TurnView, DEFAULT_TITLE,
};
use crate::session_laws::is_draft;
use crate::truncation::first_turns;
use crate::turn_laws::{engaged, in_turn, running};

verus! {

/// A session is at work or at rest, and never both.
pub proof fn sessions_work_or_rest(s: AgentSessionView)
    ensures
        s.status.busy() == engaged(s),
        s.status.at_rest() == !engaged(s),
        s.status.at_rest() <==> s.status == SessionStatus::Idle || s.status == SessionStatus::Failed,
{
}

/// A session that is new is a draft at rest: without a name, a message or a turn, read in full.
pub proof fn new_sessions_are_drafts(project_id: Uuid, stamp: Stamp)
    ensures
        ({
            let s = draft_session(project_id, stamp);
            &&& is_draft(s, project_id)
            &&& s.id == stamp.id && s.created_at == stamp.secs && s.updated_at == stamp.secs
            &&& s.title == DEFAULT_TITLE@ && s.auto_title is None
            &&& s.messages.len() == 0 && s.transcript_blocks.len() == 0 && s.queued_messages.len() == 0
            &&& !engaged(s) && s.detail_loaded
            &&& s.provider_cursor is None && s.compaction is None && s.context_usage is None
        }),
{
}

/// A message that is added stands last, in the turn that runs, and no other message changes.
pub proof fn added_messages_stand_last(s: AgentSessionView, role: MessageRole, content: Seq<char>, stamp: Stamp)
    ensures
        ({
            let t = s.with_message(role, content, stamp);
            &&& t.messages.len() == s.messages.len() + 1
            &&& t.messages.drop_last() == s.messages
            &&& t.messages.last().role == role && t.messages.last().content == content && t.messages.last().id == stamp.id
            &&& running(s) ==> t.messages.last().turn_id == Some(s.turns.last().id)
            &&& !running(s) ==> t.messages.last().turn_id is None
            &&& t == (AgentSessionView { messages: t.messages, updated_at: stamp.secs, ..s })
        }),
{
    assert(s.with_message(role, content, stamp).messages.drop_last() =~= s.messages);
}

proof fn lemma_all_other(messages: Seq<MessageView>, turn: Uuid)
    requires
        forall|k: int| 0 <= k < messages.len() ==> (#[trigger] messages[k]).turn_id != Some(turn),
    ensures
        other_turns(messages, turn) == messages,
    decreases messages.len(),
{
    if messages.len() > 0 {
        let rest = messages.drop_last();
        assert forall|k: int| 0 <= k < rest.len() implies (#[trigger] rest[k]).turn_id != Some(turn) by {
            assert(rest[k] == messages[k]);
        }
        lemma_all_other(rest, turn);
        assert(messages[messages.len() - 1] == messages.last());
        assert(rest.push(messages.last()) =~= messages);
    }
}

/// Unwinding a turn that no provider saw undoes its beginning: the turns and the messages are
/// what they were.
pub proof fn unwinding_undoes_the_beginning(s: AgentSessionView, submission: ComposerSubmissionView, stamp: Stamp)
    requires
        forall|k: int| 0 <= k < s.messages.len() ==> (#[trigger] s.messages[k]).turn_id != Some(stamp.turn),
    ensures
        ({
            let begun = s.with_turn_begun(submission.prompt, submission.display_content, submission.attachments, stamp);
            let back = begun.with_turn_unwound(stamp.turn);
            &&& back.turns == s.turns && back.messages == s.messages
            &&& back == (AgentSessionView { last_reply_at: back.last_reply_at, updated_at: back.updated_at, ..s })
        }),
{
    let begun = s.with_turn_begun(submission.prompt, submission.display_content, submission.attachments, stamp);
    assert(begun.turns.drop_last() =~= s.turns);
    assert(begun.messages.drop_last() =~= s.messages);
    assert(begun.messages.last().turn_id == Some(stamp.turn));
    lemma_all_other(s.messages, stamp.turn);
}

/// A turn that a provider saw is never unwound, nor one that is not the last.
pub proof fn seen_turns_stay(s: AgentSessionView, turn: Uuid)
    requires
        s.turns.len() == 0 || s.turns.last().id != turn || s.turns.last().provider_turn_started,
    ensures
        s.with_turn_unwound(turn) == s,
{
}

/// What a report says of an activity replaces what was known, what it does not say stays, and
/// the activity remains the same one.
pub proof fn reports_bring_activities_up_to_date(x: ActivityItemView, item: ActivityItemView)
    ensures
        ({
            let y = merged(x, item);
            &&& y.id == x.id && y.source_id == x.source_id
            &&& y.kind == item.kind && y.title == item.title && y.complete == item.complete && y.failed == item.failed
            &&& item.reasoning is Some ==> y.reasoning == item.reasoning
            &&& item.reasoning is None ==> y.reasoning == x.reasoning
            &&& item.image_urls.len() > 0 ==> y.image_urls == item.image_urls
            &&& item.image_urls.len() == 0 ==> y.image_urls == x.image_urls
            &&& item.display_target is Some ==> y.display_target == item.display_target
            &&& item.display_target is None ==> y.display_target == x.display_target
            &&& item.display_description is None ==> y.display_description == x.display_description
            &&& item.display_description is Some && x.display_description is None ==> y.display_description
                == item.display_description
            &&& item.display_description is Some && x.display_description is Some && item.arguments is None
                ==> y.display_description == x.display_description
            &&& item.display_description is Some && item.arguments is Some ==> y.display_description
                == item.display_description
        }),
{
}

/// A fork keeps the turns up to the response, each with its checkpoint under the fork's own
/// name for it.
pub proof fn forks_rename_their_checkpoints(
    s: AgentSessionView,
    count: usize,
    cursor: Seq<char>,
    title: Seq<char>,
    refs: Seq<Seq<char>>,
    stamp: Stamp,
    k: int,
)
    requires
        0 < count <= s.turns.len(),
        0 <= k < count,
        refs.len() == count,
    ensures
        ({
            let t = s.forked(count, cursor, title, refs, stamp);
            let x = s.turns[k];
            let y = t.turns[k];
            &&& t.turns.len() == count
            &&& y == (TurnView { checkpoint: y.checkpoint, ..x })
            &&& x.checkpoint is None ==> y.checkpoint is None
            &&& x.checkpoint matches Some(c) ==> y.checkpoint == Some(CheckpointView { git_ref: refs[k], ..c })
            &&& t.title == title && t.auto_title is None
            &&& t.provider_cursor == Some(cursor) && t.native_session_id == Some(cursor)
            &&& t.project_id == s.project_id && t.workspace == s.workspace && t.model == s.model && t.provider == s.provider
            &&& t.id == stamp.id && t.created_at == stamp.secs
            &&& t.runtime_event_cursor is None && t.compaction is None
        }),
{
    assert(first_turns(s.turns, count)[k] == s.turns[k]);
}

/// An activity that is reported while a turn runs enters the transcript of its session, and
/// work of the turn goes on; a command or a change of files that is done has the branch looked
/// at again, where the session is on screen.
pub proof fn activities_enter_the_running_turn(live: Live, id: Uuid, item: ActivityItemView, stamp: Stamp)
    requires
        in_turn(live.desk, id),
        live.runtime.stream_phase is None || live.runtime.stream_phase == Some(StreamPhase::Activity),
    ensures
        ({
            let s = live.desk.session(id)->0;
            let after = live.activity(id, item, stamp);
            let going = live.runtime.stream_phase == Some(StreamPhase::Activity);
            &&& after.desk.session(id) == Some(activity_reported(s, item, going, stamp).0)
            &&& after.runtime == (RuntimeView {
                provider_phase: None,
                stream_phase: Some(StreamPhase::Activity),
                ..live.runtime
            })
            &&& !after.desk.provider_retries.dom().contains(id)
            &&& after.desk.effects[live.desk.effects.len() as int] == (EffectView::ObserveForegroundCommand {
                session_id: id,
                activity: item,
            })
            &&& item.complete && (item.kind == crate::model::ActivityKind::Command || item.kind
                == crate::model::ActivityKind::FileChange) && live.desk.state.selected_session == Some(id)
                ==> after.desk.effects.last() == EffectView::RefreshBranch
        }),
{
    let s = live.desk.session(id)->0;
    lemma_session_id(live.desk.state, id);
    let going = live.runtime.stream_phase == Some(StreamPhase::Activity);
    let t = activity_reported(s, item, going, stamp).0;
    lemma_put_get(live.desk.state, id, t);
}

} // verus!
