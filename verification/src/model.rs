//! Projects, sessions, their turns and transcripts.
use vstd::prelude::*;

use crate::ids::{Stamp, Uuid};
use crate::text::{blank, copy_texts, opt, same, texts, trim, trimmed, trims_to_nothing};

verus! {

/// The agent command line a session talks to.
#[derive(Clone, Copy, Debug, PartialEq, Eq, Hash, Structural)]
pub enum ProviderKind {
    Codex,
    Claude,
    OpenCode,
    Cursor,
    Amp,
    Pi,
}

/// Where a session stands.
#[derive(Clone, Copy, Debug, PartialEq, Eq, Hash, Structural)]
pub enum SessionStatus {
    Idle,
    Connecting,
    Working,
    Waiting,
    Failed,
}

/// Where a turn stands.
#[derive(Clone, Copy, Debug, PartialEq, Eq, Hash, Structural)]
pub enum TurnStatus {
    Running,
    Completed,
    Failed,
    Interrupted,
}

/// Who a message is from; a compaction divides the conversation.
#[derive(Clone, Copy, Debug, PartialEq, Eq, Hash, Structural)]
pub enum MessageRole {
    User,
    Assistant,
    Compaction,
}

/// What an activity of the agent does.
#[derive(Clone, Copy, Debug, PartialEq, Eq, Hash, Structural)]
pub enum ActivityKind {
    Command,
    FileChange,
    Plan,
    Reasoning,
    Tool,
}

/// How a request to compact the context went.
#[derive(Clone, Copy, Debug, PartialEq, Eq, Hash, Structural)]
pub enum CompactionStatus {
    Running,
    Completed,
    Failed,
    Cancelled,
}

/// Whether a checkpoint could be captured.
#[derive(Clone, Copy, Debug, PartialEq, Eq, Hash, Structural)]
pub enum CheckpointStatus {
    Ready,
    Error,
}

/// How far the agent may act without asking.
#[derive(Clone, Copy, Debug, PartialEq, Eq, Hash, Structural)]
pub enum RuntimeMode {
    Ask,
    AutoEdit,
    FullAccess,
    Plan,
}

/// Whether the agent builds or only plans.
#[derive(Clone, Copy, Debug, PartialEq, Eq, Hash, Structural)]
pub enum InteractionMode {
    Build,
    Plan,
}

/// What a turn cost.
#[derive(Clone, Copy, Debug, PartialEq, Eq, Structural)]
pub struct TurnStats {
    pub input_tokens: u64,
    pub output_tokens: u64,
}

/// How full the context is.
#[derive(Clone, Copy, Debug, PartialEq, Eq, Structural)]
pub struct ContextUsage {
    pub tokens: u64,
    pub window: Option<u64>,
    pub total_tokens: Option<u64>,
    pub cache_read: Option<u64>,
    pub prompt_tokens: Option<u64>,
}

/// A file or image sent along with a message.
#[derive(Debug)]
pub struct Attachment {
    /// How the prompt refers to it.
    pub mention: String,
}

/// What a [`Attachment`] holds.
#[verifier::ext_equal]
pub ghost struct AttachmentView {
    pub mention: Seq<char>,
}

impl View for Attachment {
    type V = AttachmentView;

    open spec fn view(&self) -> AttachmentView {
        AttachmentView {
            mention: self.mention@,
        }
    }
}

/// What a list of them holds.
pub open spec fn attachment_views(s: Seq<Attachment>) -> Seq<AttachmentView> {
    s.map_values(|x: Attachment| x@)
}

impl Clone for Attachment {
    /// A second value that holds the same.
    fn clone(&self) -> (r: Attachment)
        ensures
            r@ == self@,
    {
        Attachment {
            mention: self.mention.clone(),
        }
    }
}

/// A second list that holds the same.
pub fn copy_attachments(v: &Vec<Attachment>) -> (r: Vec<Attachment>)
    ensures
        attachment_views(r@) == attachment_views(v@),
{
    let mut r: Vec<Attachment> = Vec::new();
    let mut i: usize = 0;
    while i < v.len()
        invariant
            i <= v@.len(),
            attachment_views(r@) == attachment_views(v@.take(i as int)),
        decreases v@.len() - i,
    {
        let item = v[i].clone();
        let ghost before = r@;
        r.push(item);
        assert(attachment_views(r@) =~= attachment_views(before).push(item@));
        assert(attachment_views(v@.take(i + 1)) =~= attachment_views(v@.take(i as int)).push(v@[i as int]@));
        i = i + 1;
    }
    assert(v@.take(i as int) =~= v@);
    r
}

/// One message of the conversation.
#[derive(Debug)]
pub struct Message {
    pub id: Uuid,
    pub role: MessageRole,
    pub content: String,
    /// What is shown in place of `content`.
    pub display_content: Option<String>,
    pub attachments: Vec<Attachment>,
    pub turn_id: Option<Uuid>,
    /// Whether more text may still arrive.
    pub streaming: bool,
}

/// What a [`Message`] holds.
#[verifier::ext_equal]
pub ghost struct MessageView {
    pub id: Uuid,
    pub role: MessageRole,
    pub content: Seq<char>,
    pub display_content: Option<Seq<char>>,
    pub attachments: Seq<AttachmentView>,
    pub turn_id: Option<Uuid>,
    pub streaming: bool,
}

impl View for Message {
    type V = MessageView;

    open spec fn view(&self) -> MessageView {
        MessageView {
            id: self.id,
            role: self.role,
            content: self.content@,
            display_content: opt(self.display_content),
            attachments: attachment_views(self.attachments@),
            turn_id: self.turn_id,
            streaming: self.streaming,
        }
    }
}

/// What a list of them holds.
pub open spec fn message_views(s: Seq<Message>) -> Seq<MessageView> {
    s.map_values(|x: Message| x@)
}

impl Clone for Message {
    /// A second value that holds the same.
    fn clone(&self) -> (r: Message)
        ensures
            r@ == self@,
    {
        Message {
            id: self.id,
            role: self.role,
            content: self.content.clone(),
            display_content: self.display_content.clone(),
            attachments: copy_attachments(&self.attachments),
            turn_id: self.turn_id,
            streaming: self.streaming,
        }
    }
}

/// A second list that holds the same.
pub fn copy_messages(v: &Vec<Message>) -> (r: Vec<Message>)
    ensures
        message_views(r@) == message_views(v@),
{
    let mut r: Vec<Message> = Vec::new();
    let mut i: usize = 0;
    while i < v.len()
        invariant
            i <= v@.len(),
            message_views(r@) == message_views(v@.take(i as int)),
        decreases v@.len() - i,
    {
        let item = v[i].clone();
        let ghost before = r@;
        r.push(item);
        assert(message_views(r@) =~= message_views(before).push(item@));
        assert(message_views(v@.take(i + 1)) =~= message_views(v@.take(i as int)).push(v@[i as int]@));
        i = i + 1;
    }
    assert(v@.take(i as int) =~= v@);
    r
}

/// A stretch of the agent's reasoning.
#[derive(Debug)]
pub struct ReasoningBlock {
    pub content: String,
    pub started_at_ms: u64,
    pub finished_at_ms: u64,
}

/// What a [`ReasoningBlock`] holds.
#[verifier::ext_equal]
pub ghost struct ReasoningBlockView {
    pub content: Seq<char>,
    pub started_at_ms: u64,
    pub finished_at_ms: u64,
}

impl View for ReasoningBlock {
    type V = ReasoningBlockView;

    open spec fn view(&self) -> ReasoningBlockView {
        ReasoningBlockView {
            content: self.content@,
            started_at_ms: self.started_at_ms,
            finished_at_ms: self.finished_at_ms,
        }
    }
}

/// What an optional one holds.
pub open spec fn reasoning_block_opt(o: Option<ReasoningBlock>) -> Option<ReasoningBlockView> {
    match o {
        Some(x) => Some(x@),
        None => None,
    }
}

impl Clone for ReasoningBlock {
    /// A second value that holds the same.
    fn clone(&self) -> (r: ReasoningBlock)
        ensures
            r@ == self@,
    {
        ReasoningBlock {
            content: self.content.clone(),
            started_at_ms: self.started_at_ms,
            finished_at_ms: self.finished_at_ms,
        }
    }
}

/// A second optional value that holds the same.
pub fn copy_reasoning_block_opt(o: &Option<ReasoningBlock>) -> (r: Option<ReasoningBlock>)
    ensures
        reasoning_block_opt(r) == reasoning_block_opt(*o),
{
    match o {
        Some(x) => Some(x.clone()),
        None => None,
    }
}

/// A file that an activity changed.
#[derive(Debug)]
pub struct FileChange {
    pub path: String,
    pub diff: String,
}

/// What a [`FileChange`] holds.
#[verifier::ext_equal]
pub ghost struct FileChangeView {
    pub path: Seq<char>,
    pub diff: Seq<char>,
}

impl View for FileChange {
    type V = FileChangeView;

    open spec fn view(&self) -> FileChangeView {
        FileChangeView {
            path: self.path@,
            diff: self.diff@,
        }
    }
}

/// What a list of them holds.
pub open spec fn file_change_views(s: Seq<FileChange>) -> Seq<FileChangeView> {
    s.map_values(|x: FileChange| x@)
}

impl Clone for FileChange {
    /// A second value that holds the same.
    fn clone(&self) -> (r: FileChange)
        ensures
            r@ == self@,
    {
        FileChange {
            path: self.path.clone(),
            diff: self.diff.clone(),
        }
    }
}

/// A second list that holds the same.
pub fn copy_file_changes(v: &Vec<FileChange>) -> (r: Vec<FileChange>)
    ensures
        file_change_views(r@) == file_change_views(v@),
{
    let mut r: Vec<FileChange> = Vec::new();
    let mut i: usize = 0;
    while i < v.len()
        invariant
            i <= v@.len(),
            file_change_views(r@) == file_change_views(v@.take(i as int)),
        decreases v@.len() - i,
    {
        let item = v[i].clone();
        let ghost before = r@;
        r.push(item);
        assert(file_change_views(r@) =~= file_change_views(before).push(item@));
        assert(file_change_views(v@.take(i + 1)) =~= file_change_views(v@.take(i as int)).push(v@[i as int]@));
        i = i + 1;
    }
    assert(v@.take(i as int) =~= v@);
    r
}

/// One thing the agent did: a command, an edit, a thought.
#[derive(Debug)]
pub struct ActivityItem {
    pub id: Uuid,
    /// How the provider names it.
    pub source_id: Option<String>,
    pub kind: ActivityKind,
    pub title: String,
    pub detail: Option<String>,
    pub complete: bool,
    pub failed: bool,
    pub arguments: Option<String>,
    pub output: Option<String>,
    pub image_urls: Vec<String>,
    pub file_changes: Vec<FileChange>,
    pub display_target: Option<String>,
    pub display_description: Option<String>,
    pub reasoning: Option<ReasoningBlock>,
}

/// What a [`ActivityItem`] holds.
#[verifier::ext_equal]
pub ghost struct ActivityItemView {
    pub id: Uuid,
    pub source_id: Option<Seq<char>>,
    pub kind: ActivityKind,
    pub title: Seq<char>,
    pub detail: Option<Seq<char>>,
    pub complete: bool,
    pub failed: bool,
    pub arguments: Option<Seq<char>>,
    pub output: Option<Seq<char>>,
    pub image_urls: Seq<Seq<char>>,
    pub file_changes: Seq<FileChangeView>,
    pub display_target: Option<Seq<char>>,
    pub display_description: Option<Seq<char>>,
    pub reasoning: Option<ReasoningBlockView>,
}

impl View for ActivityItem {
    type V = ActivityItemView;

    open spec fn view(&self) -> ActivityItemView {
        ActivityItemView {
            id: self.id,
            source_id: opt(self.source_id),
            kind: self.kind,
            title: self.title@,
            detail: opt(self.detail),
            complete: self.complete,
            failed: self.failed,
            arguments: opt(self.arguments),
            output: opt(self.output),
            image_urls: texts(self.image_urls@),
            file_changes: file_change_views(self.file_changes@),
            display_target: opt(self.display_target),
            display_description: opt(self.display_description),
            reasoning: reasoning_block_opt(self.reasoning),
        }
    }
}

/// What a list of them holds.
pub open spec fn activity_item_views(s: Seq<ActivityItem>) -> Seq<ActivityItemView> {
    s.map_values(|x: ActivityItem| x@)
}

impl Clone for ActivityItem {
    /// A second value that holds the same.
    fn clone(&self) -> (r: ActivityItem)
        ensures
            r@ == self@,
    {
        ActivityItem {
            id: self.id,
            source_id: self.source_id.clone(),
            kind: self.kind,
            title: self.title.clone(),
            detail: self.detail.clone(),
            complete: self.complete,
            failed: self.failed,
            arguments: self.arguments.clone(),
            output: self.output.clone(),
            image_urls: copy_texts(&self.image_urls),
            file_changes: copy_file_changes(&self.file_changes),
            display_target: self.display_target.clone(),
            display_description: self.display_description.clone(),
            reasoning: copy_reasoning_block_opt(&self.reasoning),
        }
    }
}

/// A second list that holds the same.
pub fn copy_activity_items(v: &Vec<ActivityItem>) -> (r: Vec<ActivityItem>)
    ensures
        activity_item_views(r@) == activity_item_views(v@),
{
    let mut r: Vec<ActivityItem> = Vec::new();
    let mut i: usize = 0;
    while i < v.len()
        invariant
            i <= v@.len(),
            activity_item_views(r@) == activity_item_views(v@.take(i as int)),
        decreases v@.len() - i,
    {
        let item = v[i].clone();
        let ghost before = r@;
        r.push(item);
        assert(activity_item_views(r@) =~= activity_item_views(before).push(item@));
        assert(activity_item_views(v@.take(i + 1)) =~= activity_item_views(v@.take(i as int)).push(v@[i as int]@));
        i = i + 1;
    }
    assert(v@.take(i as int) =~= v@);
    r
}

/// Activities shown together after a message.
#[derive(Debug)]
pub struct TranscriptBlock {
    /// How many messages stand before the block.
    pub after_message: usize,
    pub turn_id: Option<Uuid>,
    pub activities: Vec<ActivityItem>,
}

/// What a [`TranscriptBlock`] holds.
#[verifier::ext_equal]
pub ghost struct TranscriptBlockView {
    pub after_message: usize,
    pub turn_id: Option<Uuid>,
    pub activities: Seq<ActivityItemView>,
}

impl View for TranscriptBlock {
    type V = TranscriptBlockView;

    open spec fn view(&self) -> TranscriptBlockView {
        TranscriptBlockView {
            after_message: self.after_message,
            turn_id: self.turn_id,
            activities: activity_item_views(self.activities@),
        }
    }
}

/// What a list of them holds.
pub open spec fn transcript_block_views(s: Seq<TranscriptBlock>) -> Seq<TranscriptBlockView> {
    s.map_values(|x: TranscriptBlock| x@)
}

impl Clone for TranscriptBlock {
    /// A second value that holds the same.
    fn clone(&self) -> (r: TranscriptBlock)
        ensures
            r@ == self@,
    {
        TranscriptBlock {
            after_message: self.after_message,
            turn_id: self.turn_id,
            activities: copy_activity_items(&self.activities),
        }
    }
}

/// A second list that holds the same.
pub fn copy_transcript_blocks(v: &Vec<TranscriptBlock>) -> (r: Vec<TranscriptBlock>)
    ensures
        transcript_block_views(r@) == transcript_block_views(v@),
{
    let mut r: Vec<TranscriptBlock> = Vec::new();
    let mut i: usize = 0;
    while i < v.len()
        invariant
            i <= v@.len(),
            transcript_block_views(r@) == transcript_block_views(v@.take(i as int)),
        decreases v@.len() - i,
    {
        let item = v[i].clone();
        let ghost before = r@;
        r.push(item);
        assert(transcript_block_views(r@) =~= transcript_block_views(before).push(item@));
        assert(transcript_block_views(v@.take(i + 1)) =~= transcript_block_views(v@.take(i as int)).push(v@[i as int]@));
        i = i + 1;
    }
    assert(v@.take(i as int) =~= v@);
    r
}

/// A snapshot of the workspace at the end of a turn.
#[derive(Debug)]
pub struct Checkpoint {
    pub turn_count: usize,
    pub git_ref: String,
    pub status: CheckpointStatus,
    pub files: Vec<String>,
    pub additions: u64,
    pub deletions: u64,
    pub created_at: u64,
}

/// What a [`Checkpoint`] holds.
#[verifier::ext_equal]
pub ghost struct CheckpointView {
    pub turn_count: usize,
    pub git_ref: Seq<char>,
    pub status: CheckpointStatus,
    pub files: Seq<Seq<char>>,
    pub additions: u64,
    pub deletions: u64,
    pub created_at: u64,
}

impl View for Checkpoint {
    type V = CheckpointView;

    open spec fn view(&self) -> CheckpointView {
        CheckpointView {
            turn_count: self.turn_count,
            git_ref: self.git_ref@,
            status: self.status,
            files: texts(self.files@),
            additions: self.additions,
            deletions: self.deletions,
            created_at: self.created_at,
        }
    }
}

/// What an optional one holds.
pub open spec fn checkpoint_opt(o: Option<Checkpoint>) -> Option<CheckpointView> {
    match o {
        Some(x) => Some(x@),
        None => None,
    }
}

impl Clone for Checkpoint {
    /// A second value that holds the same.
    fn clone(&self) -> (r: Checkpoint)
        ensures
            r@ == self@,
    {
        Checkpoint {
            turn_count: self.turn_count,
            git_ref: self.git_ref.clone(),
            status: self.status,
            files: copy_texts(&self.files),
            additions: self.additions,
            deletions: self.deletions,
            created_at: self.created_at,
        }
    }
}

/// A second optional value that holds the same.
pub fn copy_checkpoint_opt(o: &Option<Checkpoint>) -> (r: Option<Checkpoint>)
    ensures
        checkpoint_opt(r) == checkpoint_opt(*o),
{
    match o {
        Some(x) => Some(x.clone()),
        None => None,
    }
}

/// A prompt and everything the agent did about it.
#[derive(Debug)]
pub struct Turn {
    pub id: Uuid,
    /// Counts from one.
    pub turn_count: usize,
    pub status: TurnStatus,
    /// Whether the prompt reached the provider.
    pub provider_turn_started: bool,
    pub started_at: u64,
    pub completed_at: Option<u64>,
    pub stats: Option<TurnStats>,
    pub checkpoint: Option<Checkpoint>,
}

/// What a [`Turn`] holds.
#[verifier::ext_equal]
pub ghost struct TurnView {
    pub id: Uuid,
    pub turn_count: usize,
    pub status: TurnStatus,
    pub provider_turn_started: bool,
    pub started_at: u64,
    pub completed_at: Option<u64>,
    pub stats: Option<TurnStats>,
    pub checkpoint: Option<CheckpointView>,
}

impl View for Turn {
    type V = TurnView;

    open spec fn view(&self) -> TurnView {
        TurnView {
            id: self.id,
            turn_count: self.turn_count,
            status: self.status,
            provider_turn_started: self.provider_turn_started,
            started_at: self.started_at,
            completed_at: self.completed_at,
            stats: self.stats,
            checkpoint: checkpoint_opt(self.checkpoint),
        }
    }
}

/// What a list of them holds.
pub open spec fn turn_views(s: Seq<Turn>) -> Seq<TurnView> {
    s.map_values(|x: Turn| x@)
}

impl Clone for Turn {
    /// A second value that holds the same.
    fn clone(&self) -> (r: Turn)
        ensures
            r@ == self@,
    {
        Turn {
            id: self.id,
            turn_count: self.turn_count,
            status: self.status,
            provider_turn_started: self.provider_turn_started,
            started_at: self.started_at,
            completed_at: self.completed_at,
            stats: self.stats,
            checkpoint: copy_checkpoint_opt(&self.checkpoint),
        }
    }
}

/// A second list that holds the same.
pub fn copy_turns(v: &Vec<Turn>) -> (r: Vec<Turn>)
    ensures
        turn_views(r@) == turn_views(v@),
{
    let mut r: Vec<Turn> = Vec::new();
    let mut i: usize = 0;
    while i < v.len()
        invariant
            i <= v@.len(),
            turn_views(r@) == turn_views(v@.take(i as int)),
        decreases v@.len() - i,
    {
        let item = v[i].clone();
        let ghost before = r@;
        r.push(item);
        assert(turn_views(r@) =~= turn_views(before).push(item@));
        assert(turn_views(v@.take(i + 1)) =~= turn_views(v@.take(i as int)).push(v@[i as int]@));
        i = i + 1;
    }
    assert(v@.take(i as int) =~= v@);
    r
}

/// A follow-up that waits for the running turn to settle.
#[derive(Debug)]
pub struct QueuedMessage {
    pub id: Uuid,
    pub prompt: String,
    pub display_content: Option<String>,
    pub attachments: Vec<Attachment>,
}

/// What a [`QueuedMessage`] holds.
#[verifier::ext_equal]
pub ghost struct QueuedMessageView {
    pub id: Uuid,
    pub prompt: Seq<char>,
    pub display_content: Option<Seq<char>>,
    pub attachments: Seq<AttachmentView>,
}

impl View for QueuedMessage {
    type V = QueuedMessageView;

    open spec fn view(&self) -> QueuedMessageView {
        QueuedMessageView {
            id: self.id,
            prompt: self.prompt@,
            display_content: opt(self.display_content),
            attachments: attachment_views(self.attachments@),
        }
    }
}

/// What a list of them holds.
pub open spec fn queued_message_views(s: Seq<QueuedMessage>) -> Seq<QueuedMessageView> {
    s.map_values(|x: QueuedMessage| x@)
}

impl Clone for QueuedMessage {
    /// A second value that holds the same.
    fn clone(&self) -> (r: QueuedMessage)
        ensures
            r@ == self@,
    {
        QueuedMessage {
            id: self.id,
            prompt: self.prompt.clone(),
            display_content: self.display_content.clone(),
            attachments: copy_attachments(&self.attachments),
        }
    }
}

/// A second list that holds the same.
pub fn copy_queued_messages(v: &Vec<QueuedMessage>) -> (r: Vec<QueuedMessage>)
    ensures
        queued_message_views(r@) == queued_message_views(v@),
{
    let mut r: Vec<QueuedMessage> = Vec::new();
    let mut i: usize = 0;
    while i < v.len()
        invariant
            i <= v@.len(),
            queued_message_views(r@) == queued_message_views(v@.take(i as int)),
        decreases v@.len() - i,
    {
        let item = v[i].clone();
        let ghost before = r@;
        r.push(item);
        assert(queued_message_views(r@) =~= queued_message_views(before).push(item@));
        assert(queued_message_views(v@.take(i + 1)) =~= queued_message_views(v@.take(i as int)).push(v@[i as int]@));
        i = i + 1;
    }
    assert(v@.take(i as int) =~= v@);
    r
}

/// The state of the last compaction.
#[derive(Debug)]
pub struct CompactionState {
    pub status: CompactionStatus,
    pub summary: Option<String>,
}

/// What a [`CompactionState`] holds.
#[verifier::ext_equal]
pub ghost struct CompactionStateView {
    pub status: CompactionStatus,
    pub summary: Option<Seq<char>>,
}

impl View for CompactionState {
    type V = CompactionStateView;

    open spec fn view(&self) -> CompactionStateView {
        CompactionStateView {
            status: self.status,
            summary: opt(self.summary),
        }
    }
}

/// What an optional one holds.
pub open spec fn compaction_state_opt(o: Option<CompactionState>) -> Option<CompactionStateView> {
    match o {
        Some(x) => Some(x@),
        None => None,
    }
}

impl Clone for CompactionState {
    /// A second value that holds the same.
    fn clone(&self) -> (r: CompactionState)
        ensures
            r@ == self@,
    {
        CompactionState {
            status: self.status,
            summary: self.summary.clone(),
        }
    }
}

/// A second optional value that holds the same.
pub fn copy_compaction_state_opt(o: &Option<CompactionState>) -> (r: Option<CompactionState>)
    ensures
        compaction_state_opt(r) == compaction_state_opt(*o),
{
    match o {
        Some(x) => Some(x.clone()),
        None => None,
    }
}

/// How to resume the provider's own session.
#[derive(Debug)]
pub enum ProviderResumeCursor {
    OpenCode { session_id: String },
}

impl View for ProviderResumeCursor {
    type V = Seq<char>;

    /// The native session it resumes.
    open spec fn view(&self) -> Seq<char> {
        match self {
            ProviderResumeCursor::OpenCode { session_id } => session_id@,
        }
    }
}

/// What an optional cursor resumes.
pub open spec fn provider_resume_cursor_opt(o: Option<ProviderResumeCursor>) -> Option<Seq<char>> {
    match o {
        Some(x) => Some(x@),
        None => None,
    }
}

impl ProviderResumeCursor {
    /// The provider's own name for the session.
    pub fn native_id(&self) -> (r: &str)
        ensures
            r@ == self@,
    {
        match self {
            ProviderResumeCursor::OpenCode { session_id } => session_id.as_str(),
        }
    }

}

impl Clone for ProviderResumeCursor {
    /// A second cursor for the same session.
    fn clone(&self) -> (r: ProviderResumeCursor)
        ensures
            r@ == self@,
    {
        match self {
            ProviderResumeCursor::OpenCode { session_id } => ProviderResumeCursor::OpenCode {
                session_id: session_id.clone(),
            },
        }
    }
}

/// A second optional cursor for the same session.
pub fn copy_provider_resume_cursor_opt(o: &Option<ProviderResumeCursor>) -> (r: Option<ProviderResumeCursor>)
    ensures
        provider_resume_cursor_opt(r) == provider_resume_cursor_opt(*o),
{
    match o {
        Some(x) => Some(x.clone()),
        None => None,
    }
}

/// Which checkout a session works in.
#[derive(Debug)]
pub enum SessionWorkspace {
    /// The project's own directory.
    Local,
    /// An isolated copy that the first submission creates.
    NewWorktree { base_branch: String },
    /// An isolated copy.
    Worktree { path: String, branch: String },
}

/// What a [`SessionWorkspace`] holds.
#[verifier::ext_equal]
pub ghost enum SessionWorkspaceView {
    Local,
    NewWorktree { base_branch: Seq<char> },
    Worktree { path: Seq<char>, branch: Seq<char> },
}

impl View for SessionWorkspace {
    type V = SessionWorkspaceView;

    open spec fn view(&self) -> SessionWorkspaceView {
        match self {
            SessionWorkspace::Local => SessionWorkspaceView::Local,
            SessionWorkspace::NewWorktree { base_branch } => SessionWorkspaceView::NewWorktree {
                base_branch: base_branch@,
            },
            SessionWorkspace::Worktree { path, branch } => SessionWorkspaceView::Worktree {
                path: path@,
                branch: branch@,
            },
        }
    }
}

impl SessionWorkspaceView {
    /// The directory of an isolated copy that exists.
    pub open spec fn path(self) -> Option<Seq<char>> {
        match self {
            SessionWorkspaceView::Worktree { path, .. } => Some(path),
            _ => None,
        }
    }
}

impl SessionWorkspace {
    /// The directory of an isolated copy. A worktree that is not there yet has none.
    pub fn path(&self) -> (r: Option<&str>)
        ensures
            crate::text::opt_str(r) == self@.path(),
    {
        match self {
            SessionWorkspace::Worktree { path, .. } => Some(path.as_str()),
            _ => None,
        }
    }

    /// Whether both name the same checkout.
    pub fn same_as(&self, other: &SessionWorkspace) -> (r: bool)
        ensures
            r == (self@ == other@),
    {
        match (self, other) {
            (SessionWorkspace::Local, SessionWorkspace::Local) => true,
            (SessionWorkspace::NewWorktree { base_branch: a }, SessionWorkspace::NewWorktree { base_branch: b }) => same(
                a.as_str(),
                b.as_str(),
            ),
            (SessionWorkspace::Worktree { path: p, branch: a }, SessionWorkspace::Worktree { path: q, branch: b }) => same(
                p.as_str(),
                q.as_str(),
            ) && same(a.as_str(), b.as_str()),
            _ => false,
        }
    }

}

impl Clone for SessionWorkspace {
    /// A second value that names the same checkout.
    fn clone(&self) -> (r: SessionWorkspace)
        ensures
            r@ == self@,
    {
        match self {
            SessionWorkspace::Local => SessionWorkspace::Local,
            SessionWorkspace::NewWorktree { base_branch } => SessionWorkspace::NewWorktree {
                base_branch: base_branch.clone(),
            },
            SessionWorkspace::Worktree { path, branch } => SessionWorkspace::Worktree {
                path: path.clone(),
                branch: branch.clone(),
            },
        }
    }
}

/// A conversation with an agent about a project.
#[derive(Debug)]
pub struct AgentSession {
    pub id: Uuid,
    pub project_id: Uuid,
    pub provider: ProviderKind,
    pub title: String,
    /// The title the provider suggested.
    pub auto_title: Option<String>,
    pub model: Option<String>,
    pub reasoning_effort: Option<String>,
    pub service_tier: Option<String>,
    pub context_window: Option<String>,
    pub runtime_mode: RuntimeMode,
    pub interaction_mode: InteractionMode,
    pub agent_preset: Option<String>,
    pub status: SessionStatus,
    pub messages: Vec<Message>,
    pub transcript_blocks: Vec<TranscriptBlock>,
    pub turns: Vec<Turn>,
    pub queued_messages: Vec<QueuedMessage>,
    pub workspace: SessionWorkspace,
    pub provider_cursor: Option<ProviderResumeCursor>,
    pub native_session_id: Option<String>,
    pub runtime_event_cursor: Option<u64>,
    pub available_commands: Vec<String>,
    pub context_usage: Option<ContextUsage>,
    pub compaction: Option<CompactionState>,
    pub created_at: u64,
    pub updated_at: u64,
    pub last_reply_at: Option<u64>,
    /// Whether the transcript has been read in.
    pub detail_loaded: bool,
}

/// What a [`AgentSession`] holds.
#[verifier::ext_equal]
pub ghost struct AgentSessionView {
    pub id: Uuid,
    pub project_id: Uuid,
    pub provider: ProviderKind,
    pub title: Seq<char>,
    pub auto_title: Option<Seq<char>>,
    pub model: Option<Seq<char>>,
    pub reasoning_effort: Option<Seq<char>>,
    pub service_tier: Option<Seq<char>>,
    pub context_window: Option<Seq<char>>,
    pub runtime_mode: RuntimeMode,
    pub interaction_mode: InteractionMode,
    pub agent_preset: Option<Seq<char>>,
    pub status: SessionStatus,
    pub messages: Seq<MessageView>,
    pub transcript_blocks: Seq<TranscriptBlockView>,
    pub turns: Seq<TurnView>,
    pub queued_messages: Seq<QueuedMessageView>,
    pub workspace: SessionWorkspaceView,
    pub provider_cursor: Option<Seq<char>>,
    pub native_session_id: Option<Seq<char>>,
    pub runtime_event_cursor: Option<u64>,
    pub available_commands: Seq<Seq<char>>,
    pub context_usage: Option<ContextUsage>,
    pub compaction: Option<CompactionStateView>,
    pub created_at: u64,
    pub updated_at: u64,
    pub last_reply_at: Option<u64>,
    pub detail_loaded: bool,
}

impl View for AgentSession {
    type V = AgentSessionView;

    open spec fn view(&self) -> AgentSessionView {
        AgentSessionView {
            id: self.id,
            project_id: self.project_id,
            provider: self.provider,
            title: self.title@,
            auto_title: opt(self.auto_title),
            model: opt(self.model),
            reasoning_effort: opt(self.reasoning_effort),
            service_tier: opt(self.service_tier),
            context_window: opt(self.context_window),
            runtime_mode: self.runtime_mode,
            interaction_mode: self.interaction_mode,
            agent_preset: opt(self.agent_preset),
            status: self.status,
            messages: message_views(self.messages@),
            transcript_blocks: transcript_block_views(self.transcript_blocks@),
            turns: turn_views(self.turns@),
            queued_messages: queued_message_views(self.queued_messages@),
            workspace: self.workspace@,
            provider_cursor: provider_resume_cursor_opt(self.provider_cursor),
            native_session_id: opt(self.native_session_id),
            runtime_event_cursor: self.runtime_event_cursor,
            available_commands: texts(self.available_commands@),
            context_usage: self.context_usage,
            compaction: compaction_state_opt(self.compaction),
            created_at: self.created_at,
            updated_at: self.updated_at,
            last_reply_at: self.last_reply_at,
            detail_loaded: self.detail_loaded,
        }
    }
}

/// What a list of them holds.
pub open spec fn agent_session_views(s: Seq<AgentSession>) -> Seq<AgentSessionView> {
    s.map_values(|x: AgentSession| x@)
}

impl Clone for AgentSession {
    /// A second value that holds the same.
    fn clone(&self) -> (r: AgentSession)
        ensures
            r@ == self@,
    {
        AgentSession {
            id: self.id,
            project_id: self.project_id,
            provider: self.provider,
            title: self.title.clone(),
            auto_title: self.auto_title.clone(),
            model: self.model.clone(),
            reasoning_effort: self.reasoning_effort.clone(),
            service_tier: self.service_tier.clone(),
            context_window: self.context_window.clone(),
            runtime_mode: self.runtime_mode,
            interaction_mode: self.interaction_mode,
            agent_preset: self.agent_preset.clone(),
            status: self.status,
            messages: copy_messages(&self.messages),
            transcript_blocks: copy_transcript_blocks(&self.transcript_blocks),
            turns: copy_turns(&self.turns),
            queued_messages: copy_queued_messages(&self.queued_messages),
            workspace: self.workspace.clone(),
            provider_cursor: copy_provider_resume_cursor_opt(&self.provider_cursor),
            native_session_id: self.native_session_id.clone(),
            runtime_event_cursor: self.runtime_event_cursor,
            available_commands: copy_texts(&self.available_commands),
            context_usage: self.context_usage,
            compaction: copy_compaction_state_opt(&self.compaction),
            created_at: self.created_at,
            updated_at: self.updated_at,
            last_reply_at: self.last_reply_at,
            detail_loaded: self.detail_loaded,
        }
    }
}

/// A directory that sessions work in.
#[derive(Debug)]
pub struct Project {
    pub id: Uuid,
    pub name: String,
    /// Where the directory stands, spelled as the host spells every path.
    pub path: String,
    pub created_at: u64,
    /// Whether it is a scratch directory rather than a project of the user.
    pub projectless: bool,
}

/// What a [`Project`] holds.
#[verifier::ext_equal]
pub ghost struct ProjectView {
    pub id: Uuid,
    pub name: Seq<char>,
    pub path: Seq<char>,
    pub created_at: u64,
    pub projectless: bool,
}

impl View for Project {
    type V = ProjectView;

    open spec fn view(&self) -> ProjectView {
        ProjectView {
            id: self.id,
            name: self.name@,
            path: self.path@,
            created_at: self.created_at,
            projectless: self.projectless,
        }
    }
}

/// What a list of them holds.
pub open spec fn project_views(s: Seq<Project>) -> Seq<ProjectView> {
    s.map_values(|x: Project| x@)
}

impl Clone for Project {
    /// A second value that holds the same.
    fn clone(&self) -> (r: Project)
        ensures
            r@ == self@,
    {
        Project {
            id: self.id,
            name: self.name.clone(),
            path: self.path.clone(),
            created_at: self.created_at,
            projectless: self.projectless,
        }
    }
}

/// The title of a session nobody named.
pub const DEFAULT_TITLE: &'static str = "New task";

impl SessionStatus {
    /// A session that is connecting, working or waiting for an answer is busy.
    pub open spec fn busy(self) -> bool {
        self == SessionStatus::Connecting || self == SessionStatus::Working || self == SessionStatus::Waiting
    }

    /// A session that nothing runs in: idle or failed.
    pub open spec fn at_rest(self) -> bool {
        self == SessionStatus::Idle || self == SessionStatus::Failed
    }

    /// Whether the session is connecting, working or waiting for an answer.
    pub fn is_busy(&self) -> (r: bool)
        ensures
            r == self.busy(),
    {
        matches!(self, SessionStatus::Connecting | SessionStatus::Working | SessionStatus::Waiting)
    }

    /// Whether the session is idle or failed.
    pub fn is_at_rest(&self) -> (r: bool)
        ensures
            r == self.at_rest(),
    {
        matches!(self, SessionStatus::Idle | SessionStatus::Failed)
    }
}

/// The message that has just been written.
pub open spec fn new_message(id: Uuid, role: MessageRole, content: Seq<char>, turn_id: Option<Uuid>) -> MessageView {
    MessageView {
        id,
        role,
        content,
        display_content: None,
        attachments: Seq::empty(),
        turn_id,
        streaming: false,
    }
}

impl Message {
    /// A message outside any turn.
    pub fn new(id: Uuid, role: MessageRole, content: String) -> (r: Message)
        ensures
            r@ == new_message(id, role, content@, None),
    {
        let r = Message {
            id,
            role,
            content,
            display_content: None,
            attachments: Vec::new(),
            turn_id: None,
            streaming: false,
        };
        assert(attachment_views(r.attachments@) =~= Seq::empty());
        r
    }

    /// A message of a turn.
    pub fn new_for_turn(id: Uuid, role: MessageRole, content: String, turn_id: Uuid) -> (r: Message)
        ensures
            r@ == new_message(id, role, content@, Some(turn_id)),
    {
        let mut r = Message::new(id, role, content);
        r.turn_id = Some(turn_id);
        r
    }

    /// What the transcript shows: the display text where there is one.
    pub fn visible_content(&self) -> (r: &str)
        ensures
            r@ == (match self@.display_content {
                Some(text) => text,
                None => self@.content,
            }),
    {
        match &self.display_content {
            Some(text) => text.as_str(),
            None => self.content.as_str(),
        }
    }
}

/// An activity as first reported.
pub open spec fn new_activity(
    id: Uuid,
    source_id: Option<Seq<char>>,
    kind: ActivityKind,
    title: Seq<char>,
    detail: Option<Seq<char>>,
    complete: bool,
) -> ActivityItemView {
    ActivityItemView {
        id,
        source_id,
        kind,
        title,
        detail,
        complete,
        failed: false,
        arguments: None,
        output: None,
        image_urls: Seq::empty(),
        file_changes: Seq::empty(),
        display_target: None,
        display_description: None,
        reasoning: None,
    }
}

/// A stretch of reasoning as an activity.
pub open spec fn reasoning_activity(
    id: Uuid,
    source_id: Option<Seq<char>>,
    content: Seq<char>,
    now_ms: u64,
    complete: bool,
) -> ActivityItemView {
    ActivityItemView {
        reasoning: Some(
            ReasoningBlockView { content, started_at_ms: now_ms, finished_at_ms: now_ms },
        ),
        ..new_activity(id, source_id, ActivityKind::Reasoning, Seq::empty(), None, complete)
    }
}

impl ActivityItem {
    /// An activity as first reported.
    pub fn new(
        id: Uuid,
        source_id: Option<String>,
        kind: ActivityKind,
        title: String,
        detail: Option<String>,
        complete: bool,
    ) -> (r: ActivityItem)
        ensures
            r@ == new_activity(id, opt(source_id), kind, title@, opt(detail), complete),
    {
        let r = ActivityItem {
            id,
            source_id,
            kind,
            title,
            detail,
            complete,
            failed: false,
            arguments: None,
            output: None,
            image_urls: Vec::new(),
            file_changes: Vec::new(),
            display_target: None,
            display_description: None,
            reasoning: None,
        };
        assert(texts(r.image_urls@) =~= Seq::empty());
        assert(file_change_views(r.file_changes@) =~= Seq::empty());
        r
    }

    /// A stretch of reasoning that starts now.
    pub fn from_reasoning(
        id: Uuid,
        source_id: Option<String>,
        content: String,
        now_ms: u64,
        complete: bool,
    ) -> (r: ActivityItem)
        ensures
            r@ == reasoning_activity(id, opt(source_id), content@, now_ms, complete),
    {
        let mut r = ActivityItem::new(id, source_id, ActivityKind::Reasoning, String::new(), None, complete);
        r.reasoning = Some(ReasoningBlock { content, started_at_ms: now_ms, finished_at_ms: now_ms });
        assert(r@.title =~= Seq::empty());
        r
    }
}

impl AgentSessionView {
    /// The turn that is still running.
    pub open spec fn active_turn(self) -> Option<Uuid> {
        if self.turns.len() > 0 && self.turns.last().status == TurnStatus::Running {
            Some(self.turns.last().id)
        } else {
            None
        }
    }

    /// A session has started once a turn was submitted, or a reply is on record. What counts
    /// as started is this library's own model of a session.
    pub open spec fn started(self) -> bool {
        self.turns.len() > 0 || self.last_reply_at is Some
    }

    /// The title shown: the provider's suggestion while the user gave none.
    pub open spec fn shown_title(self) -> Seq<char> {
        if self.title == DEFAULT_TITLE@ && self.auto_title is Some {
            self.auto_title->0
        } else {
            self.title
        }
    }

    /// The session with one more message, written in the running turn if there is one.
    pub open spec fn with_message(self, role: MessageRole, content: Seq<char>, stamp: Stamp) -> AgentSessionView {
        AgentSessionView {
            messages: self.messages.push(new_message(stamp.id, role, content, self.active_turn())),
            updated_at: stamp.secs,
            ..self
        }
    }

    /// The session once its running turn has settled. By this library's own model that dates
    /// the turn, the last reply and the session.
    pub open spec fn with_turn_finished(self, status: TurnStatus, stamp: Stamp) -> AgentSessionView {
        if self.active_turn() is Some {
            AgentSessionView {
                turns: self.turns.update(
                    self.turns.len() - 1,
                    TurnView { status, completed_at: Some(stamp.secs), ..self.turns.last() },
                ),
                last_reply_at: Some(stamp.secs),
                updated_at: stamp.secs,
                ..self
            }
        } else {
            self
        }
    }

    /// The session once the provider has taken up its running turn.
    pub open spec fn with_provider_turn(self) -> AgentSessionView {
        AgentSessionView {
            status: SessionStatus::Working,
            turns: if self.active_turn() is Some {
                self.turns.update(
                    self.turns.len() - 1,
                    TurnView { provider_turn_started: true, ..self.turns.last() },
                )
            } else {
                self.turns
            },
            ..self
        }
    }

    /// The session once a turn has begun with this prompt.
    pub open spec fn with_turn_begun(
        self,
        prompt: Seq<char>,
        display_content: Option<Seq<char>>,
        attachments: Seq<AttachmentView>,
        stamp: Stamp,
    ) -> AgentSessionView {
        AgentSessionView {
            turns: self.turns.push(
                TurnView {
                    id: stamp.turn,
                    turn_count: next_turn_count(self.turns.len()),
                    status: TurnStatus::Running,
                    provider_turn_started: false,
                    started_at: stamp.secs,
                    completed_at: None,
                    stats: None,
                    checkpoint: None,
                },
            ),
            messages: self.messages.push(
                MessageView {
                    display_content,
                    attachments,
                    ..new_message(stamp.id, MessageRole::User, prompt, Some(stamp.turn))
                },
            ),
            last_reply_at: Some(stamp.secs),
            updated_at: stamp.secs,
            ..self
        }
    }

    /// The session without a turn that no provider has seen, nor its messages.
    pub open spec fn with_turn_unwound(self, turn_id: Uuid) -> AgentSessionView {
        if self.turns.len() > 0 && self.turns.last().id == turn_id && !self.turns.last().provider_turn_started {
            AgentSessionView {
                turns: self.turns.drop_last(),
                messages: other_turns(self.messages, turn_id),
                ..self
            }
        } else {
            self
        }
    }
}

/// The count that the next turn bears.
pub open spec fn next_turn_count(turns: nat) -> usize {
    if turns < usize::MAX {
        (turns + 1) as usize
    } else {
        usize::MAX
    }
}

/// The messages that do not belong to the turn.
pub open spec fn other_turns(messages: Seq<MessageView>, turn_id: Uuid) -> Seq<MessageView>
    decreases messages.len(),
{
    if messages.len() == 0 {
        messages
    } else {
        let rest = other_turns(messages.drop_last(), turn_id);
        if messages.last().turn_id == Some(turn_id) {
            rest
        } else {
            rest.push(messages.last())
        }
    }
}

/// A draft that has not been submitted.
pub open spec fn draft_session(project_id: Uuid, stamp: Stamp) -> AgentSessionView {
    AgentSessionView {
        id: stamp.id,
        project_id,
        provider: ProviderKind::OpenCode,
        title: DEFAULT_TITLE@,
        auto_title: None,
        model: None,
        reasoning_effort: None,
        service_tier: None,
        context_window: None,
        runtime_mode: RuntimeMode::Ask,
        interaction_mode: InteractionMode::Build,
        agent_preset: None,
        status: SessionStatus::Idle,
        messages: Seq::empty(),
        transcript_blocks: Seq::empty(),
        turns: Seq::empty(),
        queued_messages: Seq::empty(),
        workspace: SessionWorkspaceView::Local,
        provider_cursor: None,
        native_session_id: None,
        runtime_event_cursor: None,
        available_commands: Seq::empty(),
        context_usage: None,
        compaction: None,
        created_at: stamp.secs,
        updated_at: stamp.secs,
        last_reply_at: None,
        detail_loaded: true,
    }
}

impl AgentSession {
    /// A draft about the project, stamped now.
    pub fn new(project_id: Uuid) -> (r: AgentSession)
        ensures
            exists|stamp: Stamp| stamp.taken() && r@ == #[trigger] draft_session(project_id, stamp),
    {
        let stamp = Stamp::take();
        let r = AgentSession::draft(project_id, stamp);
        assert(r@ == draft_session(project_id, stamp));
        r
    }

    /// A draft about the project.
    pub fn draft(project_id: Uuid, stamp: Stamp) -> (r: AgentSession)
        ensures
            r@ == draft_session(project_id, stamp),
    {
        let r = AgentSession {
            id: stamp.id,
            project_id,
            provider: ProviderKind::OpenCode,
            title: DEFAULT_TITLE.to_owned(),
            auto_title: None,
            model: None,
            reasoning_effort: None,
            service_tier: None,
            context_window: None,
            runtime_mode: RuntimeMode::Ask,
            interaction_mode: InteractionMode::Build,
            agent_preset: None,
            status: SessionStatus::Idle,
            messages: Vec::new(),
            transcript_blocks: Vec::new(),
            turns: Vec::new(),
            queued_messages: Vec::new(),
            workspace: SessionWorkspace::Local,
            provider_cursor: None,
            native_session_id: None,
            runtime_event_cursor: None,
            available_commands: Vec::new(),
            context_usage: None,
            compaction: None,
            created_at: stamp.secs,
            updated_at: stamp.secs,
            last_reply_at: None,
            detail_loaded: true,
        };
        assert(r@ =~~= draft_session(project_id, stamp));
        r
    }

    /// The turn that is still running.
    pub fn active_turn_id(&self) -> (r: Option<Uuid>)
        ensures
            r == self@.active_turn(),
    {
        let n = self.turns.len();
        if n > 0 && self.turns[n - 1].status == TurnStatus::Running {
            Some(self.turns[n - 1].id)
        } else {
            None
        }
    }

    /// Whether a turn was ever submitted.
    pub fn has_started(&self) -> (r: bool)
        ensures
            r == self@.started(),
    {
        self.turns.len() > 0 || self.last_reply_at.is_some()
    }

    /// Whether the agent is at work.
    pub fn is_busy(&self) -> (r: bool)
        ensures
            r == self@.status.busy(),
    {
        self.status.is_busy()
    }

    /// The title shown.
    pub fn display_title(&self) -> (r: &str)
        ensures
            r@ == self@.shown_title(),
    {
        if same(self.title.as_str(), DEFAULT_TITLE) {
            match &self.auto_title {
                Some(title) => title.as_str(),
                None => self.title.as_str(),
            }
        } else {
            self.title.as_str()
        }
    }

    /// Records the provider's suggestion of a title.
    pub fn set_auto_title(&mut self, title: String)
        ensures
            final(self)@ == (AgentSessionView { auto_title: Some(title@), ..old(self)@ }),
    {
        self.auto_title = Some(title);
    }

    /// Renames the session. A name of nothing but white space, or the name it
    /// has, changes nothing; whether the name changed.
    pub fn set_title(&mut self, title: &str, stamp: Stamp) -> (r: bool)
        ensures
            r == (!blank(title@) && trimmed(title@) != old(self)@.title),
            final(self)@ == (if r {
                AgentSessionView { title: trimmed(title@), updated_at: stamp.secs, ..old(self)@ }
            } else {
                old(self)@
            }),
    {
        if trims_to_nothing(title) {
            return false;
        }
        let name = trim(title);
        if same(name, self.title.as_str()) {
            return false;
        }
        self.title = name.to_owned();
        self.updated_at = stamp.secs;
        true
    }

    /// Names a session nobody named after its first prompt. By this library's own model the
    /// whole prompt is taken, without the white space around it.
    pub fn set_title_from_prompt(&mut self, prompt: &str)
        ensures
            final(self)@ == (if old(self)@.title == DEFAULT_TITLE@ && !blank(prompt@) {
                AgentSessionView { title: trimmed(prompt@), ..old(self)@ }
            } else {
                old(self)@
            }),
    {
        if same(self.title.as_str(), DEFAULT_TITLE) && !trims_to_nothing(prompt) {
            self.title = trim(prompt).to_owned();
        }
    }

    /// Writes a message, in the running turn if there is one.
    pub fn push_message(&mut self, role: MessageRole, content: String, stamp: Stamp)
        ensures
            final(self)@ == old(self)@.with_message(role, content@, stamp),
    {
        let mut message = Message::new(stamp.id, role, content);
        message.turn_id = self.active_turn_id();
        self.messages.push(message);
        self.updated_at = stamp.secs;
        assert(message_views(self.messages@) =~= message_views(old(self).messages@).push(message@));
    }

    /// Writes a user's message into the running turn.
    pub fn push_user_message_with_presentation(
        &mut self,
        content: String,
        display_content: Option<String>,
        attachments: Vec<Attachment>,
        stamp: Stamp,
    )
        ensures
            final(self)@ == (AgentSessionView {
                messages: old(self)@.messages.push(
                    MessageView {
                        display_content: opt(display_content),
                        attachments: attachment_views(attachments@),
                        ..new_message(stamp.id, MessageRole::User, content@, old(self)@.active_turn())
                    },
                ),
                updated_at: stamp.secs,
                ..old(self)@
            }),
    {
        let message = Message {
            id: stamp.id,
            role: MessageRole::User,
            content,
            display_content,
            attachments,
            turn_id: self.active_turn_id(),
            streaming: false,
        };
        self.messages.push(message);
        self.updated_at = stamp.secs;
        assert(message_views(self.messages@) =~= message_views(old(self).messages@).push(message@));
    }

    /// Settles the running turn, exactly once: a second call finds none. Returns
    /// the turn and its count.
    pub fn finish_active_turn(&mut self, status: TurnStatus, stamp: Stamp) -> (r: Option<(Uuid, usize)>)
        ensures
            final(self)@ == old(self)@.with_turn_finished(status, stamp),
            r == (if old(self)@.active_turn() is Some {
                Some((old(self)@.turns.last().id, old(self)@.turns.last().turn_count))
            } else {
                None
            }),
    {
        let n = self.turns.len();
        if n == 0 || self.turns[n - 1].status != TurnStatus::Running {
            return None;
        }
        self.turns[n - 1].status = status;
        self.turns[n - 1].completed_at = Some(stamp.secs);
        self.last_reply_at = Some(stamp.secs);
        self.updated_at = stamp.secs;
        assert(turn_views(self.turns@) =~= old(self)@.with_turn_finished(status, stamp).turns);
        Some((self.turns[n - 1].id, self.turns[n - 1].turn_count))
    }

    /// The provider has taken up the running turn.
    pub fn resume_provider_turn(&mut self)
        ensures
            final(self)@ == old(self)@.with_provider_turn(),
    {
        self.status = SessionStatus::Working;
        let n = self.turns.len();
        if n > 0 && self.turns[n - 1].status == TurnStatus::Running {
            self.turns[n - 1].provider_turn_started = true;
            assert(turn_views(self.turns@) =~= old(self)@.with_provider_turn().turns);
        }
    }

    /// Begins a turn, stamped now.
    pub fn begin_turn(&mut self, prompt: &str)
        ensures
            exists|stamp: Stamp|
                stamp.taken() && final(self)@ == #[trigger] old(self)@.with_turn_begun(prompt@, None, Seq::empty(), stamp),
    {
        let stamp = Stamp::take();
        let attachments: Vec<Attachment> = Vec::new();
        assert(attachment_views(attachments@) =~= Seq::empty());
        self.begin_turn_with_presentation(prompt, None, attachments, stamp);
        assert(self@ == old(self)@.with_turn_begun(prompt@, None, Seq::empty(), stamp));
    }

    /// Begins a turn with the user's prompt and stamps the session's last reply.
    pub fn begin_turn_with_presentation(
        &mut self,
        prompt: &str,
        display_content: Option<String>,
        attachments: Vec<Attachment>,
        stamp: Stamp,
    ) -> (r: Uuid)
        ensures
            final(self)@ == old(self)@.with_turn_begun(
                prompt@,
                opt(display_content),
                attachment_views(attachments@),
                stamp,
            ),
            r == stamp.turn,
    {
        let turn = Turn {
            id: stamp.turn,
            turn_count: self.turns.len().saturating_add(1),
            status: TurnStatus::Running,
            provider_turn_started: false,
            started_at: stamp.secs,
            completed_at: None,
            stats: None,
            checkpoint: None,
        };
        let message = Message {
            id: stamp.id,
            role: MessageRole::User,
            content: prompt.to_owned(),
            display_content,
            attachments,
            turn_id: Some(stamp.turn),
            streaming: false,
        };
        self.turns.push(turn);
        self.messages.push(message);
        self.last_reply_at = Some(stamp.secs);
        self.updated_at = stamp.secs;
        assert(turn_views(self.turns@) =~= turn_views(old(self).turns@).push(turn@));
        assert(message_views(self.messages@) =~= message_views(old(self).messages@).push(message@));
        stamp.turn
    }

    /// Takes back a turn that no provider has seen, with its messages.
    pub fn unwind_unstarted_turn(&mut self, turn_id: Uuid)
        ensures
            final(self)@ == old(self)@.with_turn_unwound(turn_id),
    {
        let n = self.turns.len();
        if n == 0 || self.turns[n - 1].id != turn_id || self.turns[n - 1].provider_turn_started {
            return;
        }
        let _ = self.turns.pop();
        assert(turn_views(self.turns@) =~= turn_views(old(self).turns@).drop_last());
        let mut rest: Vec<Message> = Vec::new();
        let mut all: Vec<Message> = Vec::new();
        std::mem::swap(&mut all, &mut self.messages);
        let ghost whole = all@;
        let ghost mut done: int = 0;
        assert(whole.skip(0) =~= whole);
        assert(message_views(whole.take(0)) =~= Seq::empty());
        while all.len() > 0
            invariant
                0 <= done <= whole.len(),
                all@ == whole.skip(done),
                message_views(rest@) == other_turns(message_views(whole.take(done)), turn_id),
            decreases all@.len(),
        {
            let message = all.remove(0);
            proof {
                assert(whole.skip(done).remove(0) =~= whole.skip(done + 1));
                assert(message_views(whole.take(done + 1)).drop_last() =~= message_views(whole.take(done)));
                assert(message_views(whole.take(done + 1)).last() == whole[done]@);
            }
            let other: bool = message.turn_id != Some(turn_id);
            if other {
                let ghost before = rest@;
                rest.push(message);
                assert(message_views(rest@) =~= message_views(before).push(whole[done]@));
            }
            proof {
                done = done + 1;
            }
        }
        assert(whole.take(done) =~= whole);
        self.messages = rest;
    }
}

impl ProjectView {
    /// A project in a directory, as it is when it is added.
    pub open spec fn in_directory(path: Seq<char>, name: Seq<char>, projectless: bool, stamp: Stamp) -> ProjectView {
        ProjectView { id: stamp.id, name, path, created_at: stamp.secs, projectless }
    }
}

impl Project {
    /// A project in this directory, stamped now. The host says what the directory is called,
    /// and whether it is a scratch directory: one below the root that it keeps these in.
    pub fn from_path(path: String, name: String, projectless: bool) -> (r: Project)
        ensures
            exists|stamp: Stamp|
                stamp.taken() && r@ == #[trigger] ProjectView::in_directory(path@, name@, projectless, stamp),
    {
        let stamp = Stamp::take();
        let r = Project::stamped(path, name, projectless, stamp);
        assert(r@ == ProjectView::in_directory(path@, name@, projectless, stamp));
        r
    }

    /// A project in this directory.
    pub fn stamped(path: String, name: String, projectless: bool, stamp: Stamp) -> (r: Project)
        ensures
            r@ == ProjectView::in_directory(path@, name@, projectless, stamp),
    {
        Project { id: stamp.id, name, path, created_at: stamp.secs, projectless }
    }

    /// How the project is shown.
    pub fn display_name(&self) -> (r: String)
        ensures
            r@ == self@.name,
    {
        self.name.clone()
    }

    /// Whether it is a scratch directory rather than a project of the user.
    pub fn is_projectless(&self) -> (r: bool)
        ensures
            r == self@.projectless,
    {
        self.projectless
    }
}

} // verus!
