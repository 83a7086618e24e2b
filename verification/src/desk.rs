//! The desk: every session with its runtime, and what the host is asked to do.
use std::collections::VecDeque;
use vstd::prelude::*;

use crate::events::{BackgroundWorkEvent, DriverEvent, PermissionOption, UserQuestion};
use crate::ids::{Stamp, Uuid};
use crate::keyed::{IdSet, StrMap, StrSet};
use crate::model::{
    ActivityItem, ActivityItemView, AgentSession, AgentSessionView, Attachment, AttachmentView,
    InteractionMode, Project, ProjectView, ProviderKind, ProviderResumeCursor, QueuedMessage,
    QueuedMessageView, RuntimeMode, SessionWorkspace, SessionWorkspaceView,
};
use crate::model::{
    agent_session_views, attachment_views, copy_attachments, copy_provider_resume_cursor_opt,
    project_views, provider_resume_cursor_opt,
};
use crate::seqs::{lemma_pos, lemma_pos_none, lemma_pos_some, pos};
use crate::text::opt;

verus! {

/// A named value that a wording mentions.
#[derive(Debug)]
pub struct TextArg {
    pub name: &'static str,
    pub value: String,
}

/// A wording for the user: a key of the catalogue of wordings with the values
/// that it mentions, or text that is shown as it is.
#[derive(Debug)]
pub enum Text {
    Plain(String),
    Key(&'static str, Vec<TextArg>),
}

/// What a [`Text`] holds.
#[verifier::ext_equal]
pub ghost enum TextView {
    Plain(Seq<char>),
    Key(Seq<char>, Seq<(Seq<char>, Seq<char>)>),
}

/// The names and values of a list of arguments.
pub open spec fn text_args(args: Seq<TextArg>) -> Seq<(Seq<char>, Seq<char>)> {
    args.map_values(|a: TextArg| (a.name@, a.value@))
}

impl View for Text {
    type V = TextView;

    open spec fn view(&self) -> TextView {
        match self {
            Text::Plain(text) => TextView::Plain(text@),
            Text::Key(key, args) => TextView::Key(key@, text_args(args@)),
        }
    }
}

/// A wording that mentions nothing.
pub open spec fn wording(key: &str) -> TextView {
    TextView::Key(key@, Seq::empty())
}

/// A wording that mentions one value.
pub open spec fn wording_with(key: &str, name: &str, value: Seq<char>) -> TextView {
    TextView::Key(key@, seq![(name@, value)])
}

impl Text {
    /// A wording that mentions nothing.
    pub fn key(key: &'static str) -> (r: Text)
        ensures
            r@ == wording(key),
    {
        let r = Text::Key(key, Vec::new());
        assert(r@ =~~= wording(key));
        r
    }

    /// A wording that mentions one value.
    pub fn with(key: &'static str, name: &'static str, value: String) -> (r: Text)
        ensures
            r@ == wording_with(key, name, value@),
    {
        let mut args: Vec<TextArg> = Vec::new();
        args.push(TextArg { name, value });
        assert(text_args(args@) =~= seq![(name@, value@)]);
        Text::Key(key, args)
    }

    /// A wording that mentions two values.
    pub fn with2(key: &'static str, name: &'static str, value: String, other: &'static str, second: String) -> (r: Text)
        ensures
            r@ == TextView::Key(key@, seq![(name@, value@), (other@, second@)]),
    {
        let mut args: Vec<TextArg> = Vec::new();
        args.push(TextArg { name, value });
        args.push(TextArg { name: other, value: second });
        assert(text_args(args@) =~= seq![(name@, value@), (other@, second@)]);
        Text::Key(key, args)
    }
}

/// What the user submits from the composer.
#[derive(Debug)]
pub struct ComposerSubmission {
    /// What the provider receives.
    pub prompt: String,
    /// What the transcript shows in place of it.
    pub display_content: Option<String>,
    pub attachments: Vec<Attachment>,
}

/// What a [`ComposerSubmission`] holds.
#[verifier::ext_equal]
pub ghost struct ComposerSubmissionView {
    pub prompt: Seq<char>,
    pub display_content: Option<Seq<char>>,
    pub attachments: Seq<AttachmentView>,
}

impl View for ComposerSubmission {
    type V = ComposerSubmissionView;

    open spec fn view(&self) -> ComposerSubmissionView {
        ComposerSubmissionView {
            prompt: self.prompt@,
            display_content: opt(self.display_content),
            attachments: attachment_views(self.attachments@),
        }
    }
}

/// What a list of them holds.
pub open spec fn composer_submission_views(s: Seq<ComposerSubmission>) -> Seq<ComposerSubmissionView> {
    s.map_values(|x: ComposerSubmission| x@)
}

impl Clone for ComposerSubmission {
    /// A second value that holds the same.
    fn clone(&self) -> (r: ComposerSubmission)
        ensures
            r@ == self@,
    {
        ComposerSubmission {
            prompt: self.prompt.clone(),
            display_content: self.display_content.clone(),
            attachments: copy_attachments(&self.attachments),
        }
    }
}

/// A past message that is being edited.
#[derive(Debug)]
pub struct MessageEdit {
    pub session_id: Uuid,
    pub message_id: Uuid,
    pub turn_count: usize,
    pub attachments: Vec<Attachment>,
}

/// What a [`MessageEdit`] holds.
#[verifier::ext_equal]
pub ghost struct MessageEditView {
    pub session_id: Uuid,
    pub message_id: Uuid,
    pub turn_count: usize,
    pub attachments: Seq<AttachmentView>,
}

impl View for MessageEdit {
    type V = MessageEditView;

    open spec fn view(&self) -> MessageEditView {
        MessageEditView {
            session_id: self.session_id,
            message_id: self.message_id,
            turn_count: self.turn_count,
            attachments: attachment_views(self.attachments@),
        }
    }
}

/// What an optional one holds.
pub open spec fn message_edit_opt(o: Option<MessageEdit>) -> Option<MessageEditView> {
    match o {
        Some(x) => Some(x@),
        None => None,
    }
}

impl Clone for MessageEdit {
    /// A second value that holds the same.
    fn clone(&self) -> (r: MessageEdit)
        ensures
            r@ == self@,
    {
        MessageEdit {
            session_id: self.session_id,
            message_id: self.message_id,
            turn_count: self.turn_count,
            attachments: copy_attachments(&self.attachments),
        }
    }
}

/// A turn whose checkpoint is to be captured.
#[derive(Debug)]
pub struct PendingCheckpointCapture {
    pub session_id: Uuid,
    pub turn_count: usize,
    pub project_path: String,
}

/// What a [`PendingCheckpointCapture`] holds.
#[verifier::ext_equal]
pub ghost struct PendingCheckpointCaptureView {
    pub session_id: Uuid,
    pub turn_count: usize,
    pub project_path: Seq<char>,
}

impl View for PendingCheckpointCapture {
    type V = PendingCheckpointCaptureView;

    open spec fn view(&self) -> PendingCheckpointCaptureView {
        PendingCheckpointCaptureView {
            session_id: self.session_id,
            turn_count: self.turn_count,
            project_path: self.project_path@,
        }
    }
}

/// What a list of them holds.
pub open spec fn pending_checkpoint_capture_views(s: Seq<PendingCheckpointCapture>) -> Seq<PendingCheckpointCaptureView> {
    s.map_values(|x: PendingCheckpointCapture| x@)
}

impl Clone for PendingCheckpointCapture {
    /// A second value that holds the same.
    fn clone(&self) -> (r: PendingCheckpointCapture)
        ensures
            r@ == self@,
    {
        PendingCheckpointCapture {
            session_id: self.session_id,
            turn_count: self.turn_count,
            project_path: self.project_path.clone(),
        }
    }
}

/// The options a turn runs with.
#[derive(Debug)]
pub struct SessionOptions {
    pub mode: RuntimeMode,
    pub interaction_mode: InteractionMode,
    pub model: Option<String>,
    pub reasoning_effort: Option<String>,
    pub service_tier: Option<String>,
    pub context_window: Option<String>,
}

/// What a [`SessionOptions`] holds.
#[verifier::ext_equal]
pub ghost struct SessionOptionsView {
    pub mode: RuntimeMode,
    pub interaction_mode: InteractionMode,
    pub model: Option<Seq<char>>,
    pub reasoning_effort: Option<Seq<char>>,
    pub service_tier: Option<Seq<char>>,
    pub context_window: Option<Seq<char>>,
}

impl View for SessionOptions {
    type V = SessionOptionsView;

    open spec fn view(&self) -> SessionOptionsView {
        SessionOptionsView {
            mode: self.mode,
            interaction_mode: self.interaction_mode,
            model: opt(self.model),
            reasoning_effort: opt(self.reasoning_effort),
            service_tier: opt(self.service_tier),
            context_window: opt(self.context_window),
        }
    }
}

impl Clone for SessionOptions {
    /// A second value that holds the same.
    fn clone(&self) -> (r: SessionOptions)
        ensures
            r@ == self@,
    {
        SessionOptions {
            mode: self.mode,
            interaction_mode: self.interaction_mode,
            model: self.model.clone(),
            reasoning_effort: self.reasoning_effort.clone(),
            service_tier: self.service_tier.clone(),
            context_window: self.context_window.clone(),
        }
    }
}

/// How a provider is to be started.
#[derive(Debug)]
pub struct DriverStartOptions {
    pub binary: String,
    pub cwd: String,
    pub mode: RuntimeMode,
    pub interaction_mode: InteractionMode,
    pub model: Option<String>,
    pub reasoning_effort: Option<String>,
    pub service_tier: Option<String>,
    pub context_window: Option<String>,
    pub agent_preset: Option<String>,
    pub provider_cursor: Option<ProviderResumeCursor>,
}

/// What a [`DriverStartOptions`] holds.
#[verifier::ext_equal]
pub ghost struct DriverStartOptionsView {
    pub binary: Seq<char>,
    pub cwd: Seq<char>,
    pub mode: RuntimeMode,
    pub interaction_mode: InteractionMode,
    pub model: Option<Seq<char>>,
    pub reasoning_effort: Option<Seq<char>>,
    pub service_tier: Option<Seq<char>>,
    pub context_window: Option<Seq<char>>,
    pub agent_preset: Option<Seq<char>>,
    pub provider_cursor: Option<Seq<char>>,
}

impl View for DriverStartOptions {
    type V = DriverStartOptionsView;

    open spec fn view(&self) -> DriverStartOptionsView {
        DriverStartOptionsView {
            binary: self.binary@,
            cwd: self.cwd@,
            mode: self.mode,
            interaction_mode: self.interaction_mode,
            model: opt(self.model),
            reasoning_effort: opt(self.reasoning_effort),
            service_tier: opt(self.service_tier),
            context_window: opt(self.context_window),
            agent_preset: opt(self.agent_preset),
            provider_cursor: provider_resume_cursor_opt(self.provider_cursor),
        }
    }
}

impl Clone for DriverStartOptions {
    /// A second value that holds the same.
    fn clone(&self) -> (r: DriverStartOptions)
        ensures
            r@ == self@,
    {
        DriverStartOptions {
            binary: self.binary.clone(),
            cwd: self.cwd.clone(),
            mode: self.mode,
            interaction_mode: self.interaction_mode,
            model: self.model.clone(),
            reasoning_effort: self.reasoning_effort.clone(),
            service_tier: self.service_tier.clone(),
            context_window: self.context_window.clone(),
            agent_preset: self.agent_preset.clone(),
            provider_cursor: copy_provider_resume_cursor_opt(&self.provider_cursor),
        }
    }
}

/// What the provider was last sending.
#[derive(Clone, Copy, Debug, PartialEq, Eq, Hash, Structural)]
pub enum StreamPhase {
    Text,
    Reasoning,
    Activity,
}

/// The provider is responding to a call.
#[derive(Clone, Copy, Debug, PartialEq, Eq, Structural)]
pub struct ProviderPhase {
    /// When the call was taken up, in seconds since the Unix epoch.
    pub since: u64,
}

/// A provider that backs off before it tries again.
#[derive(Debug)]
pub struct ProviderRetry {
    pub attempt: u32,
    pub message: String,
    pub action: Option<String>,
    pub next_at_ms: Option<u64>,
    pub received_at_ms: u64,
}

/// A permission the agent waits for.
#[derive(Debug)]
pub struct PendingPermission {
    pub request_id: String,
    pub title: String,
    pub detail: Option<String>,
    pub options: Vec<PermissionOption>,
}

/// Questions the agent waits to have answered.
#[derive(Debug)]
pub struct PendingUserInput {
    pub request_id: String,
    pub questions: Vec<UserQuestion>,
}

/// How a submission gets its provider.
#[derive(Debug)]
pub enum DriverStart {
    /// The one that runs.
    Reuse,
    /// A new one.
    Start(DriverStartOptions),
    /// None: its command line was not found.
    Missing,
}

/// What a [`DriverStart`] holds.
#[verifier::ext_equal]
pub ghost enum DriverStartView {
    Reuse,
    Start(DriverStartOptionsView),
    Missing,
}

impl View for DriverStart {
    type V = DriverStartView;

    open spec fn view(&self) -> DriverStartView {
        match self {
            DriverStart::Reuse => DriverStartView::Reuse,
            DriverStart::Start(x) => DriverStartView::Start(x@),
            DriverStart::Missing => DriverStartView::Missing,
        }
    }
}

/// A model the user marked.
#[derive(Debug)]
pub struct FavoriteModel {
    pub provider: ProviderKind,
    pub model: String,
}

/// What a [`FavoriteModel`] holds.
#[verifier::ext_equal]
pub ghost struct FavoriteModelView {
    pub provider: ProviderKind,
    pub model: Seq<char>,
}

impl View for FavoriteModel {
    type V = FavoriteModelView;

    open spec fn view(&self) -> FavoriteModelView {
        FavoriteModelView {
            provider: self.provider,
            model: self.model@,
        }
    }
}

/// What a list of them holds.
pub open spec fn favorite_model_views(s: Seq<FavoriteModel>) -> Seq<FavoriteModelView> {
    s.map_values(|x: FavoriteModel| x@)
}

impl Clone for FavoriteModel {
    /// A second value that holds the same.
    fn clone(&self) -> (r: FavoriteModel)
        ensures
            r@ == self@,
    {
        FavoriteModel {
            provider: self.provider,
            model: self.model.clone(),
        }
    }
}

/// A second list that holds the same.
pub fn copy_favorite_models(v: &Vec<FavoriteModel>) -> (r: Vec<FavoriteModel>)
    ensures
        favorite_model_views(r@) == favorite_model_views(v@),
{
    let mut r: Vec<FavoriteModel> = Vec::new();
    let mut i: usize = 0;
    while i < v.len()
        invariant
            i <= v@.len(),
            favorite_model_views(r@) == favorite_model_views(v@.take(i as int)),
        decreases v@.len() - i,
    {
        let item = v[i].clone();
        let ghost before = r@;
        r.push(item);
        assert(favorite_model_views(r@) =~= favorite_model_views(before).push(item@));
        assert(favorite_model_views(v@.take(i + 1)) =~= favorite_model_views(v@.take(i as int)).push(v@[i as int]@));
        i = i + 1;
    }
    assert(v@.take(i as int) =~= v@);
    r
}

/// What the user chose last.
#[derive(Debug)]
pub struct Preferences {
    pub last_provider: ProviderKind,
    pub last_model: Option<String>,
    pub last_reasoning_effort: Option<String>,
    pub last_service_tier: Option<String>,
    pub favorite_models: Vec<FavoriteModel>,
}

/// What a [`Preferences`] holds.
#[verifier::ext_equal]
pub ghost struct PreferencesView {
    pub last_provider: ProviderKind,
    pub last_model: Option<Seq<char>>,
    pub last_reasoning_effort: Option<Seq<char>>,
    pub last_service_tier: Option<Seq<char>>,
    pub favorite_models: Seq<FavoriteModelView>,
}

impl View for Preferences {
    type V = PreferencesView;

    open spec fn view(&self) -> PreferencesView {
        PreferencesView {
            last_provider: self.last_provider,
            last_model: opt(self.last_model),
            last_reasoning_effort: opt(self.last_reasoning_effort),
            last_service_tier: opt(self.last_service_tier),
            favorite_models: favorite_model_views(self.favorite_models@),
        }
    }
}

impl Clone for Preferences {
    /// A second value that holds the same.
    fn clone(&self) -> (r: Preferences)
        ensures
            r@ == self@,
    {
        Preferences {
            last_provider: self.last_provider,
            last_model: self.last_model.clone(),
            last_reasoning_effort: self.last_reasoning_effort.clone(),
            last_service_tier: self.last_service_tier.clone(),
            favorite_models: copy_favorite_models(&self.favorite_models),
        }
    }
}

/// Something the host does after a change.
#[derive(Debug)]
pub enum Effect {
    /// Draw again.
    Notify,
    /// Write the state to disk.
    Save,
    /// Write the state to disk once the next frame is drawn.
    SaveNextFrame,
    Toast(Text),
    SuccessToast(Text),
    HideToast,
    /// Measure the row of a message again.
    RemeasureMessage(usize),
    /// Measure the rows of a block again.
    RemeasureBlock(usize),
    /// Measure the last rows again.
    RemeasureTail,
    /// Measure the card of changed files of a turn again.
    RemeasureChangedFiles(Uuid),
    /// Bring the rows of the session in line with its transcript, keeping the reader's place.
    SpliceTranscriptRows(Uuid),
    /// Forget what was unfolded and start the rows of the transcript over.
    ResetVisibleState,
    /// Fold up everything in the transcript.
    ClearExpansions,
    /// Hold the prompt of a turn at the top of the view.
    AnchorTurn { session_id: Uuid, turn_id: Uuid },
    /// Stop holding a prompt of the session.
    ReleaseAnchor(Uuid),
    /// The rows an activity's diff was built from are gone.
    ForgetActivityDiff(Uuid),
    RebuildTodoSummary(Uuid),
    ObserveForegroundCommand { session_id: Uuid, activity: ActivityItem },
    SettleForegroundWork { session_id: Uuid, completed: bool },
    BackgroundWork { session_id: Uuid, event: BackgroundWorkEvent },
    RefreshBackgroundWork(Uuid),
    LoseBackgroundWork(Uuid),
    ForgetBackgroundWork(Uuid),
    RefreshBranch,
    InvalidateWorkspaceQueries,
    RefreshComposerSources,
    InvalidateCheckpointRefs,
    DeleteCheckpointRefs { session_id: Uuid, project_path: String, turn_count: usize },
    ReconcileNativeSessions,
    /// Watch until the provider's backoff has run out.
    ScheduleRetryExpiry(Uuid),
    ClearUserInputAnswer,
    /// Tell the desktop that a turn is over.
    TaskNotification { session_id: Uuid, title: Text, body: Text },
    /// Attach to the session's runtime in the daemon.
    AttachRuntime(Uuid),
    /// Attach after a quarter of a second.
    AttachRuntimeSoon(Uuid),
    CaptureCheckpoint(PendingCheckpointCapture),
    /// Read the transcript of a session.
    HydrateSession(Uuid),
    DriverCancel(Uuid),
    DriverClose(Uuid),
    DriverCompact(Uuid),
    DriverSteer { session_id: Uuid, prompt: String },
    DriverPrompt { session_id: Uuid, prompt: String },
    DriverRespond { session_id: Uuid, request_id: String, option_id: String },
    /// Hand changed options to the running provider.
    ApplyOptions { session_id: Uuid, generation: u64, options: SessionOptions },
    /// Create the worktree, capture the starting checkpoint and start the provider.
    PrepareSubmission { session_id: Uuid, project: Project, workspace: SessionWorkspace, prompt: String, turn_count: usize, driver: DriverStart },
    /// Have the provider go back to before a message.
    RewindProvider { session_id: Uuid, project_path: String, rollback_turns: usize, provider_turn_count: usize, native_session: Option<String>, binary: Option<String> },
    /// Have the provider branch off after a turn of the session as it was.
    ForkProvider { source: AgentSession, project_path: String, fork_title: String, turn_count: usize, provider_turn_count: usize, provider_binary: String },
    /// Put a submission back into the composer.
    RestoreComposer(ComposerSubmission),
    FocusComposer,
    /// Show a field to edit a past message in, with this text.
    OpenMessageEditor(String),
    /// Have the provider rename its own record of the session.
    RenameNativeSession { session_id: Uuid, new_title: String },
    ClearStagedUndo(Uuid),
    StorePanelState(Uuid),
    RestorePanelState(Uuid),
    RemovePanelState(Uuid),
    EnsurePanelTerminals,
    ReloadPanelFiles,
    RevealSidebarSession(Uuid),
    /// Show the models of a provider in the picker.
    ShowProviderModels(ProviderKind),
    SweepBlobs,
}

/// What a [`Effect`] holds.
#[verifier::ext_equal]
pub ghost enum EffectView {
    Notify,
    Save,
    SaveNextFrame,
    Toast(TextView),
    SuccessToast(TextView),
    HideToast,
    RemeasureMessage(usize),
    RemeasureBlock(usize),
    RemeasureTail,
    RemeasureChangedFiles(Uuid),
    SpliceTranscriptRows(Uuid),
    ResetVisibleState,
    ClearExpansions,
    AnchorTurn { session_id: Uuid, turn_id: Uuid },
    ReleaseAnchor(Uuid),
    ForgetActivityDiff(Uuid),
    RebuildTodoSummary(Uuid),
    ObserveForegroundCommand { session_id: Uuid, activity: ActivityItemView },
    SettleForegroundWork { session_id: Uuid, completed: bool },
    BackgroundWork { session_id: Uuid, event: BackgroundWorkEvent },
    RefreshBackgroundWork(Uuid),
    LoseBackgroundWork(Uuid),
    ForgetBackgroundWork(Uuid),
    RefreshBranch,
    InvalidateWorkspaceQueries,
    RefreshComposerSources,
    InvalidateCheckpointRefs,
    DeleteCheckpointRefs { session_id: Uuid, project_path: Seq<char>, turn_count: usize },
    ReconcileNativeSessions,
    ScheduleRetryExpiry(Uuid),
    ClearUserInputAnswer,
    TaskNotification { session_id: Uuid, title: TextView, body: TextView },
    AttachRuntime(Uuid),
    AttachRuntimeSoon(Uuid),
    CaptureCheckpoint(PendingCheckpointCaptureView),
    HydrateSession(Uuid),
    DriverCancel(Uuid),
    DriverClose(Uuid),
    DriverCompact(Uuid),
    DriverSteer { session_id: Uuid, prompt: Seq<char> },
    DriverPrompt { session_id: Uuid, prompt: Seq<char> },
    DriverRespond { session_id: Uuid, request_id: Seq<char>, option_id: Seq<char> },
    ApplyOptions { session_id: Uuid, generation: u64, options: SessionOptionsView },
    PrepareSubmission { session_id: Uuid, project: ProjectView, workspace: SessionWorkspaceView, prompt: Seq<char>, turn_count: usize, driver: DriverStartView },
    RewindProvider { session_id: Uuid, project_path: Seq<char>, rollback_turns: usize, provider_turn_count: usize, native_session: Option<Seq<char>>, binary: Option<Seq<char>> },
    ForkProvider { source: AgentSessionView, project_path: Seq<char>, fork_title: Seq<char>, turn_count: usize, provider_turn_count: usize, provider_binary: Seq<char> },
    RestoreComposer(ComposerSubmissionView),
    FocusComposer,
    OpenMessageEditor(Seq<char>),
    RenameNativeSession { session_id: Uuid, new_title: Seq<char> },
    ClearStagedUndo(Uuid),
    StorePanelState(Uuid),
    RestorePanelState(Uuid),
    RemovePanelState(Uuid),
    EnsurePanelTerminals,
    ReloadPanelFiles,
    RevealSidebarSession(Uuid),
    ShowProviderModels(ProviderKind),
    SweepBlobs,
}

impl View for Effect {
    type V = EffectView;

    open spec fn view(&self) -> EffectView {
        match self {
            Effect::Notify => EffectView::Notify,
            Effect::Save => EffectView::Save,
            Effect::SaveNextFrame => EffectView::SaveNextFrame,
            Effect::Toast(x) => EffectView::Toast(x@),
            Effect::SuccessToast(x) => EffectView::SuccessToast(x@),
            Effect::HideToast => EffectView::HideToast,
            Effect::RemeasureMessage(x) => EffectView::RemeasureMessage(*x),
            Effect::RemeasureBlock(x) => EffectView::RemeasureBlock(*x),
            Effect::RemeasureTail => EffectView::RemeasureTail,
            Effect::RemeasureChangedFiles(x) => EffectView::RemeasureChangedFiles(*x),
            Effect::SpliceTranscriptRows(x) => EffectView::SpliceTranscriptRows(*x),
            Effect::ResetVisibleState => EffectView::ResetVisibleState,
            Effect::ClearExpansions => EffectView::ClearExpansions,
            Effect::AnchorTurn { session_id, turn_id } => EffectView::AnchorTurn { session_id: *session_id, turn_id: *turn_id },
            Effect::ReleaseAnchor(x) => EffectView::ReleaseAnchor(*x),
            Effect::ForgetActivityDiff(x) => EffectView::ForgetActivityDiff(*x),
            Effect::RebuildTodoSummary(x) => EffectView::RebuildTodoSummary(*x),
            Effect::ObserveForegroundCommand { session_id, activity } => EffectView::ObserveForegroundCommand { session_id: *session_id, activity: activity@ },
            Effect::SettleForegroundWork { session_id, completed } => EffectView::SettleForegroundWork { session_id: *session_id, completed: *completed },
            Effect::BackgroundWork { session_id, event } => EffectView::BackgroundWork { session_id: *session_id, event: *event },
            Effect::RefreshBackgroundWork(x) => EffectView::RefreshBackgroundWork(*x),
            Effect::LoseBackgroundWork(x) => EffectView::LoseBackgroundWork(*x),
            Effect::ForgetBackgroundWork(x) => EffectView::ForgetBackgroundWork(*x),
            Effect::RefreshBranch => EffectView::RefreshBranch,
            Effect::InvalidateWorkspaceQueries => EffectView::InvalidateWorkspaceQueries,
            Effect::RefreshComposerSources => EffectView::RefreshComposerSources,
            Effect::InvalidateCheckpointRefs => EffectView::InvalidateCheckpointRefs,
            Effect::DeleteCheckpointRefs { session_id, project_path, turn_count } => EffectView::DeleteCheckpointRefs { session_id: *session_id, project_path: project_path@, turn_count: *turn_count },
            Effect::ReconcileNativeSessions => EffectView::ReconcileNativeSessions,
            Effect::ScheduleRetryExpiry(x) => EffectView::ScheduleRetryExpiry(*x),
            Effect::ClearUserInputAnswer => EffectView::ClearUserInputAnswer,
            Effect::TaskNotification { session_id, title, body } => EffectView::TaskNotification { session_id: *session_id, title: title@, body: body@ },
            Effect::AttachRuntime(x) => EffectView::AttachRuntime(*x),
            Effect::AttachRuntimeSoon(x) => EffectView::AttachRuntimeSoon(*x),
            Effect::CaptureCheckpoint(x) => EffectView::CaptureCheckpoint(x@),
            Effect::HydrateSession(x) => EffectView::HydrateSession(*x),
            Effect::DriverCancel(x) => EffectView::DriverCancel(*x),
            Effect::DriverClose(x) => EffectView::DriverClose(*x),
            Effect::DriverCompact(x) => EffectView::DriverCompact(*x),
            Effect::DriverSteer { session_id, prompt } => EffectView::DriverSteer { session_id: *session_id, prompt: prompt@ },
            Effect::DriverPrompt { session_id, prompt } => EffectView::DriverPrompt { session_id: *session_id, prompt: prompt@ },
            Effect::DriverRespond { session_id, request_id, option_id } => EffectView::DriverRespond { session_id: *session_id, request_id: request_id@, option_id: option_id@ },
            Effect::ApplyOptions { session_id, generation, options } => EffectView::ApplyOptions { session_id: *session_id, generation: *generation, options: options@ },
            Effect::PrepareSubmission { session_id, project, workspace, prompt, turn_count, driver } => EffectView::PrepareSubmission { session_id: *session_id, project: project@, workspace: workspace@, prompt: prompt@, turn_count: *turn_count, driver: driver@ },
            Effect::RewindProvider { session_id, project_path, rollback_turns, provider_turn_count, native_session, binary } => EffectView::RewindProvider { session_id: *session_id, project_path: project_path@, rollback_turns: *rollback_turns, provider_turn_count: *provider_turn_count, native_session: opt(*native_session), binary: opt(*binary) },
            Effect::ForkProvider { source, project_path, fork_title, turn_count, provider_turn_count, provider_binary } => EffectView::ForkProvider { source: source@, project_path: project_path@, fork_title: fork_title@, turn_count: *turn_count, provider_turn_count: *provider_turn_count, provider_binary: provider_binary@ },
            Effect::RestoreComposer(x) => EffectView::RestoreComposer(x@),
            Effect::FocusComposer => EffectView::FocusComposer,
            Effect::OpenMessageEditor(x) => EffectView::OpenMessageEditor(x@),
            Effect::RenameNativeSession { session_id, new_title } => EffectView::RenameNativeSession { session_id: *session_id, new_title: new_title@ },
            Effect::ClearStagedUndo(x) => EffectView::ClearStagedUndo(*x),
            Effect::StorePanelState(x) => EffectView::StorePanelState(*x),
            Effect::RestorePanelState(x) => EffectView::RestorePanelState(*x),
            Effect::RemovePanelState(x) => EffectView::RemovePanelState(*x),
            Effect::EnsurePanelTerminals => EffectView::EnsurePanelTerminals,
            Effect::ReloadPanelFiles => EffectView::ReloadPanelFiles,
            Effect::RevealSidebarSession(x) => EffectView::RevealSidebarSession(*x),
            Effect::ShowProviderModels(x) => EffectView::ShowProviderModels(*x),
            Effect::SweepBlobs => EffectView::SweepBlobs,
        }
    }
}

/// What a list of them holds.
pub open spec fn effect_views(s: Seq<Effect>) -> Seq<EffectView> {
    s.map_values(|x: Effect| x@)
}

impl ComposerSubmissionView {
    /// What the user typed.
    pub open spec fn human(self) -> Seq<char> {
        match self.display_content {
            Some(text) => text,
            None => self.prompt,
        }
    }

    /// The submission as a follow-up in the queue.
    pub open spec fn queued(self, id: Uuid) -> QueuedMessageView {
        QueuedMessageView {
            id,
            prompt: self.prompt,
            display_content: self.display_content,
            attachments: self.attachments,
        }
    }
}

impl ComposerSubmission {
    /// A submission of nothing but text.
    pub fn plain(prompt: String) -> (r: ComposerSubmission)
        ensures
            r@ == (ComposerSubmissionView { prompt: prompt@, display_content: None, attachments: Seq::empty() }),
    {
        let r = ComposerSubmission { prompt, display_content: None, attachments: Vec::new() };
        assert(attachment_views(r.attachments@) =~= Seq::empty());
        r
    }

    /// What the provider receives.
    pub fn provider_prompt(&self) -> (r: &str)
        ensures
            r@ == self@.prompt,
    {
        self.prompt.as_str()
    }

    /// What the user typed.
    pub fn human_prompt(&self) -> (r: &str)
        ensures
            r@ == self@.human(),
    {
        match &self.display_content {
            Some(text) => text.as_str(),
            None => self.prompt.as_str(),
        }
    }

    /// The submission as a follow-up in the queue.
    pub fn into_queued_message(self, id: Uuid) -> (r: QueuedMessage)
        ensures
            r@ == self@.queued(id),
    {
        QueuedMessage {
            id,
            prompt: self.prompt,
            display_content: self.display_content,
            attachments: self.attachments,
        }
    }

    /// A follow-up taken from the queue.
    pub fn from_queued_message(message: QueuedMessage) -> (r: ComposerSubmission)
        ensures
            r@ == (ComposerSubmissionView {
                prompt: message@.prompt,
                display_content: message@.display_content,
                attachments: message@.attachments,
            }),
    {
        ComposerSubmission {
            prompt: message.prompt,
            display_content: message.display_content,
            attachments: message.attachments,
        }
    }
}

/// A follow-up that goes through the queue comes out as it went in.
pub proof fn queue_round_trip(submission: ComposerSubmissionView, id: Uuid)
    ensures
        ({
            let message = submission.queued(id);
            submission == (ComposerSubmissionView {
                prompt: message.prompt,
                display_content: message.display_content,
                attachments: message.attachments,
            })
        }),
{
}

/// What the desktop knows of a provider that runs for a session.
#[derive(Debug)]
pub struct SessionRuntime {
    /// Whether a running turn takes further messages.
    pub supports_steer: bool,
    /// Counts the changes of options that were handed to the provider.
    pub options_generation: u64,
    pub pending_events: VecDeque<DriverEvent>,
    pub pending_steers: VecDeque<ComposerSubmission>,
    pub stream_phase: Option<StreamPhase>,
    pub stream_remeasure_pending: bool,
    /// The messages that text parts own.
    pub open_text: StrMap<Uuid>,
    pub settled_text: StrSet,
    /// The activities that reasoning parts own.
    pub open_reasoning: StrMap<Uuid>,
    pub settled_reasoning: StrSet,
    pub provider_phase: Option<ProviderPhase>,
    pub pending_permission: Option<PendingPermission>,
    pub pending_user_input: Option<PendingUserInput>,
    pub last_driver_error: Option<String>,
    pub last_active_at: u64,
    pub last_background_refresh_at: u64,
}

/// What a [`SessionRuntime`] holds.
#[verifier::ext_equal]
pub ghost struct RuntimeView {
    pub supports_steer: bool,
    pub options_generation: u64,
    pub pending_events: Seq<DriverEvent>,
    pub pending_steers: Seq<ComposerSubmissionView>,
    pub stream_phase: Option<StreamPhase>,
    pub stream_remeasure_pending: bool,
    pub open_text: Map<Seq<char>, Uuid>,
    pub settled_text: Set<Seq<char>>,
    pub open_reasoning: Map<Seq<char>, Uuid>,
    pub settled_reasoning: Set<Seq<char>>,
    pub provider_phase: Option<ProviderPhase>,
    pub pending_permission: Option<PendingPermission>,
    pub pending_user_input: Option<PendingUserInput>,
    pub last_driver_error: Option<Seq<char>>,
    pub last_active_at: u64,
    pub last_background_refresh_at: u64,
}

impl View for SessionRuntime {
    type V = RuntimeView;

    open spec fn view(&self) -> RuntimeView {
        RuntimeView {
            supports_steer: self.supports_steer,
            options_generation: self.options_generation,
            pending_events: self.pending_events@,
            pending_steers: composer_submission_views(self.pending_steers@),
            stream_phase: self.stream_phase,
            stream_remeasure_pending: self.stream_remeasure_pending,
            open_text: self.open_text@,
            settled_text: self.settled_text@,
            open_reasoning: self.open_reasoning@,
            settled_reasoning: self.settled_reasoning@,
            provider_phase: self.provider_phase,
            pending_permission: self.pending_permission,
            pending_user_input: self.pending_user_input,
            last_driver_error: opt(self.last_driver_error),
            last_active_at: self.last_active_at,
            last_background_refresh_at: self.last_background_refresh_at,
        }
    }
}

impl RuntimeView {
    /// A runtime that has just been attached.
    pub open spec fn fresh(supports_steer: bool, stamp: Stamp) -> RuntimeView {
        RuntimeView {
            supports_steer,
            options_generation: 0,
            pending_events: Seq::empty(),
            pending_steers: Seq::empty(),
            stream_phase: None,
            stream_remeasure_pending: false,
            open_text: Map::empty(),
            settled_text: Set::empty(),
            open_reasoning: Map::empty(),
            settled_reasoning: Set::empty(),
            provider_phase: None,
            pending_permission: None,
            pending_user_input: None,
            last_driver_error: None,
            last_active_at: stamp.millis,
            last_background_refresh_at: 0,
        }
    }

    /// Whether the provider was last at work rather than writing its answer.
    pub open spec fn continuing_work(self) -> bool {
        self.stream_phase == Some(StreamPhase::Reasoning) || self.stream_phase == Some(StreamPhase::Activity)
    }

    /// The runtime with nothing of a turn left in it.
    pub open spec fn stream_cleared(self) -> RuntimeView {
        RuntimeView {
            stream_phase: None,
            open_reasoning: Map::empty(),
            settled_reasoning: Set::empty(),
            open_text: Map::empty(),
            settled_text: Set::empty(),
            provider_phase: None,
            ..self
        }
    }
}

impl SessionRuntime {
    /// A runtime that has just been attached.
    pub fn new(supports_steer: bool, stamp: Stamp) -> (r: SessionRuntime)
        ensures
            r@ == RuntimeView::fresh(supports_steer, stamp),
    {
        let r = SessionRuntime {
            supports_steer,
            options_generation: 0,
            pending_events: VecDeque::new(),
            pending_steers: VecDeque::new(),
            stream_phase: None,
            stream_remeasure_pending: false,
            open_text: StrMap::new(),
            settled_text: StrSet::new(),
            open_reasoning: StrMap::new(),
            settled_reasoning: StrSet::new(),
            provider_phase: None,
            pending_permission: None,
            pending_user_input: None,
            last_driver_error: None,
            last_active_at: stamp.millis,
            last_background_refresh_at: 0,
        };
        assert(r@.pending_events =~= Seq::empty());
        assert(r@.pending_steers =~= Seq::empty());
        r
    }

    /// Whether the provider was last at work rather than writing its answer.
    pub fn is_continuing_work(&self) -> (r: bool)
        ensures
            r == self@.continuing_work(),
    {
        matches!(self.stream_phase, Some(StreamPhase::Reasoning) | Some(StreamPhase::Activity))
    }

    /// Clears what belongs to the stream of a turn.
    pub fn clear_stream(&mut self)
        ensures
            final(self)@ == old(self)@.stream_cleared(),
    {
        self.stream_phase = None;
        self.open_reasoning.clear();
        self.settled_reasoning.clear();
        self.open_text.clear();
        self.settled_text.clear();
        self.provider_phase = None;
    }
}

/// The sessions and projects, as they are kept on disk.
pub struct PersistedState {
    pub sessions: Vec<AgentSession>,
    pub projects: Vec<Project>,
    pub selected_session: Option<Uuid>,
    pub selected_project: Option<Uuid>,
    pub prefs: Preferences,
    /// The sessions that the next save writes.
    pub dirty: IdSet,
}

/// What a [`PersistedState`] holds.
#[verifier::ext_equal]
pub ghost struct StateView {
    pub sessions: Seq<AgentSessionView>,
    pub projects: Seq<ProjectView>,
    pub selected_session: Option<Uuid>,
    pub selected_project: Option<Uuid>,
    pub prefs: PreferencesView,
    pub dirty: Set<Uuid>,
}

impl View for PersistedState {
    type V = StateView;

    open spec fn view(&self) -> StateView {
        StateView {
            sessions: agent_session_views(self.sessions@),
            projects: project_views(self.projects@),
            selected_session: self.selected_session,
            selected_project: self.selected_project,
            prefs: self.prefs@,
            dirty: self.dirty@,
        }
    }
}

/// The ids of the sessions.
pub open spec fn session_ids(sessions: Seq<AgentSessionView>) -> Seq<Uuid> {
    sessions.map_values(|s: AgentSessionView| s.id)
}

/// The ids of the projects.
pub open spec fn project_ids(projects: Seq<ProjectView>) -> Seq<Uuid> {
    projects.map_values(|p: ProjectView| p.id)
}

impl StateView {
    /// Where a session stands.
    pub open spec fn at(self, id: Uuid) -> Option<int> {
        pos(session_ids(self.sessions), id)
    }

    /// A session by its id.
    pub open spec fn session(self, id: Uuid) -> Option<AgentSessionView> {
        match self.at(id) {
            Some(i) => Some(self.sessions[i]),
            None => None,
        }
    }

    /// A project by its id.
    pub open spec fn project(self, id: Uuid) -> Option<ProjectView> {
        match pos(project_ids(self.projects), id) {
            Some(i) => Some(self.projects[i]),
            None => None,
        }
    }

    /// The state with a session replaced and marked for the next save; without
    /// such a session nothing changes.
    pub open spec fn put(self, id: Uuid, session: AgentSessionView) -> StateView {
        match self.at(id) {
            Some(i) => StateView {
                sessions: self.sessions.update(i, session),
                dirty: self.dirty.insert(id),
                ..self
            },
            None => self,
        }
    }

    /// The directory a session works in.
    pub open spec fn workspace_path(self, session: AgentSessionView) -> Option<Seq<char>> {
        match self.project(session.project_id) {
            Some(project) => Some(
                match session.workspace.path() {
                    Some(path) => path,
                    None => project.path,
                },
            ),
            None => None,
        }
    }

    /// The running turn of a session.
    pub open spec fn active_turn(self, id: Uuid) -> Option<Uuid> {
        match self.session(id) {
            Some(session) => session.active_turn(),
            None => None,
        }
    }
}

impl PersistedState {
    /// Where a session stands.
    pub fn session_index(&self, id: Uuid) -> (r: Option<usize>)
        ensures
            match r {
                Some(i) => self@.at(id) == Some(i as int) && i < self.sessions@.len() && self.sessions@.len()
                    == self@.sessions.len() && self.sessions@[i as int]@ == self@.sessions[i as int],
                None => self@.at(id) is None,
            },
    {
        let ghost ids = session_ids(self@.sessions);
        let mut i: usize = 0;
        while i < self.sessions.len()
            invariant
                i <= self.sessions@.len(),
                ids == session_ids(self@.sessions),
                forall|j: int| 0 <= j < i ==> ids[j] != id,
            decreases self.sessions@.len() - i,
        {
            assert(ids[i as int] == self.sessions@[i as int].id);
            if self.sessions[i].id == id {
                proof {
                    lemma_pos_some(ids, id, i as int);
                }
                return Some(i);
            }
            i = i + 1;
        }
        proof {
            lemma_pos_none(ids, id);
        }
        None
    }

    /// Where a session stands that is about to change: it is marked for the next save.
    pub fn session_mut(&mut self, id: Uuid) -> (r: Option<usize>)
        ensures
            match r {
                Some(i) => {
                    &&& old(self)@.at(id) == Some(i as int)
                    &&& i < final(self).sessions@.len()
                    &&& final(self).sessions@.len() == final(self)@.sessions.len()
                    &&& final(self).sessions@[i as int]@ == old(self)@.sessions[i as int]
                },
                None => old(self)@.at(id) is None,
            },
            *final(self) == (PersistedState { dirty: final(self).dirty, ..*old(self) }),
            final(self)@ == (StateView {
                dirty: if r is Some {
                    old(self)@.dirty.insert(id)
                } else {
                    old(self)@.dirty
                },
                ..old(self)@
            }),
    {
        match self.session_index(id) {
            Some(i) => {
                let _ = self.dirty.insert(id);
                Some(i)
            },
            None => None,
        }
    }

    /// Marks a session for the next save.
    pub fn mark_session_dirty(&mut self, id: Uuid)
        ensures
            final(self)@ == (StateView { dirty: old(self)@.dirty.insert(id), ..old(self)@ }),
            *final(self) == (PersistedState { dirty: final(self).dirty, ..*old(self) }),
    {
        let _ = self.dirty.insert(id);
    }

    /// Where a project stands.
    pub fn project_index(&self, id: Uuid) -> (r: Option<usize>)
        ensures
            match r {
                Some(i) => pos(project_ids(self@.projects), id) == Some(i as int) && i < self.projects@.len()
                    && self.projects@[i as int]@ == self@.projects[i as int],
                None => pos(project_ids(self@.projects), id) is None,
            },
    {
        let ghost ids = project_ids(self@.projects);
        let mut i: usize = 0;
        while i < self.projects.len()
            invariant
                i <= self.projects@.len(),
                ids == project_ids(self@.projects),
                forall|j: int| 0 <= j < i ==> ids[j] != id,
            decreases self.projects@.len() - i,
        {
            assert(ids[i as int] == self.projects@[i as int].id);
            if self.projects[i].id == id {
                proof {
                    lemma_pos_some(ids, id, i as int);
                }
                return Some(i);
            }
            i = i + 1;
        }
        proof {
            lemma_pos_none(ids, id);
        }
        None
    }

    /// The directory that every operation of a session uses. A worktree that is
    /// not there yet reads the project's own checkout.
    pub fn workspace_path_for_session<'a>(&'a self, session: &'a AgentSession) -> (r: Option<&'a str>)
        ensures
            crate::text::opt_str(r) == self@.workspace_path(session@),
    {
        match self.project_index(session.project_id) {
            Some(i) => match session.workspace.path() {
                Some(path) => Some(path),
                None => Some(self.projects[i].path.as_str()),
            },
            None => None,
        }
    }
}

/// A session was replaced in place: how the view of the state changed.
pub(crate) proof fn lemma_put(before: PersistedState, after: PersistedState, id: Uuid, i: int)
    requires
        before@.at(id) == Some(i),
        0 <= i < before.sessions@.len(),
        after.sessions@ == before.sessions@.update(i, after.sessions@[i]),
        after.projects == before.projects,
        after.selected_session == before.selected_session,
        after.selected_project == before.selected_project,
        after.prefs == before.prefs,
        after.dirty@ == before.dirty@.insert(id),
    ensures
        after@ == before@.put(id, after.sessions@[i]@),
{
    assert(agent_session_views(after.sessions@) =~= agent_session_views(before.sessions@).update(
        i,
        after.sessions@[i]@,
    ));
}

/// A session found by its id bears that id.
pub(crate) proof fn lemma_session_id(state: StateView, id: Uuid)
    ensures
        state.at(id) matches Some(i) ==> 0 <= i < state.sessions.len() && state.sessions[i].id == id,
{
    lemma_pos(session_ids(state.sessions), id);
}

/// A session that was put is found again.
pub(crate) proof fn lemma_put_get(state: StateView, id: Uuid, session: AgentSessionView)
    requires
        state.at(id) is Some,
        session.id == id,
    ensures
        state.put(id, session).at(id) == state.at(id),
        state.put(id, session).session(id) == Some(session),
        session_ids(state.put(id, session).sessions) == session_ids(state.sessions),
{
    lemma_session_id(state, id);
    assert(session_ids(state.put(id, session).sessions) =~= session_ids(state.sessions));
}

} // verus!
