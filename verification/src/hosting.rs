//! What stands between a submission and its provider: the workspace that it runs in, and
//! the worker that keeps the list of tasks in step with the daemon.
use vstd::prelude::*;

use crate::live::{Desk, DeskView};
use crate::model::{Project, SessionWorkspace, SessionWorkspaceView};
use crate::text::opt;

verus! {

/// What a submission needs of its workspace before the provider starts.
#[derive(Debug)]
pub enum WorkspaceStep {
    Ready,
    /// An isolated copy is to be created off this branch.
    CreateWorktree { base_branch: String },
}

/// The error of a submission that asks for a copy of what is no project.
pub const PROJECTLESS_WORKTREE: &'static str = "a projectless task cannot create a Git worktree";

/// What a submission needs of its workspace before the provider starts.
pub fn prepare_submission(project: &Project, workspace: &SessionWorkspace) -> (r: Result<WorkspaceStep, &'static str>)
    ensures
        match workspace@ {
            SessionWorkspaceView::NewWorktree { base_branch } => if project@.projectless {
                r matches Err(error) && error@ == PROJECTLESS_WORKTREE@
            } else {
                r matches Ok(WorkspaceStep::CreateWorktree { base_branch: branch }) && branch@ == base_branch
            },
            _ => r matches Ok(WorkspaceStep::Ready),
        },
{
    match workspace {
        SessionWorkspace::NewWorktree { base_branch } => {
            if project.is_projectless() {
                return Err(PROJECTLESS_WORKTREE);
            }
            Ok(WorkspaceStep::CreateWorktree { base_branch: base_branch.clone() })
        },
        _ => Ok(WorkspaceStep::Ready),
    }
}

/// The workspace of a submission once it is prepared: the copy where one was created, else
/// the one that it had.
pub fn prepared_workspace(workspace: SessionWorkspace, created: Option<(String, String)>) -> (r: SessionWorkspace)
    ensures
        r@ == (match (workspace@, created) {
            (SessionWorkspaceView::NewWorktree { base_branch }, Some(copy)) => SessionWorkspaceView::Worktree {
                path: copy.0@,
                branch: copy.1@,
            },
            _ => workspace@,
        }),
{
    match workspace {
        SessionWorkspace::NewWorktree { base_branch } => match created {
            Some((path, branch)) => SessionWorkspace::Worktree { path, branch },
            None => SessionWorkspace::NewWorktree { base_branch },
        },
        other => other,
    }
}

/// The directory that a provider starts in: the copy's, or the project's.
pub fn start_directory(workspace: &SessionWorkspace, project: &Project) -> (r: String)
    ensures
        r@ == (match workspace@.path() {
            Some(path) => path,
            None => project@.path,
        }),
{
    match workspace {
        SessionWorkspace::Worktree { path, branch: _ } => path.clone(),
        _ => project.path.clone(),
    }
}

impl DeskView {
    /// The directory that questions about providers are asked in: that of the project on
    /// screen, else of the first project.
    pub open spec fn provider_directory(self) -> Option<Seq<char>> {
        match self.selected_project() {
            Some(project) => Some(project.path),
            None => if self.state.projects.len() > 0 {
                Some(self.state.projects[0].path)
            } else {
                None
            },
        }
    }
}

impl Desk {
    /// The command line and the directory that questions about providers are asked with.
    pub fn provider_workspace(&self, binary: Option<String>) -> (r: Option<(String, String)>)
        ensures
            match r {
                Some(found) => opt(binary) == Some(found.0@) && self@.provider_directory() == Some(found.1@),
                None => opt(binary) is None || self@.provider_directory() is None,
            },
    {
        let binary = match binary {
            Some(binary) => binary,
            None => return None,
        };
        let chosen = match self.state.selected_project {
            Some(id) => self.state.project_index(id),
            None => None,
        };
        match chosen {
            Some(i) => Some((binary, self.state.projects[i].path.clone())),
            None => {
                if self.state.projects.len() > 0 {
                    assert(self@.state.projects[0] == self.state.projects@[0]@);
                    Some((binary, self.state.projects[0].path.clone()))
                } else {
                    None
                }
            },
        }
    }
}

/// Where the worker stands that keeps the list of tasks in step.
#[derive(Clone, Copy, Debug, PartialEq, Eq, Structural)]
pub enum SyncState {
    /// It waits for a connection.
    Waiting,
    /// It reads the tasks over a new connection.
    Loading,
    /// It watches for changes, and for a new connection.
    Watching,
    /// It reads the tasks again.
    Reloading,
    /// The connection broke; it waits for the next one.
    Broken,
    Stopped,
}

/// What the worker sees.
#[derive(Clone, Copy, Debug, PartialEq, Eq, Structural)]
pub enum SyncEvent {
    /// A connection was made.
    Client,
    /// No more connections will be made.
    ClientsClosed,
    /// The tasks changed.
    Revision,
    /// The connection broke.
    RevisionsClosed,
    /// The tasks were handed over.
    Sent,
    /// Nobody takes the tasks any more.
    ResultsClosed,
}

/// What the worker does next.
#[derive(Clone, Copy, Debug, PartialEq, Eq, Structural)]
pub enum SyncAction {
    ReceiveClient,
    /// Take the newest connection, ask it for changes, read the tasks over it, hand them
    /// over, and wake the event pump.
    LoadFromNewest,
    /// Wait for a change or a connection, whichever comes first.
    Select,
    /// Skip the changes that came in meanwhile, read the tasks, hand them over, and wake
    /// the event pump.
    LoadAgain,
    Stop,
}

impl SyncState {
    /// Where the worker stands after something happened; what cannot happen there changes
    /// nothing.
    pub open spec fn after(self, event: SyncEvent) -> SyncState {
        match (self, event) {
            (SyncState::Waiting, SyncEvent::Client) => SyncState::Loading,
            (SyncState::Broken, SyncEvent::Client) => SyncState::Loading,
            (SyncState::Watching, SyncEvent::Client) => SyncState::Loading,
            (SyncState::Waiting, SyncEvent::ClientsClosed) => SyncState::Stopped,
            (SyncState::Broken, SyncEvent::ClientsClosed) => SyncState::Stopped,
            (SyncState::Watching, SyncEvent::ClientsClosed) => SyncState::Stopped,
            (SyncState::Watching, SyncEvent::Revision) => SyncState::Reloading,
            (SyncState::Watching, SyncEvent::RevisionsClosed) => SyncState::Broken,
            (SyncState::Loading, SyncEvent::Sent) => SyncState::Watching,
            (SyncState::Reloading, SyncEvent::Sent) => SyncState::Watching,
            (SyncState::Loading, SyncEvent::ResultsClosed) => SyncState::Stopped,
            (SyncState::Reloading, SyncEvent::ResultsClosed) => SyncState::Stopped,
            _ => self,
        }
    }

    /// What the worker does where it stands.
    pub open spec fn doing(self) -> SyncAction {
        match self {
            SyncState::Waiting => SyncAction::ReceiveClient,
            SyncState::Loading => SyncAction::LoadFromNewest,
            SyncState::Watching => SyncAction::Select,
            SyncState::Reloading => SyncAction::LoadAgain,
            SyncState::Broken => SyncAction::ReceiveClient,
            SyncState::Stopped => SyncAction::Stop,
        }
    }

    /// What the worker does where it stands.
    pub fn action(self) -> (r: SyncAction)
        ensures
            r == self.doing(),
    {
        match self {
            SyncState::Waiting => SyncAction::ReceiveClient,
            SyncState::Loading => SyncAction::LoadFromNewest,
            SyncState::Watching => SyncAction::Select,
            SyncState::Reloading => SyncAction::LoadAgain,
            SyncState::Broken => SyncAction::ReceiveClient,
            SyncState::Stopped => SyncAction::Stop,
        }
    }

    /// One step of the worker: where it stands after something happened, and what it does
    /// then.
    pub fn restart_task_state_sync(self, event: SyncEvent) -> (r: (SyncState, SyncAction))
        ensures
            r.0 == self.after(event),
            r.1 == self.after(event).doing(),
    {
        let next = match (self, event) {
            (SyncState::Waiting, SyncEvent::Client) => SyncState::Loading,
            (SyncState::Broken, SyncEvent::Client) => SyncState::Loading,
            (SyncState::Watching, SyncEvent::Client) => SyncState::Loading,
            (SyncState::Waiting, SyncEvent::ClientsClosed) => SyncState::Stopped,
            (SyncState::Broken, SyncEvent::ClientsClosed) => SyncState::Stopped,
            (SyncState::Watching, SyncEvent::ClientsClosed) => SyncState::Stopped,
            (SyncState::Watching, SyncEvent::Revision) => SyncState::Reloading,
            (SyncState::Watching, SyncEvent::RevisionsClosed) => SyncState::Broken,
            (SyncState::Loading, SyncEvent::Sent) => SyncState::Watching,
            (SyncState::Reloading, SyncEvent::Sent) => SyncState::Watching,
            (SyncState::Loading, SyncEvent::ResultsClosed) => SyncState::Stopped,
            (SyncState::Reloading, SyncEvent::ResultsClosed) => SyncState::Stopped,
            _ => self,
        };
        (next, next.action())
    }
}

/// A connection that breaks does not end the worker: it stops only where no connections
/// will be made any more, or nobody takes the tasks.
pub proof fn broken_connections_are_survived(state: SyncState, event: SyncEvent)
    requires
        state != SyncState::Stopped,
        state.after(event) == SyncState::Stopped,
    ensures
        event == SyncEvent::ClientsClosed || event == SyncEvent::ResultsClosed,
{
}

/// After each new connection the tasks are read anew before changes are waited for.
pub proof fn new_connections_read_first(state: SyncState)
    requires
        state == SyncState::Waiting || state == SyncState::Broken || state == SyncState::Watching,
    ensures
        state.after(SyncEvent::Client).doing() == SyncAction::LoadFromNewest,
        state.after(SyncEvent::Client).after(SyncEvent::Sent).doing() == SyncAction::Select,
{
}

} // verus!
