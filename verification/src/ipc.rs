//! IPC payloads exchanged between the compositor and its clients
//! (`aerowm-ctl`, `aerowm-bar`), and how the compositor acts on a command.
use vstd::prelude::*;

verus! {

/// Workspace navigation requested over IPC.
#[derive(Debug, Clone, Copy, PartialEq, Eq, Structural)]
pub enum WorkspaceAction {
    Next,
    Prev,
    /// 1-based workspace number, as shown to users.
    Switch(usize),
}

/// IPC commands sent from clients to the compositor.
#[derive(Debug, Clone, Copy, PartialEq, Eq, Structural)]
pub enum IpcCommand {
    /// Reload the configuration file (Luau).
    ReloadConfig,
    /// Switch to a different workspace.
    Workspace { action: WorkspaceAction },
    /// Kill the currently focused window.
    KillWindow,
    /// Stop the compositor.
    Exit,
    /// Hot restart: dump the session, then re-exec the compositor.
    Restart,
    /// Subscribe to the live event stream.
    Subscribe,
    /// Query a full state snapshot, returned as JSON in the response message.
    GetState,
}

/// Point-in-time view of the compositor, polled by status clients.
#[derive(Debug, PartialEq, Eq)]
pub struct CompositorSnapshot {
    /// One entry per workspace, in index order.
    pub workspaces: Vec<WorkspaceInfo>,
    /// Index into `workspaces` of the active workspace.
    pub active: usize,
}

/// Status of one workspace.
#[derive(Debug, PartialEq, Eq)]
pub struct WorkspaceInfo {
    /// User-facing name ("1", "2", ...).
    pub name: String,
    /// `true` when this is the active workspace.
    pub active: bool,
    /// Number of tiled windows on this workspace.
    pub window_count: usize,
    /// Window id of the focused window, if any.
    pub focused_window: Option<usize>,
}

/// The response sent back for single-shot commands.
#[derive(Debug, PartialEq, Eq)]
pub struct IpcResponse {
    pub success: bool,
    pub message: Option<String>,
}

/// Real-time events broadcast to all subscribed clients.
#[derive(Debug, PartialEq, Eq)]
pub enum IpcEvent {
    WorkspaceSwitched(String),
    FocusChanged(Option<usize>),
    WindowOpened(usize),
    WindowClosed(usize),
}

/// What the compositor does for a received command.
#[derive(Debug, Clone, Copy, PartialEq, Eq, Structural)]
pub enum IpcAction {
    /// Keep the connection as an event subscriber (no acknowledgement).
    Subscribe,
    ReloadConfig,
    Exit,
    KillWindow,
    Restart,
    /// Answer with a state snapshot.
    GetState,
    NextWorkspace,
    PrevWorkspace,
    /// Switch to the workspace at this 0-based index.
    SwitchWorkspace(usize),
}

/// 0-based workspace index for a 1-based user-facing number; 0 maps to
/// the first workspace.
pub open spec fn switch_index(n: usize) -> usize {
    if n == 0 {
        0
    } else {
        (n - 1) as usize
    }
}

/// The action a command calls for.
pub open spec fn spec_plan_command(cmd: IpcCommand) -> IpcAction {
    match cmd {
        IpcCommand::Subscribe => IpcAction::Subscribe,
        IpcCommand::ReloadConfig => IpcAction::ReloadConfig,
        IpcCommand::Exit => IpcAction::Exit,
        IpcCommand::KillWindow => IpcAction::KillWindow,
        IpcCommand::Restart => IpcAction::Restart,
        IpcCommand::GetState => IpcAction::GetState,
        IpcCommand::Workspace { action } => match action {
            WorkspaceAction::Next => IpcAction::NextWorkspace,
            WorkspaceAction::Prev => IpcAction::PrevWorkspace,
            WorkspaceAction::Switch(n) => IpcAction::SwitchWorkspace(switch_index(n)),
        },
    }
}

/// Decides how the compositor acts on a command. User-facing workspace
/// numbers are 1-based; `Switch(0)` is taken as the first workspace.
pub fn plan_command(cmd: IpcCommand) -> (a: IpcAction)
    ensures
        a == spec_plan_command(cmd),
{
    match cmd {
        IpcCommand::Subscribe => IpcAction::Subscribe,
        IpcCommand::ReloadConfig => IpcAction::ReloadConfig,
        IpcCommand::Exit => IpcAction::Exit,
        IpcCommand::KillWindow => IpcAction::KillWindow,
        IpcCommand::Restart => IpcAction::Restart,
        IpcCommand::GetState => IpcAction::GetState,
        IpcCommand::Workspace { action } => match action {
            WorkspaceAction::Next => IpcAction::NextWorkspace,
            WorkspaceAction::Prev => IpcAction::PrevWorkspace,
            WorkspaceAction::Switch(n) => IpcAction::SwitchWorkspace(
                if n == 0 {
                    0
                } else {
                    n - 1
                },
            ),
        },
    }
}

/// Whether a single-shot acknowledgement is sent back for the action:
/// every action except a subscription is acknowledged.
pub fn acknowledges(a: IpcAction) -> (r: bool)
    ensures
        r == !(a is Subscribe),
{
    match a {
        IpcAction::Subscribe => false,
        _ => true,
    }
}

/// Law: the workspace a user names with its 1-based number (1 or more) is
/// the one at the index one below it, so numbering round-trips.
pub proof fn switch_numbering_roundtrip(i: usize)
    requires
        i < usize::MAX,
    ensures
        spec_plan_command(
            IpcCommand::Workspace { action: WorkspaceAction::Switch((i + 1) as usize) },
        ) == IpcAction::SwitchWorkspace(i),
{
}

/// The active workspace index, of `len` workspaces, after the compositor
/// carried out `a` from `active` (the index moves as
/// `WmState::next_workspace`, `prev_workspace` and `switch_workspace`
/// move it; other actions leave it).
pub open spec fn active_after(a: IpcAction, active: int, len: int) -> int {
    match a {
        IpcAction::NextWorkspace => crate::wm::next_index(active, len),
        IpcAction::PrevWorkspace => crate::wm::prev_index(active, len),
        IpcAction::SwitchWorkspace(i) => if i < len {
            i as int
        } else {
            active
        },
        _ => active,
    }
}

/// Law: `aerowm-ctl workspace --next` and `--prev` plan opposite moves:
/// only the Next command plans the next-workspace action and only the Prev
/// command the previous-workspace one, so Next followed by Prev (or Prev
/// followed by Next) comes back to the workspace it started from, whatever
/// the number of workspaces.
pub proof fn next_and_prev_commands_undo_each_other(cmd: IpcCommand, active: int, len: int)
    requires
        0 <= active < len,
    ensures
        spec_plan_command(cmd) == IpcAction::NextWorkspace <==> cmd == (IpcCommand::Workspace {
            action: WorkspaceAction::Next,
        }),
        spec_plan_command(cmd) == IpcAction::PrevWorkspace <==> cmd == (IpcCommand::Workspace {
            action: WorkspaceAction::Prev,
        }),
        ({
            let next = spec_plan_command(IpcCommand::Workspace { action: WorkspaceAction::Next });
            let prev = spec_plan_command(IpcCommand::Workspace { action: WorkspaceAction::Prev });
            &&& active_after(prev, active_after(next, active, len), len) == active
            &&& active_after(next, active_after(prev, active, len), len) == active
        }),
{
    crate::wm::next_then_prev_workspace(active, len);
}

} // verus!
