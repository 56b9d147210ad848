//! Persistent session state for hot restart.
//!
//! A [`SessionState`] is a plain-data snapshot of the window manager:
//! workspaces (names, layouts, stacking order, focus, floating geometry)
//! plus enough per-window identity to re-place windows as clients
//! reconnect after an in-place restart. Window identifiers are process
//! local and deliberately not persisted: windows are matched back by
//! [`AppId`] in arrival order instead.
use vstd::prelude::*;

use crate::geometry::Rect;
use crate::layout::LayoutSpec;

verus! {

/// Current session file format version.
pub const SESSION_VERSION: u32 = 1u32;

/// Which backend a window came from: a Wayland app_id and an X11 class
/// live in different namespaces.
#[derive(Debug, Clone, Copy, PartialEq, Eq, Structural)]
pub enum AppKind {
    Wayland,
    X11,
}

/// Stable-enough identity of a window for post-restart placement.
#[derive(Debug, PartialEq, Eq)]
pub struct AppId {
    pub kind: AppKind,
    pub id: String,
    pub title: Option<String>,
}

impl Clone for AppId {
    fn clone(&self) -> (r: Self)
        ensures
            r == *self,
    {
        AppId {
            kind: self.kind,
            id: self.id.clone(),
            title: match &self.title {
                Some(t) => Some(t.clone()),
                None => None,
            },
        }
    }
}

impl AppId {
    /// Identity of a Wayland toplevel.
    pub fn wayland(app_id: String, title: Option<String>) -> (a: AppId)
        ensures
            a == (AppId { kind: AppKind::Wayland, id: app_id, title }),
    {
        AppId { kind: AppKind::Wayland, id: app_id, title }
    }

    /// Identity of an X11 window.
    pub fn x11(class: String, title: Option<String>) -> (a: AppId)
        ensures
            a == (AppId { kind: AppKind::X11, id: class, title }),
    {
        AppId { kind: AppKind::X11, id: class, title }
    }

    /// Same backend kind and identifier (titles are not compared).
    pub open spec fn same_app(self, other: AppId) -> bool {
        self.kind == other.kind && self.id@ == other.id@
    }
}

/// One window entry inside a workspace snapshot.
#[derive(Debug, PartialEq, Eq)]
pub struct WindowEntry {
    pub app: AppId,
    pub floating: bool,
    /// Pinned user geometry; meaningful when `floating` is set.
    pub geo: Option<Rect>,
    /// Whether this window held keyboard focus.
    pub focused: bool,
}

impl Clone for WindowEntry {
    fn clone(&self) -> (r: Self)
        ensures
            r == *self,
    {
        WindowEntry {
            app: self.app.clone(),
            floating: self.floating,
            geo: self.geo,
            focused: self.focused,
        }
    }
}

/// Serializable view of a single workspace.
#[derive(Debug, PartialEq, Eq)]
pub struct WorkspaceSnapshot {
    pub name: String,
    pub layout: LayoutSpec,
    /// Stacking order, oldest first.
    pub windows: Vec<WindowEntry>,
}

/// Whole-compositor snapshot, written to the session file on restart.
#[derive(Debug, PartialEq, Eq)]
pub struct SessionState {
    pub version: u32,
    pub active_workspace: usize,
    pub workspaces: Vec<WorkspaceSnapshot>,
}

/// Placement directive consumed when a window with a matching [`AppId`]
/// maps after a restart. Entries are consumed first-match-first-served.
#[derive(Debug, PartialEq, Eq)]
pub struct PendingPlacement {
    pub app: AppId,
    pub workspace: usize,
    pub position: usize,
    pub floating: bool,
    pub geo: Option<Rect>,
    pub focused: bool,
}

impl Clone for PendingPlacement {
    fn clone(&self) -> (r: Self)
        ensures
            r == *self,
    {
        PendingPlacement {
            app: self.app.clone(),
            workspace: self.workspace,
            position: self.position,
            floating: self.floating,
            geo: self.geo,
            focused: self.focused,
        }
    }
}

/// Why a session file was refused.
#[derive(Debug, PartialEq, Eq)]
pub enum SessionError {
    /// The file is not a well-formed session document (parser message).
    Malformed(String),
    /// The file was written by an incompatible format version.
    UnsupportedVersion(u32),
    /// The file records no workspace.
    Empty,
}

/// The placement directive for window `position` of workspace `ws_idx`.
pub open spec fn placement_of(entry: WindowEntry, ws_idx: int, position: int) -> PendingPlacement {
    PendingPlacement {
        app: entry.app,
        workspace: ws_idx as usize,
        position: position as usize,
        floating: entry.floating,
        geo: entry.geo,
        focused: entry.focused,
    }
}

/// Placement directives of one workspace, in stacking order.
pub open spec fn workspace_placements(ws: WorkspaceSnapshot, ws_idx: int) -> Seq<PendingPlacement> {
    Seq::new(ws.windows@.len(), |p: int| placement_of(ws.windows@[p], ws_idx, p))
}

/// Placement directives of all workspaces: workspace by workspace, each in
/// stacking order.
pub open spec fn placements(ws: Seq<WorkspaceSnapshot>) -> Seq<PendingPlacement>
    decreases ws.len(),
{
    if ws.len() == 0 {
        Seq::empty()
    } else {
        placements(ws.drop_last()) + workspace_placements(ws.last(), ws.len() - 1)
    }
}

/// Number of windows recorded in all workspaces.
pub open spec fn window_total(ws: Seq<WorkspaceSnapshot>) -> nat
    decreases ws.len(),
{
    if ws.len() == 0 {
        0
    } else {
        window_total(ws.drop_last()) + ws.last().windows@.len()
    }
}

/// `p` is meant for a window with the same identity as `app`.
pub open spec fn placement_matches(p: PendingPlacement, app: AppId) -> bool {
    p.app.same_app(app)
}

/// `k` is the first directive of `s` meant for `app`.
pub open spec fn is_first_match(s: Seq<PendingPlacement>, app: AppId, k: int) -> bool {
    &&& 0 <= k < s.len()
    &&& placement_matches(s[k], app)
    &&& forall|j: int| 0 <= j < k ==> !placement_matches(s[j], app)
}

/// Some directive of `s` is meant for `app`.
pub open spec fn has_match(s: Seq<PendingPlacement>, app: AppId) -> bool {
    exists|k: int| 0 <= k < s.len() && placement_matches(s[k], app)
}

/// The first directive of `s` meant for `app` (meaningful when there is one).
pub open spec fn first_match(s: Seq<PendingPlacement>, app: AppId) -> int {
    choose|k: int| is_first_match(s, app, k)
}

/// The first matching position is unique.
pub proof fn lemma_first_match_unique(s: Seq<PendingPlacement>, app: AppId, k: int)
    requires
        is_first_match(s, app, k),
    ensures
        first_match(s, app) == k,
{
    let m = first_match(s, app);
    assert(is_first_match(s, app, m));
    if m < k {
        assert(!placement_matches(s[m], app));
    } else if k < m {
        assert(!placement_matches(s[k], app));
    }
}

/// The outcome of validating a parsed session: an unknown version is
/// refused, then a session without workspaces; otherwise the session
/// is accepted with an out-of-range active index reset to the first
/// workspace.
pub open spec fn spec_validate(s: SessionState) -> Result<SessionState, SessionError> {
    if s.version != SESSION_VERSION {
        Err(SessionError::UnsupportedVersion(s.version))
    } else if s.workspaces@.len() == 0 {
        Err(SessionError::Empty)
    } else {
        Ok(
            SessionState {
                version: s.version,
                active_workspace: if s.active_workspace < s.workspaces@.len() {
                    s.active_workspace
                } else {
                    0
                },
                workspaces: s.workspaces,
            },
        )
    }
}

impl SessionState {
    /// Validates a parsed session: rejects unknown versions and sessions
    /// without workspaces, and clamps the active workspace index into range
    /// (out-of-range indices fall back to the first workspace).
    pub fn validate(self) -> (r: Result<SessionState, SessionError>)
        ensures
            r == spec_validate(self),
    {
        let mut state = self;
        if state.version != SESSION_VERSION {
            return Err(SessionError::UnsupportedVersion(state.version));
        }
        if state.workspaces.len() == 0 {
            return Err(SessionError::Empty);
        }
        if state.active_workspace >= state.workspaces.len() {
            state.active_workspace = 0;
        }
        Ok(state)
    }

    /// Flattens snapshots into arrival-order placement directives:
    /// workspace by workspace, each in stacking order.
    pub fn pending_placements(&self) -> (out: Vec<PendingPlacement>)
        ensures
            out@ == placements(self.workspaces@),
    {
        let mut out: Vec<PendingPlacement> = Vec::new();
        let mut w: usize = 0;
        while w < self.workspaces.len()
            invariant
                w <= self.workspaces@.len(),
                out@ == placements(self.workspaces@.take(w as int)),
            decreases self.workspaces@.len() - w,
        {
            let ws = &self.workspaces[w];
            let ghost before = out@;
            let mut p: usize = 0;
            while p < ws.windows.len()
                invariant
                    w < self.workspaces@.len(),
                    *ws == self.workspaces@[w as int],
                    p <= ws.windows@.len(),
                    out@ == before + workspace_placements(*ws, w as int).take(p as int),
                decreases ws.windows@.len() - p,
            {
                let entry = &ws.windows[p];
                out.push(
                    PendingPlacement {
                        app: entry.app.clone(),
                        workspace: w,
                        position: p,
                        floating: entry.floating,
                        geo: entry.geo,
                        focused: entry.focused,
                    },
                );
                proof {
                    assert(workspace_placements(*ws, w as int).take(p + 1) =~= workspace_placements(
                        *ws,
                        w as int,
                    ).take(p as int).push(placement_of(ws.windows@[p as int], w as int, p as int)));
                }
                p = p + 1;
            }
            proof {
                assert(workspace_placements(*ws, w as int).take(p as int) =~= workspace_placements(
                    *ws,
                    w as int,
                ));
                assert(self.workspaces@.take(w + 1).drop_last() =~= self.workspaces@.take(w as int));
            }
            w = w + 1;
        }
        proof {
            assert(self.workspaces@.take(w as int) =~= self.workspaces@);
        }
        out
    }
}

/// Law: every recorded window yields exactly one placement directive.
pub proof fn placements_cover_windows(ws: Seq<WorkspaceSnapshot>)
    ensures
        placements(ws).len() == window_total(ws),
    decreases ws.len(),
{
    if ws.len() > 0 {
        placements_cover_windows(ws.drop_last());
    }
}

/// Law: the directives of a later workspace come after those of an earlier
/// one, and each workspace's directives keep their stacking order.
pub proof fn placements_of_workspace(ws: Seq<WorkspaceSnapshot>, w: int, p: int)
    requires
        0 <= w < ws.len(),
        0 <= p < ws[w].windows@.len(),
    ensures
        placements(ws.take(w)).len() + p < placements(ws).len(),
        placements(ws)[placements(ws.take(w)).len() + p] == placement_of(ws[w].windows@[p], w, p),
    decreases ws.len(),
{
    let last = ws.len() - 1;
    if w == last {
        assert(ws.take(w) =~= ws.drop_last());
    } else {
        assert(ws.drop_last().take(w) =~= ws.take(w));
        assert(ws.drop_last()[w] == ws[w]);
        placements_of_workspace(ws.drop_last(), w, p);
    }
}

/// Removes and returns the first pending placement meant for `app` (same
/// backend kind and identifier), or `None` when nothing matches.
pub fn consume_placement(pending: &mut Vec<PendingPlacement>, app: &AppId) -> (r: Option<
    PendingPlacement,
>)
    ensures
        has_match(old(pending)@, *app) ==> {
            let k = first_match(old(pending)@, *app);
            &&& r == Some(old(pending)@[k])
            &&& final(pending)@ == old(pending)@.remove(k)
        },
        !has_match(old(pending)@, *app) ==> r is None && final(pending)@ == old(pending)@,
{
    let mut i: usize = 0;
    while i < pending.len()
        invariant
            pending@ == old(pending)@,
            i <= pending@.len(),
            forall|j: int| 0 <= j < i ==> !placement_matches(pending@[j], *app),
        decreases pending@.len() - i,
    {
        let hit = pending[i].app.kind == app.kind && pending[i].app.id == app.id;
        if hit {
            proof {
                lemma_first_match_unique(pending@, *app, i as int);
            }
            let p = pending.remove(i);
            return Some(p);
        }
        i = i + 1;
    }
    None
}

/// Identity of a Wayland toplevel: its app id, when it has a non-empty
/// one, with its title.
pub fn wayland_identity(app_id: Option<String>, title: Option<String>) -> (a: Option<AppId>)
    ensures
        match app_id {
            Some(id) if id@.len() > 0 => a == Some(AppId { kind: AppKind::Wayland, id, title }),
            _ => a is None,
        },
{
    match app_id {
        Some(id) => {
            if id.as_str().unicode_len() > 0 {
                Some(AppId::wayland(id, title))
            } else {
                None
            }
        },
        None => None,
    }
}

/// Identity of an X11 window: its class, or its instance when the class
/// is empty; `None` when both are empty. An empty title counts as none.
pub fn x11_identity(class: String, instance: String, title: String) -> (a: Option<AppId>)
    ensures
        ({
            let ident = if class@.len() == 0 {
                instance
            } else {
                class
            };
            let t = if title@.len() == 0 {
                None
            } else {
                Some(title)
            };
            if ident@.len() == 0 {
                a is None
            } else {
                a == Some(AppId { kind: AppKind::X11, id: ident, title: t })
            }
        }),
{
    let ident = if class.as_str().unicode_len() == 0 {
        instance
    } else {
        class
    };
    if ident.as_str().unicode_len() == 0 {
        return None;
    }
    let t = if title.as_str().unicode_len() == 0 {
        None
    } else {
        Some(title)
    };
    Some(AppId::x11(ident, t))
}

/// Law: directives for the same application are consumed in arrival
/// order: once the first one is taken, the next one for that application
/// is the first match of what remains, so two windows of one application
/// restore into their recorded slots in the order they reappear.
pub proof fn consume_in_arrival_order(s: Seq<PendingPlacement>, app: AppId, k1: int, k2: int)
    requires
        is_first_match(s, app, k1),
        k1 < k2 < s.len(),
        placement_matches(s[k2], app),
        forall|j: int| k1 < j < k2 ==> !placement_matches(#[trigger] s[j], app),
    ensures
        first_match(s, app) == k1,
        has_match(s.remove(k1), app),
        s.remove(k1)[first_match(s.remove(k1), app)] == s[k2],
{
    lemma_first_match_unique(s, app, k1);
    let r = s.remove(k1);
    assert(r[k2 - 1] == s[k2]);
    assert forall|j: int| 0 <= j < k2 - 1 implies !placement_matches(#[trigger] r[j], app) by {
        if j < k1 {
            assert(r[j] == s[j]);
        } else {
            assert(r[j] == s[j + 1]);
        }
    }
    assert(is_first_match(r, app, k2 - 1));
    lemma_first_match_unique(r, app, k2 - 1);
}

} // verus!
