//! The window-manager model of the compositor: workspaces, the active
//! workspace, the scratchpad, pinned floating geometry and restored
//! placement directives, with the decisions taken on them. Protocol work
//! (configuring surfaces, mapping them in the scene) is done by the caller
//! from the outcomes these functions report.
use vstd::prelude::*;
use std::collections::HashMap;

use crate::geometry::Rect;
use crate::id::WindowId;
use crate::ipc::{CompositorSnapshot, WorkspaceInfo};
use crate::layout::DEFAULT_MASTER_RATIO_BITS;
use crate::layout::LayoutSpec;
use crate::text::{decimal, to_decimal};
use crate::workspace::{removal, Workspace};

verus! {

broadcast use vstd::std_specs::hash::group_hash_axioms;

/// Number of workspaces a fresh compositor starts with.
pub const NUM_WORKSPACES: usize = 4usize;

/// Window-manager state shared by all protocol backends.
pub struct WmState {
    pub workspaces: Vec<Workspace>,
    /// Windows parked in the scratchpad, most recently hidden last.
    pub scratchpad: Vec<WindowId>,
    pub active_ws: usize,
    /// Restored placement directives awaiting matching windows.
    pub pending_placements: Vec<crate::session::PendingPlacement>,
    /// Pinned user geometry of floating windows, by raw window id.
    pub float_geo: HashMap<usize, Rect>,
}

/// All workspaces are well formed.
pub open spec fn all_wf(ws: Seq<Workspace>) -> bool {
    forall|i: int| 0 <= i < ws.len() ==> (#[trigger] ws[i]).wf()
}

/// `after` is `before` with `id` removed from every workspace.
pub open spec fn removed_everywhere(before: Seq<Workspace>, after: Seq<Workspace>, id: WindowId) -> bool {
    &&& after.len() == before.len()
    &&& forall|i: int| 0 <= i < before.len() ==> removal(before[i], #[trigger] after[i], id)
}

/// Pinned geometry of a window, if any.
pub open spec fn geo_of(m: Map<usize, Rect>, id: WindowId) -> Option<Rect> {
    if m.contains_key(id.raw()) {
        Some(m[id.raw()])
    } else {
        None
    }
}

/// Outcome of a workspace switch request.
#[derive(Debug, Clone, Copy, PartialEq, Eq, Structural)]
pub enum SwitchOutcome {
    /// No workspace has that index; nothing changed.
    OutOfRange,
    /// The workspace was already active; nothing changed.
    AlreadyActive,
    /// The workspace became active; the scene must be remapped.
    Switched,
}

/// Index of the workspace after `active`, wrapping around.
pub open spec fn next_index(active: int, len: int) -> int {
    (active + 1) % len
}

/// Index of the workspace before `active`, wrapping around.
pub open spec fn prev_index(active: int, len: int) -> int {
    if active == 0 {
        len - 1
    } else {
        active - 1
    }
}

/// Status of workspace `i` of `ws`, as reported to status clients: its
/// name, whether it is the active one, the number of its tiled windows and
/// its focused window.
pub open spec fn info_of(w: Workspace, i: int, active: int) -> (Seq<char>, bool, usize, Option<usize>) {
    (
        w.label(),
        i == active,
        w.tiled().len() as usize,
        match w.focused() {
            Some(f) => Some(f.raw()),
            None => None,
        },
    )
}

impl WmState {
    /// Consistency: at least one workspace, the active index in range, and
    /// every workspace well formed.
    pub open spec fn wf(&self) -> bool {
        &&& 0 < self.workspaces@.len()
        &&& self.active_ws < self.workspaces@.len()
        &&& all_wf(self.workspaces@)
    }

    /// The active workspace.
    pub open spec fn active(&self) -> Workspace {
        self.workspaces@[self.active_ws as int]
    }

    /// Fresh state: workspaces "1" to "4" with the default layout, the
    /// first one active, everything else empty.
    pub fn new() -> (s: WmState)
        ensures
            s.wf(),
            s.workspaces@.len() == NUM_WORKSPACES,
            forall|i: int|
                0 <= i < NUM_WORKSPACES ==> {
                    &&& (#[trigger] s.workspaces@[i]).label() == decimal((i + 1) as nat)
                    &&& s.workspaces@[i].stack().len() == 0
                    &&& s.workspaces@[i].focus() is None
                    &&& s.workspaces@[i].floating_set() == Set::<WindowId>::empty()
                    &&& s.workspaces@[i].layout() == (LayoutSpec::MonadTall {
                        master_ratio_bits: DEFAULT_MASTER_RATIO_BITS,
                        master_count: 1,
                    })
                },
            s.active_ws == 0,
            s.scratchpad@.len() == 0,
            s.pending_placements@.len() == 0,
            s.float_geo@ == Map::<usize, Rect>::empty(),
    {
        let mut workspaces: Vec<Workspace> = Vec::new();
        let mut i: usize = 0;
        while i < NUM_WORKSPACES
            invariant
                i <= NUM_WORKSPACES,
                workspaces@.len() == i,
                forall|k: int|
                    0 <= k < i ==> {
                        &&& (#[trigger] workspaces@[k]).wf()
                        &&& workspaces@[k].label() == decimal((k + 1) as nat)
                        &&& workspaces@[k].stack().len() == 0
                        &&& workspaces@[k].focus() is None
                        &&& workspaces@[k].floating_set() == Set::<WindowId>::empty()
                        &&& workspaces@[k].layout() == (LayoutSpec::MonadTall {
                            master_ratio_bits: DEFAULT_MASTER_RATIO_BITS,
                            master_count: 1,
                        })
                    },
            decreases NUM_WORKSPACES - i,
        {
            let name = to_decimal(i + 1);
            workspaces.push(Workspace::new(name.as_str()));
            i = i + 1;
        }
        WmState {
            workspaces,
            scratchpad: Vec::new(),
            active_ws: 0,
            pending_placements: Vec::new(),
            float_geo: HashMap::new(),
        }
    }

    /// The active workspace.
    pub fn active_workspace(&self) -> (w: &Workspace)
        requires
            self.wf(),
        ensures
            *w == self.active(),
    {
        &self.workspaces[self.active_ws]
    }

    /// Makes workspace `idx` active, unless it does not exist or already is.
    pub fn switch_workspace(&mut self, idx: usize) -> (o: SwitchOutcome)
        requires
            old(self).wf(),
        ensures
            final(self).wf(),
            idx >= old(self).workspaces@.len() ==> o == SwitchOutcome::OutOfRange,
            idx < old(self).workspaces@.len() && idx == old(self).active_ws ==> o
                == SwitchOutcome::AlreadyActive,
            idx < old(self).workspaces@.len() && idx != old(self).active_ws ==> o
                == SwitchOutcome::Switched,
            o == SwitchOutcome::Switched ==> final(self).active_ws == idx,
            o != SwitchOutcome::Switched ==> final(self).active_ws == old(self).active_ws,
            final(self).workspaces == old(self).workspaces,
            final(self).scratchpad == old(self).scratchpad,
            final(self).pending_placements == old(self).pending_placements,
            final(self).float_geo == old(self).float_geo,
    {
        if idx >= self.workspaces.len() {
            return SwitchOutcome::OutOfRange;
        }
        if idx == self.active_ws {
            return SwitchOutcome::AlreadyActive;
        }
        self.active_ws = idx;
        SwitchOutcome::Switched
    }

    /// Switches to the next workspace, wrapping around after the last.
    pub fn next_workspace(&mut self) -> (o: SwitchOutcome)
        requires
            old(self).wf(),
        ensures
            final(self).wf(),
            final(self).active_ws == next_index(
                old(self).active_ws as int,
                old(self).workspaces@.len() as int,
            ),
            o == if old(self).workspaces@.len() == 1 {
                SwitchOutcome::AlreadyActive
            } else {
                SwitchOutcome::Switched
            },
            final(self).workspaces == old(self).workspaces,
            final(self).scratchpad == old(self).scratchpad,
            final(self).pending_placements == old(self).pending_placements,
            final(self).float_geo == old(self).float_geo,
    {
        let len = self.workspaces.len();
        let next = (self.active_ws + 1) % len;
        proof {
            let len = self.workspaces@.len() as int;
            let a = self.active_ws as int;
            if a + 1 < len {
                vstd::arithmetic::div_mod::lemma_small_mod((a + 1) as nat, len as nat);
            } else {
                vstd::arithmetic::div_mod::lemma_mod_self_0(len);
            }
        }
        self.switch_workspace(next)
    }

    /// Switches to the previous workspace, wrapping around before the first.
    pub fn prev_workspace(&mut self) -> (o: SwitchOutcome)
        requires
            old(self).wf(),
        ensures
            final(self).wf(),
            final(self).active_ws == prev_index(
                old(self).active_ws as int,
                old(self).workspaces@.len() as int,
            ),
            o == if old(self).workspaces@.len() == 1 {
                SwitchOutcome::AlreadyActive
            } else {
                SwitchOutcome::Switched
            },
            final(self).workspaces == old(self).workspaces,
            final(self).scratchpad == old(self).scratchpad,
            final(self).pending_placements == old(self).pending_placements,
            final(self).float_geo == old(self).float_geo,
    {
        let prev = if self.active_ws == 0 {
            self.workspaces.len() - 1
        } else {
            self.active_ws - 1
        };
        self.switch_workspace(prev)
    }

    /// Builds the status snapshot for status clients: one entry per
    /// workspace with its name, whether it is active, its window count and
    /// its focused window.
    pub fn snapshot(&self) -> (snap: CompositorSnapshot)
        requires
            self.wf(),
        ensures
            snap.active == self.active_ws,
            snap.workspaces@.len() == self.workspaces@.len(),
            forall|i: int|
                0 <= i < self.workspaces@.len() ==> {
                    let info = #[trigger] snap.workspaces@[i];
                    (info.name@, info.active, info.window_count, info.focused_window) == info_of(
                        self.workspaces@[i],
                        i,
                        self.active_ws as int,
                    )
                },
    {
        let mut infos: Vec<WorkspaceInfo> = Vec::new();
        let mut i: usize = 0;
        while i < self.workspaces.len()
            invariant
                self.wf(),
                i <= self.workspaces@.len(),
                infos@.len() == i,
                forall|k: int|
                    0 <= k < i ==> {
                        let info = #[trigger] infos@[k];
                        (info.name@, info.active, info.window_count, info.focused_window)
                            == info_of(self.workspaces@[k], k, self.active_ws as int)
                    },
            decreases self.workspaces@.len() - i,
        {
            let ws = &self.workspaces[i];
            assert(ws.wf());
            let focused = match ws.get_focused() {
                Some(id) => Some(id.as_usize()),
                None => None,
            };
            infos.push(
                WorkspaceInfo {
                    name: String::from_str(ws.name_str()),
                    active: i == self.active_ws,
                    window_count: ws.tiled_windows().len(),
                    focused_window: focused,
                },
            );
            i = i + 1;
        }
        CompositorSnapshot { workspaces: infos, active: self.active_ws }
    }

    /// Removes `id` from every workspace.
    pub fn remove_everywhere(&mut self, id: WindowId)
        requires
            old(self).wf(),
        ensures
            final(self).wf(),
            removed_everywhere(old(self).workspaces@, final(self).workspaces@, id),
            final(self).active_ws == old(self).active_ws,
            final(self).scratchpad == old(self).scratchpad,
            final(self).pending_placements == old(self).pending_placements,
            final(self).float_geo == old(self).float_geo,
    {
        let mut i: usize = 0;
        while i < self.workspaces.len()
            invariant
                i <= self.workspaces@.len(),
                self.workspaces@.len() == old(self).workspaces@.len(),
                all_wf(self.workspaces@),
                forall|k: int| 0 <= k < i ==> removal(old(self).workspaces@[k], #[trigger] self.workspaces@[k], id),
                forall|k: int| i <= k < self.workspaces@.len() ==> #[trigger] self.workspaces@[k] == old(self).workspaces@[k],
                self.active_ws == old(self).active_ws,
                self.active_ws < self.workspaces@.len(),
                self.scratchpad == old(self).scratchpad,
                self.pending_placements == old(self).pending_placements,
                self.float_geo == old(self).float_geo,
            decreases self.workspaces@.len() - i,
        {
            assert(self.workspaces@[i as int].wf());
            self.workspaces[i].remove_window(id);
            i = i + 1;
        }
    }

    /// Forgets a window that went away: it leaves every workspace and its
    /// pinned geometry is dropped.
    pub fn forget_window(&mut self, id: WindowId)
        requires
            old(self).wf(),
        ensures
            final(self).wf(),
            removed_everywhere(old(self).workspaces@, final(self).workspaces@, id),
            final(self).float_geo@ == old(self).float_geo@.remove(id.raw()),
            final(self).active_ws == old(self).active_ws,
            final(self).scratchpad == old(self).scratchpad,
            final(self).pending_placements == old(self).pending_placements,
    {
        let key = id.as_usize();
        self.float_geo.remove(&key);
        self.remove_everywhere(id);
    }
}

} // verus!

verus! {

/// What `toggle_scratchpad` did.
#[derive(Debug, Clone, Copy, PartialEq, Eq, Structural)]
pub enum ScratchpadOutcome {
    /// The scratchpad is empty; nothing changed.
    Nothing,
    /// The focused scratchpad window was hidden (to be unmapped).
    Hidden(WindowId),
    /// The most recently hidden scratchpad window was shown, floating and
    /// focused, on the active workspace.
    Shown(WindowId),
}

/// What applying window rules did.
#[derive(Debug, Clone, Copy, PartialEq, Eq, Structural)]
pub struct RulesOutcome {
    /// A rule named this workspace number, which does not exist; ignored.
    pub ignored_workspace: Option<usize>,
    /// The window went to the scratchpad and must be unmapped.
    pub hidden: bool,
}

/// Position of the first occurrence of `id` in `s`, if any.
fn index_of(s: &Vec<WindowId>, id: WindowId) -> (r: Option<usize>)
    ensures
        match r {
            Some(i) => crate::workspace::is_first_pos(s@, id, i as int),
            None => !s@.contains(id),
        },
{
    let mut i: usize = 0;
    while i < s.len()
        invariant
            i <= s@.len(),
            forall|j: int| 0 <= j < i ==> s@[j] != id,
        decreases s@.len() - i,
    {
        if s[i] == id {
            return Some(i);
        }
        i = i + 1;
    }
    None
}

/// `after` is `before` once `float_window(id, managed, rect)` ran: when the
/// window is managed and not yet floating on the active workspace, it is
/// marked floating there (if it is in its stack) and `rect`, if given, is
/// pinned; otherwise nothing changes.
pub open spec fn floated(before: WmState, after: WmState, id: WindowId, managed: bool, rect: Option<Rect>) -> bool {
    let r = managed && !before.active().floating_set().contains(id);
    &&& after.active_ws == before.active_ws
    &&& after.scratchpad == before.scratchpad
    &&& after.pending_placements == before.pending_placements
    &&& !r ==> after.workspaces == before.workspaces && after.float_geo == before.float_geo
    &&& r ==> {
        &&& after.workspaces@.len() == before.workspaces@.len()
        &&& forall|i: int|
            0 <= i < before.workspaces@.len() && i != before.active_ws
                ==> #[trigger] after.workspaces@[i] == before.workspaces@[i]
        &&& after.active().stack() == before.active().stack()
        &&& after.active().focus() == before.active().focus()
        &&& after.active().layout() == before.active().layout()
        &&& after.active().label() == before.active().label()
        &&& after.active().floating_set() == if before.active().stack().contains(id) {
            before.active().floating_set().insert(id)
        } else {
            before.active().floating_set()
        }
        &&& after.float_geo@ == match rect {
            Some(g) => before.float_geo@.insert(id.raw(), g),
            None => before.float_geo@,
        }
    }
}

/// `after` is `before` once the scratchpad was toggled with outcome `o`
/// (see [`WmState::toggle_scratchpad`]).
pub open spec fn scratchpad_toggled(
    before: WmState,
    after: WmState,
    o: ScratchpadOutcome,
    last_managed: bool,
    last_rect: Option<Rect>,
) -> bool {
    &&& after.active_ws == before.active_ws
    &&& after.pending_placements == before.pending_placements
    &&& after.workspaces@.len() == before.workspaces@.len()
    &&& before.scratchpad@.len() == 0 ==> {
        &&& o == ScratchpadOutcome::Nothing
        &&& after.workspaces == before.workspaces
        &&& after.scratchpad == before.scratchpad
        &&& after.float_geo == before.float_geo
    }
    &&& before.scratchpad@.len() > 0 && (before.active().focused() matches Some(f)
        && before.scratchpad@.contains(f)) ==> {
        let f = before.active().focused()->0;
        let pos = crate::workspace::first_pos(before.scratchpad@, f);
        &&& o == ScratchpadOutcome::Hidden(f)
        &&& after.scratchpad@ == before.scratchpad@.remove(pos).push(f)
        &&& removal(before.active(), after.active(), f)
        &&& forall|i: int|
            0 <= i < before.workspaces@.len() && i != before.active_ws
                ==> #[trigger] after.workspaces@[i] == before.workspaces@[i]
        &&& after.float_geo == before.float_geo
    }
    &&& before.scratchpad@.len() > 0 && !(before.active().focused() matches Some(f)
        && before.scratchpad@.contains(f)) ==> {
        let id = before.scratchpad@.last();
        let shown = crate::workspace::stack_without(before.active().stack(), id).push(id);
        &&& o == ScratchpadOutcome::Shown(id)
        &&& after.scratchpad == before.scratchpad
        &&& forall|i: int|
            0 <= i < before.workspaces@.len() && i != before.active_ws ==> removal(
                before.workspaces@[i],
                #[trigger] after.workspaces@[i],
                id,
            )
        &&& after.active().stack() == shown
        &&& after.active().focused() == Some(id)
        &&& after.active().floating_set() == if last_managed {
            before.active().floating_set().remove(id).insert(id)
        } else {
            before.active().floating_set().remove(id)
        }
        &&& after.active().layout() == before.active().layout()
        &&& after.active().label() == before.active().label()
        &&& after.float_geo@ == if last_managed && last_rect is Some {
            before.float_geo@.insert(id.raw(), last_rect->0)
        } else {
            before.float_geo@
        }
    }
}

impl WmState {
    /// Marks a managed window floating on the active workspace and pins its
    /// current geometry (when it has one). Returns `false`, changing
    /// nothing, when the window is not managed or already floating there.
    pub fn float_window(&mut self, id: WindowId, managed: bool, rect: Option<Rect>) -> (r: bool)
        requires
            old(self).wf(),
        ensures
            final(self).wf(),
            r == (managed && !old(self).active().floating_set().contains(id)),
            floated(*old(self), *final(self), id, managed, rect),
    {
        let a = self.active_ws;
        if !managed || self.workspaces[a].is_floating(id) {
            return false;
        }
        assert(self.workspaces@[a as int].wf());
        self.workspaces[a].set_floating(id, true);
        match rect {
            Some(g) => {
                self.float_geo.insert(id.as_usize(), g);
            },
            None => {},
        }
        true
    }

    /// Toggles the floating state of `id` on the active workspace. A window
    /// that becomes floating gets its current geometry (when it has one)
    /// pinned; a window that becomes tiled loses its pinned geometry.
    /// Returns the new floating state.
    pub fn toggle_floating(&mut self, id: WindowId, rect: Option<Rect>) -> (r: bool)
        requires
            old(self).wf(),
        ensures
            final(self).wf(),
            r == (old(self).active().stack().contains(id) && !old(
                self,
            ).active().floating_set().contains(id)),
            final(self).workspaces@.len() == old(self).workspaces@.len(),
            forall|i: int|
                0 <= i < old(self).workspaces@.len() && i != old(self).active_ws
                    ==> #[trigger] final(self).workspaces@[i] == old(self).workspaces@[i],
            final(self).active().floating_set() == crate::workspace::toggled(
                old(self).active().floating_set(),
                old(self).active().stack(),
                id,
            ),
            final(self).active().stack() == old(self).active().stack(),
            final(self).active().focus() == old(self).active().focus(),
            final(self).active().layout() == old(self).active().layout(),
            final(self).active().label() == old(self).active().label(),
            final(self).float_geo@ == if r {
                match rect {
                    Some(g) => old(self).float_geo@.insert(id.raw(), g),
                    None => old(self).float_geo@,
                }
            } else {
                old(self).float_geo@.remove(id.raw())
            },
            final(self).active_ws == old(self).active_ws,
            final(self).scratchpad == old(self).scratchpad,
            final(self).pending_placements == old(self).pending_placements,
    {
        let a = self.active_ws;
        assert(self.workspaces@[a as int].wf());
        let now_floating = self.workspaces[a].toggle_floating(id);
        if now_floating {
            match rect {
                Some(g) => {
                    self.float_geo.insert(id.as_usize(), g);
                },
                None => {},
            }
        } else {
            let key = id.as_usize();
            self.float_geo.remove(&key);
        }
        now_floating
    }

    /// Shows or hides the scratchpad. When the focused window of the active
    /// workspace is a scratchpad window, it is hidden: it leaves the active
    /// workspace and moves to the end of the scratchpad. Otherwise the last
    /// scratchpad window is shown: it leaves every workspace, joins the
    /// active one on top, is floated (when `last_managed`, pinning
    /// `last_rect`) and focused. `last_managed` and `last_rect` describe the
    /// last scratchpad window.
    pub fn toggle_scratchpad(&mut self, last_managed: bool, last_rect: Option<Rect>) -> (o: ScratchpadOutcome)
        requires
            old(self).wf(),
        ensures
            final(self).wf(),
            scratchpad_toggled(*old(self), *final(self), o, last_managed, last_rect),
    {
        if self.scratchpad.len() == 0 {
            return ScratchpadOutcome::Nothing;
        }
        let a = self.active_ws;
        assert(self.workspaces@[a as int].wf());
        let focused = self.workspaces[a].get_focused();
        let focused_pos = match focused {
            Some(f) => index_of(&self.scratchpad, f),
            None => None,
        };
        match focused_pos {
            Some(pos) => {
                let f = focused.unwrap();
                proof {
                    crate::workspace::lemma_first_pos_unique(self.scratchpad@, f, pos as int);
                }
                let id = self.scratchpad.remove(pos);
                self.scratchpad.push(id);
                self.workspaces[a].remove_window(id);
                ScratchpadOutcome::Hidden(id)
            },
            None => {
                let id = self.scratchpad[self.scratchpad.len() - 1];
                let ghost before = self.workspaces@;
                self.remove_everywhere(id);
                let ghost mid = self.workspaces@;
                proof {
                    crate::workspace::removal_stack(before[a as int], mid[a as int], id);
                }
                assert(self.workspaces@[a as int].wf());
                self.workspaces[a].add_window(id);
                let ghost added = self.workspaces@[a as int];
                assert(!added.floating_set().contains(id));
                let floated = self.float_window(id, last_managed, last_rect);
                assert(self.workspaces@[a as int].wf());
                self.workspaces[a].focus_window(id);
                proof {
                    let w = self.workspaces@[a as int];
                    let k = (w.stack().len() - 1) as int;
                    crate::workspace::lemma_exists_first_pos(w.stack(), id, k);
                    if !last_managed {
                        assert(added.floating_set() == mid[a as int].floating_set());
                    }
                }
                ScratchpadOutcome::Shown(id)
            },
        }
    }
}

} // verus!

verus! {

/// 0-based index of a 1-based workspace number; 0 is taken as the first.
pub open spec fn rule_target(n: usize) -> int {
    if n == 0 {
        0
    } else {
        n - 1
    }
}

/// A rule naming workspace `n` moves the window: the workspace exists and
/// is not the active one.
pub open spec fn rule_moves(before: WmState, n: Option<usize>) -> bool {
    n matches Some(k) && rule_target(k) < before.workspaces@.len() && rule_target(k)
        != before.active_ws
}

/// `after` is `before` once the workspace part of a rule ran: a window
/// sent to another existing workspace leaves every workspace and goes on
/// top of the target one, focused there.
pub open spec fn moved_by_rule(before: WmState, after: WmState, id: WindowId, n: Option<usize>) -> bool {
    &&& !rule_moves(before, n) ==> after == before
    &&& rule_moves(before, n) ==> {
        let t = rule_target(n->0);
        &&& after.active_ws == before.active_ws
        &&& after.scratchpad == before.scratchpad
        &&& after.pending_placements == before.pending_placements
        &&& after.float_geo == before.float_geo
        &&& after.workspaces@.len() == before.workspaces@.len()
        &&& forall|i: int|
            0 <= i < before.workspaces@.len() && i != t ==> removal(
                before.workspaces@[i],
                #[trigger] after.workspaces@[i],
                id,
            )
        &&& after.workspaces@[t].stack() == crate::workspace::stack_without(
            before.workspaces@[t].stack(),
            id,
        ).push(id)
        &&& after.workspaces@[t].focused() == Some(id)
        &&& after.workspaces@[t].focus() == Some(
            crate::workspace::stack_without(before.workspaces@[t].stack(), id).len() as usize,
        )
        &&& after.workspaces@[t].floating_set() == before.workspaces@[t].floating_set().remove(id)
        &&& after.workspaces@[t].layout() == before.workspaces@[t].layout()
        &&& after.workspaces@[t].label() == before.workspaces@[t].label()
    }
}

/// A rule sends the window to the scratchpad, where it is not yet.
pub open spec fn rule_hides(before: WmState, rules: crate::rules::WindowRules, id: WindowId) -> bool {
    rules.scratchpad == Some(true) && !before.scratchpad@.contains(id)
}

/// `after` is `before` once the scratchpad part of a rule ran: the window
/// joins the scratchpad, leaves every workspace and is floated without
/// pinned geometry.
pub open spec fn hidden_by_rule(before: WmState, after: WmState, id: WindowId, managed: bool, hides: bool) -> bool {
    &&& !hides ==> after == before
    &&& hides ==> exists|mid: WmState|
        {
            &&& mid.scratchpad@ == before.scratchpad@.push(id)
            &&& removed_everywhere(before.workspaces@, mid.workspaces@, id)
            &&& mid.active_ws == before.active_ws
            &&& mid.pending_placements == before.pending_placements
            &&& mid.float_geo == before.float_geo
            &&& #[trigger] floated(mid, after, id, managed, None)
        }
}

/// `after` is `before` once the settings `rules` were applied to `id`:
/// the workspace part, then the scratchpad part (`hidden` tells whether
/// the window went to the scratchpad), then the floating part, which
/// pins `rect` unless the window was just hidden.
pub open spec fn rules_applied(
    before: WmState,
    after: WmState,
    id: WindowId,
    rules: crate::rules::WindowRules,
    managed: bool,
    rect: Option<Rect>,
    hidden: bool,
) -> bool {
    exists|m1: WmState, m2: WmState|
        {
            &&& #[trigger] moved_by_rule(before, m1, id, rules.workspace)
            &&& #[trigger] hidden_by_rule(m1, m2, id, managed, hidden)
            &&& rules.floating == Some(true) ==> floated(
                m2,
                after,
                id,
                managed,
                if hidden {
                    None
                } else {
                    rect
                },
            )
            &&& rules.floating != Some(true) ==> after == m2
        }
}

impl WmState {
    /// The workspace part of a window rule: `n` is a 1-based workspace
    /// number. Returns `Some(n)` when no such workspace exists (the rule is
    /// ignored).
    pub fn move_by_rule(&mut self, id: WindowId, n: Option<usize>) -> (ignored: Option<usize>)
        requires
            old(self).wf(),
        ensures
            final(self).wf(),
            moved_by_rule(*old(self), *final(self), id, n),
            ignored == (if n matches Some(k) && rule_target(k) >= old(self).workspaces@.len() {
                n
            } else {
                None
            }),
    {
        match n {
            Some(k) => {
                let target = if k == 0 {
                    0
                } else {
                    k - 1
                };
                if target >= self.workspaces.len() {
                    return Some(k);
                }
                if target != self.active_ws {
                    let ghost before = self.workspaces@;
                    self.remove_everywhere(id);
                    proof {
                        crate::workspace::removal_stack(before[target as int], self.workspaces@[target as int], id);
                    }
                    assert(self.workspaces@[target as int].wf());
                    self.workspaces[target].add_window(id);
                }
                None
            },
            None => None,
        }
    }

    /// Applies the settings of the window rules that matched a new window:
    /// first the workspace it opens on (a missing workspace is reported and
    /// ignored), then the scratchpad (the window joins it and must be
    /// unmapped), then floating. `managed` and `rect` tell whether the
    /// window is a managed toplevel and its current geometry.
    pub fn apply_window_rules(
        &mut self,
        id: WindowId,
        rules: crate::rules::WindowRules,
        managed: bool,
        rect: Option<Rect>,
    ) -> (o: RulesOutcome)
        requires
            old(self).wf(),
        ensures
            final(self).wf(),
            o.ignored_workspace == (if rules.workspace matches Some(k) && rule_target(k) >= old(
                self,
            ).workspaces@.len() {
                rules.workspace
            } else {
                None
            }),
            o.hidden == rule_hides(*old(self), rules, id),
            rules_applied(*old(self), *final(self), id, rules, managed, rect, o.hidden),
    {
        let ignored = self.move_by_rule(id, rules.workspace);
        let ghost m1 = *self;
        let hides = match rules.scratchpad {
            Some(true) => index_of(&self.scratchpad, id).is_none(),
            _ => false,
        };
        if hides {
            self.scratchpad.push(id);
            self.remove_everywhere(id);
            let ghost mid = *self;
            self.float_window(id, managed, None);
            assert(floated(mid, *self, id, managed, None));
        }
        let ghost m2 = *self;
        match rules.floating {
            Some(true) => {
                let r = if hides {
                    None
                } else {
                    rect
                };
                self.float_window(id, managed, r);
                assert(floated(m2, *self, id, managed, r));
            },
            _ => {},
        }
        let o = RulesOutcome { ignored_workspace: ignored, hidden: hides };
        assert(moved_by_rule(*old(self), m1, id, rules.workspace));
        assert(hidden_by_rule(m1, m2, id, managed, o.hidden));
        assert(rules.floating != Some(true) ==> *self == m2);
        o
    }
}

} // verus!

verus! {

/// Where a restored window was placed.
#[derive(Debug, Clone, Copy, PartialEq, Eq, Structural)]
pub struct PlacementOutcome {
    /// Index of the workspace the window now belongs to.
    pub workspace: usize,
    /// The window is floating with pinned geometry `geo` (when recorded).
    pub floating: bool,
    pub geo: Option<Rect>,
    /// The window was recorded as focused.
    pub focused: bool,
    /// The workspace is the active one: the window must be mapped again.
    pub on_active: bool,
}

/// Focus index of `w` once `id` is removed from it.
pub open spec fn focus_without(w: Workspace, id: WindowId) -> Option<usize> {
    if w.stack().contains(id) {
        crate::workspace::focus_after_remove(
            w.focus(),
            crate::workspace::first_pos(w.stack(), id),
            w.stack().len() - 1,
        )
    } else {
        w.focus()
    }
}

/// Focused window of `w` once `id` is removed from it.
pub open spec fn focused_without(w: Workspace, id: WindowId) -> Option<WindowId> {
    match focus_without(w, id) {
        Some(i) => Some(crate::workspace::stack_without(w.stack(), id)[i as int]),
        None => None,
    }
}

/// Stack of a workspace after `id` was removed and then inserted at
/// `position` (clamped to the end); when another copy of `id` is still in
/// the stack, nothing is inserted.
pub open spec fn reinserted(s: Seq<WindowId>, id: WindowId, position: usize) -> Seq<WindowId> {
    let s1 = crate::workspace::stack_without(s, id);
    if s1.contains(id) {
        s1
    } else {
        s1.insert(if position < s1.len() { position as int } else { s1.len() as int }, id)
    }
}

/// `s` without any occurrence of `id`.
pub open spec fn without_all(s: Seq<WindowId>, id: WindowId) -> Seq<WindowId> {
    s.filter(|x: WindowId| x != id)
}

fn remove_all(v: &mut Vec<WindowId>, id: WindowId)
    ensures
        final(v)@ == without_all(old(v)@, id),
{
    let mut out: Vec<WindowId> = Vec::new();
    let mut i: usize = 0;
    while i < v.len()
        invariant
            i <= v@.len(),
            v@ == old(v)@,
            out@ == without_all(v@.take(i as int), id),
        decreases v@.len() - i,
    {
        proof {
            reveal_with_fuel(Seq::<_>::filter, 1);
            assert(v@.take(i + 1).drop_last() =~= v@.take(i as int));
        }
        if v[i] != id {
            out.push(v[i]);
        }
        i = i + 1;
    }
    proof {
        assert(v@.take(i as int) =~= v@);
    }
    *v = out;
}

impl WmState {
    /// Re-places a freshly mapped window from restored session state. The
    /// first pending directive for `app` is consumed; the window leaves
    /// every workspace and the scratchpad, loses its pinned geometry, and
    /// is inserted into its recorded workspace (clamped to the last one) at
    /// its recorded stack position, floating with its recorded geometry and
    /// focused if so recorded. On the active workspace, when the window was
    /// not recorded as focused, the focus goes back to `prev_focus` if that
    /// window is still there. `None` (nothing changed) when no directive
    /// matches.
    pub fn apply_pending_placement(
        &mut self,
        id: WindowId,
        app: &crate::session::AppId,
        prev_focus: Option<WindowId>,
    ) -> (o: Option<PlacementOutcome>)
        requires
            old(self).wf(),
        ensures
            final(self).wf(),
            !crate::session::has_match(old(self).pending_placements@, *app) ==> {
                &&& o is None
                &&& final(self).pending_placements@ == old(self).pending_placements@
                &&& final(self).workspaces == old(self).workspaces
                &&& final(self).scratchpad == old(self).scratchpad
                &&& final(self).float_geo == old(self).float_geo
                &&& final(self).active_ws == old(self).active_ws
            },
            crate::session::has_match(old(self).pending_placements@, *app) ==> {
                let k = crate::session::first_match(old(self).pending_placements@, *app);
                let e = old(self).pending_placements@[k];
                let len = old(self).workspaces@.len();
                let t = if e.workspace < len { e.workspace as int } else { len - 1 };
                let w = old(self).workspaces@[t];
                let stack = reinserted(w.stack(), id, e.position);
                let on_active = t == old(self).active_ws;
                &&& o == Some(
                    PlacementOutcome {
                        workspace: t as usize,
                        floating: e.floating,
                        geo: e.geo,
                        focused: e.focused,
                        on_active,
                    },
                )
                &&& final(self).pending_placements@ == old(self).pending_placements@.remove(k)
                &&& final(self).scratchpad@ == without_all(old(self).scratchpad@, id)
                &&& final(self).active_ws == old(self).active_ws
                &&& final(self).float_geo@ == if e.floating && e.geo is Some {
                    old(self).float_geo@.remove(id.raw()).insert(id.raw(), e.geo->0)
                } else {
                    old(self).float_geo@.remove(id.raw())
                }
                &&& final(self).workspaces@.len() == len
                &&& forall|i: int|
                    0 <= i < len && i != t ==> removal(
                        old(self).workspaces@[i],
                        #[trigger] final(self).workspaces@[i],
                        id,
                    )
                &&& final(self).workspaces@[t].stack() == stack
                &&& final(self).workspaces@[t].floating_set() == if e.floating {
                    w.floating_set().remove(id).insert(id)
                } else {
                    w.floating_set().remove(id)
                }
                &&& final(self).workspaces@[t].layout() == w.layout()
                &&& final(self).workspaces@[t].label() == w.label()
                &&& e.focused ==> final(self).workspaces@[t].focused() == Some(id)
                &&& !e.focused && on_active && (prev_focus matches Some(p) && stack.contains(p))
                    ==> final(self).workspaces@[t].focused() == prev_focus
                &&& !e.focused && !(on_active && (prev_focus matches Some(p) && stack.contains(
                    p,
                ))) ==> final(self).workspaces@[t].focused() == focused_without(w, id)
            },
    {
        let entry = match crate::session::consume_placement(&mut self.pending_placements, app) {
            Some(entry) => entry,
            None => {
                return None;
            },
        };
        let len = self.workspaces.len();
        let t = if entry.workspace < len {
            entry.workspace
        } else {
            len - 1
        };
        let ghost before = self.workspaces@;
        self.remove_everywhere(id);
        remove_all(&mut self.scratchpad, id);
        let key = id.as_usize();
        self.float_geo.remove(&key);
        let ghost mid = self.workspaces@[t as int];
        proof {
            crate::workspace::removal_stack(before[t as int], mid, id);
        }
        assert(self.workspaces@[t as int].wf());
        self.workspaces[t].insert_window(id, entry.position);
        let ghost inserted = self.workspaces@[t as int];
        proof {
            assert(inserted.stack().contains(id)) by {
                let s1 = mid.stack();
                if !s1.contains(id) {
                    let p = if entry.position < s1.len() { entry.position as int } else { s1.len() as int };
                    assert(inserted.stack()[p] == id);
                }
            }
        }
        if entry.floating {
            self.workspaces[t].set_floating(id, true);
        }
        if entry.focused {
            self.workspaces[t].focus_window(id);
            proof {
                let s = self.workspaces@[t as int].stack();
                let k = choose|k: int| 0 <= k < s.len() && s[k] == id;
                crate::workspace::lemma_exists_first_pos(s, id, k);
            }
        }
        if entry.floating {
            match entry.geo {
                Some(g) => {
                    self.float_geo.insert(key, g);
                },
                None => {},
            }
        }
        if t == self.active_ws {
            if entry.focused {
                self.workspaces[t].focus_window(id);
                proof {
                    let s = self.workspaces@[t as int].stack();
                    let k = choose|k: int| 0 <= k < s.len() && s[k] == id;
                    crate::workspace::lemma_exists_first_pos(s, id, k);
                }
            } else {
                match prev_focus {
                    Some(prev) => {
                        let present = self.workspaces[t].get_windows_contains(prev);
                        if present {
                            self.workspaces[t].focus_window(prev);
                            proof {
                                let s = self.workspaces@[t as int].stack();
                                let k = choose|k: int| 0 <= k < s.len() && s[k] == prev;
                                crate::workspace::lemma_exists_first_pos(s, prev, k);
                            }
                        }
                    },
                    None => {},
                }
            }
        }
        Some(
            PlacementOutcome {
                workspace: t,
                floating: entry.floating,
                geo: entry.geo,
                focused: entry.focused,
                on_active: t == self.active_ws,
            },
        )
    }
}

} // verus!

verus! {

/// The identity recorded for `id` in `t` (the first entry for it), if any.
pub open spec fn ident_of(t: Seq<(WindowId, crate::session::AppId)>, id: WindowId) -> Option<
    crate::session::AppId,
>
    decreases t.len(),
{
    if t.len() == 0 {
        None
    } else if t[0].0 == id {
        Some(t[0].1)
    } else {
        ident_of(t.drop_first(), id)
    }
}

/// Session entries of a stack: windows without a usable identity are left
/// out, the others keep their stacking order.
pub open spec fn entries_of(
    stack: Seq<WindowId>,
    idents: Seq<(WindowId, crate::session::AppId)>,
    floating: Set<WindowId>,
    geo: Map<usize, Rect>,
    focused: Option<WindowId>,
) -> Seq<crate::session::WindowEntry>
    decreases stack.len(),
{
    if stack.len() == 0 {
        Seq::empty()
    } else {
        let rest = entries_of(stack.drop_last(), idents, floating, geo, focused);
        let id = stack.last();
        match ident_of(idents, id) {
            Some(app) => rest.push(
                crate::session::WindowEntry {
                    app,
                    floating: floating.contains(id),
                    geo: geo_of(geo, id),
                    focused: focused == Some(id),
                },
            ),
            None => rest,
        }
    }
}

fn lookup_ident(idents: &Vec<(WindowId, crate::session::AppId)>, id: WindowId) -> (r: Option<
    crate::session::AppId,
>)
    ensures
        r == ident_of(idents@, id),
{
    let mut i: usize = 0;
    assert(idents@.subrange(0, idents@.len() as int) =~= idents@);
    while i < idents.len()
        invariant
            i <= idents@.len(),
            ident_of(idents@, id) == ident_of(idents@.subrange(i as int, idents@.len() as int), id),
        decreases idents@.len() - i,
    {
        proof {
            let s = idents@.subrange(i as int, idents@.len() as int);
            assert(s.drop_first() =~= idents@.subrange(i + 1, idents@.len() as int));
            assert(s[0] == idents@[i as int]);
        }
        if idents[i].0 == id {
            return Some(idents[i].1.clone());
        }
        i = i + 1;
    }
    proof {
        assert(idents@.subrange(i as int, idents@.len() as int).len() == 0);
    }
    None
}

fn geo_lookup(m: &HashMap<usize, Rect>, id: WindowId) -> (r: Option<Rect>)
    ensures
        r == geo_of(m@, id),
{
    let key = id.as_usize();
    match m.get(&key) {
        Some(g) => Some(*g),
        None => None,
    }
}

impl WmState {
    /// Builds the session snapshot of the current state. `idents` gives
    /// the usable identity of managed windows; windows without one cannot
    /// be matched after a restart and are left out.
    pub fn build_session(&self, idents: &Vec<(WindowId, crate::session::AppId)>) -> (s: crate::session::SessionState)
        requires
            self.wf(),
        ensures
            builds(*self, idents@, s),
    {
        let mut snaps: Vec<crate::session::WorkspaceSnapshot> = Vec::new();
        let mut i: usize = 0;
        while i < self.workspaces.len()
            invariant
                self.wf(),
                i <= self.workspaces@.len(),
                snaps@.len() == i,
                forall|k: int|
                    0 <= k < i ==> {
                        let w = self.workspaces@[k];
                        let snap = #[trigger] snaps@[k];
                        &&& snap.name@ == w.label()
                        &&& snap.layout == w.layout()
                        &&& snap.windows@ == entries_of(
                            w.stack(),
                            idents@,
                            w.floating_set(),
                            self.float_geo@,
                            w.focused(),
                        )
                    },
            decreases self.workspaces@.len() - i,
        {
            let ws = &self.workspaces[i];
            assert(ws.wf());
            let focused = ws.get_focused();
            let stack = ws.get_windows();
            let mut entries: Vec<crate::session::WindowEntry> = Vec::new();
            let mut j: usize = 0;
            while j < stack.len()
                invariant
                    ws.wf(),
                    stack@ == ws.stack(),
                    focused == ws.focused(),
                    j <= stack@.len(),
                    entries@ == entries_of(
                        stack@.take(j as int),
                        idents@,
                        ws.floating_set(),
                        self.float_geo@,
                        focused,
                    ),
                decreases stack@.len() - j,
            {
                proof {
                    assert(stack@.take(j + 1).drop_last() =~= stack@.take(j as int));
                }
                let id = stack[j];
                match lookup_ident(idents, id) {
                    Some(app) => {
                        entries.push(
                            crate::session::WindowEntry {
                                app,
                                floating: ws.is_floating(id),
                                geo: geo_lookup(&self.float_geo, id),
                                focused: focused == Some(id),
                            },
                        );
                    },
                    None => {},
                }
                j = j + 1;
            }
            proof {
                assert(stack@.take(j as int) =~= stack@);
            }
            snaps.push(
                crate::session::WorkspaceSnapshot {
                    name: String::from_str(ws.name_str()),
                    layout: ws.layout_spec(),
                    windows: entries,
                },
            );
            i = i + 1;
        }
        crate::session::SessionState {
            version: crate::session::SESSION_VERSION,
            active_workspace: self.active_ws,
            workspaces: snaps,
        }
    }

    /// Rebuilds the workspace scaffolding from a validated session: one
    /// empty workspace per snapshot with its name and layout, the recorded
    /// active workspace (clamped to the last one), and the placement
    /// directives for windows to come. Returns the number of directives.
    pub fn restore_session(&mut self, session: &crate::session::SessionState) -> (n: usize)
        requires
            old(self).wf(),
            session.workspaces@.len() > 0,
        ensures
            final(self).wf(),
            restores(*old(self), *session, *final(self)),
            n == final(self).pending_placements@.len(),
    {
        let mut workspaces: Vec<Workspace> = Vec::new();
        let mut i: usize = 0;
        while i < session.workspaces.len()
            invariant
                i <= session.workspaces@.len(),
                workspaces@.len() == i,
                forall|k: int|
                    0 <= k < i ==> {
                        let w = #[trigger] workspaces@[k];
                        &&& w.wf()
                        &&& w.label() == session.workspaces@[k].name@
                        &&& w.layout() == session.workspaces@[k].layout
                        &&& w.stack().len() == 0
                        &&& w.focus() is None
                        &&& w.floating_set() == Set::<WindowId>::empty()
                    },
            decreases session.workspaces@.len() - i,
        {
            let snap = &session.workspaces[i];
            let mut ws = Workspace::new(snap.name.as_str());
            ws.set_layout(snap.layout);
            workspaces.push(ws);
            i = i + 1;
        }
        let len = workspaces.len();
        self.workspaces = workspaces;
        self.active_ws = if session.active_workspace < len {
            session.active_workspace
        } else {
            len - 1
        };
        self.pending_placements = session.pending_placements();
        self.pending_placements.len()
    }
}

/// `s` is the session snapshot of `state` given the window identities.
pub open spec fn builds(
    state: WmState,
    idents: Seq<(WindowId, crate::session::AppId)>,
    s: crate::session::SessionState,
) -> bool {
    &&& s.version == crate::session::SESSION_VERSION
    &&& s.active_workspace == state.active_ws
    &&& s.workspaces@.len() == state.workspaces@.len()
    &&& forall|i: int|
        0 <= i < state.workspaces@.len() ==> {
            let w = state.workspaces@[i];
            let snap = #[trigger] s.workspaces@[i];
            &&& snap.name@ == w.label()
            &&& snap.layout == w.layout()
            &&& snap.windows@ == entries_of(
                w.stack(),
                idents,
                w.floating_set(),
                state.float_geo@,
                w.focused(),
            )
        }
}

/// `after` is `before` with its workspaces rebuilt from `session`.
pub open spec fn restores(before: WmState, session: crate::session::SessionState, after: WmState) -> bool {
    &&& after.workspaces@.len() == session.workspaces@.len()
    &&& forall|i: int|
        0 <= i < session.workspaces@.len() ==> {
            let w = #[trigger] after.workspaces@[i];
            &&& w.label() == session.workspaces@[i].name@
            &&& w.layout() == session.workspaces@[i].layout
            &&& w.stack().len() == 0
            &&& w.focus() is None
            &&& w.floating_set() == Set::<WindowId>::empty()
        }
    &&& after.active_ws == if session.active_workspace < session.workspaces@.len() {
        session.active_workspace as int
    } else {
        session.workspaces@.len() - 1
    }
    &&& after.pending_placements@ == crate::session::placements(session.workspaces@)
    &&& after.scratchpad == before.scratchpad
    &&& after.float_geo == before.float_geo
}

/// Law: restoring the session built from a state brings back the same
/// workspaces (names, layouts) and active workspace, with one placement
/// directive per identified window, in order.
pub proof fn session_roundtrip(
    state: WmState,
    idents: Seq<(WindowId, crate::session::AppId)>,
    built: crate::session::SessionState,
    other: WmState,
    restored: WmState,
)
    requires
        state.wf(),
        builds(state, idents, built),
        restores(other, built, restored),
    ensures
        restored.workspaces@.len() == state.workspaces@.len(),
        forall|i: int|
            0 <= i < state.workspaces@.len() ==> (#[trigger] restored.workspaces@[i]).label()
                == state.workspaces@[i].label() && restored.workspaces@[i].layout()
                == state.workspaces@[i].layout(),
        restored.active_ws == state.active_ws,
        restored.pending_placements@ == crate::session::placements(built.workspaces@),
        restored.pending_placements@.len() == crate::session::window_total(built.workspaces@),
{
    assert forall|i: int| 0 <= i < state.workspaces@.len() implies (#[trigger] restored.workspaces@[i]).label()
        == state.workspaces@[i].label() && restored.workspaces@[i].layout()
        == state.workspaces@[i].layout() by {
        assert(built.workspaces@[i].name@ == state.workspaces@[i].label());
    }
    crate::session::placements_cover_windows(built.workspaces@);
}

/// How a window of the active workspace is put back into the scene when
/// the workspace is shown again.
#[derive(Debug, Clone, Copy, PartialEq, Eq, Structural)]
pub enum Remap {
    /// Floating: mapped at `at` (the origin of its pinned geometry, or the
    /// scene origin) and resized to `pinned` when it has one.
    Floating { id: WindowId, at: crate::geometry::Point, pinned: Option<Rect> },
    /// Tiled: mapped at the scene origin; the layout places it afterwards.
    Tiled { id: WindowId },
}

/// How `id` is remapped on the active workspace of `s`.
pub open spec fn remap_of(s: WmState, id: WindowId) -> Remap {
    if s.active().floating_set().contains(id) {
        match geo_of(s.float_geo@, id) {
            Some(g) => Remap::Floating { id, at: g.origin, pinned: Some(g) },
            None => Remap::Floating { id, at: crate::geometry::Point { x: 0, y: 0 }, pinned: None },
        }
    } else {
        Remap::Tiled { id }
    }
}

impl WmState {
    /// The remapping of every window of the active workspace, in stack
    /// order: floating windows keep their pinned geometry, tiled ones wait
    /// for the layout.
    pub fn remap_plan(&self) -> (plan: Vec<Remap>)
        requires
            self.wf(),
        ensures
            plan@.len() == self.active().stack().len(),
            forall|i: int|
                0 <= i < plan@.len() ==> #[trigger] plan@[i] == remap_of(*self, self.active().stack()[i]),
    {
        let ws = &self.workspaces[self.active_ws];
        let ids = ws.get_windows();
        let mut plan: Vec<Remap> = Vec::new();
        let mut i: usize = 0;
        while i < ids.len()
            invariant
                self.wf(),
                *ws == self.active(),
                ids@ == self.active().stack(),
                i <= ids@.len(),
                plan@.len() == i,
                forall|j: int| 0 <= j < i ==> #[trigger] plan@[j] == remap_of(*self, ids@[j]),
            decreases ids@.len() - i,
        {
            let id = ids[i];
            let r = if ws.is_floating(id) {
                match geo_lookup(&self.float_geo, id) {
                    Some(g) => Remap::Floating { id, at: g.origin, pinned: Some(g) },
                    None => Remap::Floating {
                        id,
                        at: crate::geometry::Point { x: 0, y: 0 },
                        pinned: None,
                    },
                }
            } else {
                Remap::Tiled { id }
            };
            plan.push(r);
            i = i + 1;
        }
        plan
    }
}

/// The tiling area of an output at `origin` whose non-exclusive zone (the
/// part no layer-shell bar or panel reserves) is `zone`, relative to the
/// output: the zone moved by the origin, with negative extents taken as 0.
pub fn usable_area(origin: crate::geometry::Point, zone_x: i32, zone_y: i32, zone_w: i32, zone_h: i32) -> (r: Rect)
    requires
        i32::MIN <= origin.x + zone_x <= i32::MAX,
        i32::MIN <= origin.y + zone_y <= i32::MAX,
    ensures
        r.origin.x == origin.x + zone_x,
        r.origin.y == origin.y + zone_y,
        r.size.width == if zone_w < 0 { 0 } else { zone_w as int },
        r.size.height == if zone_h < 0 { 0 } else { zone_h as int },
{
    let w: u32 = if zone_w < 0 { 0 } else { zone_w as u32 };
    let h: u32 = if zone_h < 0 { 0 } else { zone_h as u32 };
    Rect::new(origin.x + zone_x, origin.y + zone_y, w, h)
}

impl WmState {
    /// The starting rectangle of a pointer grab on `id`: its pinned
    /// geometry. When it has one, the window also takes the focus on the
    /// active workspace (if it is there); without one nothing changes and
    /// no grab starts.
    pub fn grab_target(&mut self, id: WindowId) -> (r: Option<Rect>)
        requires
            old(self).wf(),
        ensures
            final(self).wf(),
            r == geo_of(old(self).float_geo@, id),
            final(self).active_ws == old(self).active_ws,
            final(self).scratchpad == old(self).scratchpad,
            final(self).pending_placements == old(self).pending_placements,
            final(self).float_geo == old(self).float_geo,
            final(self).workspaces@.len() == old(self).workspaces@.len(),
            forall|i: int|
                0 <= i < old(self).workspaces@.len() && i != old(self).active_ws
                    ==> #[trigger] final(self).workspaces@[i] == old(self).workspaces@[i],
            final(self).active().stack() == old(self).active().stack(),
            final(self).active().floating_set() == old(self).active().floating_set(),
            final(self).active().layout() == old(self).active().layout(),
            final(self).active().label() == old(self).active().label(),
            (r is Some && old(self).active().stack().contains(id)) ==> final(self).active().focused()
                == Some(id),
            !(r is Some && old(self).active().stack().contains(id)) ==> final(self).active().focus()
                == old(self).active().focus(),
    {
        let pinned = geo_lookup(&self.float_geo, id);
        if pinned.is_some() {
            let a = self.active_ws;
            assert(self.workspaces@[a as int].wf());
            let ghost before = self.workspaces@;
            self.workspaces[a].focus_window(id);
            proof {
                assert forall|i: int| 0 <= i < self.workspaces@.len() implies (#[trigger] self.workspaces@[i]).wf() by {
                    if i != a {
                        assert(self.workspaces@[i] == before[i]);
                    }
                }
            }
        }
        pinned
    }
}

/// Law: the session a well-formed state builds passes validation
/// unchanged, so writing it out and reading it back refuses nothing and
/// moves the active workspace nowhere.
pub proof fn built_session_validates(
    state: WmState,
    idents: Seq<(WindowId, crate::session::AppId)>,
    built: crate::session::SessionState,
)
    requires
        state.wf(),
        builds(state, idents, built),
    ensures
        crate::session::spec_validate(built) == Ok::<crate::session::SessionState, crate::session::SessionError>(built),
{
}

/// Two workspaces agree on everything observable of them.
pub open spec fn same_ws(a: Workspace, b: Workspace) -> bool {
    &&& a.stack() == b.stack()
    &&& a.focus() == b.focus()
    &&& a.floating_set() == b.floating_set()
    &&& a.layout() == b.layout()
    &&& a.label() == b.label()
}

/// Two states agree on everything observable of them.
pub open spec fn same_wm(a: WmState, b: WmState) -> bool {
    &&& a.active_ws == b.active_ws
    &&& a.scratchpad@ == b.scratchpad@
    &&& a.pending_placements@ == b.pending_placements@
    &&& a.float_geo@ == b.float_geo@
    &&& a.workspaces@.len() == b.workspaces@.len()
    &&& forall|i: int| 0 <= i < a.workspaces@.len() ==> same_ws(#[trigger] a.workspaces@[i], b.workspaces@[i])
}

/// `id` occurs at most once in `s`.
pub open spec fn at_most_once(s: Seq<WindowId>, id: WindowId) -> bool {
    forall|i: int, j: int| #![trigger s[i], s[j]] 0 <= i < j < s.len() && s[i] == id ==> s[j] != id
}

/// No workspace of `s` holds `id` twice.
pub open spec fn no_duplicate_entry(s: WmState, id: WindowId) -> bool {
    forall|i: int| 0 <= i < s.workspaces@.len() ==> at_most_once(#[trigger] s.workspaces@[i].stack(), id)
}

/// Removing the single occurrence of a window leaves none.
proof fn lemma_without_once(s: Seq<WindowId>, id: WindowId)
    requires
        at_most_once(s, id),
    ensures
        !crate::workspace::stack_without(s, id).contains(id),
{
    if s.contains(id) {
        let k = choose|k: int| 0 <= k < s.len() && s[k] == id;
        crate::workspace::lemma_exists_first_pos(s, id, k);
        let p = crate::workspace::first_pos(s, id);
        let r = s.remove(p);
        assert forall|j: int| 0 <= j < r.len() implies r[j] != id by {
            if j < p {
                assert(r[j] == s[j]);
            } else {
                assert(r[j] == s[j + 1]);
                assert(s[p] == id);
            }
        }
    }
}

/// `id` stands once, on top, on workspace `t` of `s` (focused there and
/// not floating) and on no other workspace.
pub open spec fn placed_on(s: WmState, id: WindowId, t: int) -> bool {
    &&& 0 <= t < s.workspaces@.len()
    &&& forall|i: int| 0 <= i < s.workspaces@.len() && i != t ==> !(#[trigger] s.workspaces@[i]).stack().contains(id)
    &&& s.workspaces@[t].stack().len() > 0
    &&& s.workspaces@[t].stack().last() == id
    &&& !s.workspaces@[t].stack().drop_last().contains(id)
    &&& s.workspaces@[t].focus() == Some((s.workspaces@[t].stack().len() - 1) as usize)
    &&& !s.workspaces@[t].floating_set().contains(id)
}

/// After a rule moved a window that no workspace held twice, it stands
/// once on the target workspace.
proof fn lemma_moved_places(s0: WmState, m1: WmState, id: WindowId, n: Option<usize>)
    requires
        s0.wf(),
        no_duplicate_entry(s0, id),
        rule_moves(s0, n),
        moved_by_rule(s0, m1, id, n),
    ensures
        placed_on(m1, id, rule_target(n->0)),
{
    let t = rule_target(n->0);
    assert forall|i: int| 0 <= i < m1.workspaces@.len() && i != t implies !(#[trigger] m1.workspaces@[i]).stack().contains(id) by {
        assert(at_most_once(s0.workspaces@[i].stack(), id));
        lemma_without_once(s0.workspaces@[i].stack(), id);
        crate::workspace::removal_stack(s0.workspaces@[i], m1.workspaces@[i], id);
    }
    let p = crate::workspace::stack_without(s0.workspaces@[t].stack(), id);
    assert(at_most_once(s0.workspaces@[t].stack(), id));
    lemma_without_once(s0.workspaces@[t].stack(), id);
    assert(m1.workspaces@[t].stack().drop_last() =~= p);
}

/// A window placed on a workspace other than the active one stays so when
/// it is floated: floating only touches the active workspace.
proof fn lemma_floated_keeps_placed(m: WmState, s: WmState, id: WindowId, managed: bool, g: Option<Rect>, t: int)
    requires
        placed_on(m, id, t),
        t != m.active_ws,
        floated(m, s, id, managed, g),
    ensures
        placed_on(s, id, t),
{
    let r = managed && !m.active().floating_set().contains(id);
    if r {
        assert(s.workspaces@[t] == m.workspaces@[t]);
        assert forall|i: int| 0 <= i < s.workspaces@.len() && i != t implies !(#[trigger] s.workspaces@[i]).stack().contains(id) by {
            if i != m.active_ws {
                assert(s.workspaces@[i] == m.workspaces@[i]);
            }
        }
    }
}

/// A second identical move of a window already placed on its target
/// changes nothing observable.
proof fn lemma_move_again(s1: WmState, m: WmState, id: WindowId, n: Option<usize>)
    requires
        s1.wf(),
        rule_moves(s1, n),
        placed_on(s1, id, rule_target(n->0)),
        moved_by_rule(s1, m, id, n),
    ensures
        same_wm(s1, m),
{
    let t = rule_target(n->0);
    let w = s1.workspaces@[t];
    let p = w.stack().drop_last();
    assert(w.stack() =~= p.push(id));
    crate::workspace::add_then_remove_restores_stack(p, id);
    assert forall|i: int| 0 <= i < s1.workspaces@.len() implies same_ws(#[trigger] s1.workspaces@[i], m.workspaces@[i]) by {
        let a = s1.workspaces@[i];
        assert(a.wf());
        a.lemma_wf();
        if i != t {
            assert(!a.stack().contains(id));
            assert(!a.floating_set().contains(id));
            assert(a.floating_set().remove(id) =~= a.floating_set());
        } else {
            assert(!w.floating_set().contains(id));
            assert(w.floating_set().remove(id) =~= w.floating_set());
        }
    }
}

/// Floating a window twice the same way (the second time from a state that
/// agrees with the first result) changes nothing more.
proof fn lemma_floated_again(
    x: WmState,
    y: WmState,
    x2: WmState,
    z: WmState,
    id: WindowId,
    managed: bool,
    g: Option<Rect>,
)
    requires
        x.active_ws < x.workspaces@.len(),
        floated(x, y, id, managed, g),
        same_wm(y, x2),
        floated(x2, z, id, managed, g),
    ensures
        same_wm(y, z),
{
    let r1 = managed && !x.active().floating_set().contains(id);
    let r2 = managed && !x2.active().floating_set().contains(id);
    let a = x.active_ws as int;
    assert(same_ws(y.workspaces@[a], x2.workspaces@[a]));
    if r2 {
        assert(!x.active().stack().contains(id) || !r1 || y.active().floating_set().contains(id));
        if x.active().stack().contains(id) {
            assert(!r1);
            assert(y == x);
        }
        assert forall|i: int| 0 <= i < y.workspaces@.len() implies same_ws(#[trigger] y.workspaces@[i], z.workspaces@[i]) by {
            assert(same_ws(y.workspaces@[i], x2.workspaces@[i]));
        }
        match g {
            Some(gg) => {
                if r1 {
                    assert(y.float_geo@.insert(id.raw(), gg) =~= y.float_geo@);
                } else {
                    assert(y == x);
                }
            },
            None => {},
        }
    } else {
        assert forall|i: int| 0 <= i < y.workspaces@.len() implies same_ws(#[trigger] y.workspaces@[i], z.workspaces@[i]) by {
            assert(same_ws(y.workspaces@[i], x2.workspaces@[i]));
        }
    }
}

/// Law: applying the same window rules to a window a second time changes
/// nothing, as long as no workspace held the window twice, the rules do
/// not both send it to another workspace and to the scratchpad, and a
/// window sent to the scratchpad has no geometry to pin (it is not shown).
pub proof fn window_rules_idempotent(
    s0: WmState,
    s1: WmState,
    s2: WmState,
    id: WindowId,
    rules: crate::rules::WindowRules,
    managed: bool,
    rect: Option<Rect>,
    hidden1: bool,
    hidden2: bool,
)
    requires
        s0.wf(),
        s1.wf(),
        no_duplicate_entry(s0, id),
        !(rules.scratchpad == Some(true) && rule_moves(s0, rules.workspace)),
        rules.scratchpad == Some(true) ==> rect is None,
        hidden1 == rule_hides(s0, rules, id),
        rules_applied(s0, s1, id, rules, managed, rect, hidden1),
        hidden2 == rule_hides(s1, rules, id),
        rules_applied(s1, s2, id, rules, managed, rect, hidden2),
    ensures
        same_wm(s1, s2),
{
    let (m1, m2) = choose|m1: WmState, m2: WmState|
        {
            &&& #[trigger] moved_by_rule(s0, m1, id, rules.workspace)
            &&& #[trigger] hidden_by_rule(m1, m2, id, managed, hidden1)
            &&& rules.floating == Some(true) ==> floated(m2, s1, id, managed, if hidden1 { None } else { rect })
            &&& rules.floating != Some(true) ==> s1 == m2
        };
    let (n1, n2) = choose|n1: WmState, n2: WmState|
        {
            &&& #[trigger] moved_by_rule(s1, n1, id, rules.workspace)
            &&& #[trigger] hidden_by_rule(n1, n2, id, managed, hidden2)
            &&& rules.floating == Some(true) ==> floated(n2, s2, id, managed, if hidden2 { None } else { rect })
            &&& rules.floating != Some(true) ==> s2 == n2
        };
    assert(!hidden2) by {
        if rules.scratchpad == Some(true) {
            if hidden1 {
                let mid = choose|mid: WmState|
                    {
                        &&& mid.scratchpad@ == m1.scratchpad@.push(id)
                        &&& removed_everywhere(m1.workspaces@, mid.workspaces@, id)
                        &&& mid.active_ws == m1.active_ws
                        &&& mid.pending_placements == m1.pending_placements
                        &&& mid.float_geo == m1.float_geo
                        &&& #[trigger] floated(mid, m2, id, managed, None)
                    };
                assert(mid.scratchpad@.last() == id);
                assert(s1.scratchpad@ == m2.scratchpad@);
            } else {
                assert(m1.scratchpad@ == s0.scratchpad@);
                assert(s1.scratchpad@ == m2.scratchpad@);
            }
        }
    }
    assert(n2 == n1);
    let moves = rule_moves(s0, rules.workspace);
    assert(rule_moves(s1, rules.workspace) == moves);
    // The second move changes nothing observable.
    if moves {
        assert(!hidden1);
        assert(m2 == m1);
        lemma_moved_places(s0, m1, id, rules.workspace);
        let t = rule_target(rules.workspace->0);
        if rules.floating == Some(true) {
            lemma_floated_keeps_placed(m1, s1, id, managed, rect, t);
        }
        lemma_move_again(s1, n1, id, rules.workspace);
    } else {
        assert(n1 == s1);
        assert forall|i: int| 0 <= i < s1.workspaces@.len() implies same_ws(#[trigger] s1.workspaces@[i], n1.workspaces@[i]) by {}
    }
    assert(same_wm(s1, n1));
    if rules.floating == Some(true) {
        let g = if hidden1 { None } else { rect };
        assert(g == (if hidden2 { None } else { rect }));
        lemma_floated_again(m2, s1, n1, s2, id, managed, g);
    } else {
        assert forall|i: int| 0 <= i < s1.workspaces@.len() implies same_ws(#[trigger] s1.workspaces@[i], s2.workspaces@[i]) by {
            assert(same_ws(s1.workspaces@[i], n1.workspaces@[i]));
        }
    }
}

/// Law: hiding the focused scratchpad window and toggling the scratchpad
/// again brings that same window back, on top of the active workspace and
/// focused, provided the window focused once it is hidden is not itself a
/// scratchpad window (that one would be hidden instead).
pub proof fn scratchpad_hide_then_show(
    s0: WmState,
    s1: WmState,
    s2: WmState,
    f: WindowId,
    o2: ScratchpadOutcome,
    managed1: bool,
    rect1: Option<Rect>,
    managed2: bool,
    rect2: Option<Rect>,
)
    requires
        s0.wf(),
        scratchpad_toggled(s0, s1, ScratchpadOutcome::Hidden(f), managed1, rect1),
        !(s1.active().focused() matches Some(g) && s1.scratchpad@.contains(g)),
        scratchpad_toggled(s1, s2, o2, managed2, rect2),
    ensures
        o2 == ScratchpadOutcome::Shown(f),
        s2.active().focused() == Some(f),
        s2.active().stack().last() == f,
        s2.scratchpad@ == s1.scratchpad@,
{
    assert(s0.scratchpad@.len() > 0);
    assert(s1.scratchpad@.len() > 0);
    assert(s1.scratchpad@.last() == f);
}

/// Law: going to the next workspace and then to the previous one (or the
/// other way round) comes back to the workspace we started from.
pub proof fn next_then_prev_workspace(active: int, len: int)
    requires
        0 <= active < len,
    ensures
        prev_index(next_index(active, len), len) == active,
        next_index(prev_index(active, len), len) == active,
        0 <= next_index(active, len) < len,
        0 <= prev_index(active, len) < len,
{
    if active + 1 < len {
        vstd::arithmetic::div_mod::lemma_small_mod((active + 1) as nat, len as nat);
    } else {
        vstd::arithmetic::div_mod::lemma_mod_self_0(len);
    }
    if active == 0 {
        vstd::arithmetic::div_mod::lemma_mod_self_0(len);
        vstd::arithmetic::div_mod::lemma_small_mod(0, len as nat);
        vstd::arithmetic::div_mod::lemma_small_mod((len - 1) as nat, len as nat);
    } else {
        vstd::arithmetic::div_mod::lemma_small_mod(active as nat, len as nat);
    }
}

impl WmState {
    /// Moves the pinned geometry of `id` so that its top-left corner is at
    /// (`x`, `y`), keeping its size, and returns it; a window without
    /// pinned geometry changes nothing and gives `None`.
    pub fn move_pinned(&mut self, id: WindowId, x: i32, y: i32) -> (r: Option<Rect>)
        ensures
            r == match geo_of(old(self).float_geo@, id) {
                Some(g) => Some(Rect::spec_new(x, y, g.size.width, g.size.height)),
                None => None,
            },
            final(self).float_geo@ == match r {
                Some(g) => old(self).float_geo@.insert(id.raw(), g),
                None => old(self).float_geo@,
            },
            final(self).workspaces == old(self).workspaces,
            final(self).active_ws == old(self).active_ws,
            final(self).scratchpad == old(self).scratchpad,
            final(self).pending_placements == old(self).pending_placements,
    {
        match geo_lookup(&self.float_geo, id) {
            Some(g) => {
                let moved = Rect::new(x, y, g.size.width, g.size.height);
                self.float_geo.insert(id.as_usize(), moved);
                Some(moved)
            },
            None => None,
        }
    }
}

} // verus!
