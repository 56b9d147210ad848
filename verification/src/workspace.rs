use vstd::prelude::*;

use crate::geometry::Rect;
use crate::id::WindowId;
use crate::layout::{Layout, LayoutSpec};

verus! {

/// `i` is the first position of `id` in `s`.
pub open spec fn is_first_pos(s: Seq<WindowId>, id: WindowId, i: int) -> bool {
    &&& 0 <= i < s.len()
    &&& s[i] == id
    &&& forall|j: int| 0 <= j < i ==> s[j] != id
}

/// First position of `id` in `s` (meaningful when `s` contains `id`).
pub open spec fn first_pos(s: Seq<WindowId>, id: WindowId) -> int {
    choose|i: int| is_first_pos(s, id, i)
}

/// The first position of an element is unique.
pub proof fn lemma_first_pos_unique(s: Seq<WindowId>, id: WindowId, i: int)
    requires
        is_first_pos(s, id, i),
    ensures
        first_pos(s, id) == i,
{
    let k = first_pos(s, id);
    assert(is_first_pos(s, id, k));
    if k < i {
        assert(s[k] != id);
    } else if i < k {
        assert(s[i] != id);
    }
}

/// Removing an element from a duplicate-free sequence keeps it
/// duplicate-free and removes exactly that element from its set.
pub proof fn lemma_remove_unique(s: Seq<WindowId>, i: int)
    requires
        s.no_duplicates(),
        0 <= i < s.len(),
    ensures
        s.remove(i).no_duplicates(),
        s.remove(i).to_set() == s.to_set().remove(s[i]),
{
    let r = s.remove(i);
    assert forall|a: int, b: int| 0 <= a < r.len() && 0 <= b < r.len() && a != b implies r[a]
        != r[b] by {
        let a2 = if a < i { a } else { a + 1 };
        let b2 = if b < i { b } else { b + 1 };
        assert(r[a] == s[a2]);
        assert(r[b] == s[b2]);
        assert(a2 != b2);
    }
    assert forall|w: WindowId| r.to_set().contains(w) <==> s.to_set().remove(s[i]).contains(w) by {
        if r.contains(w) {
            let k = choose|k: int| 0 <= k < r.len() && r[k] == w;
            let k2 = if k < i { k } else { k + 1 };
            assert(s[k2] == w);
            assert(k2 != i);
            assert(s.contains(w));
        }
        if s.contains(w) && w != s[i] {
            let k = choose|k: int| 0 <= k < s.len() && s[k] == w;
            assert(k != i);
            if k < i {
                assert(r[k] == w);
            } else {
                assert(r[k - 1] == w);
            }
            assert(r.contains(w));
        }
    }
    assert(r.to_set() =~= s.to_set().remove(s[i]));
}

/// Pushing a new element onto a duplicate-free sequence keeps it
/// duplicate-free and adds that element to its set.
pub proof fn lemma_push_unique(s: Seq<WindowId>, id: WindowId)
    requires
        s.no_duplicates(),
        !s.contains(id),
    ensures
        s.push(id).no_duplicates(),
        s.push(id).to_set() == s.to_set().insert(id),
{
    let r = s.push(id);
    assert forall|a: int, b: int| 0 <= a < r.len() && 0 <= b < r.len() && a != b implies r[a]
        != r[b] by {
        if a == s.len() {
            assert(s.contains(r[b]));
        } else if b == s.len() {
            assert(s.contains(r[a]));
        } else {
            assert(r[a] == s[a]);
            assert(r[b] == s[b]);
        }
    }
    assert forall|w: WindowId| r.to_set().contains(w) <==> s.to_set().insert(id).contains(w) by {
        if r.contains(w) && w != id {
            let k = choose|k: int| 0 <= k < r.len() && r[k] == w;
            assert(k < s.len());
            assert(s[k] == w);
        }
        if s.contains(w) {
            let k = choose|k: int| 0 <= k < s.len() && s[k] == w;
            assert(r[k] == w);
        }
        if w == id {
            assert(r[s.len() as int] == id);
        }
    }
    assert(r.to_set() =~= s.to_set().insert(id));
}

/// Focus index after the window at `pos` was removed, leaving `new_len`
/// windows: it moves left when the removed window stood before it or when
/// it fell off the end, and disappears when the stack is empty.
pub open spec fn focus_after_remove(f: Option<usize>, pos: int, new_len: int) -> Option<usize> {
    if new_len == 0 {
        None
    } else {
        match f {
            None => None,
            Some(fi) => if pos < fi || fi >= new_len {
                Some(if fi == 0 { 0usize } else { (fi - 1) as usize })
            } else {
                Some(fi)
            },
        }
    }
}

/// Focus index after a window was inserted at `pos`.
pub open spec fn focus_after_insert(f: Option<usize>, pos: int) -> Option<usize> {
    match f {
        None => None,
        Some(fi) => if pos <= fi { Some((fi + 1) as usize) } else { Some(fi) },
    }
}

/// Focus index one step forward, wrapping around.
pub open spec fn next_focus(f: Option<usize>, len: int) -> Option<usize> {
    if len == 0 {
        f
    } else {
        match f {
            None => None,
            Some(i) => Some(((i + 1) % len) as usize),
        }
    }
}

/// Focus index one step backward, wrapping around.
pub open spec fn prev_focus(f: Option<usize>, len: int) -> Option<usize> {
    if len == 0 {
        f
    } else {
        match f {
            None => None,
            Some(i) => Some(if i == 0 { (len - 1) as usize } else { (i - 1) as usize }),
        }
    }
}

/// Container for managing windows and focus in a virtual workspace.
///
/// Windows marked as *floating* keep a user-controlled geometry (dragged
/// and resized with the pointer) and are excluded from the tiling layout.
pub struct Workspace {
    pub name: String,
    windows: Vec<WindowId>,
    focused_index: Option<usize>,
    /// Serializable description of the current layout.
    spec: LayoutSpec,
    floating: Vec<WindowId>,
}

impl Workspace {
    /// The workspace's user-facing name.
    pub closed spec fn label(&self) -> Seq<char> {
        self.name@
    }

    /// The workspace's user-facing name.
    pub fn name_str(&self) -> (r: &str)
        ensures
            r@ == self.label(),
    {
        self.name.as_str()
    }

    /// Stacking order, master first.
    pub closed spec fn stack(&self) -> Seq<WindowId> {
        self.windows@
    }

    /// Index into the stack of the focused window, if any.
    pub closed spec fn focus(&self) -> Option<usize> {
        self.focused_index
    }

    /// The focused window, if any.
    pub open spec fn focused(&self) -> Option<WindowId> {
        match self.focus() {
            Some(i) => Some(self.stack()[i as int]),
            None => None,
        }
    }

    /// Windows currently floating.
    pub closed spec fn floating_set(&self) -> Set<WindowId> {
        self.floating@.to_set()
    }

    /// The current layout description.
    pub closed spec fn layout(&self) -> LayoutSpec {
        self.spec
    }

    /// Windows of the stack that are tiled, in stack order.
    pub open spec fn tiled(&self) -> Seq<WindowId> {
        self.stack().filter(|w: WindowId| !self.floating_set().contains(w))
    }

    /// Internal consistency: the focus points into the stack, and floating
    /// windows are distinct members of the stack.
    pub closed spec fn wf(&self) -> bool {
        &&& match self.focused_index {
            Some(i) => i < self.windows@.len(),
            None => true,
        }
        &&& self.floating@.no_duplicates()
        &&& forall|i: int| 0 <= i < self.floating@.len() ==> self.windows@.contains(
            #[trigger] self.floating@[i],
        )
    }

    /// The focus points into the stack; floating windows are in the stack.
    pub proof fn lemma_wf(&self)
        requires
            self.wf(),
        ensures
            self.focus() matches Some(i) ==> i < self.stack().len(),
            self.stack().len() == 0 ==> self.focus() is None,
            forall|w: WindowId| self.floating_set().contains(w) ==> self.stack().contains(w),
            self.floating_set().finite(),
    {
        assert forall|w: WindowId| self.floating_set().contains(w) implies self.stack().contains(
            w,
        ) by {
            let i = choose|i: int| 0 <= i < self.floating@.len() && self.floating@[i] == w;
            assert(self.windows@.contains(self.floating@[i]));
        }
    }

    /// A new empty workspace with the default layout.
    pub fn new(name: &str) -> (ws: Workspace)
        ensures
            ws.wf(),
            ws.label() == name@,
            ws.stack() == Seq::<WindowId>::empty(),
            ws.focus() is None,
            ws.floating_set() == Set::<WindowId>::empty(),
            ws.layout() == (LayoutSpec::MonadTall {
                master_ratio_bits: crate::layout::DEFAULT_MASTER_RATIO_BITS,
                master_count: 1,
            }),
    {
        let ws = Workspace {
            name: String::from_str(name),
            windows: Vec::new(),
            focused_index: None,
            spec: LayoutSpec::default(),
            floating: Vec::new(),
        };
        assert(ws.floating@.to_set() =~= Set::<WindowId>::empty());
        ws
    }

    /// Serializable description of the current layout.
    pub fn layout_spec(&self) -> (s: LayoutSpec)
        ensures
            s == self.layout(),
    {
        self.spec
    }

    /// Replaces the layout.
    pub fn set_layout(&mut self, spec: LayoutSpec)
        requires
            old(self).wf(),
        ensures
            final(self).wf(),
            final(self).layout() == spec,
            final(self).label() == old(self).label(),
            final(self).stack() == old(self).stack(),
            final(self).focus() == old(self).focus(),
            final(self).floating_set() == old(self).floating_set(),
    {
        self.spec = spec;
    }

    /// First position of `id` in the stack, if present.
    fn position(&self, id: WindowId) -> (r: Option<usize>)
        ensures
            match r {
                Some(i) => is_first_pos(self.windows@, id, i as int),
                None => !self.windows@.contains(id),
            },
    {
        let mut i: usize = 0;
        while i < self.windows.len()
            invariant
                i <= self.windows@.len(),
                forall|j: int| 0 <= j < i ==> self.windows@[j] != id,
            decreases self.windows@.len() - i,
        {
            if self.windows[i] == id {
                return Some(i);
            }
            i = i + 1;
        }
        None
    }

    /// Adds a window on top of the stack and focuses it.
    pub fn add_window(&mut self, id: WindowId)
        requires
            old(self).wf(),
        ensures
            final(self).wf(),
            final(self).stack() == old(self).stack().push(id),
            final(self).focus() == Some(old(self).stack().len() as usize),
            final(self).focused() == Some(id),
            final(self).floating_set() == old(self).floating_set(),
            final(self).layout() == old(self).layout(),
            final(self).label() == old(self).label(),
    {
        self.windows.push(id);
        self.focused_index = Some(self.windows.len() - 1);
        proof {
            assert forall|i: int| 0 <= i < self.floating@.len() implies self.windows@.contains(
                #[trigger] self.floating@[i],
            ) by {
                let w = self.floating@[i];
                assert(old(self).windows@.contains(w));
                let k = choose|k: int| 0 <= k < old(self).windows@.len() && old(self).windows@[k] == w;
                assert(self.windows@[k] == w);
            }
        }
    }

    /// Inserts a window at a stack position without moving the focus off
    /// the window it is on. Positions past the end clamp to the end; a
    /// window already in the stack is left where it is.
    pub fn insert_window(&mut self, id: WindowId, position: usize)
        requires
            old(self).wf(),
        ensures
            final(self).wf(),
            old(self).stack().contains(id) ==> final(self).stack() == old(self).stack()
                && final(self).focus() == old(self).focus(),
            !old(self).stack().contains(id) ==> {
                let pos = if position < old(self).stack().len() {
                    position as int
                } else {
                    old(self).stack().len() as int
                };
                &&& final(self).stack() == old(self).stack().insert(pos, id)
                &&& final(self).focus() == focus_after_insert(old(self).focus(), pos)
            },
            final(self).focused() == old(self).focused(),
            final(self).floating_set() == old(self).floating_set(),
            final(self).layout() == old(self).layout(),
            final(self).label() == old(self).label(),
    {
        if self.position(id).is_some() {
            return;
        }
        let pos = if position < self.windows.len() {
            position
        } else {
            self.windows.len()
        };
        self.windows.insert(pos, id);
        if let Some(focused) = self.focused_index {
            if pos <= focused {
                self.focused_index = Some(focused + 1);
            }
        }
        proof {
            assert forall|i: int| 0 <= i < self.floating@.len() implies self.windows@.contains(
                #[trigger] self.floating@[i],
            ) by {
                let w = self.floating@[i];
                assert(old(self).windows@.contains(w));
                let k = choose|k: int| 0 <= k < old(self).windows@.len() && old(self).windows@[k] == w;
                if k < pos {
                    assert(self.windows@[k] == w);
                } else {
                    assert(self.windows@[k + 1] == w);
                }
            }
        }
    }

    /// Removes `id` from the floating list, if it is there.
    fn unfloat(&mut self, id: WindowId)
        requires
            old(self).wf(),
        ensures
            final(self).wf(),
            final(self).floating_set() == old(self).floating_set().remove(id),
            final(self).windows == old(self).windows,
            final(self).focused_index == old(self).focused_index,
            final(self).spec == old(self).spec,
            final(self).label() == old(self).label(),
    {
        let mut i: usize = 0;
        while i < self.floating.len()
            invariant
                self == old(self),
                old(self).wf(),
                i <= self.floating@.len(),
                forall|j: int| 0 <= j < i ==> self.floating@[j] != id,
            decreases self.floating@.len() - i,
        {
            if self.floating[i] == id {
                let ghost before = self.floating@;
                self.floating.remove(i);
                proof {
                    lemma_remove_unique(before, i as int);
                    assert forall|k: int| 0 <= k < self.floating@.len() implies self.windows@.contains(
                        #[trigger] self.floating@[k],
                    ) by {
                        if k < i {
                            assert(self.floating@[k] == before[k]);
                        } else {
                            assert(self.floating@[k] == before[k + 1]);
                        }
                    }
                }
                return;
            }
            i = i + 1;
        }
        proof {
            assert(!self.floating@.contains(id));
            assert(self.floating@.to_set() =~= self.floating@.to_set().remove(id));
        }
    }

    /// Removes a window (its first occurrence in the stack), gracefully
    /// adjusting the focus, and clears its floating state.
    pub fn remove_window(&mut self, id: WindowId)
        requires
            old(self).wf(),
        ensures
            final(self).wf(),
            removal(*old(self), *final(self), id),
    {
        self.unfloat(id);
        let ghost mid = *self;
        if let Some(pos) = self.position(id) {
            proof {
                lemma_first_pos_unique(self.windows@, id, pos as int);
            }
            self.windows.remove(pos);
            if self.windows.len() == 0 {
                self.focused_index = None;
            } else if let Some(focused) = self.focused_index {
                if pos < focused || focused >= self.windows.len() {
                    self.focused_index = Some(if focused == 0 { 0 } else { focused - 1 });
                }
            }
            proof {
                assert forall|k: int| 0 <= k < self.floating@.len() implies self.windows@.contains(
                    #[trigger] self.floating@[k],
                ) by {
                    let w = self.floating@[k];
                    assert(mid.windows@.contains(w));
                    assert(w != id) by {
                        assert(!mid.floating@.to_set().contains(id));
                        assert(mid.floating@.to_set().contains(w));
                    }
                    let j = choose|j: int| 0 <= j < mid.windows@.len() && mid.windows@[j] == w;
                    if j < pos {
                        assert(self.windows@[j] == w);
                    } else {
                        assert(j != pos);
                        assert(self.windows@[j - 1] == w);
                    }
                }
            }
        }
    }

    /// The focused window, if any.
    pub fn get_focused(&self) -> (r: Option<WindowId>)
        requires
            self.wf(),
        ensures
            r == self.focused(),
    {
        match self.focused_index {
            Some(idx) => Some(self.windows[idx]),
            None => None,
        }
    }

    /// Focuses the given window (its first occurrence) if it belongs to
    /// this workspace; otherwise nothing changes.
    pub fn focus_window(&mut self, id: WindowId)
        requires
            old(self).wf(),
        ensures
            final(self).wf(),
            final(self).stack() == old(self).stack(),
            old(self).stack().contains(id) ==> final(self).focus() == Some(
                first_pos(old(self).stack(), id) as usize,
            ) && final(self).focused() == Some(id),
            !old(self).stack().contains(id) ==> final(self).focus() == old(self).focus(),
            final(self).floating_set() == old(self).floating_set(),
            final(self).layout() == old(self).layout(),
            final(self).label() == old(self).label(),
    {
        if let Some(pos) = self.position(id) {
            proof {
                lemma_first_pos_unique(self.windows@, id, pos as int);
            }
            self.focused_index = Some(pos);
        }
    }

    /// Shifts focus to the next window in the stack, wrapping around.
    pub fn focus_next(&mut self)
        requires
            old(self).wf(),
        ensures
            final(self).wf(),
            final(self).stack() == old(self).stack(),
            final(self).focus() == next_focus(old(self).focus(), old(self).stack().len() as int),
            final(self).floating_set() == old(self).floating_set(),
            final(self).layout() == old(self).layout(),
            final(self).label() == old(self).label(),
    {
        if self.windows.len() == 0 {
            return;
        }
        if let Some(idx) = self.focused_index {
            self.focused_index = Some((idx + 1) % self.windows.len());
        }
    }

    /// Shifts focus to the previous window in the stack, wrapping around.
    pub fn focus_prev(&mut self)
        requires
            old(self).wf(),
        ensures
            final(self).wf(),
            final(self).stack() == old(self).stack(),
            final(self).focus() == prev_focus(old(self).focus(), old(self).stack().len() as int),
            final(self).floating_set() == old(self).floating_set(),
            final(self).layout() == old(self).layout(),
            final(self).label() == old(self).label(),
    {
        if self.windows.len() == 0 {
            return;
        }
        if let Some(idx) = self.focused_index {
            self.focused_index = Some(
                if idx == 0 {
                    self.windows.len() - 1
                } else {
                    idx - 1
                },
            );
        }
    }

    /// Swaps the focused window with the master (first) window and keeps
    /// the focus on it, now at the master position.
    pub fn swap_master(&mut self)
        requires
            old(self).wf(),
        ensures
            final(self).wf(),
            old(self).swap_applies() ==> {
                let i = old(self).focus()->0 as int;
                &&& final(self).stack() == old(self).stack().update(0, old(self).stack()[i]).update(
                    i,
                    old(self).stack()[0],
                )
                &&& final(self).focus() == Some(0usize)
            },
            !old(self).swap_applies()
                ==> final(self).stack() == old(self).stack() && final(self).focus() == old(
                self,
            ).focus(),
            final(self).focused() == old(self).focused(),
            final(self).floating_set() == old(self).floating_set(),
            final(self).layout() == old(self).layout(),
            final(self).label() == old(self).label(),
    {
        if self.windows.len() < 2 {
            return;
        }
        if let Some(idx) = self.focused_index {
            if idx != 0 {
                let first = self.windows[0];
                let chosen = self.windows[idx];
                self.windows.set(0, chosen);
                self.windows.set(idx, first);
                self.focused_index = Some(0);
                proof {
                    assert forall|k: int| 0 <= k < self.floating@.len() implies self.windows@.contains(
                        #[trigger] self.floating@[k],
                    ) by {
                        let w = self.floating@[k];
                        assert(old(self).windows@.contains(w));
                        let j = choose|j: int| 0 <= j < old(self).windows@.len() && old(self).windows@[j] == w;
                        if j == 0 {
                            assert(self.windows@[idx as int] == w);
                        } else if j == idx {
                            assert(self.windows@[0] == w);
                        } else {
                            assert(self.windows@[j] == w);
                        }
                    }
                }
            }
        }
    }

    /// `swap_master` has an effect: two or more windows, focus off the master.
    pub open spec fn swap_applies(&self) -> bool {
        &&& self.stack().len() >= 2
        &&& match self.focus() {
            Some(i) => i != 0,
            None => false,
        }
    }

    /// The stack, master first.
    pub fn get_windows(&self) -> (s: &[WindowId])
        ensures
            s@ == self.stack(),
    {
        self.windows.as_slice()
    }

    /// Whether `id` is in the stack.
    pub fn get_windows_contains(&self, id: WindowId) -> (r: bool)
        ensures
            r == self.stack().contains(id),
    {
        self.position(id).is_some()
    }

    /// Whether `id` is in the floating list.
    fn floating_contains(&self, id: WindowId) -> (r: bool)
        ensures
            r == self.floating@.contains(id),
    {
        let mut i: usize = 0;
        while i < self.floating.len()
            invariant
                i <= self.floating@.len(),
                forall|j: int| 0 <= j < i ==> self.floating@[j] != id,
            decreases self.floating@.len() - i,
        {
            if self.floating[i] == id {
                return true;
            }
            i = i + 1;
        }
        false
    }

    /// Adds `id` to the floating list.
    fn float(&mut self, id: WindowId)
        requires
            old(self).wf(),
            old(self).windows@.contains(id),
        ensures
            final(self).wf(),
            final(self).floating_set() == old(self).floating_set().insert(id),
            final(self).windows == old(self).windows,
            final(self).focused_index == old(self).focused_index,
            final(self).spec == old(self).spec,
            final(self).label() == old(self).label(),
    {
        if self.floating_contains(id) {
            assert(self.floating@.to_set() =~= self.floating@.to_set().insert(id));
            return;
        }
        let ghost before = self.floating@;
        self.floating.push(id);
        proof {
            lemma_push_unique(before, id);
            assert forall|k: int| 0 <= k < self.floating@.len() implies self.windows@.contains(
                #[trigger] self.floating@[k],
            ) by {
                if k < before.len() {
                    assert(self.floating@[k] == before[k]);
                }
            }
        }
    }

    /// Marks a window as floating (user geometry) or tiled. Returns the new
    /// floating state; a window not in the stack is left alone and reported
    /// as not floating.
    pub fn set_floating(&mut self, id: WindowId, floating: bool) -> (r: bool)
        requires
            old(self).wf(),
        ensures
            final(self).wf(),
            r == (old(self).stack().contains(id) && floating),
            !old(self).stack().contains(id) ==> final(self).floating_set() == old(
                self,
            ).floating_set(),
            old(self).stack().contains(id) ==> final(self).floating_set() == if floating {
                old(self).floating_set().insert(id)
            } else {
                old(self).floating_set().remove(id)
            },
            final(self).stack() == old(self).stack(),
            final(self).focus() == old(self).focus(),
            final(self).layout() == old(self).layout(),
            final(self).label() == old(self).label(),
    {
        if self.position(id).is_none() {
            return false;
        }
        if floating {
            self.float(id);
        } else {
            self.unfloat(id);
        }
        floating
    }

    /// Toggles the floating state of a window in the stack. Returns the new
    /// state; a window not in the stack is left alone and reported as not
    /// floating.
    pub fn toggle_floating(&mut self, id: WindowId) -> (r: bool)
        requires
            old(self).wf(),
        ensures
            final(self).wf(),
            r == (old(self).stack().contains(id) && !old(self).floating_set().contains(id)),
            final(self).floating_set() == toggled(old(self).floating_set(), old(self).stack(), id),
            final(self).stack() == old(self).stack(),
            final(self).focus() == old(self).focus(),
            final(self).layout() == old(self).layout(),
            final(self).label() == old(self).label(),
    {
        if self.position(id).is_none() {
            return false;
        }
        if self.floating_contains(id) {
            self.unfloat(id);
            false
        } else {
            self.float(id);
            true
        }
    }

    /// Whether `id` is floating.
    pub fn is_floating(&self, id: WindowId) -> (r: bool)
        ensures
            r == self.floating_set().contains(id),
    {
        self.floating_contains(id)
    }

    /// The tiled windows, in stack order.
    pub fn tiled_windows(&self) -> (t: Vec<WindowId>)
        requires
            self.wf(),
        ensures
            t@ == self.tiled(),
    {
        let ghost pred = |w: WindowId| !self.floating_set().contains(w);
        let mut t: Vec<WindowId> = Vec::new();
        let mut i: usize = 0;
        while i < self.windows.len()
            invariant
                i <= self.windows@.len(),
                pred == (|w: WindowId| !self.floating_set().contains(w)),
                t@ == self.windows@.take(i as int).filter(pred),
            decreases self.windows@.len() - i,
        {
            proof {
                reveal_with_fuel(Seq::<_>::filter, 1);
                assert(self.windows@.take(i + 1).drop_last() =~= self.windows@.take(i as int));
            }
            let w = self.windows[i];
            if !self.floating_contains(w) {
                t.push(w);
            }
            i = i + 1;
        }
        proof {
            assert(self.windows@.take(self.windows@.len() as int) =~= self.windows@);
        }
        t
    }

    /// Pairs the tiled windows, in stack order, with the given rectangles;
    /// the result is as long as the shorter of the two.
    pub fn place_tiled(&self, rects: Vec<Rect>) -> (placed: Vec<(WindowId, Rect)>)
        requires
            self.wf(),
        ensures
            placed@.len() == if self.tiled().len() < rects@.len() {
                self.tiled().len()
            } else {
                rects@.len()
            },
            forall|i: int|
                0 <= i < placed@.len() ==> #[trigger] placed@[i] == (self.tiled()[i], rects@[i]),
    {
        let tiled = self.tiled_windows();
        let n = if tiled.len() < rects.len() {
            tiled.len()
        } else {
            rects.len()
        };
        let mut placed: Vec<(WindowId, Rect)> = Vec::new();
        let mut i: usize = 0;
        while i < n
            invariant
                n <= tiled@.len(),
                n <= rects@.len(),
                tiled@ == self.tiled(),
                i <= n,
                placed@.len() == i,
                forall|j: int| 0 <= j < i ==> #[trigger] placed@[j] == (tiled@[j], rects@[j]),
            decreases n - i,
        {
            placed.push((tiled[i], rects[i]));
            i = i + 1;
        }
        placed
    }

    /// Applies a layout algorithm to the *tiled* windows, pairing each with
    /// its rectangle. Floating windows are excluded: the compositor keeps
    /// their user-controlled geometry.
    pub fn apply_layout<L: Layout + ?Sized>(&self, layout: &L, area: Rect) -> (placed: Vec<(WindowId, Rect)>)
        requires
            self.wf(),
            layout.accepts(area, self.tiled().len() as int),
        ensures
            ({
                let rects = layout.spec_apply(area, self.tiled().len() as int);
                &&& placed@.len() == if self.tiled().len() < rects.len() {
                    self.tiled().len()
                } else {
                    rects.len()
                }
                &&& forall|i: int|
                    0 <= i < placed@.len() ==> #[trigger] placed@[i] == (self.tiled()[i], rects[i])
            }),
    {
        let n = self.tiled_windows().len();
        let rects = layout.apply(area, n);
        self.place_tiled(rects)
    }
}

/// `after` is `before` with the first occurrence of `id` removed from the
/// stack (the focus adjusted accordingly) and `id` no longer floating.
pub open spec fn removal(before: Workspace, after: Workspace, id: WindowId) -> bool {
    &&& after.floating_set() == before.floating_set().remove(id)
    &&& !before.stack().contains(id) ==> after.stack() == before.stack() && after.focus()
        == before.focus()
    &&& before.stack().contains(id) ==> {
        let pos = first_pos(before.stack(), id);
        &&& after.stack() == before.stack().remove(pos)
        &&& after.focus() == focus_after_remove(before.focus(), pos, before.stack().len() - 1)
    }
    &&& after.layout() == before.layout()
    &&& after.label() == before.label()
}

/// The stack with the first occurrence of `id` removed (unchanged when
/// `id` is absent).
pub open spec fn stack_without(s: Seq<WindowId>, id: WindowId) -> Seq<WindowId> {
    if s.contains(id) {
        s.remove(first_pos(s, id))
    } else {
        s
    }
}

/// Law: removal takes exactly the first occurrence of the window off the
/// stack and leaves it non-floating.
pub proof fn removal_stack(before: Workspace, after: Workspace, id: WindowId)
    requires
        removal(before, after, id),
    ensures
        after.stack() == stack_without(before.stack(), id),
        !after.floating_set().contains(id),
{
}

/// The floating set after toggling `id`: windows outside the stack are left
/// alone; otherwise `id` leaves the set if it was in it, and joins it if not.
pub open spec fn toggled(s: Set<WindowId>, stack: Seq<WindowId>, id: WindowId) -> Set<WindowId> {
    if !stack.contains(id) {
        s
    } else if s.contains(id) {
        s.remove(id)
    } else {
        s.insert(id)
    }
}

} // verus!

verus! {

/// Law: moving the focus forward and then back returns it to the window it
/// started on.
pub proof fn focus_next_then_prev(f: Option<usize>, len: int)
    requires
        f matches Some(i) ==> i < len,
        len <= usize::MAX,
    ensures
        prev_focus(next_focus(f, len), len) == f,
{
    if len > 0 {
        if let Some(i) = f {
            if i + 1 < len {
                assert((i + 1) % len == i + 1) by {
                    vstd::arithmetic::div_mod::lemma_small_mod((i + 1) as nat, len as nat);
                }
            } else {
                assert((i + 1) % len == 0) by {
                    vstd::arithmetic::div_mod::lemma_mod_self_0(len);
                }
            }
        }
    }
}

/// Law: moving the focus back and then forward returns it to the window it
/// started on.
pub proof fn focus_prev_then_next(f: Option<usize>, len: int)
    requires
        f matches Some(i) ==> i < len,
        len <= usize::MAX,
    ensures
        next_focus(prev_focus(f, len), len) == f,
{
    if len > 0 {
        if let Some(i) = f {
            if i == 0 {
                assert(len % len == 0) by {
                    vstd::arithmetic::div_mod::lemma_mod_self_0(len);
                }
            } else {
                assert((i as int) % len == i) by {
                    vstd::arithmetic::div_mod::lemma_small_mod(i as nat, len as nat);
                }
            }
        }
    }
}

/// Law: toggling a window's floating state twice restores the floating set.
pub proof fn toggle_floating_twice(s: Set<WindowId>, stack: Seq<WindowId>, id: WindowId)
    ensures
        toggled(toggled(s, stack, id), stack, id) == s,
{
    if stack.contains(id) {
        if s.contains(id) {
            assert(s.remove(id).insert(id) =~= s);
        } else {
            assert(s.insert(id).remove(id) =~= s);
        }
    }
}

/// Law: removing a window other than the focused one keeps the focus on
/// the same window.
pub proof fn remove_keeps_focus_on_others(stack: Seq<WindowId>, f: usize, id: WindowId)
    requires
        f < stack.len(),
        stack[f as int] != id,
        stack.contains(id),
    ensures
        ({
            let pos = first_pos(stack, id);
            let nf = focus_after_remove(Some(f), pos, stack.len() - 1);
            &&& nf matches Some(g)
            &&& stack.remove(pos)[nf->0 as int] == stack[f as int]
        }),
{
    let k = choose|k: int| 0 <= k < stack.len() && stack[k] == id;
    let pos = first_pos(stack, id);
    assert(is_first_pos(stack, id, pos)) by {
        lemma_exists_first_pos(stack, id, k);
    }
    assert(pos != f);
}

/// Every element of a sequence has a first position.
pub proof fn lemma_exists_first_pos(s: Seq<WindowId>, id: WindowId, k: int)
    requires
        0 <= k < s.len(),
        s[k] == id,
    ensures
        is_first_pos(s, id, first_pos(s, id)),
    decreases k,
{
    if exists|j: int| 0 <= j < k && s[j] == id {
        let j = choose|j: int| 0 <= j < k && s[j] == id;
        lemma_exists_first_pos(s, id, j);
    } else {
        assert(is_first_pos(s, id, k));
    }
}

/// Law: adding a window that is not yet in the stack and then removing it
/// restores the stack.
pub proof fn add_then_remove_restores_stack(stack: Seq<WindowId>, id: WindowId)
    requires
        !stack.contains(id),
    ensures
        stack.push(id).remove(first_pos(stack.push(id), id)) == stack,
{
    let s = stack.push(id);
    assert(is_first_pos(s, id, stack.len() as int)) by {
        assert forall|j: int| 0 <= j < stack.len() implies s[j] != id by {
            assert(s[j] == stack[j]);
        }
    }
    lemma_first_pos_unique(s, id, stack.len() as int);
    assert(s.remove(stack.len() as int) =~= stack);
}

/// Law: the tiling layout places exactly the windows of the stack that are
/// not floating: no floating window is tiled, and every tiled-eligible
/// window is.
pub proof fn tiled_excludes_floating(ws: Workspace)
    ensures
        forall|i: int| 0 <= i < ws.tiled().len() ==> !ws.floating_set().contains(
            #[trigger] ws.tiled()[i],
        ),
        forall|i: int|
            0 <= i < ws.stack().len() && !ws.floating_set().contains(ws.stack()[i])
                ==> ws.tiled().contains(#[trigger] ws.stack()[i]),
{
    let pred = |w: WindowId| !ws.floating_set().contains(w);
    assert forall|i: int| 0 <= i < ws.tiled().len() implies !ws.floating_set().contains(
        #[trigger] ws.tiled()[i],
    ) by {
        ws.stack().lemma_filter_pred(pred, i);
    }
    assert forall|i: int|
        0 <= i < ws.stack().len() && !ws.floating_set().contains(ws.stack()[i]) implies ws.tiled().contains(
        #[trigger] ws.stack()[i],
    ) by {
        ws.stack().lemma_filter_contains(pred, i);
    }
}

} // verus!
