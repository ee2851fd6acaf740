//! The reconciliation engine: the single owner of the world model. It
//! consumes window events, drag events and commands, classifies rectangle
//! changes as self-induced or user-made, and answers with the window-control
//! actions the host should perform.

use vstd::prelude::*;
use crate::geometry::{Rect, COORD_LIMIT};
use crate::hotkeys::Direction;
use crate::layout::{keyed, LayoutManager, LayoutType};
use crate::model::{
    all_wf, distinct_ids, find_window, has_id, rmap_distinct, rmap_has, rmap_lookup, rmap_set,
    wid_contains, wid_insert, wid_remove, wids_distinct, Window, WindowId,
};
use crate::snap::{drag_st, has_drag, DragResult, SnapManager};

verus! {

/// What the host reports about the world.
#[derive(Debug)]
pub enum WindowEvent {
    WindowCreated(Window),
    WindowDestroyed(WindowId),
    WindowMoved(WindowId, Rect),
    WindowResized(WindowId, Rect),
    WindowFocused(WindowId),
    WindowMinimized(WindowId),
    WindowUnminimized(WindowId),
    WorkspaceChanged(u32),
}

/// What the surrounding surfaces (socket, hotkeys) ask of the engine.
#[derive(Debug, Clone, Copy, PartialEq, Eq, Structural)]
pub enum Command {
    FocusWindow(WindowId),
    FocusDirection(Direction),
    MoveDirection(Direction),
    CloseWindow(WindowId),
    CloseFocusedWindow,
    MoveWindow(WindowId, Rect),
    ToggleLayout,
    ToggleFloat,
    ToggleFullscreen,
    SwapMain,
    ReloadConfig,
    ListWindows,
    GetStatus,
    Quit,
}

/// The drag observer's two events, bracketing every user drag.
#[derive(Debug, Clone, Copy, PartialEq, Eq, Structural)]
pub enum WindowDragEvent {
    DragStarted { window_id: WindowId, initial_rect: Rect, owner_pid: i32 },
    DragEnded { window_id: WindowId, final_rect: Rect, owner_pid: i32 },
}

/// What the engine asks the host's window control to do. The engine has
/// already marked every window a `Move` or `MoveAll` touches as self-moving.
#[derive(Debug)]
pub enum Action {
    Focus(WindowId),
    Close(WindowId),
    Move(WindowId, Rect),
    MoveAll(Vec<(WindowId, Rect)>, Vec<Window>),
    Quit,
}

/// The workspace of the first focused window, if any.
pub open spec fn spec_focused_ws(ws: Seq<Window>) -> Option<u32>
    decreases ws.len(),
{
    if ws.len() == 0 {
        None
    } else if ws[0].is_focused {
        Some(ws[0].workspace_id)
    } else {
        spec_focused_ws(ws.subrange(1, ws.len() as int))
    }
}

/// The first focused window, if any.
pub open spec fn spec_focused_win(ws: Seq<Window>) -> Option<Window>
    decreases ws.len(),
{
    if ws.len() == 0 {
        None
    } else if ws[0].is_focused {
        Some(ws[0])
    } else {
        spec_focused_win(ws.subrange(1, ws.len() as int))
    }
}

/// The first focused window is a member of the list and carries the focused
/// identifier.
pub proof fn lemma_focused_win_member(ws: Seq<Window>)
    ensures
        match spec_focused_win(ws) {
            Some(w) => {
                &&& spec_focused_id(ws) == Some(w.id)
                &&& exists|k: int| 0 <= k < ws.len() && #[trigger] ws[k] == w
            },
            None => spec_focused_id(ws) is None,
        },
    decreases ws.len(),
{
    if ws.len() > 0 {
        if ws[0].is_focused {
            assert(ws[0] == spec_focused_win(ws).unwrap());
        } else {
            let tail = ws.subrange(1, ws.len() as int);
            lemma_focused_win_member(tail);
            match spec_focused_win(tail) {
                Some(w) => {
                    let k = choose|k: int| 0 <= k < tail.len() && #[trigger] tail[k] == w;
                    assert(ws[k + 1] == tail[k]);
                },
                None => {},
            }
        }
    }
}

/// The first focused window's identifier, if any.
pub open spec fn spec_focused_id(ws: Seq<Window>) -> Option<WindowId>
    decreases ws.len(),
{
    if ws.len() == 0 {
        None
    } else if ws[0].is_focused {
        Some(ws[0].id)
    } else {
        spec_focused_id(ws.subrange(1, ws.len() as int))
    }
}

/// How many non-minimized windows sit on the workspace.
pub open spec fn spec_ws_count(ws: Seq<Window>, wid: u32) -> int
    decreases ws.len(),
{
    if ws.len() == 0 {
        0
    } else {
        (if !ws[0].is_minimized && ws[0].workspace_id == wid {
            1int
        } else {
            0int
        }) + spec_ws_count(ws.subrange(1, ws.len() as int), wid)
    }
}

/// The fold that elects the busiest workspace: scan the non-minimized
/// windows, keeping the workspace of greatest population; ties go to the
/// smaller workspace number.
pub open spec fn spec_best_ws_loop(ws: Seq<Window>, i: int, best: Option<u32>) -> Option<u32>
    decreases ws.len() - i,
{
    if i < 0 || i >= ws.len() {
        best
    } else {
        let w = ws[i];
        let new_best = if !w.is_minimized {
            match best {
                None => Some(w.workspace_id),
                Some(b) => if spec_ws_count(ws, w.workspace_id) > spec_ws_count(ws, b)
                    || (spec_ws_count(ws, w.workspace_id) == spec_ws_count(ws, b)
                    && w.workspace_id < b) {
                    Some(w.workspace_id)
                } else {
                    Some(b)
                },
            }
        } else {
            best
        };
        spec_best_ws_loop(ws, i + 1, new_best)
    }
}

/// The effective workspace: the focused window's, else the busiest, else the
/// last host-reported one, else workspace one.
pub open spec fn spec_effective_workspace(ws: Seq<Window>, last: u32) -> u32 {
    match spec_focused_ws(ws) {
        Some(w) => w,
        None => match spec_best_ws_loop(ws, 0, None) {
            Some(b) => b,
            None => if last != 0 {
                last
            } else {
                1
            },
        },
    }
}

/// The focused workspace comes from some window of the list.
proof fn lemma_focused_ws_member(ws: Seq<Window>)
    ensures
        match spec_focused_ws(ws) {
            Some(w) => exists|i: int| 0 <= i < ws.len() && (#[trigger] ws[i]).workspace_id == w,
            None => true,
        },
    decreases ws.len(),
{
    if ws.len() > 0 && !ws[0].is_focused {
        let tail = ws.subrange(1, ws.len() as int);
        lemma_focused_ws_member(tail);
        match spec_focused_ws(tail) {
            Some(w) => {
                let i = choose|i: int|
                    0 <= i < tail.len() && (#[trigger] tail[i]).workspace_id == w;
                assert(ws[i + 1] == tail[i]);
            },
            None => {},
        }
    }
}

/// The elected workspace comes from some window of the list.
proof fn lemma_best_ws_member(ws: Seq<Window>, i: int, best: Option<u32>)
    requires
        match best {
            Some(b) => exists|k: int| 0 <= k < ws.len() && (#[trigger] ws[k]).workspace_id == b,
            None => true,
        },
    ensures
        match spec_best_ws_loop(ws, i, best) {
            Some(b) => exists|k: int| 0 <= k < ws.len() && (#[trigger] ws[k]).workspace_id == b,
            None => true,
        },
    decreases ws.len() - i,
{
    if 0 <= i < ws.len() {
        let w = ws[i];
        let new_best = if !w.is_minimized {
            match best {
                None => Some(w.workspace_id),
                Some(b) => if spec_ws_count(ws, w.workspace_id) > spec_ws_count(ws, b)
                    || (spec_ws_count(ws, w.workspace_id) == spec_ws_count(ws, b)
                    && w.workspace_id < b) {
                    Some(w.workspace_id)
                } else {
                    Some(b)
                },
            }
        } else {
            best
        };
        match new_best {
            Some(b) => {
                if !(best == Some(b)) {
                    assert(ws[i].workspace_id == b);
                }
            },
            None => {},
        }
        lemma_best_ws_member(ws, i + 1, new_best);
    }
}

/// Law: the effective-workspace fallback never lands on workspace zero, even
/// when the host reports zero, as long as every window record carries a
/// non-zero workspace.
pub proof fn lemma_effective_workspace_nonzero(ws: Seq<Window>, last: u32)
    requires
        forall|i: int| 0 <= i < ws.len() ==> (#[trigger] ws[i]).workspace_id != 0,
    ensures
        spec_effective_workspace(ws, last) != 0,
{
    lemma_focused_ws_member(ws);
    lemma_best_ws_member(ws, 0, None);
}

/// Replace the stored rectangle of one window.
pub fn set_window_rect(windows: &mut Vec<Window>, id: WindowId, rect: Rect)
    requires
        distinct_ids(old(windows)@),
        all_wf(old(windows)@),
        rect.wf(),
    ensures
        distinct_ids(final(windows)@),
        all_wf(final(windows)@),
        final(windows)@.len() == old(windows)@.len(),
        forall|j: int|
            0 <= j < final(windows)@.len() ==> (#[trigger] final(windows)@[j]) == if old(
                windows,
            )@[j].id == id {
                Window { rect, ..old(windows)@[j] }
            } else {
                old(windows)@[j]
            },
{
    let ghost orig = windows@;
    let n = windows.len();
    let mut i: usize = 0;
    while i < n
        invariant
            i <= n,
            n == windows@.len(),
            old(windows)@ == orig,
            orig.len() == n,
            distinct_ids(orig),
            all_wf(orig),
            rect.wf(),
            forall|j: int|
                0 <= j < n ==> (#[trigger] windows@[j]) == if j < i && orig[j].id == id {
                    Window { rect, ..orig[j] }
                } else {
                    orig[j]
                },
        decreases n - i,
    {
        if windows[i].id == id {
            let mut w = windows.remove(i);
            w.rect = rect;
            windows.insert(i, w);
            proof {
                assert forall|j: int|
                    0 <= j < n implies (#[trigger] windows@[j]) == if j < i + 1 && orig[j].id
                    == id {
                    Window { rect, ..orig[j] }
                } else {
                    orig[j]
                } by {
                    if j != i {
                        if orig[j].id == id && j < i {
                        } else {
                        }
                    }
                }
            }
        }
        i += 1;
    }
}

/// Mark exactly one window focused.
pub fn set_focused(windows: &mut Vec<Window>, id: WindowId)
    requires
        distinct_ids(old(windows)@),
        all_wf(old(windows)@),
    ensures
        distinct_ids(final(windows)@),
        all_wf(final(windows)@),
        final(windows)@.len() == old(windows)@.len(),
        forall|j: int|
            0 <= j < final(windows)@.len() ==> (#[trigger] final(windows)@[j]) == (Window {
                is_focused: old(windows)@[j].id == id,
                ..old(windows)@[j]
            }),
{
    let ghost orig = windows@;
    let n = windows.len();
    let mut i: usize = 0;
    while i < n
        invariant
            i <= n,
            n == windows@.len(),
            old(windows)@ == orig,
            orig.len() == n,
            distinct_ids(orig),
            all_wf(orig),
            forall|j: int|
                0 <= j < n ==> (#[trigger] windows@[j]) == if j < i {
                    Window { is_focused: orig[j].id == id, ..orig[j] }
                } else {
                    orig[j]
                },
        decreases n - i,
    {
        let mut w = windows.remove(i);
        let f = w.id == id;
        w.is_focused = f;
        windows.insert(i, w);
        i += 1;
    }
}

/// Flip the minimized flag of one window.
pub fn set_minimized(windows: &mut Vec<Window>, id: WindowId, minimized: bool)
    requires
        distinct_ids(old(windows)@),
        all_wf(old(windows)@),
    ensures
        distinct_ids(final(windows)@),
        all_wf(final(windows)@),
        final(windows)@.len() == old(windows)@.len(),
        forall|j: int|
            0 <= j < final(windows)@.len() ==> (#[trigger] final(windows)@[j]) == if old(
                windows,
            )@[j].id == id {
                Window { is_minimized: minimized, ..old(windows)@[j] }
            } else {
                old(windows)@[j]
            },
{
    let ghost orig = windows@;
    let n = windows.len();
    let mut i: usize = 0;
    while i < n
        invariant
            i <= n,
            n == windows@.len(),
            old(windows)@ == orig,
            orig.len() == n,
            distinct_ids(orig),
            all_wf(orig),
            forall|j: int|
                0 <= j < n ==> (#[trigger] windows@[j]) == if j < i && orig[j].id == id {
                    Window { is_minimized: minimized, ..orig[j] }
                } else {
                    orig[j]
                },
        decreases n - i,
    {
        if windows[i].id == id {
            let mut w = windows.remove(i);
            w.is_minimized = minimized;
            windows.insert(i, w);
        }
        i += 1;
    }
}

/// The windows of a workspace that are not minimized, in stored order.
pub open spec fn spec_workspace_windows(ws: Seq<Window>, wid: u32) -> Seq<Window> {
    ws.filter(|w: Window| w.workspace_id == wid && !w.is_minimized)
}

/// Pointwise field-wise equality of window sequences.
pub open spec fn win_seq_eq(a: Seq<Window>, b: Seq<Window>) -> bool {
    a.len() == b.len() && forall|i: int| 0 <= i < a.len() ==> crate::model::win_eq(a[i], b[i])
}

/// Collect copies of the non-minimized windows of a workspace, in stored
/// order.
pub fn workspace_windows(windows: &Vec<Window>, wid: u32) -> (r: Vec<Window>)
    requires
        distinct_ids(windows@),
        all_wf(windows@),
    ensures
        win_seq_eq(r@, spec_workspace_windows(windows@, wid)),
        distinct_ids(r@),
        all_wf(r@),
        forall|x: WindowId| #[trigger] has_id(r@, x) ==> has_id(windows@, x),
{
    let n = windows.len();
    let mut out: Vec<Window> = Vec::new();
    let mut i: usize = 0;
    proof {
        reveal(Seq::filter);
        assert(spec_workspace_windows(windows@.subrange(0, 0), wid) =~= Seq::<Window>::empty());
    }
    while i < n
        invariant
            i <= n,
            n == windows@.len(),
            distinct_ids(windows@),
            all_wf(windows@),
            win_seq_eq(out@, spec_workspace_windows(windows@.subrange(0, i as int), wid)),
            distinct_ids(out@),
            all_wf(out@),
            forall|k: int|
                0 <= k < out@.len() ==> exists|j: int|
                    0 <= j < i && (#[trigger] out@[k]).id == windows@[j].id,
        decreases n - i,
    {
        let ghost pre = windows@.subrange(0, i as int);
        let ghost cur = windows@.subrange(0, i + 1 as int);
        proof {
            reveal(Seq::filter);
            assert(cur.drop_last() =~= pre);
            assert(cur.last() == windows@[i as int]);
        }
        let w = &windows[i];
        if w.workspace_id == wid && !w.is_minimized {
            proof {
                assert forall|k: int|
                    0 <= k < out@.len() implies (#[trigger] out@[k]).id != windows@[i as int].id
                    by {
                    let j = choose|j: int| 0 <= j < i && out@[k].id == windows@[j].id;
                    assert(windows@[j].id != windows@[i as int].id);
                }
            }
            let copy = crate::model::clone_window(&windows[i]);
            out.push(copy);
            proof {
                assert(spec_workspace_windows(cur, wid) =~= spec_workspace_windows(
                    pre,
                    wid,
                ).push(windows@[i as int]));
            }
        } else {
            proof {
                assert(spec_workspace_windows(cur, wid) =~= spec_workspace_windows(pre, wid));
            }
        }
        i += 1;
    }
    proof {
        assert(windows@.subrange(0, n as int) =~= windows@);
        assert forall|x: WindowId| #[trigger] has_id(out@, x) implies has_id(windows@, x) by {
            let k = choose|k: int| 0 <= k < out@.len() && out@[k].id == x;
            let j = choose|j: int| 0 <= j < n && out@[k].id == windows@[j].id;
            assert(windows@[j].id == x);
        }
    }
    out
}


/// All rectangles in the position map are well formed.
pub open spec fn rmap_rects_wf(s: Seq<(WindowId, Rect)>) -> bool {
    forall|i: int| 0 <= i < s.len() ==> (#[trigger] s[i]).1.wf()
}

/// The reconciliation engine's whole state.
pub struct WindowManager {
    pub windows: Vec<Window>,
    pub current_workspace: u32,
    pub screen_rect: Rect,
    pub gap: i64,
    pub layout_manager: LayoutManager,
    pub snap_manager: SnapManager,
    pub programmatically_moving: Vec<WindowId>,
    pub user_dragging_windows: Vec<WindowId>,
    pub previous_window_positions: Vec<(WindowId, Rect)>,
}

impl WindowManager {
    pub open spec fn wf(self) -> bool {
        &&& distinct_ids(self.windows@)
        &&& all_wf(self.windows@)
        &&& self.windows@.len() <= COORD_LIMIT
        &&& self.screen_rect.wf()
        &&& 0 <= self.gap <= COORD_LIMIT
        &&& self.layout_manager.wf()
        &&& self.snap_manager.wf()
        &&& wids_distinct(self.programmatically_moving@)
        &&& wids_distinct(self.user_dragging_windows@)
        &&& rmap_distinct(self.previous_window_positions@)
        &&& rmap_rects_wf(self.previous_window_positions@)
    }

    pub fn new(
        layout: LayoutType,
        split_ratio: i64,
        gap: i64,
        screen_rect: Rect,
        snap_threshold: i64,
    ) -> (m: WindowManager)
        requires
            crate::bsp::ratio_wf(split_ratio as int),
            0 <= gap <= COORD_LIMIT,
            screen_rect.wf(),
            0 <= snap_threshold <= COORD_LIMIT,
        ensures
            m.wf(),
            m.windows@.len() == 0,
            m.current_workspace == 1,
            m.screen_rect == screen_rect,
            m.gap == gap,
            m.layout_manager.current_layout == layout,
            m.programmatically_moving@.len() == 0,
            m.user_dragging_windows@.len() == 0,
    {
        WindowManager {
            windows: Vec::new(),
            current_workspace: 1,
            screen_rect,
            gap,
            layout_manager: LayoutManager::with_layout(layout, split_ratio),
            snap_manager: SnapManager::new(screen_rect, snap_threshold),
            programmatically_moving: Vec::new(),
            user_dragging_windows: Vec::new(),
            previous_window_positions: Vec::new(),
        }
    }

    /// The identifier of the first focused window.
    pub fn get_focused_window_id(&self) -> (r: Option<WindowId>)
        ensures
            r == spec_focused_id(self.windows@),
    {
        let n = self.windows.len();
        proof {
            assert(self.windows@.subrange(0, n as int) =~= self.windows@);
        }
        let mut i: usize = 0;
        while i < n
            invariant
                i <= n,
                n == self.windows@.len(),
                spec_focused_id(self.windows@) == spec_focused_id(
                    self.windows@.subrange(i as int, n as int),
                ),
            decreases n - i,
        {
            proof {
                let rest = self.windows@.subrange(i as int, n as int);
                assert(rest[0] == self.windows@[i as int]);
                assert(rest.subrange(1, rest.len() as int) =~= self.windows@.subrange(
                    i + 1 as int,
                    n as int,
                ));
            }
            if self.windows[i].is_focused {
                return Some(self.windows[i].id);
            }
            i += 1;
        }
        None
    }

    /// How many non-minimized stored windows sit on the workspace.
    fn count_ws(&self, wid: u32) -> (c: usize)
        ensures
            c as int == spec_ws_count(self.windows@, wid),
            c <= self.windows@.len(),
    {
        let n = self.windows.len();
        proof {
            assert(self.windows@.subrange(0, n as int) =~= self.windows@);
        }
        let mut c: usize = 0;
        let mut i: usize = 0;
        while i < n
            invariant
                i <= n,
                c <= i,
                n == self.windows@.len(),
                spec_ws_count(self.windows@, wid) == c + spec_ws_count(
                    self.windows@.subrange(i as int, n as int),
                    wid,
                ),
            decreases n - i,
        {
            proof {
                let rest = self.windows@.subrange(i as int, n as int);
                assert(rest[0] == self.windows@[i as int]);
                assert(rest.subrange(1, rest.len() as int) =~= self.windows@.subrange(
                    i + 1 as int,
                    n as int,
                ));
            }
            let w = &self.windows[i];
            if !w.is_minimized && w.workspace_id == wid {
                c += 1;
            }
            i += 1;
        }
        proof {
            assert(self.windows@.subrange(n as int, n as int) =~= Seq::<Window>::empty());
        }
        c
    }

    /// The effective workspace the engine treats as visible: the focused
    /// window's workspace, else the busiest one, else the last host-reported
    /// one, else workspace one.
    pub fn get_effective_current_workspace(&self) -> (r: u32)
        ensures
            r == spec_effective_workspace(self.windows@, self.current_workspace),
    {
        let n = self.windows.len();
        proof {
            assert(self.windows@.subrange(0, n as int) =~= self.windows@);
        }
        let mut i: usize = 0;
        while i < n
            invariant
                i <= n,
                n == self.windows@.len(),
                spec_focused_ws(self.windows@) == spec_focused_ws(
                    self.windows@.subrange(i as int, n as int),
                ),
            decreases n - i,
        {
            proof {
                let rest = self.windows@.subrange(i as int, n as int);
                assert(rest[0] == self.windows@[i as int]);
                assert(rest.subrange(1, rest.len() as int) =~= self.windows@.subrange(
                    i + 1 as int,
                    n as int,
                ));
            }
            if self.windows[i].is_focused {
                return self.windows[i].workspace_id;
            }
            i += 1;
        }
        // No focused window: elect the busiest workspace.
        let mut best: Option<u32> = None;
        let mut k: usize = 0;
        while k < n
            invariant
                k <= n,
                n == self.windows@.len(),
                spec_best_ws_loop(self.windows@, 0, None) == spec_best_ws_loop(
                    self.windows@,
                    k as int,
                    best,
                ),
            decreases n - k,
        {
            let w = &self.windows[k];
            if !w.is_minimized {
                match best {
                    None => {
                        best = Some(w.workspace_id);
                    },
                    Some(b) => {
                        let cw = self.count_ws(w.workspace_id);
                        let cb = self.count_ws(b);
                        if cw > cb || (cw == cb && w.workspace_id < b) {
                            best = Some(w.workspace_id);
                        }
                    },
                }
            }
            k += 1;
        }
        match best {
            Some(b) => b,
            None => {
                if self.current_workspace != 0 {
                    self.current_workspace
                } else {
                    1
                }
            },
        }
    }

    /// Queue a move back to a remembered rectangle; the move is marked
    /// self-induced before it is handed out.
    fn return_window_to_original(&mut self, window_id: WindowId, original_rect: Rect) -> (r: Vec<
        Action,
    >)
        requires
            old(self).wf(),
            original_rect.wf(),
        ensures
            final(self).wf(),
            final(self).windows@ == old(self).windows@,
            final(self).user_dragging_windows@ == old(self).user_dragging_windows@,
            final(self).snap_manager.window_drag_states@
                == old(self).snap_manager.window_drag_states@,
            final(self).programmatically_moving@.contains(window_id),
            rmap_has(final(self).previous_window_positions@, window_id),
            crate::model::rmap_get(final(self).previous_window_positions@, window_id)
                == original_rect,
            r@.len() == 1,
            r@[0] matches Action::Move(id, rect) && id == window_id && rect == original_rect,
    {
        wid_insert(&mut self.programmatically_moving, window_id);
        rmap_set(&mut self.previous_window_positions, window_id, original_rect);
        let mut out: Vec<Action> = Vec::new();
        out.push(Action::Move(window_id, original_rect));
        out
    }

    /// Queue a swap of two windows' rectangles through the bulk move, both
    /// marked self-induced.
    fn swap_windows(&mut self, first: WindowId, second: WindowId) -> (r: Vec<Action>)
        requires
            old(self).wf(),
        ensures
            final(self).wf(),
            final(self).windows@ == old(self).windows@,
            final(self).user_dragging_windows@ == old(self).user_dragging_windows@,
            final(self).snap_manager.window_drag_states@
                == old(self).snap_manager.window_drag_states@,
            has_id(old(self).windows@, first) && has_id(old(self).windows@, second) && first
                != second ==> {
                &&& final(self).programmatically_moving@.contains(first)
                &&& final(self).programmatically_moving@.contains(second)
                &&& r@.len() == 1
                &&& (r@[0] matches Action::MoveAll(l, _) && l@ == seq![
                    (first, crate::model::rect_of_id(old(self).windows@, second)),
                    (second, crate::model::rect_of_id(old(self).windows@, first)),
                ])
            },
            !(has_id(old(self).windows@, first) && has_id(old(self).windows@, second) && first
                != second) ==> r@.len() == 0,
    {
        let mut out: Vec<Action> = Vec::new();
        if first == second {
            return out;
        }
        let fi = find_window(&self.windows, first);
        let si = find_window(&self.windows, second);
        match (fi, si) {
            (Some(a), Some(b)) => {
                let ra = self.windows[a].rect;
                let rb = self.windows[b].rect;
                wid_insert(&mut self.programmatically_moving, first);
                wid_insert(&mut self.programmatically_moving, second);
                rmap_set(&mut self.previous_window_positions, first, rb);
                rmap_set(&mut self.previous_window_positions, second, ra);
                let mut layouts: Vec<(WindowId, Rect)> = Vec::new();
                layouts.push((first, rb));
                layouts.push((second, ra));
                let mut targets: Vec<Window> = Vec::new();
                targets.push(crate::model::clone_window(&self.windows[a]));
                targets.push(crate::model::clone_window(&self.windows[b]));
                out.push(Action::MoveAll(layouts, targets));
                proof {
                    assert(has_id(self.windows@, first));
                    assert(has_id(self.windows@, second));
                    // The looked-up rectangles are the unique stored ones.
                    let ka = choose|k: int|
                        0 <= k < self.windows@.len() && self.windows@[k].id == first;
                    if ka != a {
                        if ka < a {
                            assert(self.windows@[ka].id != self.windows@[a as int].id);
                        } else {
                            assert(self.windows@[a as int].id != self.windows@[ka].id);
                        }
                    }
                    let kb = choose|k: int|
                        0 <= k < self.windows@.len() && self.windows@[k].id == second;
                    if kb != b {
                        if kb < b {
                            assert(self.windows@[kb].id != self.windows@[b as int].id);
                        } else {
                            assert(self.windows@[b as int].id != self.windows@[kb].id);
                        }
                    }
                    assert(ra == crate::model::rect_of_id(self.windows@, first));
                    assert(rb == crate::model::rect_of_id(self.windows@, second));
                    assert(layouts@ =~= seq![
                        (first, crate::model::rect_of_id(self.windows@, second)),
                        (second, crate::model::rect_of_id(self.windows@, first)),
                    ]);
                }
            },
            _ => {
                proof {
                    if fi is None {
                        assert(!has_id(self.windows@, first));
                    } else {
                        assert(!has_id(self.windows@, second));
                    }
                }
            },
        }
        out
    }

    /// Recompute the active layout for the effective workspace and queue one
    /// bulk move carrying every tile, all targets marked self-induced.
    pub fn apply_layout(&mut self) -> (r: Vec<Action>)
        requires
            old(self).wf(),
        ensures
            final(self).wf(),
            final(self).windows@ == old(self).windows@,
            final(self).current_workspace == old(self).current_workspace,
            final(self).snap_manager.window_drag_states@
                == old(self).snap_manager.window_drag_states@,
            final(self).user_dragging_windows@ == old(self).user_dragging_windows@,
            final(self).previous_window_positions@ == old(self).previous_window_positions@,
            final(self).layout_manager.current_layout == old(self).layout_manager.current_layout,
            final(self).layout_manager.split_ratio == old(self).layout_manager.split_ratio,
            final(self).screen_rect == old(self).screen_rect,
            final(self).gap == old(self).gap,
            spec_relayout_shape(*final(self), r@),
    {
        let eff = self.get_effective_current_workspace();
        let members = workspace_windows(&self.windows, eff);
        let mut out: Vec<Action> = Vec::new();
        if members.len() == 0 {
            return out;
        }
        proof {
            assert(members@.len() <= self.windows@.len());
        }
        let layouts = self.layout_manager.compute_layout(&members, self.screen_rect, self.gap);
        let ghost members_spec = spec_workspace_windows(self.windows@, eff);
        proof {
            assert forall|x: WindowId|
                #[trigger] keyed(layouts@, x) <==> has_id(members_spec, x) by {
                assert(keyed(layouts@, x) <==> has_id(members@, x));
                if has_id(members@, x) {
                    let k = choose|k: int| 0 <= k < members@.len() && members@[k].id == x;
                    assert(crate::model::win_eq(members@[k], members_spec[k]));
                    assert(members_spec[k].id == x);
                }
                if has_id(members_spec, x) {
                    let k = choose|k: int| 0 <= k < members_spec.len() && members_spec[k].id == x;
                    assert(crate::model::win_eq(members@[k], members_spec[k]));
                    assert(members@[k].id == x);
                }
            }
        }
        let ghost lm_after = self.layout_manager;
        proof {
            // The per-mode tile formulas carry over to the workspace's own
            // records: the formulas read only fields copies preserve.
            if self.layout_manager.current_layout != LayoutType::BSP {
                assert forall|k: int|
                    0 <= k < layouts@.len() implies (#[trigger] layouts@[k]) == (
                    members_spec[k].id,
                    crate::layout::spec_mode_tile(
                        self.layout_manager.current_layout,
                        k,
                        members_spec.len() as int,
                        members_spec,
                        self.screen_rect,
                        self.gap as int,
                        self.layout_manager.split_ratio as int,
                    ),
                ) by {
                    assert(crate::model::win_eq(members@[k], members_spec[k]));
                    assert(crate::layout::spec_mode_tile(
                        self.layout_manager.current_layout,
                        k,
                        members@.len() as int,
                        members@,
                        self.screen_rect,
                        self.gap as int,
                        self.layout_manager.split_ratio as int,
                    ) == crate::layout::spec_mode_tile(
                        self.layout_manager.current_layout,
                        k,
                        members_spec.len() as int,
                        members_spec,
                        self.screen_rect,
                        self.gap as int,
                        self.layout_manager.split_ratio as int,
                    ));
                }
            }
            if self.layout_manager.current_layout == LayoutType::BSP {
                match &self.layout_manager.bsp_root {
                    Some(t) => {
                        assert forall|x: WindowId|
                            #[trigger] t.spec_contains(x) <==> has_id(members_spec, x) by {
                            assert(t.spec_contains(x) <==> has_id(members@, x));
                            if has_id(members@, x) {
                                let k = choose|k: int|
                                    0 <= k < members@.len() && members@[k].id == x;
                                assert(crate::model::win_eq(members@[k], members_spec[k]));
                                assert(members_spec[k].id == x);
                            }
                            if has_id(members_spec, x) {
                                let k = choose|k: int|
                                    0 <= k < members_spec.len() && members_spec[k].id == x;
                                assert(crate::model::win_eq(members@[k], members_spec[k]));
                                assert(members@[k].id == x);
                            }
                        }
                    },
                    None => {},
                }
            }
        }
        let n = layouts.len();
        let mut i: usize = 0;
        while i < n
            invariant
                i <= n,
                n == layouts@.len(),
                self.wf(),
                self.windows@ == old(self).windows@,
                self.current_workspace == old(self).current_workspace,
                self.screen_rect == old(self).screen_rect,
                self.gap == old(self).gap,
                self.snap_manager.window_drag_states@ == old(
                    self,
                ).snap_manager.window_drag_states@,
                self.user_dragging_windows@ == old(self).user_dragging_windows@,
                self.previous_window_positions@ == old(self).previous_window_positions@,
                self.layout_manager == lm_after,
                lm_after.current_layout == old(self).layout_manager.current_layout,
                lm_after.split_ratio == old(self).layout_manager.split_ratio,
                members_spec == spec_workspace_windows(old(self).windows@, eff as u32),
                eff == spec_effective_workspace(old(self).windows@, old(self).current_workspace),
                members_spec.len() > 0,
                win_seq_eq(members@, members_spec),
                forall|x: WindowId| #[trigger] keyed(layouts@, x) <==> has_id(members_spec, x),
                lm_after.current_layout != LayoutType::BSP ==> (layouts@.len()
                    == members_spec.len() && forall|k: int|
                    0 <= k < layouts@.len() ==> (#[trigger] layouts@[k]) == (
                        members_spec[k].id,
                        crate::layout::spec_mode_tile(
                            lm_after.current_layout,
                            k,
                            members_spec.len() as int,
                            members_spec,
                            self.screen_rect,
                            self.gap as int,
                            lm_after.split_ratio as int,
                        ),
                    )),
                lm_after.current_layout == LayoutType::BSP ==> match lm_after.bsp_root {
                    Some(t) => {
                        &&& t.tiles(self.screen_rect)
                        &&& t.wf()
                        &&& t.spec_distinct()
                        &&& layouts@ == t.spec_tiles(self.gap as int)
                        &&& forall|x: WindowId|
                            #[trigger] t.spec_contains(x) <==> has_id(members_spec, x)
                    },
                    None => false,
                },
                forall|k: int|
                    0 <= k < i ==> self.programmatically_moving@.contains(
                        (#[trigger] layouts@[k]).0,
                    ),
            decreases n - i,
        {
            let ghost pm = self.programmatically_moving@;
            wid_insert(&mut self.programmatically_moving, layouts[i].0);
            proof {
                assert forall|k: int|
                    0 <= k < i + 1 implies self.programmatically_moving@.contains(
                    (#[trigger] layouts@[k]).0,
                ) by {
                    if k < i {
                        assert(pm.contains(layouts@[k].0));
                    }
                }
            }
            i += 1;
        }
        out.push(Action::MoveAll(layouts, members));
        out
    }
}


/// What must hold of an incoming event for the engine to accept it: any
/// rectangle it carries lies in the coordinate box.
pub open spec fn event_wf(e: WindowEvent) -> bool {
    match e {
        WindowEvent::WindowCreated(w) => w.wf(),
        WindowEvent::WindowMoved(_, r) => r.wf(),
        WindowEvent::WindowResized(_, r) => r.wf(),
        _ => true,
    }
}

impl WindowManager {
    /// A window newly reported by the host: adopt it (an identifier already
    /// tracked, or a full table, leaves the model unchanged) and re-apply the
    /// layout.
    fn on_window_created(&mut self, w: Window) -> (r: Vec<Action>)
        requires
            old(self).wf(),
            w.wf(),
        ensures
            final(self).wf(),
            (has_id(old(self).windows@, w.id) || old(self).windows@.len() >= 65536)
                ==> final(self).windows@ == old(self).windows@,
            (!has_id(old(self).windows@, w.id) && old(self).windows@.len() < 65536)
                ==> (final(self).windows@ == old(self).windows@.push(w) && rmap_has(
                final(self).previous_window_positions@,
                w.id,
            ) && crate::model::rmap_get(final(self).previous_window_positions@, w.id) == w.rect),
            old(self).windows@.len() >= 65536 ==> r@.len() == 0,
            old(self).windows@.len() < 65536 ==> spec_relayout_shape(*final(self), r@),
    {
        if self.windows.len() >= 65536 {
            // The engine refuses to track more windows than fit its
            // coordinate-sized bound; the next snapshot reconciles.
            return Vec::new();
        }
        if find_window(&self.windows, w.id).is_none() {
            let ghost orig = self.windows@;
            let ghost wid = w.id;
            let ghost wrect = w.rect;
            rmap_set(&mut self.previous_window_positions, w.id, w.rect);
            self.windows.push(w);
            proof {
                assert(self.windows@ == orig.push(self.windows@.last()));
                assert(rmap_has(self.previous_window_positions@, wid));
                assert(crate::model::rmap_get(self.previous_window_positions@, wid) == wrect);
                assert forall|a: int, b: int|
                    0 <= a < b < self.windows@.len() implies self.windows@[a].id
                    != self.windows@[b].id by {
                    if b == self.windows@.len() - 1 {
                        assert(self.windows@[a] == orig[a]);
                        assert(!has_id(orig, self.windows@[b].id));
                    }
                }
                assert forall|j: int|
                    0 <= j < self.windows@.len() implies (#[trigger] self.windows@[j]).wf() by {
                    if j < self.windows@.len() - 1 {
                        assert(self.windows@[j] == orig[j]);
                    }
                }
            }
        }
        self.apply_layout()
    }

    /// A window the host no longer reports: drop it and re-apply the layout.
    fn on_window_destroyed(&mut self, id: WindowId) -> (r: Vec<Action>)
        requires
            old(self).wf(),
        ensures
            final(self).wf(),
            !has_id(final(self).windows@, id),
            !has_id(old(self).windows@, id) ==> (final(self).windows@ == old(self).windows@
                && r@.len() == 0),
            has_id(old(self).windows@, id) ==> ((exists|k: int|
                0 <= k < old(self).windows@.len() && (#[trigger] old(self).windows@[k]).id == id
                    && final(self).windows@ == old(self).windows@.remove(k))
                && spec_relayout_shape(*final(self), r@)),
    {
        let ghost orig = self.windows@;
        match find_window(&self.windows, id) {
            Some(i) => {
                let _ = self.windows.remove(i);
                self.layout_manager.remove_window(id, self.screen_rect);
                proof {
                    let out = self.windows@;
                    assert(out =~= orig.remove(i as int));
                    assert forall|a: int, b: int|
                        0 <= a < b < out.len() implies out[a].id != out[b].id by {
                        let oa = if a < i { a } else { a + 1 };
                        let ob = if b < i { b } else { b + 1 };
                        assert(out[a] == orig[oa]);
                        assert(out[b] == orig[ob]);
                    }
                    assert forall|j: int|
                        0 <= j < out.len() implies (#[trigger] out[j]).wf() by {
                        let oj = if j < i { j } else { j + 1 };
                        assert(out[j] == orig[oj]);
                    }
                    assert forall|k: int|
                        0 <= k < out.len() implies out[k].id != id by {
                        let ok = if k < i { k } else { k + 1 };
                        assert(out[k] == orig[ok]);
                        if out[k].id == id {
                            if ok < i {
                                assert(orig[ok].id != orig[i as int].id);
                            } else {
                                assert(orig[i as int].id != orig[ok].id);
                            }
                        }
                    }
                    assert(orig[i as int].id == id && self.windows@ == orig.remove(i as int));
                }
                self.apply_layout()
            },
            None => Vec::new(),
        }
    }

    /// What an unsolicited move decides, over the engine's own state: the
    /// stored rectangle is updated first, and the move is then treated as
    /// the end of a single-shot drag whose initial rectangle is the
    /// previously stored position.
    pub open spec fn spec_unsolicited_decision(self, window_id: WindowId, new_rect: Rect)
        -> DragResult {
        let prev = crate::model::rmap_get(self.previous_window_positions@, window_id);
        let ws1 = spec_set_rect(self.windows@, window_id, new_rect);
        let members = spec_workspace_windows(
            ws1,
            spec_effective_workspace(ws1, self.current_workspace),
        );
        crate::snap::spec_drag_decision(
            crate::snap::WindowDragState {
                window_id,
                initial_rect: prev,
                is_dragging: true,
                drag_start_ms: 0,
            },
            self.snap_manager.screen_rect,
            self.snap_manager.snap_threshold as int,
            window_id,
            new_rect,
            members,
            crate::snap::MIN_DRAG_MS,
        )
    }

    /// An unsolicited rectangle change: record it, then treat it as the end
    /// of a single-shot drag with the previously stored rectangle as the
    /// drag's origin, settled through the snap decision procedure.
    #[verifier::rlimit(50)]
    fn handle_immediate_window_positioning(&mut self, window_id: WindowId, new_rect: Rect) -> (r:
        Vec<Action>)
        requires
            old(self).wf(),
            new_rect.wf(),
        ensures
            final(self).wf(),
            final(self).windows@ == spec_set_rect(old(self).windows@, window_id, new_rect),
            final(self).user_dragging_windows@ == old(self).user_dragging_windows@,
            final(self).snap_manager.window_drag_states@
                == old(self).snap_manager.window_drag_states@,
            rmap_has(final(self).previous_window_positions@, window_id),
            // A window never seen before only has its position recorded.
            !rmap_has(old(self).previous_window_positions@, window_id) ==> (r@.len() == 0
                && crate::model::rmap_get(final(self).previous_window_positions@, window_id)
                == new_rect),
            // A known window's move runs through the single-shot decision.
            rmap_has(old(self).previous_window_positions@, window_id) ==> match old(
                self,
            ).spec_unsolicited_decision(window_id, new_rect) {
                DragResult::SnapToZone(sr) => if sr.wf() {
                    r@.len() == 1 && (r@[0] matches Action::Move(m, mr) && m == window_id && mr
                        == sr) && final(self).programmatically_moving@.contains(window_id)
                        && crate::model::rmap_get(
                        final(self).previous_window_positions@,
                        window_id,
                    ) == sr
                } else {
                    r@.len() == 0
                },
                DragResult::SwapWithWindow(t, _) => if has_id(
                    spec_set_rect(old(self).windows@, window_id, new_rect),
                    t,
                ) && has_id(old(self).windows@, window_id) && t != window_id {
                    r@.len() == 1 && final(self).programmatically_moving@.contains(window_id)
                        && final(self).programmatically_moving@.contains(t) && (r@[0] matches
                    Action::MoveAll(l, _) && l@ == seq![
                        (
                            window_id,
                            crate::model::rect_of_id(
                                spec_set_rect(old(self).windows@, window_id, new_rect),
                                t,
                            ),
                        ),
                        (t, crate::model::rmap_get(old(self).previous_window_positions@, window_id)),
                    ])
                } else {
                    r@.len() == 0
                },
                DragResult::ReturnToOriginal(orig) => r@.len() == 1 && (r@[0] matches
                    Action::Move(m, mr) && m == window_id && mr == orig)
                    && final(self).programmatically_moving@.contains(window_id)
                    && crate::model::rmap_get(
                    final(self).previous_window_positions@,
                    window_id,
                ) == orig,
                DragResult::NoAction => false,
            },
    {
        let prev = rmap_lookup(&self.previous_window_positions, window_id);
        rmap_set(&mut self.previous_window_positions, window_id, new_rect);
        set_window_rect(&mut self.windows, window_id, new_rect);
        proof {
            assert(self.windows@ =~= spec_set_rect(old(self).windows@, window_id, new_rect));
        }
        let prev_rect = match prev {
            Some(p) => p,
            None => {
                // First sighting: only record the position.
                return Vec::new();
            },
        };
        proof {
            // Every stored previous position is well formed.
            let states = old(self).previous_window_positions@;
            let k = choose|k: int| 0 <= k < states.len() && states[k].0 == window_id;
            assert(states[k].1.wf());
        }
        let eff = self.get_effective_current_workspace();
        let members = workspace_windows(&self.windows, eff);
        let ghost members_spec = spec_workspace_windows(self.windows@, eff as u32);
        let decision = self.snap_manager.decide_single_shot(
            window_id,
            prev_rect,
            new_rect,
            &members,
        );
        proof {
            crate::snap::lemma_drag_decision_eq(
                crate::snap::WindowDragState {
                    window_id,
                    initial_rect: prev_rect,
                    is_dragging: true,
                    drag_start_ms: 0,
                },
                self.snap_manager.screen_rect,
                self.snap_manager.snap_threshold as int,
                window_id,
                new_rect,
                members@,
                members_spec,
                crate::snap::MIN_DRAG_MS,
            );
            assert(decision == old(self).spec_unsolicited_decision(window_id, new_rect));
        }
        match decision {
            DragResult::SnapToZone(snap_rect) => {
                if snap_rect.is_wf() {
                    wid_insert(&mut self.programmatically_moving, window_id);
                    rmap_set(&mut self.previous_window_positions, window_id, snap_rect);
                    let mut out: Vec<Action> = Vec::new();
                    out.push(Action::Move(window_id, snap_rect));
                    proof {
                        assert(rmap_has(self.previous_window_positions@, window_id));
                        assert(crate::model::rmap_get(
                            self.previous_window_positions@,
                            window_id,
                        ) == snap_rect);
                    }
                    out
                } else {
                    proof {
                        assert(rmap_has(self.previous_window_positions@, window_id));
                    }
                    Vec::new()
                }
            },
            DragResult::SwapWithWindow(target, original_rect) => {
                proof {
                    assert(original_rect == prev_rect);
                    assert(rmap_has(self.previous_window_positions@, window_id));
                    // Identifiers survive the rectangle update.
                    assert forall|x: WindowId|
                        #[trigger] has_id(self.windows@, x) == has_id(old(self).windows@, x) by {
                        if has_id(self.windows@, x) {
                            let k = choose|k: int|
                                0 <= k < self.windows@.len() && self.windows@[k].id == x;
                            assert(old(self).windows@[k].id == x);
                        }
                        if has_id(old(self).windows@, x) {
                            let k = choose|k: int|
                                0 <= k < old(self).windows@.len() && old(self).windows@[k].id
                                    == x;
                            assert(self.windows@[k].id == x);
                        }
                    }
                }
                let acts = self.swap_windows_with_rects(window_id, target, original_rect);
                proof {
                    assert(rmap_has(self.previous_window_positions@, window_id));
                }
                acts
            },
            DragResult::ReturnToOriginal(original_rect) => {
                proof {
                    assert(original_rect == prev_rect);
                }
                let acts = self.return_window_to_original(window_id, original_rect);
                proof {
                    assert(rmap_has(self.previous_window_positions@, window_id));
                    assert(crate::model::rmap_get(self.previous_window_positions@, window_id)
                        == original_rect);
                }
                acts
            },
            DragResult::NoAction => Vec::new(),
        }
    }

    /// A rectangle change reported by the host, classified: a move the
    /// engine itself issued is absorbed silently; motion during a tracked
    /// user drag only updates the stored rectangle; anything else is an
    /// unsolicited user move, arbitrated at once.
    pub fn on_window_moved(&mut self, id: WindowId, new_rect: Rect) -> (r: Vec<Action>)
        requires
            old(self).wf(),
            new_rect.wf(),
        ensures
            final(self).wf(),
            // A self-induced move is absorbed silently: the stored rectangle
            // and the remembered position take the reported value, the mark
            // is cleared, and nothing else reacts.
            old(self).programmatically_moving@.contains(id) ==> {
                &&& r@.len() == 0
                &&& !final(self).programmatically_moving@.contains(id)
                &&& final(self).windows@ == spec_set_rect(old(self).windows@, id, new_rect)
                &&& rmap_has(final(self).previous_window_positions@, id)
                &&& crate::model::rmap_get(final(self).previous_window_positions@, id) == new_rect
                &&& final(self).snap_manager.window_drag_states@
                    == old(self).snap_manager.window_drag_states@
                &&& final(self).user_dragging_windows@ == old(self).user_dragging_windows@
            },
            // Motion during a tracked drag updates the stored rectangle and
            // the remembered position, leaves the drag state intact, and
            // produces no reaction.
            (!old(self).programmatically_moving@.contains(id)
                && old(self).user_dragging_windows@.contains(id)) ==> {
                &&& r@.len() == 0
                &&& final(self).windows@ == spec_set_rect(old(self).windows@, id, new_rect)
                &&& rmap_has(final(self).previous_window_positions@, id)
                &&& crate::model::rmap_get(final(self).previous_window_positions@, id) == new_rect
                &&& final(self).snap_manager.window_drag_states@
                    == old(self).snap_manager.window_drag_states@
                &&& final(self).user_dragging_windows@ == old(self).user_dragging_windows@
                &&& final(self).programmatically_moving@ == old(self).programmatically_moving@
            },
            // Anything else is an unsolicited user move, arbitrated at once.
            (!old(self).programmatically_moving@.contains(id)
                && !old(self).user_dragging_windows@.contains(id)) ==> {
                &&& final(self).windows@ == spec_set_rect(old(self).windows@, id, new_rect)
                &&& rmap_has(final(self).previous_window_positions@, id)
                &&& (rmap_has(old(self).previous_window_positions@, id) ==> match old(
                    self,
                ).spec_unsolicited_decision(id, new_rect) {
                    DragResult::SnapToZone(sr) => sr.wf() ==> (r@.len() == 1 && (r@[0] matches
                        Action::Move(m, mr) && m == id && mr == sr)
                        && final(self).programmatically_moving@.contains(id)),
                    DragResult::ReturnToOriginal(orig) => r@.len() == 1 && (r@[0] matches
                        Action::Move(m, mr) && m == id && mr == orig)
                        && final(self).programmatically_moving@.contains(id),
                    DragResult::SwapWithWindow(t, _) => (has_id(
                        spec_set_rect(old(self).windows@, id, new_rect),
                        t,
                    ) && has_id(old(self).windows@, id) && t != id) ==> (r@.len() == 1
                        && final(self).programmatically_moving@.contains(id)
                        && final(self).programmatically_moving@.contains(t)),
                    DragResult::NoAction => false,
                })
                &&& (!rmap_has(old(self).previous_window_positions@, id) ==> r@.len() == 0)
            },
    {
        if wid_contains(&self.programmatically_moving, id) {
            wid_remove(&mut self.programmatically_moving, id);
            set_window_rect(&mut self.windows, id, new_rect);
            rmap_set(&mut self.previous_window_positions, id, new_rect);
            proof {
                assert(self.windows@ =~= spec_set_rect(old(self).windows@, id, new_rect));
            }
            Vec::new()
        } else if wid_contains(&self.user_dragging_windows, id) {
            set_window_rect(&mut self.windows, id, new_rect);
            rmap_set(&mut self.previous_window_positions, id, new_rect);
            proof {
                assert(self.windows@ =~= spec_set_rect(old(self).windows@, id, new_rect));
            }
            Vec::new()
        } else {
            self.handle_immediate_window_positioning(id, new_rect)
        }
    }

    /// Dispatch one host event.
    pub fn handle_window_event(&mut self, event: WindowEvent) -> (r: Vec<Action>)
        requires
            old(self).wf(),
            event_wf(event),
        ensures
            final(self).wf(),
            match event {
                WindowEvent::WindowMoved(id, rect) => {
                    // A self-induced move is absorbed silently; in-drag
                    // motion only updates the record; both leave the snap
                    // engine untouched.
                    &&& (old(self).programmatically_moving@.contains(id) ==> (r@.len() == 0
                        && !final(self).programmatically_moving@.contains(id)
                        && final(self).windows@ == spec_set_rect(old(self).windows@, id, rect)
                        && crate::model::rmap_get(final(self).previous_window_positions@, id)
                        == rect && final(self).snap_manager.window_drag_states@
                        == old(self).snap_manager.window_drag_states@))
                    &&& ((!old(self).programmatically_moving@.contains(id)
                        && old(self).user_dragging_windows@.contains(id)) ==> (r@.len() == 0
                        && final(self).windows@ == spec_set_rect(old(self).windows@, id, rect)
                        && crate::model::rmap_get(final(self).previous_window_positions@, id)
                        == rect && final(self).snap_manager.window_drag_states@
                        == old(self).snap_manager.window_drag_states@))
                    &&& ((!old(self).programmatically_moving@.contains(id)
                        && !old(self).user_dragging_windows@.contains(id))
                        ==> final(self).windows@ == spec_set_rect(old(self).windows@, id, rect))
                },
                WindowEvent::WindowCreated(w) => {
                    &&& ((has_id(old(self).windows@, w.id) || old(self).windows@.len() >= 65536)
                        ==> final(self).windows@ == old(self).windows@)
                    &&& ((!has_id(old(self).windows@, w.id) && old(self).windows@.len() < 65536)
                        ==> final(self).windows@ == old(self).windows@.push(w))
                    &&& (old(self).windows@.len() < 65536 ==> spec_relayout_shape(
                        *final(self),
                        r@,
                    ))
                },
                WindowEvent::WindowDestroyed(id) => {
                    &&& !has_id(final(self).windows@, id)
                    &&& (!has_id(old(self).windows@, id)
                        ==> (final(self).windows@ == old(self).windows@ && r@.len() == 0))
                    &&& (has_id(old(self).windows@, id) ==> ((exists|k: int|
                        0 <= k < old(self).windows@.len()
                            && (#[trigger] old(self).windows@[k]).id == id
                            && final(self).windows@ == old(self).windows@.remove(k))
                        && spec_relayout_shape(*final(self), r@)))
                },
                WindowEvent::WindowResized(id, rect) => final(self).windows@ == spec_set_rect(
                    old(self).windows@,
                    id,
                    rect,
                ) && r@.len() == 0,
                WindowEvent::WindowFocused(id) => final(self).windows@ == spec_set_focused_seq(
                    old(self).windows@,
                    id,
                ) && r@.len() == 0,
                WindowEvent::WindowMinimized(id) => final(self).windows@
                    == spec_set_minimized_seq(old(self).windows@, id, true)
                    && spec_relayout_shape(*final(self), r@),
                WindowEvent::WindowUnminimized(id) => final(self).windows@
                    == spec_set_minimized_seq(old(self).windows@, id, false)
                    && spec_relayout_shape(*final(self), r@),
                WindowEvent::WorkspaceChanged(ws) => final(self).current_workspace == ws
                    && final(self).windows@ == old(self).windows@ && r@.len() == 0,
            },
    {
        match event {
            WindowEvent::WindowCreated(w) => self.on_window_created(w),
            WindowEvent::WindowDestroyed(id) => self.on_window_destroyed(id),
            WindowEvent::WindowMoved(id, rect) => self.on_window_moved(id, rect),
            WindowEvent::WindowResized(id, rect) => {
                set_window_rect(&mut self.windows, id, rect);
                proof {
                    assert(self.windows@ =~= spec_set_rect(old(self).windows@, id, rect));
                }
                Vec::new()
            },
            WindowEvent::WindowFocused(id) => {
                set_focused(&mut self.windows, id);
                proof {
                    assert(self.windows@ =~= spec_set_focused_seq(old(self).windows@, id));
                }
                Vec::new()
            },
            WindowEvent::WindowMinimized(id) => {
                set_minimized(&mut self.windows, id, true);
                proof {
                    assert(self.windows@ =~= spec_set_minimized_seq(old(self).windows@, id, true));
                }
                self.apply_layout()
            },
            WindowEvent::WindowUnminimized(id) => {
                set_minimized(&mut self.windows, id, false);
                proof {
                    assert(self.windows@ =~= spec_set_minimized_seq(
                        old(self).windows@,
                        id,
                        false,
                    ));
                }
                self.apply_layout()
            },
            WindowEvent::WorkspaceChanged(ws) => {
                self.current_workspace = ws;
                Vec::new()
            },
        }
    }
}


/// The window list after one stored rectangle is replaced.
pub open spec fn spec_set_rect(ws: Seq<Window>, id: WindowId, rect: Rect) -> Seq<Window> {
    Seq::new(
        ws.len(),
        |j: int|
            if ws[j].id == id {
                Window { rect, ..ws[j] }
            } else {
                ws[j]
            },
    )
}

/// The window list after the focus moves to one window.
pub open spec fn spec_set_focused_seq(ws: Seq<Window>, id: WindowId) -> Seq<Window> {
    Seq::new(ws.len(), |j: int| Window { is_focused: ws[j].id == id, ..ws[j] })
}

/// The window list after one minimized flag is flipped.
pub open spec fn spec_set_minimized_seq(ws: Seq<Window>, id: WindowId, minimized: bool) -> Seq<
    Window,
> {
    Seq::new(
        ws.len(),
        |j: int|
            if ws[j].id == id {
                Window { is_minimized: minimized, ..ws[j] }
            } else {
                ws[j]
            },
    )
}

/// A snapshot with duplicate identifiers dropped, keeping the first record
/// of each: the fold the adoption loop performs.
pub open spec fn spec_dedup_acc(seen: Seq<Window>, rest: Seq<Window>) -> Seq<Window>
    decreases rest.len(),
{
    if rest.len() == 0 {
        seen
    } else if has_id(seen, rest[0].id) {
        spec_dedup_acc(seen, rest.subrange(1, rest.len() as int))
    } else {
        spec_dedup_acc(seen.push(rest[0]), rest.subrange(1, rest.len() as int))
    }
}

pub open spec fn spec_dedup(ws: Seq<Window>) -> Seq<Window> {
    spec_dedup_acc(Seq::empty(), ws)
}

/// What a full re-layout leaves behind, read off the state after the call:
/// no action when the effective workspace is empty, else one bulk move whose
/// entries key exactly the workspace's windows, whose targets are those
/// windows, all marked self-moving — and whose rectangles are the active
/// mode's tile formula, or the synchronized BSP tree's tiles.
pub open spec fn spec_relayout_shape(post: WindowManager, r: Seq<Action>) -> bool {
    let eff = spec_effective_workspace(post.windows@, post.current_workspace);
    let members = spec_workspace_windows(post.windows@, eff);
    let mode = post.layout_manager.current_layout;
    if members.len() == 0 {
        r.len() == 0
    } else {
        r.len() == 1 && (r[0] matches Action::MoveAll(layouts, targets) && {
            &&& forall|x: WindowId| #[trigger] keyed(layouts@, x) <==> has_id(members, x)
            &&& win_seq_eq(targets@, members)
            &&& forall|k: int|
                0 <= k < layouts@.len() ==> post.programmatically_moving@.contains(
                    (#[trigger] layouts@[k]).0,
                )
            &&& (mode != LayoutType::BSP ==> (layouts@.len() == members.len() && forall|k: int|
                0 <= k < layouts@.len() ==> (#[trigger] layouts@[k]) == (
                    members[k].id,
                    crate::layout::spec_mode_tile(
                        mode,
                        k,
                        members.len() as int,
                        members,
                        post.screen_rect,
                        post.gap as int,
                        post.layout_manager.split_ratio as int,
                    ),
                )))
            &&& (mode == LayoutType::BSP ==> match post.layout_manager.bsp_root {
                Some(t) => {
                    &&& t.tiles(post.screen_rect)
                    &&& t.wf()
                    &&& t.spec_distinct()
                    &&& layouts@ == t.spec_tiles(post.gap as int)
                    &&& forall|x: WindowId| #[trigger] t.spec_contains(x) <==> has_id(members, x)
                },
                None => false,
            })
        })
    }
}

/// The focus-module direction matching a hotkey direction.
pub fn to_focus_direction(d: Direction) -> (r: crate::focus::FocusDirection)
    ensures
        r == match d {
            Direction::Left => crate::focus::FocusDirection::Left,
            Direction::Right => crate::focus::FocusDirection::Right,
            Direction::Up => crate::focus::FocusDirection::Up,
            Direction::Down => crate::focus::FocusDirection::Down,
        },
{
    match d {
        Direction::Left => crate::focus::FocusDirection::Left,
        Direction::Right => crate::focus::FocusDirection::Right,
        Direction::Up => crate::focus::FocusDirection::Up,
        Direction::Down => crate::focus::FocusDirection::Down,
    }
}

/// What must hold of an incoming command: any rectangle it carries lies in
/// the coordinate box.
pub open spec fn command_wf(c: Command) -> bool {
    match c {
        Command::MoveWindow(_, r) => r.wf(),
        _ => true,
    }
}

/// What must hold of a drag event.
pub open spec fn drag_event_wf(e: WindowDragEvent) -> bool {
    match e {
        WindowDragEvent::DragStarted { initial_rect, .. } => initial_rect.wf(),
        WindowDragEvent::DragEnded { final_rect, .. } => final_rect.wf(),
    }
}

impl WindowManager {
    /// The window the focused window would trade places with in a direction:
    /// the directional pick over the effective workspace's windows, seen
    /// from the focused window's centre.
    pub open spec fn spec_direction_target(self, direction: Direction) -> Option<WindowId> {
        match spec_focused_win(self.windows@) {
            None => None,
            Some(fw) => crate::focus::spec_pick_dir(
                spec_workspace_windows(
                    self.windows@,
                    spec_effective_workspace(self.windows@, self.current_workspace),
                ),
                fw.id,
                crate::focus::spec_center_x(fw),
                crate::focus::spec_center_y(fw),
                match direction {
                    Direction::Left => crate::focus::FocusDirection::Left,
                    Direction::Right => crate::focus::FocusDirection::Right,
                    Direction::Up => crate::focus::FocusDirection::Up,
                    Direction::Down => crate::focus::FocusDirection::Down,
                },
            ),
        }
    }

    /// The window the focused window would trade places with in a direction.
    fn find_window_in_direction(&self, direction: Direction) -> (r: Option<WindowId>)
        requires
            self.wf(),
        ensures
            r == self.spec_direction_target(direction),
            match r {
                Some(t) => has_id(self.windows@, t),
                None => true,
            },
    {
        proof {
            lemma_focused_win_member(self.windows@);
        }
        let focused = match self.get_focused_window_id() {
            Some(f) => f,
            None => {
                return None;
            },
        };
        let fi = match find_window(&self.windows, focused) {
            Some(i) => i,
            None => {
                proof {
                    let fw = spec_focused_win(self.windows@).unwrap();
                    let k = choose|k: int|
                        0 <= k < self.windows@.len() && #[trigger] self.windows@[k] == fw;
                    assert(has_id(self.windows@, focused));
                }
                return None;
            },
        };
        proof {
            // The record at the found index is the focused window itself:
            // identifiers are unique.
            let fw = spec_focused_win(self.windows@).unwrap();
            let k = choose|k: int|
                0 <= k < self.windows@.len() && #[trigger] self.windows@[k] == fw;
            if k != fi {
                if k < fi {
                    assert(self.windows@[k].id != self.windows@[fi as int].id);
                } else {
                    assert(self.windows@[fi as int].id != self.windows@[k].id);
                }
            }
            assert(self.windows@[fi as int] == fw);
        }
        let (fx, fy) = self.windows[fi].rect.center();
        let eff = self.get_effective_current_workspace();
        let members = workspace_windows(&self.windows, eff);
        let fd = to_focus_direction(direction);
        let picked = crate::focus::find_window_in_direction(&members, focused, fx, fy, fd);
        proof {
            crate::focus::lemma_pick_dir_eq(
                members@,
                spec_workspace_windows(
                    self.windows@,
                    spec_effective_workspace(self.windows@, self.current_workspace),
                ),
                focused,
                fx as int,
                fy as int,
                fd,
            );
        }
        match picked {
            Some(t) => {
                proof {
                    lemma_pick_loop_member(
                        members@,
                        0,
                        None,
                        focused,
                        fx as int,
                        fy as int,
                        fd,
                    );
                    let k = choose|k: int| 0 <= k < members@.len() && members@[k].id == t;
                }
                Some(t)
            },
            None => None,
        }
    }

    /// Queue a swap between a dragged window and a swap target: the target
    /// takes the dragged window's pre-drag rectangle, the dragged window
    /// takes the target's current one, both marked self-induced.
    #[verifier::rlimit(50)]
    fn swap_windows_with_rects(
        &mut self,
        dragged: WindowId,
        target: WindowId,
        original_rect: Rect,
    ) -> (r: Vec<Action>)
        requires
            old(self).wf(),
            original_rect.wf(),
        ensures
            final(self).wf(),
            final(self).windows@ == old(self).windows@,
            final(self).user_dragging_windows@ == old(self).user_dragging_windows@,
            final(self).snap_manager.window_drag_states@
                == old(self).snap_manager.window_drag_states@,
            has_id(old(self).windows@, dragged) && has_id(old(self).windows@, target) && dragged
                != target ==> {
                &&& r@.len() == 1
                &&& final(self).programmatically_moving@.contains(dragged)
                &&& final(self).programmatically_moving@.contains(target)
                &&& (r@[0] matches Action::MoveAll(l, _) && l@ == seq![
                    (dragged, crate::model::rect_of_id(old(self).windows@, target)),
                    (target, original_rect),
                ])
                &&& rmap_has(final(self).previous_window_positions@, dragged)
                &&& crate::model::rmap_get(final(self).previous_window_positions@, dragged)
                    == crate::model::rect_of_id(old(self).windows@, target)
            },
            !(has_id(old(self).windows@, dragged) && has_id(old(self).windows@, target) && dragged
                != target) ==> (r@.len() == 0 && final(self).previous_window_positions@
                == old(self).previous_window_positions@),
    {
        let mut out: Vec<Action> = Vec::new();
        if dragged == target {
            return out;
        }
        let di = find_window(&self.windows, dragged);
        let ti = find_window(&self.windows, target);
        match (di, ti) {
            (Some(a), Some(b)) => {
                let target_rect = self.windows[b].rect;
                wid_insert(&mut self.programmatically_moving, dragged);
                wid_insert(&mut self.programmatically_moving, target);
                rmap_set(&mut self.previous_window_positions, dragged, target_rect);
                rmap_set(&mut self.previous_window_positions, target, original_rect);
                proof {
                    assert(rmap_has(self.previous_window_positions@, dragged));
                    assert(crate::model::rmap_get(self.previous_window_positions@, dragged)
                        == target_rect);
                }
                let mut layouts: Vec<(WindowId, Rect)> = Vec::new();
                layouts.push((dragged, target_rect));
                layouts.push((target, original_rect));
                let mut targets: Vec<Window> = Vec::new();
                targets.push(crate::model::clone_window(&self.windows[a]));
                targets.push(crate::model::clone_window(&self.windows[b]));
                out.push(Action::MoveAll(layouts, targets));
                proof {
                    assert(has_id(self.windows@, dragged));
                    assert(has_id(self.windows@, target));
                    assert(rmap_has(self.previous_window_positions@, dragged));
                    assert(crate::model::rmap_get(self.previous_window_positions@, dragged)
                        == target_rect);
                    // The looked-up rectangle is the unique stored one.
                    let kb = choose|k: int|
                        0 <= k < self.windows@.len() && self.windows@[k].id == target;
                    if kb != b {
                        if kb < b {
                            assert(self.windows@[kb].id != self.windows@[b as int].id);
                        } else {
                            assert(self.windows@[b as int].id != self.windows@[kb].id);
                        }
                    }
                    assert(target_rect == crate::model::rect_of_id(self.windows@, target));
                    assert(layouts@ =~= seq![
                        (dragged, crate::model::rect_of_id(self.windows@, target)),
                        (target, original_rect),
                    ]);
                }
            },
            _ => {
                proof {
                    if di is None {
                        assert(!has_id(self.windows@, dragged));
                    } else {
                        assert(!has_id(self.windows@, target));
                    }
                }
            },
        }
        out
    }

    /// Serve one command.
    pub fn handle_command(&mut self, command: Command) -> (r: Vec<Action>)
        requires
            old(self).wf(),
            command_wf(command),
        ensures
            final(self).wf(),
            match command {
                Command::FocusWindow(id) => if has_id(old(self).windows@, id) {
                    r@.len() == 1 && (r@[0] matches Action::Focus(f) && f == id)
                } else {
                    r@.len() == 0
                },
                Command::CloseWindow(id) => if has_id(old(self).windows@, id) {
                    r@.len() == 1 && (r@[0] matches Action::Close(f) && f == id)
                } else {
                    r@.len() == 0
                },
                Command::MoveWindow(id, rect) => if has_id(old(self).windows@, id) {
                    r@.len() == 1 && (r@[0] matches Action::Move(f, fr) && f == id && fr == rect)
                        && final(self).programmatically_moving@.contains(id)
                } else {
                    r@.len() == 0
                },
                Command::CloseFocusedWindow => match spec_focused_id(old(self).windows@) {
                    Some(f) => r@.len() == 1 && (r@[0] matches Action::Close(c) && c == f),
                    None => r@.len() == 0,
                },
                Command::FocusDirection(d) => match old(self).spec_direction_target(d) {
                    Some(t) => r@.len() == 1 && (r@[0] matches Action::Focus(f) && f == t),
                    None => r@.len() == 0,
                },
                Command::MoveDirection(d) => match (
                    spec_focused_id(old(self).windows@),
                    old(self).spec_direction_target(d),
                ) {
                    (Some(f), Some(t)) => if f != t && has_id(old(self).windows@, f) && has_id(
                        old(self).windows@,
                        t,
                    ) {
                        r@.len() == 1 && (r@[0] matches Action::MoveAll(l, _) && l@ == seq![
                            (f, crate::model::rect_of_id(old(self).windows@, t)),
                            (t, crate::model::rect_of_id(old(self).windows@, f)),
                        ]) && final(self).programmatically_moving@.contains(f)
                            && final(self).programmatically_moving@.contains(t)
                    } else {
                        r@.len() == 0
                    },
                    _ => r@.len() == 0,
                },
                Command::ToggleFloat => match spec_focused_id(old(self).windows@) {
                    Some(_) => spec_relayout_shape(*final(self), r@),
                    None => r@.len() == 0,
                },
                Command::ToggleFullscreen => match spec_focused_id(old(self).windows@) {
                    Some(f) => r@.len() == 1 && (r@[0] matches Action::Move(m, mr) && m == f && mr
                        == old(self).screen_rect)
                        && final(self).programmatically_moving@.contains(f),
                    None => r@.len() == 0,
                },
                Command::SwapMain => ({
                    let members = spec_workspace_windows(
                        old(self).windows@,
                        spec_effective_workspace(old(self).windows@, old(self).current_workspace),
                    );
                    match spec_focused_id(old(self).windows@) {
                        None => r@.len() == 0,
                        Some(f) => if members.len() == 0 {
                            r@.len() == 0
                        } else {
                            let main = members[0].id;
                            if f != main && has_id(old(self).windows@, f) && has_id(
                                old(self).windows@,
                                main,
                            ) {
                                r@.len() == 1 && (r@[0] matches Action::MoveAll(l, _) && l@
                                    == seq![
                                    (f, crate::model::rect_of_id(old(self).windows@, main)),
                                    (main, crate::model::rect_of_id(old(self).windows@, f)),
                                ]) && final(self).programmatically_moving@.contains(f)
                                    && final(self).programmatically_moving@.contains(main)
                            } else {
                                r@.len() == 0
                            }
                        },
                    }
                }),
                Command::ToggleLayout => final(self).layout_manager.current_layout == old(
                    self,
                ).layout_manager.current_layout.spec_next() && spec_relayout_shape(
                    *final(self),
                    r@,
                ),
                Command::Quit => r@.len() == 1 && (r@[0] is Quit),
                Command::ReloadConfig => r@.len() == 0,
                Command::ListWindows => r@.len() == 0,
                Command::GetStatus => r@.len() == 0,
            },
    {
        let mut out: Vec<Action> = Vec::new();
        match command {
            Command::FocusWindow(id) => {
                if find_window(&self.windows, id).is_some() {
                    proof {
                        assert(has_id(self.windows@, id));
                    }
                    out.push(Action::Focus(id));
                } else {
                    proof {
                        assert(!has_id(self.windows@, id));
                    }
                }
                out
            },
            Command::CloseWindow(id) => {
                if find_window(&self.windows, id).is_some() {
                    proof {
                        assert(has_id(self.windows@, id));
                    }
                    out.push(Action::Close(id));
                } else {
                    proof {
                        assert(!has_id(self.windows@, id));
                    }
                }
                out
            },
            Command::MoveWindow(id, rect) => {
                if find_window(&self.windows, id).is_some() {
                    proof {
                        assert(has_id(self.windows@, id));
                    }
                    wid_insert(&mut self.programmatically_moving, id);
                    out.push(Action::Move(id, rect));
                } else {
                    proof {
                        assert(!has_id(self.windows@, id));
                    }
                }
                out
            },
            Command::FocusDirection(direction) => {
                match self.find_window_in_direction(direction) {
                    Some(target) => {
                        out.push(Action::Focus(target));
                    },
                    None => {},
                }
                out
            },
            Command::MoveDirection(direction) => {
                proof {
                    lemma_focused_win_member(self.windows@);
                    match spec_focused_win(self.windows@) {
                        Some(fw) => {
                            let k = choose|k: int|
                                0 <= k < self.windows@.len() && #[trigger] self.windows@[k] == fw;
                            assert(has_id(self.windows@, fw.id));
                        },
                        None => {},
                    }
                }
                let focused = self.get_focused_window_id();
                match focused {
                    Some(f) => {
                        match self.find_window_in_direction(direction) {
                            Some(target) => self.swap_windows(f, target),
                            None => out,
                        }
                    },
                    None => out,
                }
            },
            Command::CloseFocusedWindow => {
                match self.get_focused_window_id() {
                    Some(f) => {
                        out.push(Action::Close(f));
                    },
                    None => {},
                }
                out
            },
            Command::ToggleLayout => {
                self.layout_manager.toggle_layout();
                self.apply_layout()
            },
            Command::ToggleFloat => {
                match self.get_focused_window_id() {
                    Some(_) => self.apply_layout(),
                    None => out,
                }
            },
            Command::ToggleFullscreen => {
                match self.get_focused_window_id() {
                    Some(f) => {
                        wid_insert(&mut self.programmatically_moving, f);
                        let target = self.screen_rect;
                        out.push(Action::Move(f, target));
                    },
                    None => {},
                }
                out
            },
            Command::SwapMain => {
                proof {
                    lemma_focused_win_member(self.windows@);
                    match spec_focused_win(self.windows@) {
                        Some(fw) => {
                            let k = choose|k: int|
                                0 <= k < self.windows@.len() && #[trigger] self.windows@[k] == fw;
                            assert(has_id(self.windows@, fw.id));
                        },
                        None => {},
                    }
                }
                match self.get_focused_window_id() {
                    Some(f) => {
                        let eff = self.get_effective_current_workspace();
                        let members = workspace_windows(&self.windows, eff);
                        let ghost members_spec = spec_workspace_windows(
                            self.windows@,
                            eff as u32,
                        );
                        if members.len() > 0 {
                            let main_id = members[0].id;
                            proof {
                                assert(crate::model::win_eq(members@[0], members_spec[0]));
                                assert(main_id == members_spec[0].id);
                                assert(has_id(members@, main_id));
                            }
                            if main_id != f {
                                return self.swap_windows(f, main_id);
                            }
                        }
                        out
                    },
                    None => out,
                }
            },
            Command::ReloadConfig => out,
            Command::ListWindows => out,
            Command::GetStatus => out,
            Command::Quit => {
                out.push(Action::Quit);
                out
            },
        }
    }

    /// What a finished drag decides, over the engine's own state: the
    /// dragged window's stored rectangle is updated first, then the snap
    /// procedure runs against the effective workspace's windows.
    pub open spec fn spec_drag_end_decision(
        self,
        window_id: WindowId,
        final_rect: Rect,
        now_ms: u64,
    ) -> DragResult {
        let ws1 = spec_set_rect(self.windows@, window_id, final_rect);
        let members = spec_workspace_windows(
            ws1,
            spec_effective_workspace(ws1, self.current_workspace),
        );
        crate::snap::spec_drag_decision(
            drag_st(self.snap_manager.window_drag_states@, window_id),
            self.snap_manager.screen_rect,
            self.snap_manager.snap_threshold as int,
            window_id,
            final_rect,
            members,
            now_ms,
        )
    }

    /// Serve one drag-observer event. A started drag is tracked and absorbs
    /// later motion; an ended drag is settled through the snap engine and its
    /// tracking dropped.
    pub fn handle_drag_event(&mut self, event: WindowDragEvent, now_ms: u64) -> (r: Vec<Action>)
        requires
            old(self).wf(),
            drag_event_wf(event),
        ensures
            final(self).wf(),
            match event {
                WindowDragEvent::DragStarted { window_id, initial_rect, .. } => {
                    &&& r@.len() == 0
                    &&& final(self).user_dragging_windows@.contains(window_id)
                    &&& has_drag(final(self).snap_manager.window_drag_states@, window_id)
                    &&& drag_st(final(self).snap_manager.window_drag_states@, window_id)
                        == (crate::snap::WindowDragState {
                        window_id,
                        initial_rect,
                        is_dragging: true,
                        drag_start_ms: now_ms,
                    })
                    &&& rmap_has(final(self).previous_window_positions@, window_id)
                    &&& crate::model::rmap_get(final(self).previous_window_positions@, window_id)
                        == initial_rect
                },
                WindowDragEvent::DragEnded { window_id, final_rect, .. } => {
                    &&& !final(self).user_dragging_windows@.contains(window_id)
                    &&& !has_drag(final(self).snap_manager.window_drag_states@, window_id)
                    &&& (has_id(old(self).windows@, window_id) && has_drag(
                        old(self).snap_manager.window_drag_states@,
                        window_id,
                    ) && drag_st(
                        old(self).snap_manager.window_drag_states@,
                        window_id,
                    ).is_dragging) ==> {
                        let ws1 = spec_set_rect(old(self).windows@, window_id, final_rect);
                        match old(self).spec_drag_end_decision(window_id, final_rect, now_ms) {
                            DragResult::SnapToZone(sr) => if sr.wf() {
                                r@.len() == 1 && (r@[0] matches Action::Move(m, mr) && m
                                    == window_id && mr == sr)
                                    && final(self).programmatically_moving@.contains(window_id)
                            } else {
                                r@.len() == 0
                            },
                            DragResult::SwapWithWindow(t, _) => if has_id(ws1, t) && t
                                != window_id {
                                r@.len() == 1 && final(self).programmatically_moving@.contains(
                                    window_id,
                                ) && final(self).programmatically_moving@.contains(t) && (r@[0]
                                matches Action::MoveAll(l, _) && l@ == seq![
                                    (window_id, crate::model::rect_of_id(ws1, t)),
                                    (
                                        t,
                                        drag_st(
                                            old(self).snap_manager.window_drag_states@,
                                            window_id,
                                        ).initial_rect,
                                    ),
                                ])
                            } else {
                                r@.len() == 0
                            },
                            DragResult::ReturnToOriginal(orig) => r@.len() == 1 && (r@[0] matches
                                Action::Move(m, mr) && m == window_id && mr == orig)
                                && final(self).programmatically_moving@.contains(window_id),
                            DragResult::NoAction => r@.len() == 0,
                        }
                    }
                },
            },
    {
        match event {
            WindowDragEvent::DragStarted { window_id, initial_rect, .. } => {
                wid_insert(&mut self.user_dragging_windows, window_id);
                self.snap_manager.start_window_drag(window_id, initial_rect, now_ms);
                rmap_set(&mut self.previous_window_positions, window_id, initial_rect);
                Vec::new()
            },
            WindowDragEvent::DragEnded { window_id, final_rect, .. } => {
                wid_remove(&mut self.user_dragging_windows, window_id);
                if find_window(&self.windows, window_id).is_none() {
                    proof {
                        assert(!has_id(self.windows@, window_id));
                    }
                    self.snap_manager.clear_drag_state(window_id);
                    return Vec::new();
                }
                set_window_rect(&mut self.windows, window_id, final_rect);
                proof {
                    assert(self.windows@ =~= spec_set_rect(
                        old(self).windows@,
                        window_id,
                        final_rect,
                    ));
                }
                if !self.snap_manager.is_window_dragging(window_id) {
                    self.snap_manager.clear_drag_state(window_id);
                    return Vec::new();
                }
                let eff = self.get_effective_current_workspace();
                let members = workspace_windows(&self.windows, eff);
                let ghost members_spec = spec_workspace_windows(self.windows@, eff as u32);
                let decision = self.snap_manager.end_window_drag(
                    window_id,
                    final_rect,
                    &members,
                    now_ms,
                );
                proof {
                    crate::snap::lemma_drag_decision_eq(
                        drag_st(old(self).snap_manager.window_drag_states@, window_id),
                        old(self).snap_manager.screen_rect,
                        old(self).snap_manager.snap_threshold as int,
                        window_id,
                        final_rect,
                        members@,
                        members_spec,
                        now_ms,
                    );
                    assert(decision == old(self).spec_drag_end_decision(
                        window_id,
                        final_rect,
                        now_ms,
                    ));
                    // The pre-drag rectangle the decision may carry is well
                    // formed: every tracked drag stores one.
                    let states = old(self).snap_manager.window_drag_states@;
                    if has_drag(states, window_id) {
                        assert(drag_st(states, window_id).initial_rect.wf()) by {
                            let i = choose|i: int|
                                0 <= i < states.len() && states[i].0 == window_id;
                            assert(states[i].1.initial_rect.wf());
                        }
                    }
                    // Identifiers survive the rectangle update.
                    assert forall|x: WindowId|
                        #[trigger] has_id(self.windows@, x) == has_id(old(self).windows@, x) by {
                        if has_id(self.windows@, x) {
                            let k = choose|k: int|
                                0 <= k < self.windows@.len() && self.windows@[k].id == x;
                            assert(old(self).windows@[k].id == x);
                        }
                        if has_id(old(self).windows@, x) {
                            let k = choose|k: int|
                                0 <= k < old(self).windows@.len() && old(self).windows@[k].id
                                    == x;
                            assert(self.windows@[k].id == x);
                        }
                    }
                }
                let out = match decision {
                    DragResult::SnapToZone(snap_rect) => {
                        if snap_rect.is_wf() {
                            wid_insert(&mut self.programmatically_moving, window_id);
                            rmap_set(&mut self.previous_window_positions, window_id, snap_rect);
                            let mut acts: Vec<Action> = Vec::new();
                            acts.push(Action::Move(window_id, snap_rect));
                            acts
                        } else {
                            Vec::new()
                        }
                    },
                    DragResult::SwapWithWindow(target, original_rect) => {
                        if original_rect.is_wf() {
                            self.swap_windows_with_rects(window_id, target, original_rect)
                        } else {
                            Vec::new()
                        }
                    },
                    DragResult::ReturnToOriginal(original_rect) => {
                        if original_rect.is_wf() {
                            self.return_window_to_original(window_id, original_rect)
                        } else {
                            Vec::new()
                        }
                    },
                    DragResult::NoAction => Vec::new(),
                };
                self.snap_manager.clear_drag_state(window_id);
                out
            },
        }
    }

    /// Adopt a fresh full snapshot from the window source: duplicate
    /// identifiers are dropped (keeping the first record), new windows get
    /// their position recorded, and a changed window count re-applies the
    /// layout. A non-zero host workspace report is adopted; zero is treated
    /// as unreliable and ignored.
    pub fn apply_snapshot(&mut self, snapshot: &Vec<Window>, host_workspace: u32) -> (r: Vec<
        Action,
    >)
        requires
            old(self).wf(),
            all_wf(snapshot@),
            snapshot@.len() <= COORD_LIMIT,
        ensures
            final(self).wf(),
            forall|x: WindowId|
                #[trigger] has_id(final(self).windows@, x) <==> has_id(snapshot@, x),
            // The snapshot's records are carried into the model, duplicates
            // dropped in favour of the first record of each identifier.
            win_seq_eq(final(self).windows@, spec_dedup(snapshot@)),
            final(self).current_workspace == if host_workspace != 0 {
                host_workspace
            } else {
                old(self).current_workspace
            },
            // An unchanged window count leaves the layout alone; a changed
            // one re-applies it.
            final(self).windows@.len() == old(self).windows@.len() ==> r@.len() == 0,
            final(self).windows@.len() != old(self).windows@.len() ==> spec_relayout_shape(
                *final(self),
                r@,
            ),
    {
        let n = snapshot.len();
        let mut fresh: Vec<Window> = Vec::new();
        let ghost mut acc: Seq<Window> = Seq::empty();
        proof {
            assert(snapshot@.subrange(0, n as int) =~= snapshot@);
        }
        let mut i: usize = 0;
        while i < n
            invariant
                i <= n,
                n == snapshot@.len(),
                n <= COORD_LIMIT,
                self == old(self),
                all_wf(snapshot@),
                distinct_ids(fresh@),
                all_wf(fresh@),
                fresh@.len() <= i,
                win_seq_eq(fresh@, acc),
                spec_dedup(snapshot@) == spec_dedup_acc(
                    acc,
                    snapshot@.subrange(i as int, n as int),
                ),
                forall|x: WindowId| #[trigger] has_id(fresh@, x) ==> has_id(snapshot@, x),
                forall|j: int|
                    0 <= j < i ==> has_id(fresh@, (#[trigger] snapshot@[j]).id),
            decreases n - i,
        {
            proof {
                let rest = snapshot@.subrange(i as int, n as int);
                assert(rest[0] == snapshot@[i as int]);
                assert(rest.subrange(1, rest.len() as int) =~= snapshot@.subrange(
                    i + 1 as int,
                    n as int,
                ));
                // The clones and the spec accumulator agree on identifiers.
                assert forall|x: WindowId|
                    #[trigger] has_id(fresh@, x) == has_id(acc, x) by {
                    if has_id(fresh@, x) {
                        let k = choose|k: int| 0 <= k < fresh@.len() && fresh@[k].id == x;
                        assert(crate::model::win_eq(fresh@[k], acc[k]));
                        assert(acc[k].id == x);
                    }
                    if has_id(acc, x) {
                        let k = choose|k: int| 0 <= k < acc.len() && acc[k].id == x;
                        assert(crate::model::win_eq(fresh@[k], acc[k]));
                        assert(fresh@[k].id == x);
                    }
                }
            }
            let ghost pre = fresh@;
            if find_window(&fresh, snapshot[i].id).is_none() {
                fresh.push(crate::model::clone_window(&snapshot[i]));
                proof {
                    acc = acc.push(snapshot@[i as int]);
                    assert forall|a: int, b: int|
                        0 <= a < b < fresh@.len() implies fresh@[a].id != fresh@[b].id by {
                        if b == fresh@.len() - 1 {
                            assert(fresh@[a] == pre[a]);
                            assert(!has_id(pre, fresh@[b].id));
                        }
                    }
                    assert forall|j: int|
                        0 <= j < fresh@.len() implies (#[trigger] fresh@[j]).wf() by {
                        if j < fresh@.len() - 1 {
                            assert(fresh@[j] == pre[j]);
                        }
                    }
                    assert forall|x: WindowId|
                        #[trigger] has_id(fresh@, x) implies has_id(snapshot@, x) by {
                        let k = choose|k: int| 0 <= k < fresh@.len() && fresh@[k].id == x;
                        if k < fresh@.len() - 1 {
                            assert(pre[k].id == x);
                            assert(has_id(pre, x));
                        } else {
                            assert(snapshot@[i as int].id == x);
                        }
                    }
                    assert forall|j: int|
                        0 <= j < i + 1 implies has_id(fresh@, (#[trigger] snapshot@[j]).id) by {
                        if j < i {
                            assert(has_id(pre, snapshot@[j].id));
                            let k = choose|k: int| 0 <= k < pre.len() && pre[k].id
                                == snapshot@[j].id;
                            assert(fresh@[k].id == snapshot@[j].id);
                        } else {
                            assert(fresh@[fresh@.len() - 1].id == snapshot@[j].id);
                        }
                    }
                }
            } else {
                proof {
                    assert forall|j: int|
                        0 <= j < i + 1 implies has_id(fresh@, (#[trigger] snapshot@[j]).id) by {}
                }
            }
            i += 1;
        }
        // Remember first-seen positions.
        let m = fresh.len();
        let mut k: usize = 0;
        while k < m
            invariant
                k <= m,
                m == fresh@.len(),
                m <= COORD_LIMIT,
                self.windows@ == old(self).windows@,
                self.current_workspace == old(self).current_workspace,
                self.screen_rect == old(self).screen_rect,
                self.gap == old(self).gap,
                self.layout_manager == old(self).layout_manager,
                self.snap_manager == old(self).snap_manager,
                self.programmatically_moving@ == old(self).programmatically_moving@,
                self.user_dragging_windows@ == old(self).user_dragging_windows@,
                old(self).wf(),
                rmap_distinct(self.previous_window_positions@),
                rmap_rects_wf(self.previous_window_positions@),
                distinct_ids(fresh@),
                all_wf(fresh@),
                forall|x: WindowId| #[trigger] has_id(fresh@, x) ==> has_id(snapshot@, x),
                forall|j: int|
                    0 <= j < snapshot@.len() ==> has_id(fresh@, (#[trigger] snapshot@[j]).id),
            decreases m - k,
        {
            if rmap_lookup(&self.previous_window_positions, fresh[k].id).is_none() {
                let rect = fresh[k].rect;
                let fid = fresh[k].id;
                rmap_set(&mut self.previous_window_positions, fid, rect);
            }
            k += 1;
        }
        let old_count = self.windows.len();
        let new_count = fresh.len();
        let ghost fresh_view = fresh@;
        self.windows = fresh;
        if host_workspace != 0 {
            self.current_workspace = host_workspace;
        }
        if old_count != new_count {
            let acts = self.apply_layout();
            proof {
                assert(self.windows@ == fresh_view);
            }
            acts
        } else {
            Vec::new()
        }
    }

    /// How many windows the engine manages.
    pub fn window_count(&self) -> (c: usize)
        ensures
            c == self.windows@.len(),
    {
        self.windows.len()
    }
}

/// A picked candidate is a member of the scanned list.
proof fn lemma_pick_loop_member(
    windows: Seq<Window>,
    i: int,
    best: Option<Window>,
    current_id: WindowId,
    fx: int,
    fy: int,
    d: crate::focus::FocusDirection,
)
    requires
        match best {
            Some(b) => has_id(windows, b.id),
            None => true,
        },
    ensures
        match crate::focus::spec_pick_loop(windows, i, best, current_id, fx, fy, d) {
            Some(w) => has_id(windows, w.id),
            None => true,
        },
    decreases windows.len() - i,
{
    if 0 <= i < windows.len() {
        let w = windows[i];
        let cand = w.id != current_id && crate::focus::spec_should_focus(w)
            && crate::focus::in_direction(w, fx, fy, d);
        let new_best = if cand && (best is None || crate::focus::better_candidate(
            w,
            best.unwrap(),
            fx,
            fy,
            d,
        )) {
            Some(w)
        } else {
            best
        };
        match new_best {
            Some(b) => {
                if !(best == Some(b)) {
                    assert(windows[i].id == b.id);
                    assert(has_id(windows, b.id));
                }
            },
            None => {},
        }
        lemma_pick_loop_member(windows, i + 1, new_best, current_id, fx, fy, d);
    }
}

} // verus!
