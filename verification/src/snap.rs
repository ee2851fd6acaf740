//! The snap engine: the zone arbiter that decides what happens when a user
//! drag ends — snap to a screen zone, swap with the window under the drop,
//! restore the original rectangle, or nothing.

use vstd::prelude::*;
use crate::geometry::{Rect, COORD_LIMIT};
use crate::model::{Window, WindowId};

verus! {

/// Width of the edge bands a window centre can be dropped into.
pub const EDGE_ZONE: i64 = 150;

/// Side of the corner squares.
pub const CORNER_SIZE: i64 = 100;

/// Margin the snap rectangles keep from the screen edges.
pub const SNAP_MARGIN: i64 = 8;

/// How far (px, per component) a snap target must differ from the dropped
/// rectangle before a move is worth issuing.
pub const SNAP_SLACK: i64 = 10;

/// Shortest drag (ms) that counts as deliberate.
pub const MIN_DRAG_MS: u64 = 100;

#[derive(Debug, Clone, Copy, PartialEq, Eq, Structural)]
pub enum SnapRegion {
    Center,
    North,
    South,
    East,
    West,
    NorthEast,
    NorthWest,
    SouthEast,
    SouthWest,
}

impl SnapRegion {
    pub open spec fn spec_name(self) -> Seq<char> {
        match self {
            SnapRegion::Center => "Center"@,
            SnapRegion::North => "North"@,
            SnapRegion::South => "South"@,
            SnapRegion::East => "East"@,
            SnapRegion::West => "West"@,
            SnapRegion::NorthEast => "NorthEast"@,
            SnapRegion::NorthWest => "NorthWest"@,
            SnapRegion::SouthEast => "SouthEast"@,
            SnapRegion::SouthWest => "SouthWest"@,
        }
    }

    pub fn name(&self) -> (r: &'static str)
        ensures
            r@ == self.spec_name(),
    {
        match self {
            SnapRegion::Center => "Center",
            SnapRegion::North => "North",
            SnapRegion::South => "South",
            SnapRegion::East => "East",
            SnapRegion::West => "West",
            SnapRegion::NorthEast => "NorthEast",
            SnapRegion::NorthWest => "NorthWest",
            SnapRegion::SouthEast => "SouthEast",
            SnapRegion::SouthWest => "SouthWest",
        }
    }
}

#[derive(Debug, Clone, Copy, PartialEq, Eq, Structural)]
pub struct SnapZone {
    pub region: SnapRegion,
    pub bounds: Rect,
    pub snap_rect: Rect,
}

/// What the engine should do with a finished drag. A swap carries the
/// dragged window's pre-drag rectangle, which the swap target receives.
#[derive(Debug, Clone, Copy, PartialEq, Eq, Structural)]
pub enum DragResult {
    SnapToZone(Rect),
    SwapWithWindow(WindowId, Rect),
    ReturnToOriginal(Rect),
    NoAction,
}

/// The trigger bounds of a zone: where a window centre must rest for the
/// zone to claim the drop.
pub open spec fn spec_zone_bounds(region: SnapRegion, s: Rect) -> Rect {
    match region {
        SnapRegion::Center => Rect {
            x: (s.x + s.width / 5) as i64,
            y: (s.y + s.height / 5) as i64,
            width: (s.width * 3 / 5) as i64,
            height: (s.height * 3 / 5) as i64,
        },
        SnapRegion::North => Rect {
            x: (s.x + CORNER_SIZE) as i64,
            y: s.y,
            width: (s.width - 2 * CORNER_SIZE) as i64,
            height: EDGE_ZONE,
        },
        SnapRegion::South => Rect {
            x: (s.x + CORNER_SIZE) as i64,
            y: (s.y + s.height - EDGE_ZONE) as i64,
            width: (s.width - 2 * CORNER_SIZE) as i64,
            height: EDGE_ZONE,
        },
        SnapRegion::West => Rect {
            x: s.x,
            y: (s.y + CORNER_SIZE) as i64,
            width: EDGE_ZONE,
            height: (s.height - 2 * CORNER_SIZE) as i64,
        },
        SnapRegion::East => Rect {
            x: (s.x + s.width - EDGE_ZONE) as i64,
            y: (s.y + CORNER_SIZE) as i64,
            width: EDGE_ZONE,
            height: (s.height - 2 * CORNER_SIZE) as i64,
        },
        SnapRegion::NorthWest => Rect {
            x: s.x,
            y: s.y,
            width: CORNER_SIZE,
            height: CORNER_SIZE,
        },
        SnapRegion::NorthEast => Rect {
            x: (s.x + s.width - CORNER_SIZE) as i64,
            y: s.y,
            width: CORNER_SIZE,
            height: CORNER_SIZE,
        },
        SnapRegion::SouthWest => Rect {
            x: s.x,
            y: (s.y + s.height - CORNER_SIZE) as i64,
            width: CORNER_SIZE,
            height: CORNER_SIZE,
        },
        SnapRegion::SouthEast => Rect {
            x: (s.x + s.width - CORNER_SIZE) as i64,
            y: (s.y + s.height - CORNER_SIZE) as i64,
            width: CORNER_SIZE,
            height: CORNER_SIZE,
        },
    }
}

/// The rectangle a window snapped into a zone receives.
pub open spec fn spec_zone_snap(region: SnapRegion, s: Rect) -> Rect {
    match region {
        SnapRegion::Center => Rect {
            x: (s.x + s.width / 4) as i64,
            y: (s.y + s.height / 4) as i64,
            width: (s.width / 2) as i64,
            height: (s.height / 2) as i64,
        },
        SnapRegion::North => Rect {
            x: (s.x + SNAP_MARGIN) as i64,
            y: (s.y + SNAP_MARGIN) as i64,
            width: (s.width - 2 * SNAP_MARGIN) as i64,
            height: (s.height / 2 - SNAP_MARGIN) as i64,
        },
        SnapRegion::South => Rect {
            x: (s.x + SNAP_MARGIN) as i64,
            y: (s.y + s.height / 2) as i64,
            width: (s.width - 2 * SNAP_MARGIN) as i64,
            height: (s.height / 2 - SNAP_MARGIN) as i64,
        },
        SnapRegion::West => Rect {
            x: (s.x + SNAP_MARGIN) as i64,
            y: (s.y + SNAP_MARGIN) as i64,
            width: (s.width / 2 - SNAP_MARGIN) as i64,
            height: (s.height - 2 * SNAP_MARGIN) as i64,
        },
        SnapRegion::East => Rect {
            x: (s.x + s.width / 2) as i64,
            y: (s.y + SNAP_MARGIN) as i64,
            width: (s.width / 2 - SNAP_MARGIN) as i64,
            height: (s.height - 2 * SNAP_MARGIN) as i64,
        },
        SnapRegion::NorthWest => Rect {
            x: (s.x + SNAP_MARGIN) as i64,
            y: (s.y + SNAP_MARGIN) as i64,
            width: (s.width / 2 - SNAP_MARGIN) as i64,
            height: (s.height / 2 - SNAP_MARGIN) as i64,
        },
        SnapRegion::NorthEast => Rect {
            x: (s.x + s.width / 2) as i64,
            y: (s.y + SNAP_MARGIN) as i64,
            width: (s.width / 2 - SNAP_MARGIN) as i64,
            height: (s.height / 2 - SNAP_MARGIN) as i64,
        },
        SnapRegion::SouthWest => Rect {
            x: (s.x + SNAP_MARGIN) as i64,
            y: (s.y + s.height / 2) as i64,
            width: (s.width / 2 - SNAP_MARGIN) as i64,
            height: (s.height / 2 - SNAP_MARGIN) as i64,
        },
        SnapRegion::SouthEast => Rect {
            x: (s.x + s.width / 2) as i64,
            y: (s.y + s.height / 2) as i64,
            width: (s.width / 2 - SNAP_MARGIN) as i64,
            height: (s.height / 2 - SNAP_MARGIN) as i64,
        },
    }
}

/// The zone list, in presentation order.
pub open spec fn spec_zones(s: Rect) -> Seq<SnapZone> {
    seq![
        SnapZone {
            region: SnapRegion::Center,
            bounds: spec_zone_bounds(SnapRegion::Center, s),
            snap_rect: spec_zone_snap(SnapRegion::Center, s),
        },
        SnapZone {
            region: SnapRegion::North,
            bounds: spec_zone_bounds(SnapRegion::North, s),
            snap_rect: spec_zone_snap(SnapRegion::North, s),
        },
        SnapZone {
            region: SnapRegion::South,
            bounds: spec_zone_bounds(SnapRegion::South, s),
            snap_rect: spec_zone_snap(SnapRegion::South, s),
        },
        SnapZone {
            region: SnapRegion::West,
            bounds: spec_zone_bounds(SnapRegion::West, s),
            snap_rect: spec_zone_snap(SnapRegion::West, s),
        },
        SnapZone {
            region: SnapRegion::East,
            bounds: spec_zone_bounds(SnapRegion::East, s),
            snap_rect: spec_zone_snap(SnapRegion::East, s),
        },
        SnapZone {
            region: SnapRegion::NorthWest,
            bounds: spec_zone_bounds(SnapRegion::NorthWest, s),
            snap_rect: spec_zone_snap(SnapRegion::NorthWest, s),
        },
        SnapZone {
            region: SnapRegion::NorthEast,
            bounds: spec_zone_bounds(SnapRegion::NorthEast, s),
            snap_rect: spec_zone_snap(SnapRegion::NorthEast, s),
        },
        SnapZone {
            region: SnapRegion::SouthWest,
            bounds: spec_zone_bounds(SnapRegion::SouthWest, s),
            snap_rect: spec_zone_snap(SnapRegion::SouthWest, s),
        },
        SnapZone {
            region: SnapRegion::SouthEast,
            bounds: spec_zone_bounds(SnapRegion::SouthEast, s),
            snap_rect: spec_zone_snap(SnapRegion::SouthEast, s),
        },
    ]
}

/// Which zone claims a point: corners first, then edges, then the centre;
/// within each rank in presentation order. Closed membership, so a point on
/// a border still counts.
pub open spec fn spec_zone_at(s: Rect, px: int, py: int) -> Option<SnapRegion> {
    if spec_zone_bounds(SnapRegion::NorthWest, s).has_point_closed(px, py) {
        Some(SnapRegion::NorthWest)
    } else if spec_zone_bounds(SnapRegion::NorthEast, s).has_point_closed(px, py) {
        Some(SnapRegion::NorthEast)
    } else if spec_zone_bounds(SnapRegion::SouthWest, s).has_point_closed(px, py) {
        Some(SnapRegion::SouthWest)
    } else if spec_zone_bounds(SnapRegion::SouthEast, s).has_point_closed(px, py) {
        Some(SnapRegion::SouthEast)
    } else if spec_zone_bounds(SnapRegion::North, s).has_point_closed(px, py) {
        Some(SnapRegion::North)
    } else if spec_zone_bounds(SnapRegion::South, s).has_point_closed(px, py) {
        Some(SnapRegion::South)
    } else if spec_zone_bounds(SnapRegion::West, s).has_point_closed(px, py) {
        Some(SnapRegion::West)
    } else if spec_zone_bounds(SnapRegion::East, s).has_point_closed(px, py) {
        Some(SnapRegion::East)
    } else if spec_zone_bounds(SnapRegion::Center, s).has_point_closed(px, py) {
        Some(SnapRegion::Center)
    } else {
        None
    }
}

/// The first listed window, other than the dragged one, whose rectangle
/// holds the point.
pub open spec fn spec_window_under(windows: Seq<Window>, self_id: WindowId, px: int, py: int)
    -> Option<WindowId>
    decreases windows.len(),
{
    if windows.len() == 0 {
        None
    } else if windows[0].id != self_id && windows[0].rect.has_point_closed(px, py) {
        Some(windows[0].id)
    } else {
        spec_window_under(windows.subrange(1, windows.len() as int), self_id, px, py)
    }
}

/// One tracked drag.
#[derive(Debug, Clone, Copy, PartialEq, Eq, Structural)]
pub struct WindowDragState {
    pub window_id: WindowId,
    pub initial_rect: Rect,
    pub is_dragging: bool,
    pub drag_start_ms: u64,
}

/// The full decision procedure for a finished drag: too short or too small a
/// drag restores the original rectangle; in the centre zone the window swaps
/// with whatever lies under it; in an edge or corner zone it snaps to the
/// zone's rectangle unless it is already within the slack of it; outside
/// every zone it is restored.
pub open spec fn spec_drag_decision(
    st: WindowDragState,
    screen: Rect,
    threshold: int,
    id: WindowId,
    final_rect: Rect,
    windows: Seq<Window>,
    now_ms: u64,
) -> DragResult {
    let dur = if now_ms >= st.drag_start_ms {
        now_ms - st.drag_start_ms
    } else {
        0
    };
    let dx = final_rect.x - st.initial_rect.x;
    let dy = final_rect.y - st.initial_rect.y;
    if dur < MIN_DRAG_MS || dx * dx + dy * dy < threshold * threshold {
        DragResult::ReturnToOriginal(st.initial_rect)
    } else {
        let cx = final_rect.x + final_rect.width / 2;
        let cy = final_rect.y + final_rect.height / 2;
        match spec_zone_at(screen, cx, cy) {
            Some(region) => if region == SnapRegion::Center {
                match spec_window_under(windows, id, cx, cy) {
                    Some(target) => DragResult::SwapWithWindow(target, st.initial_rect),
                    None => DragResult::ReturnToOriginal(st.initial_rect),
                }
            } else {
                let snap = spec_zone_snap(region, screen);
                if snap.x - final_rect.x > SNAP_SLACK || final_rect.x - snap.x > SNAP_SLACK
                    || snap.y - final_rect.y > SNAP_SLACK || final_rect.y - snap.y > SNAP_SLACK
                    || snap.width - final_rect.width > SNAP_SLACK || final_rect.width - snap.width
                    > SNAP_SLACK || snap.height - final_rect.height > SNAP_SLACK
                    || final_rect.height - snap.height > SNAP_SLACK {
                    DragResult::SnapToZone(snap)
                } else {
                    DragResult::ReturnToOriginal(st.initial_rect)
                }
            },
            None => DragResult::ReturnToOriginal(st.initial_rect),
        }
    }
}

/// Law: a snap is never redundant. Whenever the decision is to snap, the
/// target differs from the dropped rectangle by more than the slack in some
/// component; a drop already within the slack of its zone's rectangle is
/// restored instead.
pub proof fn lemma_snap_idempotence(
    st: WindowDragState,
    screen: Rect,
    threshold: int,
    id: WindowId,
    final_rect: Rect,
    windows: Seq<Window>,
    now_ms: u64,
)
    ensures
        match spec_drag_decision(st, screen, threshold, id, final_rect, windows, now_ms) {
            DragResult::SnapToZone(snap) => {
                ||| snap.x - final_rect.x > SNAP_SLACK
                ||| final_rect.x - snap.x > SNAP_SLACK
                ||| snap.y - final_rect.y > SNAP_SLACK
                ||| final_rect.y - snap.y > SNAP_SLACK
                ||| snap.width - final_rect.width > SNAP_SLACK
                ||| final_rect.width - snap.width > SNAP_SLACK
                ||| snap.height - final_rect.height > SNAP_SLACK
                ||| final_rect.height - snap.height > SNAP_SLACK
            },
            _ => true,
        },
{
}


/// No window has two tracked drags.
pub open spec fn distinct_keys(states: Seq<(WindowId, WindowDragState)>) -> bool {
    forall|i: int, j: int| 0 <= i < j < states.len() ==> states[i].0 != states[j].0
}

/// Whether a drag is tracked for the window.
pub open spec fn has_drag(states: Seq<(WindowId, WindowDragState)>, id: WindowId) -> bool {
    exists|i: int| 0 <= i < states.len() && states[i].0 == id
}

/// The tracked drag of a window; unique under `distinct_keys`.
pub open spec fn drag_st(states: Seq<(WindowId, WindowDragState)>, id: WindowId)
    -> WindowDragState {
    states[choose|i: int| 0 <= i < states.len() && states[i].0 == id].1
}

/// Every tracked initial rectangle is well formed.
pub open spec fn drags_wf(states: Seq<(WindowId, WindowDragState)>) -> bool {
    forall|i: int| 0 <= i < states.len() ==> (#[trigger] states[i]).1.initial_rect.wf()
}

/// The zone arbiter. It owns the drag states and the zone table derived from
/// the screen rectangle.
pub struct SnapManager {
    pub screen_rect: Rect,
    pub snap_zones: Vec<SnapZone>,
    pub snap_threshold: i64,
    pub window_drag_states: Vec<(WindowId, WindowDragState)>,
}

impl SnapManager {
    pub open spec fn wf(self) -> bool {
        &&& self.screen_rect.wf()
        &&& self.snap_zones@ == spec_zones(self.screen_rect)
        &&& 0 <= self.snap_threshold <= COORD_LIMIT
        &&& distinct_keys(self.window_drag_states@)
        &&& drags_wf(self.window_drag_states@)
    }

    pub fn new(screen_rect: Rect, snap_threshold: i64) -> (m: SnapManager)
        requires
            screen_rect.wf(),
            0 <= snap_threshold <= COORD_LIMIT,
        ensures
            m.wf(),
            m.screen_rect == screen_rect,
            m.snap_threshold == snap_threshold,
            m.window_drag_states@ =~= Seq::<(WindowId, WindowDragState)>::empty(),
    {
        let zones = build_zones(&screen_rect);
        SnapManager {
            screen_rect,
            snap_zones: zones,
            snap_threshold,
            window_drag_states: Vec::new(),
        }
    }

    /// Adopt a new screen rectangle and rebuild the zone table.
    pub fn update_screen_rect(&mut self, screen_rect: Rect)
        requires
            old(self).wf(),
            screen_rect.wf(),
        ensures
            final(self).wf(),
            final(self).screen_rect == screen_rect,
            final(self).snap_threshold == old(self).snap_threshold,
            final(self).window_drag_states == old(self).window_drag_states,
    {
        self.screen_rect = screen_rect;
        self.snap_zones = build_zones(&screen_rect);
    }

    /// The zone table (trigger bounds and snap rectangle per zone).
    pub fn get_snap_zones(&self) -> (r: &Vec<SnapZone>)
        ensures
            r@ == self.snap_zones@,
    {
        &self.snap_zones
    }

    /// The zone claiming a point, corners before edges before the centre.
    pub fn find_zone_at_point(&self, x: i64, y: i64) -> (r: Option<SnapRegion>)
        requires
            self.wf(),
            -2 * COORD_LIMIT <= x <= 2 * COORD_LIMIT,
            -2 * COORD_LIMIT <= y <= 2 * COORD_LIMIT,
        ensures
            r == spec_zone_at(self.screen_rect, x as int, y as int),
    {
        let s = &self.screen_rect;
        if zone_bounds(SnapRegion::NorthWest, s).contains_closed(x, y) {
            Some(SnapRegion::NorthWest)
        } else if zone_bounds(SnapRegion::NorthEast, s).contains_closed(x, y) {
            Some(SnapRegion::NorthEast)
        } else if zone_bounds(SnapRegion::SouthWest, s).contains_closed(x, y) {
            Some(SnapRegion::SouthWest)
        } else if zone_bounds(SnapRegion::SouthEast, s).contains_closed(x, y) {
            Some(SnapRegion::SouthEast)
        } else if zone_bounds(SnapRegion::North, s).contains_closed(x, y) {
            Some(SnapRegion::North)
        } else if zone_bounds(SnapRegion::South, s).contains_closed(x, y) {
            Some(SnapRegion::South)
        } else if zone_bounds(SnapRegion::West, s).contains_closed(x, y) {
            Some(SnapRegion::West)
        } else if zone_bounds(SnapRegion::East, s).contains_closed(x, y) {
            Some(SnapRegion::East)
        } else if zone_bounds(SnapRegion::Center, s).contains_closed(x, y) {
            Some(SnapRegion::Center)
        } else {
            None
        }
    }

    /// The snap rectangle of the zone holding the window's centre, if any.
    pub fn find_snap_target(&self, window_rect: Rect) -> (r: Option<Rect>)
        requires
            self.wf(),
            window_rect.wf(),
        ensures
            r == match spec_zone_at(
                self.screen_rect,
                window_rect.x + window_rect.width / 2,
                window_rect.y + window_rect.height / 2,
            ) {
                Some(region) => Some(spec_zone_snap(region, self.screen_rect)),
                None => None::<Rect>,
            },
    {
        let (cx, cy) = window_rect.center();
        match self.find_zone_at_point(cx, cy) {
            Some(region) => Some(zone_snap(region, &self.screen_rect)),
            None => None,
        }
    }

    /// The first listed window, other than the dragged one, under the
    /// dragged rectangle's centre.
    pub fn find_window_under_drag(
        &self,
        dragged_window_id: WindowId,
        dragged_rect: Rect,
        all_windows: &Vec<Window>,
    ) -> (r: Option<WindowId>)
        requires
            self.wf(),
            dragged_rect.wf(),
            crate::model::all_wf(all_windows@),
        ensures
            r == spec_window_under(
                all_windows@,
                dragged_window_id,
                dragged_rect.x + dragged_rect.width / 2,
                dragged_rect.y + dragged_rect.height / 2,
            ),
    {
        let (cx, cy) = dragged_rect.center();
        window_under(all_windows, dragged_window_id, cx, cy)
    }

    /// Begin tracking a drag: remember the pre-drag rectangle and the start
    /// time. A drag already tracked for the window is replaced.
    pub fn start_window_drag(&mut self, window_id: WindowId, current_rect: Rect, now_ms: u64)
        requires
            old(self).wf(),
            current_rect.wf(),
        ensures
            final(self).wf(),
            final(self).screen_rect == old(self).screen_rect,
            final(self).snap_threshold == old(self).snap_threshold,
            has_drag(final(self).window_drag_states@, window_id),
            drag_st(final(self).window_drag_states@, window_id) == (WindowDragState {
                window_id,
                initial_rect: current_rect,
                is_dragging: true,
                drag_start_ms: now_ms,
            }),
            forall|x: WindowId|
                x != window_id ==> (has_drag(final(self).window_drag_states@, x) == has_drag(
                    old(self).window_drag_states@,
                    x,
                ) && (has_drag(old(self).window_drag_states@, x) ==> drag_st(
                    final(self).window_drag_states@,
                    x,
                ) == drag_st(old(self).window_drag_states@, x))),
    {
        self.clear_drag_state(window_id);
        let st = WindowDragState {
            window_id,
            initial_rect: current_rect,
            is_dragging: true,
            drag_start_ms: now_ms,
        };
        let ghost mid = self.window_drag_states@;
        self.window_drag_states.push((window_id, st));
        proof {
            let states = self.window_drag_states@;
            assert(states[states.len() - 1] == (window_id, st));
            assert(has_drag(states, window_id));
            assert forall|i: int|
                0 <= i < states.len() && states[i].0 == window_id implies states[i].1 == st by {
                if i < states.len() - 1 {
                    assert(mid[i].0 == window_id);
                    assert(!has_drag(mid, window_id));
                }
            }
            assert forall|x: WindowId|
                x != window_id implies (has_drag(states, x) == has_drag(mid, x) && (has_drag(
                mid,
                x,
            ) ==> drag_st(states, x) == drag_st(mid, x))) by {
                if has_drag(states, x) {
                    let i = choose|i: int| 0 <= i < states.len() && states[i].0 == x;
                    assert(i < mid.len() && mid[i].0 == x);
                }
                if has_drag(mid, x) {
                    let i = choose|i: int| 0 <= i < mid.len() && mid[i].0 == x;
                    assert(states[i].0 == x);
                    let i2 = choose|i2: int| 0 <= i2 < states.len() && states[i2].0 == x;
                    assert(states[i2].1 == states[i].1);
                    let i3 = choose|i3: int| 0 <= i3 < mid.len() && mid[i3].0 == x;
                    assert(mid[i3].1 == mid[i].1);
                }
            }
        }
    }

    /// Confirm that a tracked drag is still in motion.
    pub fn update_window_drag(&mut self, window_id: WindowId, current_rect: Rect)
        requires
            old(self).wf(),
        ensures
            final(self).wf(),
            final(self).screen_rect == old(self).screen_rect,
            final(self).snap_threshold == old(self).snap_threshold,
            !has_drag(old(self).window_drag_states@, window_id)
                ==> final(self).window_drag_states@ == old(self).window_drag_states@,
            has_drag(old(self).window_drag_states@, window_id) ==> {
                &&& has_drag(final(self).window_drag_states@, window_id)
                &&& drag_st(final(self).window_drag_states@, window_id) == (WindowDragState {
                    is_dragging: true,
                    ..drag_st(old(self).window_drag_states@, window_id)
                })
                &&& forall|x: WindowId|
                    x != window_id ==> (has_drag(final(self).window_drag_states@, x) == has_drag(
                        old(self).window_drag_states@,
                        x,
                    ) && (has_drag(old(self).window_drag_states@, x) ==> drag_st(
                        final(self).window_drag_states@,
                        x,
                    ) == drag_st(old(self).window_drag_states@, x)))
            },
    {
        let ghost orig = self.window_drag_states@;
        let n = self.window_drag_states.len();
        let mut i: usize = 0;
        while i < n
            invariant
                i <= n,
                n == self.window_drag_states@.len(),
                self.window_drag_states@ == orig,
                old(self).window_drag_states@ == orig,
                distinct_keys(orig),
                drags_wf(orig),
                self.screen_rect == old(self).screen_rect,
                self.screen_rect.wf(),
                self.snap_zones@ == spec_zones(self.screen_rect),
                self.snap_zones@ == old(self).snap_zones@,
                0 <= self.snap_threshold <= COORD_LIMIT,
                self.snap_threshold == old(self).snap_threshold,
                forall|j: int| 0 <= j < i ==> orig[j].0 != window_id,
            decreases n - i,
        {
            if self.window_drag_states[i].0 == window_id {
                let entry = self.window_drag_states[i];
                let updated = WindowDragState { is_dragging: true, ..entry.1 };
                let _ = self.window_drag_states.remove(i);
                let ghost mid = self.window_drag_states@;
                self.window_drag_states.push((window_id, updated));
                proof {
                    let states = self.window_drag_states@;
                    assert(orig[i as int].0 == window_id);
                    assert(mid =~= orig.remove(i as int));
                    assert forall|j: int|
                        0 <= j < mid.len() implies mid[j].0 != window_id by {
                        if j < i {
                            assert(mid[j] == orig[j]);
                        } else {
                            assert(mid[j] == orig[j + 1]);
                        }
                    }
                    assert(distinct_keys(states)) by {
                        assert forall|a: int, b: int|
                            0 <= a < b < states.len() implies states[a].0 != states[b].0 by {
                            if b < states.len() - 1 {
                                assert(states[a] == mid[a] && states[b] == mid[b]);
                                lemma_remove_distinct(orig, i as int);
                            } else {
                                assert(states[a] == mid[a]);
                            }
                        }
                    }
                    assert(drags_wf(states)) by {
                        assert forall|j: int|
                            0 <= j < states.len() implies (#[trigger] states[j]).1.initial_rect.wf()
                            by {
                            if j < states.len() - 1 {
                                if j < i {
                                    assert(states[j] == orig[j]);
                                } else {
                                    assert(states[j] == orig[j + 1]);
                                }
                            } else {
                                assert(states[j].1 == updated);
                                assert(updated.initial_rect == orig[i as int].1.initial_rect);
                            }
                        }
                    }
                    assert(states[states.len() - 1].0 == window_id);
                    assert(has_drag(states, window_id));
                    assert forall|k: int|
                        0 <= k < states.len() && states[k].0 == window_id implies states[k].1
                        == updated by {
                        if k < states.len() - 1 {
                            assert(mid[k].0 == window_id);
                        }
                    }
                    assert(drag_st(states, window_id) == updated);
                    assert(has_drag(orig, window_id));
                    assert forall|k: int|
                        0 <= k < orig.len() && orig[k].0 == window_id implies orig[k].1
                        == entry.1 by {
                        if k != i {
                            assert(orig[k].0 != orig[i as int].0);
                        }
                    }
                    assert(drag_st(orig, window_id) == entry.1);
                    assert forall|x: WindowId|
                        x != window_id implies (has_drag(states, x) == has_drag(orig, x)
                        && (has_drag(orig, x) ==> drag_st(states, x) == drag_st(orig, x))) by {
                        lemma_member_after_remove_push(orig, i as int, (window_id, updated), x);
                    }
                }
                return ;
            }
            i += 1;
        }
        proof {
            assert(!has_drag(orig, window_id));
        }
    }

    /// Settle a finished drag: drop the tracked state and decide what the
    /// engine should do with the window, per the zone procedure.
    pub fn end_window_drag(
        &mut self,
        window_id: WindowId,
        final_rect: Rect,
        all_windows: &Vec<Window>,
        now_ms: u64,
    ) -> (r: DragResult)
        requires
            old(self).wf(),
            final_rect.wf(),
            crate::model::all_wf(all_windows@),
        ensures
            final(self).wf(),
            final(self).screen_rect == old(self).screen_rect,
            final(self).snap_threshold == old(self).snap_threshold,
            !has_drag(final(self).window_drag_states@, window_id),
            forall|x: WindowId|
                x != window_id ==> (has_drag(final(self).window_drag_states@, x) == has_drag(
                    old(self).window_drag_states@,
                    x,
                ) && (has_drag(old(self).window_drag_states@, x) ==> drag_st(
                    final(self).window_drag_states@,
                    x,
                ) == drag_st(old(self).window_drag_states@, x))),
            r == if has_drag(old(self).window_drag_states@, window_id) {
                spec_drag_decision(
                    drag_st(old(self).window_drag_states@, window_id),
                    old(self).screen_rect,
                    old(self).snap_threshold as int,
                    window_id,
                    final_rect,
                    all_windows@,
                    now_ms,
                )
            } else {
                DragResult::NoAction
            },
    {
        // Look the tracked state up.
        let n = self.window_drag_states.len();
        let mut i: usize = 0;
        let mut found: Option<WindowDragState> = None;
        while i < n
            invariant
                i <= n,
                n == self.window_drag_states@.len(),
                self == old(self),
                old(self).wf(),
                found matches Some(st) ==> (has_drag(self.window_drag_states@, window_id)
                    && drag_st(self.window_drag_states@, window_id) == st),
                found is None ==> forall|j: int|
                    0 <= j < i ==> self.window_drag_states@[j].0 != window_id,
            decreases n - i,
        {
            if found.is_none() && self.window_drag_states[i].0 == window_id {
                let st = self.window_drag_states[i].1;
                proof {
                    let states = self.window_drag_states@;
                    assert(has_drag(states, window_id));
                    assert forall|k: int|
                        0 <= k < states.len() && states[k].0 == window_id implies states[k].1
                        == st by {
                        if k != i {
                            assert(states[k].0 != states[i as int].0 || k == i);
                        }
                    }
                }
                found = Some(st);
            }
            i += 1;
        }
        match found {
            None => {
                proof {
                    assert(!has_drag(self.window_drag_states@, window_id));
                }
                DragResult::NoAction
            },
            Some(st) => {
                self.clear_drag_state(window_id);
                proof {
                    assert(st.initial_rect.wf());
                }
                let dur: u64 = if now_ms >= st.drag_start_ms {
                    now_ms - st.drag_start_ms
                } else {
                    0
                };
                let dx = final_rect.x - st.initial_rect.x;
                let dy = final_rect.y - st.initial_rect.y;
                proof {
                    assert(dx * dx <= 4 * COORD_LIMIT * (4 * COORD_LIMIT)) by (nonlinear_arith)
                        requires
                            -4 * COORD_LIMIT <= dx <= 4 * COORD_LIMIT,
                    ;
                    assert(dy * dy <= 4 * COORD_LIMIT * (4 * COORD_LIMIT)) by (nonlinear_arith)
                        requires
                            -4 * COORD_LIMIT <= dy <= 4 * COORD_LIMIT,
                    ;
                    assert(dx * dx >= 0) by (nonlinear_arith);
                    assert(dy * dy >= 0) by (nonlinear_arith);
                }
                let dist2 = dx * dx + dy * dy;
                proof {
                    assert(self.snap_threshold * self.snap_threshold <= COORD_LIMIT * COORD_LIMIT)
                        by (nonlinear_arith)
                        requires
                            0 <= self.snap_threshold <= COORD_LIMIT,
                    ;
                    assert(self.snap_threshold * self.snap_threshold >= 0) by (nonlinear_arith);
                }
                let thr2 = self.snap_threshold * self.snap_threshold;
                if dur < MIN_DRAG_MS || dist2 < thr2 {
                    return DragResult::ReturnToOriginal(st.initial_rect);
                }
                let (cx, cy) = final_rect.center();
                match self.find_zone_at_point(cx, cy) {
                    Some(region) => {
                        if region == SnapRegion::Center {
                            match self.find_window_under_drag(
                                window_id,
                                final_rect,
                                all_windows,
                            ) {
                                Some(target) => DragResult::SwapWithWindow(
                                    target,
                                    st.initial_rect,
                                ),
                                None => DragResult::ReturnToOriginal(st.initial_rect),
                            }
                        } else {
                            let snap = zone_snap(region, &self.screen_rect);
                            if snap.x - final_rect.x > SNAP_SLACK || final_rect.x - snap.x
                                > SNAP_SLACK || snap.y - final_rect.y > SNAP_SLACK
                                || final_rect.y - snap.y > SNAP_SLACK || snap.width
                                - final_rect.width > SNAP_SLACK || final_rect.width - snap.width
                                > SNAP_SLACK || snap.height - final_rect.height > SNAP_SLACK
                                || final_rect.height - snap.height > SNAP_SLACK {
                                DragResult::SnapToZone(snap)
                            } else {
                                DragResult::ReturnToOriginal(st.initial_rect)
                            }
                        }
                    },
                    None => DragResult::ReturnToOriginal(st.initial_rect),
                }
            },
        }
    }

    /// Arbitrate an unsolicited move as the end of a single-shot drag: the
    /// previously stored rectangle stands in for the drag's initial
    /// rectangle, and the duration gate is taken as met (the motion was the
    /// host's report of a finished user move, not a timed drag).
    pub fn decide_single_shot(
        &self,
        window_id: WindowId,
        initial_rect: Rect,
        final_rect: Rect,
        all_windows: &Vec<Window>,
    ) -> (r: DragResult)
        requires
            self.wf(),
            initial_rect.wf(),
            final_rect.wf(),
            crate::model::all_wf(all_windows@),
        ensures
            r == spec_drag_decision(
                WindowDragState {
                    window_id,
                    initial_rect,
                    is_dragging: true,
                    drag_start_ms: 0,
                },
                self.screen_rect,
                self.snap_threshold as int,
                window_id,
                final_rect,
                all_windows@,
                MIN_DRAG_MS,
            ),
    {
        let dx = final_rect.x - initial_rect.x;
        let dy = final_rect.y - initial_rect.y;
        proof {
            assert(dx * dx >= 0 && dx * dx <= 4 * COORD_LIMIT * (4 * COORD_LIMIT))
                by (nonlinear_arith)
                requires
                    -4 * COORD_LIMIT <= dx <= 4 * COORD_LIMIT,
            ;
            assert(dy * dy >= 0 && dy * dy <= 4 * COORD_LIMIT * (4 * COORD_LIMIT))
                by (nonlinear_arith)
                requires
                    -4 * COORD_LIMIT <= dy <= 4 * COORD_LIMIT,
            ;
            assert(self.snap_threshold * self.snap_threshold >= 0 && self.snap_threshold
                * self.snap_threshold <= COORD_LIMIT * COORD_LIMIT) by (nonlinear_arith)
                requires
                    0 <= self.snap_threshold <= COORD_LIMIT,
            ;
        }
        let dist2 = dx * dx + dy * dy;
        let thr2 = self.snap_threshold * self.snap_threshold;
        if dist2 < thr2 {
            return DragResult::ReturnToOriginal(initial_rect);
        }
        let (cx, cy) = final_rect.center();
        match self.find_zone_at_point(cx, cy) {
            Some(region) => {
                if region == SnapRegion::Center {
                    match self.find_window_under_drag(window_id, final_rect, all_windows) {
                        Some(target) => DragResult::SwapWithWindow(target, initial_rect),
                        None => DragResult::ReturnToOriginal(initial_rect),
                    }
                } else {
                    let snap = zone_snap(region, &self.screen_rect);
                    if snap.x - final_rect.x > SNAP_SLACK || final_rect.x - snap.x > SNAP_SLACK
                        || snap.y - final_rect.y > SNAP_SLACK || final_rect.y - snap.y
                        > SNAP_SLACK || snap.width - final_rect.width > SNAP_SLACK
                        || final_rect.width - snap.width > SNAP_SLACK || snap.height
                        - final_rect.height > SNAP_SLACK || final_rect.height - snap.height
                        > SNAP_SLACK {
                        DragResult::SnapToZone(snap)
                    } else {
                        DragResult::ReturnToOriginal(initial_rect)
                    }
                }
            },
            None => DragResult::ReturnToOriginal(initial_rect),
        }
    }

    /// Whether a drag is being tracked for the window.
    pub fn is_window_dragging(&self, window_id: WindowId) -> (b: bool)
        requires
            self.wf(),
        ensures
            b == (has_drag(self.window_drag_states@, window_id) && drag_st(
                self.window_drag_states@,
                window_id,
            ).is_dragging),
    {
        let n = self.window_drag_states.len();
        let mut i: usize = 0;
        while i < n
            invariant
                i <= n,
                n == self.window_drag_states@.len(),
                self.wf(),
                forall|j: int| 0 <= j < i ==> self.window_drag_states@[j].0 != window_id,
            decreases n - i,
        {
            if self.window_drag_states[i].0 == window_id {
                proof {
                    let states = self.window_drag_states@;
                    assert(has_drag(states, window_id));
                    assert forall|k: int|
                        0 <= k < states.len() && states[k].0 == window_id implies states[k].1
                        == states[i as int].1 by {
                        if k != i {
                            assert(states[k].0 != states[i as int].0 || k == i);
                        }
                    }
                }
                return self.window_drag_states[i].1.is_dragging;
            }
            i += 1;
        }
        proof {
            assert(!has_drag(self.window_drag_states@, window_id));
        }
        false
    }

    /// Forget any tracked drag for the window.
    pub fn clear_drag_state(&mut self, window_id: WindowId)
        requires
            old(self).wf(),
        ensures
            final(self).wf(),
            final(self).screen_rect == old(self).screen_rect,
            final(self).snap_zones@ == old(self).snap_zones@,
            final(self).snap_threshold == old(self).snap_threshold,
            !has_drag(final(self).window_drag_states@, window_id),
            forall|x: WindowId|
                x != window_id ==> (has_drag(final(self).window_drag_states@, x) == has_drag(
                    old(self).window_drag_states@,
                    x,
                ) && (has_drag(old(self).window_drag_states@, x) ==> drag_st(
                    final(self).window_drag_states@,
                    x,
                ) == drag_st(old(self).window_drag_states@, x))),
    {
        let ghost orig = self.window_drag_states@;
        let n = self.window_drag_states.len();
        let mut i: usize = 0;
        while i < n
            invariant
                i <= n,
                n == self.window_drag_states@.len(),
                self.window_drag_states@ == orig,
                old(self).window_drag_states@ == orig,
                distinct_keys(orig),
                drags_wf(orig),
                self.screen_rect == old(self).screen_rect,
                self.screen_rect.wf(),
                self.snap_zones@ == spec_zones(self.screen_rect),
                self.snap_zones@ == old(self).snap_zones@,
                0 <= self.snap_threshold <= COORD_LIMIT,
                self.snap_threshold == old(self).snap_threshold,
                forall|j: int| 0 <= j < i ==> orig[j].0 != window_id,
            decreases n - i,
        {
            if self.window_drag_states[i].0 == window_id {
                let _ = self.window_drag_states.remove(i);
                proof {
                    let states = self.window_drag_states@;
                    assert(states =~= orig.remove(i as int));
                    lemma_remove_distinct(orig, i as int);
                    assert forall|j: int|
                        0 <= j < states.len() implies (#[trigger] states[j]).1.initial_rect.wf()
                        && states[j].0 != window_id by {
                        if j < i {
                            assert(states[j] == orig[j]);
                        } else {
                            assert(states[j] == orig[j + 1]);
                            assert(orig[i as int].0 != orig[j + 1].0);
                        }
                    }
                    assert forall|x: WindowId|
                        x != window_id implies (has_drag(states, x) == has_drag(orig, x)
                        && (has_drag(orig, x) ==> drag_st(states, x) == drag_st(orig, x))) by {
                        lemma_member_after_remove(orig, i as int, x);
                    }
                }
                return ;
            }
            i += 1;
        }
        proof {
            assert(!has_drag(orig, window_id));
        }
    }
}

/// Compute one zone's trigger bounds.
pub fn zone_bounds(region: SnapRegion, s: &Rect) -> (r: Rect)
    requires
        s.wf(),
    ensures
        r == spec_zone_bounds(region, *s),
{
    match region {
        SnapRegion::Center => Rect {
            x: s.x + s.width / 5,
            y: s.y + s.height / 5,
            width: s.width * 3 / 5,
            height: s.height * 3 / 5,
        },
        SnapRegion::North => Rect {
            x: s.x + CORNER_SIZE,
            y: s.y,
            width: s.width - 2 * CORNER_SIZE,
            height: EDGE_ZONE,
        },
        SnapRegion::South => Rect {
            x: s.x + CORNER_SIZE,
            y: s.y + s.height - EDGE_ZONE,
            width: s.width - 2 * CORNER_SIZE,
            height: EDGE_ZONE,
        },
        SnapRegion::West => Rect {
            x: s.x,
            y: s.y + CORNER_SIZE,
            width: EDGE_ZONE,
            height: s.height - 2 * CORNER_SIZE,
        },
        SnapRegion::East => Rect {
            x: s.x + s.width - EDGE_ZONE,
            y: s.y + CORNER_SIZE,
            width: EDGE_ZONE,
            height: s.height - 2 * CORNER_SIZE,
        },
        SnapRegion::NorthWest => Rect { x: s.x, y: s.y, width: CORNER_SIZE, height: CORNER_SIZE },
        SnapRegion::NorthEast => Rect {
            x: s.x + s.width - CORNER_SIZE,
            y: s.y,
            width: CORNER_SIZE,
            height: CORNER_SIZE,
        },
        SnapRegion::SouthWest => Rect {
            x: s.x,
            y: s.y + s.height - CORNER_SIZE,
            width: CORNER_SIZE,
            height: CORNER_SIZE,
        },
        SnapRegion::SouthEast => Rect {
            x: s.x + s.width - CORNER_SIZE,
            y: s.y + s.height - CORNER_SIZE,
            width: CORNER_SIZE,
            height: CORNER_SIZE,
        },
    }
}

/// Compute one zone's snap rectangle.
pub fn zone_snap(region: SnapRegion, s: &Rect) -> (r: Rect)
    requires
        s.wf(),
    ensures
        r == spec_zone_snap(region, *s),
{
    match region {
        SnapRegion::Center => Rect {
            x: s.x + s.width / 4,
            y: s.y + s.height / 4,
            width: s.width / 2,
            height: s.height / 2,
        },
        SnapRegion::North => Rect {
            x: s.x + SNAP_MARGIN,
            y: s.y + SNAP_MARGIN,
            width: s.width - 2 * SNAP_MARGIN,
            height: s.height / 2 - SNAP_MARGIN,
        },
        SnapRegion::South => Rect {
            x: s.x + SNAP_MARGIN,
            y: s.y + s.height / 2,
            width: s.width - 2 * SNAP_MARGIN,
            height: s.height / 2 - SNAP_MARGIN,
        },
        SnapRegion::West => Rect {
            x: s.x + SNAP_MARGIN,
            y: s.y + SNAP_MARGIN,
            width: s.width / 2 - SNAP_MARGIN,
            height: s.height - 2 * SNAP_MARGIN,
        },
        SnapRegion::East => Rect {
            x: s.x + s.width / 2,
            y: s.y + SNAP_MARGIN,
            width: s.width / 2 - SNAP_MARGIN,
            height: s.height - 2 * SNAP_MARGIN,
        },
        SnapRegion::NorthWest => Rect {
            x: s.x + SNAP_MARGIN,
            y: s.y + SNAP_MARGIN,
            width: s.width / 2 - SNAP_MARGIN,
            height: s.height / 2 - SNAP_MARGIN,
        },
        SnapRegion::NorthEast => Rect {
            x: s.x + s.width / 2,
            y: s.y + SNAP_MARGIN,
            width: s.width / 2 - SNAP_MARGIN,
            height: s.height / 2 - SNAP_MARGIN,
        },
        SnapRegion::SouthWest => Rect {
            x: s.x + SNAP_MARGIN,
            y: s.y + s.height / 2,
            width: s.width / 2 - SNAP_MARGIN,
            height: s.height / 2 - SNAP_MARGIN,
        },
        SnapRegion::SouthEast => Rect {
            x: s.x + s.width / 2,
            y: s.y + s.height / 2,
            width: s.width / 2 - SNAP_MARGIN,
            height: s.height / 2 - SNAP_MARGIN,
        },
    }
}

/// Build the zone table for a screen rectangle.
fn build_zones(s: &Rect) -> (r: Vec<SnapZone>)
    requires
        s.wf(),
    ensures
        r@ == spec_zones(*s),
{
    let mut zones: Vec<SnapZone> = Vec::new();
    zones.push(
        SnapZone {
            region: SnapRegion::Center,
            bounds: zone_bounds(SnapRegion::Center, s),
            snap_rect: zone_snap(SnapRegion::Center, s),
        },
    );
    zones.push(
        SnapZone {
            region: SnapRegion::North,
            bounds: zone_bounds(SnapRegion::North, s),
            snap_rect: zone_snap(SnapRegion::North, s),
        },
    );
    zones.push(
        SnapZone {
            region: SnapRegion::South,
            bounds: zone_bounds(SnapRegion::South, s),
            snap_rect: zone_snap(SnapRegion::South, s),
        },
    );
    zones.push(
        SnapZone {
            region: SnapRegion::West,
            bounds: zone_bounds(SnapRegion::West, s),
            snap_rect: zone_snap(SnapRegion::West, s),
        },
    );
    zones.push(
        SnapZone {
            region: SnapRegion::East,
            bounds: zone_bounds(SnapRegion::East, s),
            snap_rect: zone_snap(SnapRegion::East, s),
        },
    );
    zones.push(
        SnapZone {
            region: SnapRegion::NorthWest,
            bounds: zone_bounds(SnapRegion::NorthWest, s),
            snap_rect: zone_snap(SnapRegion::NorthWest, s),
        },
    );
    zones.push(
        SnapZone {
            region: SnapRegion::NorthEast,
            bounds: zone_bounds(SnapRegion::NorthEast, s),
            snap_rect: zone_snap(SnapRegion::NorthEast, s),
        },
    );
    zones.push(
        SnapZone {
            region: SnapRegion::SouthWest,
            bounds: zone_bounds(SnapRegion::SouthWest, s),
            snap_rect: zone_snap(SnapRegion::SouthWest, s),
        },
    );
    zones.push(
        SnapZone {
            region: SnapRegion::SouthEast,
            bounds: zone_bounds(SnapRegion::SouthEast, s),
            snap_rect: zone_snap(SnapRegion::SouthEast, s),
        },
    );
    proof {
        assert(zones@ =~= spec_zones(*s));
    }
    zones
}

/// Find the first listed window other than `self_id` whose rectangle holds
/// the point.
fn window_under(windows: &Vec<Window>, self_id: WindowId, px: i64, py: i64) -> (r: Option<
    WindowId,
>)
    requires
        crate::model::all_wf(windows@),
        -2 * COORD_LIMIT <= px <= 2 * COORD_LIMIT,
        -2 * COORD_LIMIT <= py <= 2 * COORD_LIMIT,
    ensures
        r == spec_window_under(windows@, self_id, px as int, py as int),
{
    let n = windows.len();
    proof {
        assert(windows@.subrange(0, n as int) =~= windows@);
    }
    let mut i: usize = 0;
    while i < n
        invariant
            i <= n,
            n == windows@.len(),
            crate::model::all_wf(windows@),
            -2 * COORD_LIMIT <= px <= 2 * COORD_LIMIT,
            -2 * COORD_LIMIT <= py <= 2 * COORD_LIMIT,
            spec_window_under(windows@, self_id, px as int, py as int) == spec_window_under(
                windows@.subrange(i as int, n as int),
                self_id,
                px as int,
                py as int,
            ),
        decreases n - i,
    {
        proof {
            let tail = windows@.subrange(i as int, n as int);
            assert(tail[0] == windows@[i as int]);
            assert(tail.subrange(1, tail.len() as int) =~= windows@.subrange(
                i + 1 as int,
                n as int,
            ));
        }
        let w = &windows[i];
        if w.id != self_id && w.rect.contains_closed(px, py) {
            return Some(w.id);
        }
        i += 1;
    }
    proof {
        assert(windows@.subrange(n as int, n as int) =~= Seq::<Window>::empty());
    }
    None
}

/// Removing an entry keeps the keys distinct.
proof fn lemma_remove_distinct(states: Seq<(WindowId, WindowDragState)>, i: int)
    requires
        distinct_keys(states),
        0 <= i < states.len(),
    ensures
        distinct_keys(states.remove(i)),
{
    let out = states.remove(i);
    assert forall|a: int, b: int|
        0 <= a < b < out.len() implies out[a].0 != out[b].0 by {
        let oa = if a < i {
            a
        } else {
            a + 1
        };
        let ob = if b < i {
            b
        } else {
            b + 1
        };
        assert(out[a] == states[oa]);
        assert(out[b] == states[ob]);
    }
}

/// Membership of other keys is untouched by removing one entry.
proof fn lemma_member_after_remove(states: Seq<(WindowId, WindowDragState)>, i: int, x: WindowId)
    requires
        distinct_keys(states),
        0 <= i < states.len(),
        x != states[i].0,
    ensures
        has_drag(states.remove(i), x) == has_drag(states, x),
        has_drag(states, x) ==> drag_st(states.remove(i), x) == drag_st(states, x),
{
    let out = states.remove(i);
    if has_drag(states, x) {
        let k = choose|k: int| 0 <= k < states.len() && states[k].0 == x;
        let k2 = if k < i {
            k
        } else {
            k - 1
        };
        assert(out[k2] == states[k]);
        assert(has_drag(out, x));
        let m = choose|m: int| 0 <= m < out.len() && out[m].0 == x;
        let om = if m < i {
            m
        } else {
            m + 1
        };
        assert(out[m] == states[om]);
        assert(states[om].0 == x && states[k].0 == x);
        assert(om == k);
        let m2 = choose|m2: int| 0 <= m2 < states.len() && states[m2].0 == x;
        assert(m2 == k);
    }
    if has_drag(out, x) {
        let m = choose|m: int| 0 <= m < out.len() && out[m].0 == x;
        let om = if m < i {
            m
        } else {
            m + 1
        };
        assert(out[m] == states[om]);
        assert(has_drag(states, x));
    }
}

/// Membership of other keys is untouched by removing one entry and pushing
/// a replacement for the removed key.
proof fn lemma_member_after_remove_push(
    states: Seq<(WindowId, WindowDragState)>,
    i: int,
    entry: (WindowId, WindowDragState),
    x: WindowId,
)
    requires
        distinct_keys(states),
        0 <= i < states.len(),
        entry.0 == states[i].0,
        x != states[i].0,
    ensures
        has_drag(states.remove(i).push(entry), x) == has_drag(states, x),
        has_drag(states, x) ==> drag_st(states.remove(i).push(entry), x) == drag_st(states, x),
{
    lemma_member_after_remove(states, i, x);
    let mid = states.remove(i);
    let out = mid.push(entry);
    if has_drag(mid, x) {
        let k = choose|k: int| 0 <= k < mid.len() && mid[k].0 == x;
        assert(out[k] == mid[k]);
        assert(has_drag(out, x));
        lemma_remove_distinct(states, i);
        let m = choose|m: int| 0 <= m < out.len() && out[m].0 == x;
        assert(m < mid.len() && out[m] == mid[m]);
        assert(m == k);
        let m2 = choose|m2: int| 0 <= m2 < mid.len() && mid[m2].0 == x;
        assert(m2 == k);
    }
    if has_drag(out, x) {
        let m = choose|m: int| 0 <= m < out.len() && out[m].0 == x;
        assert(m < mid.len());
        assert(out[m] == mid[m]);
        assert(has_drag(mid, x));
    }
}


/// The window-under search only reads fields that field-wise equality
/// preserves, so running it over a copied window list finds the same window.
pub proof fn lemma_window_under_eq(
    a: Seq<Window>,
    b: Seq<Window>,
    self_id: WindowId,
    px: int,
    py: int,
)
    requires
        crate::window_manager::win_seq_eq(a, b),
    ensures
        spec_window_under(a, self_id, px, py) == spec_window_under(b, self_id, px, py),
    decreases a.len(),
{
    if a.len() > 0 {
        assert(crate::model::win_eq(a[0], b[0]));
        let ta = a.subrange(1, a.len() as int);
        let tb = b.subrange(1, b.len() as int);
        assert(crate::window_manager::win_seq_eq(ta, tb)) by {
            assert forall|i: int|
                0 <= i < ta.len() implies crate::model::win_eq(ta[i], tb[i]) by {
                assert(ta[i] == a[i + 1]);
                assert(tb[i] == b[i + 1]);
            }
        }
        lemma_window_under_eq(ta, tb, self_id, px, py);
    }
}

/// Corollary: the whole drag decision is the same over a copied window list,
/// since the list only feeds the window-under search.
pub proof fn lemma_drag_decision_eq(
    st: WindowDragState,
    screen: Rect,
    threshold: int,
    id: WindowId,
    final_rect: Rect,
    a: Seq<Window>,
    b: Seq<Window>,
    now_ms: u64,
)
    requires
        crate::window_manager::win_seq_eq(a, b),
    ensures
        spec_drag_decision(st, screen, threshold, id, final_rect, a, now_ms)
            == spec_drag_decision(st, screen, threshold, id, final_rect, b, now_ms),
{
    let cx = final_rect.x + final_rect.width / 2;
    let cy = final_rect.y + final_rect.height / 2;
    lemma_window_under_eq(a, b, id, cx as int, cy as int);
}

} // verus!
