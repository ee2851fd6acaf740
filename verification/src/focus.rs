//! Focus selection: which window a directional focus/move command lands on,
//! and which windows are worth focusing at all.

use vstd::prelude::*;
use crate::geometry::COORD_LIMIT;
use crate::model::{Window, WindowId};

verus! {

#[derive(Debug, Clone, Copy, PartialEq, Eq, Structural)]
pub enum FocusDirection {
    Left,
    Right,
    Up,
    Down,
}

pub open spec fn spec_abs(a: int) -> int {
    if a < 0 {
        -a
    } else {
        a
    }
}

pub open spec fn spec_center_x(w: Window) -> int {
    w.rect.x + w.rect.width / 2
}

pub open spec fn spec_center_y(w: Window) -> int {
    w.rect.y + w.rect.height / 2
}

/// The candidate's centre lies strictly in the chosen half-plane.
pub open spec fn in_direction(w: Window, fx: int, fy: int, d: FocusDirection) -> bool {
    match d {
        FocusDirection::Left => spec_center_x(w) < fx,
        FocusDirection::Right => spec_center_x(w) > fx,
        FocusDirection::Up => spec_center_y(w) < fy,
        FocusDirection::Down => spec_center_y(w) > fy,
    }
}

/// Distance along the direction's axis.
pub open spec fn primary_delta(w: Window, fx: int, fy: int, d: FocusDirection) -> int {
    match d {
        FocusDirection::Left | FocusDirection::Right => spec_abs(spec_center_x(w) - fx),
        FocusDirection::Up | FocusDirection::Down => spec_abs(spec_center_y(w) - fy),
    }
}

/// Distance across the direction's axis.
pub open spec fn perp_delta(w: Window, fx: int, fy: int, d: FocusDirection) -> int {
    match d {
        FocusDirection::Left | FocusDirection::Right => spec_abs(spec_center_y(w) - fy),
        FocusDirection::Up | FocusDirection::Down => spec_abs(spec_center_x(w) - fx),
    }
}

/// Squared Euclidean distance between centres.
pub open spec fn spec_dist2(w: Window, fx: int, fy: int) -> int {
    (spec_center_x(w) - fx) * (spec_center_x(w) - fx) + (spec_center_y(w) - fy) * (spec_center_y(
        w,
    ) - fy)
}

/// A candidate is ranked by the weighted distance
/// `dist * (1 + perp / (2 * max(primary, 1)))`, squared and cleared of
/// fractions: comparing `a` against `b` compares
/// `dist2(a) * (2 qa + pa)^2 * (2 qb)^2` with
/// `dist2(b) * (2 qb + pb)^2 * (2 qa)^2`, where `q` is the primary delta
/// (at least one) and `p` the perpendicular delta.
pub open spec fn weight_base(w: Window, fx: int, fy: int, d: FocusDirection) -> int {
    let q = if primary_delta(w, fx, fy, d) >= 1 {
        primary_delta(w, fx, fy, d)
    } else {
        1
    };
    2 * q
}

pub open spec fn weighted_num(w: Window, fx: int, fy: int, d: FocusDirection) -> int {
    let base = weight_base(w, fx, fy, d) + perp_delta(w, fx, fy, d);
    spec_dist2(w, fx, fy) * base * base
}

pub open spec fn weighted_den(w: Window, fx: int, fy: int, d: FocusDirection) -> int {
    weight_base(w, fx, fy, d) * weight_base(w, fx, fy, d)
}

/// Strictly better: smaller weighted distance; ties broken by smaller
/// Euclidean distance, then by the lower window identifier.
pub open spec fn better_candidate(a: Window, b: Window, fx: int, fy: int, d: FocusDirection)
    -> bool {
    let lhs = weighted_num(a, fx, fy, d) * weighted_den(b, fx, fy, d);
    let rhs = weighted_num(b, fx, fy, d) * weighted_den(a, fx, fy, d);
    ||| lhs < rhs
    ||| (lhs == rhs && (spec_dist2(a, fx, fy) < spec_dist2(b, fx, fy) || (spec_dist2(a, fx, fy)
        == spec_dist2(b, fx, fy) && a.id.0 < b.id.0)))
}

/// Windows the focus may land on: not minimized, of a sensible size, not a
/// bare system surface.
pub open spec fn spec_should_focus(w: Window) -> bool {
    &&& !w.is_minimized
    &&& w.rect.width >= 100
    &&& w.rect.height >= 100
    &&& w.title@.len() > 0
    &&& !(w.title@.len() >= 6 && w.title@.subrange(0, 6) == "Item-0"@)
    &&& w.title@ != "Desktop"@
    &&& w.owner@ != "Dock"@
    &&& w.owner@ != "SystemUIServer"@
    &&& w.owner@ != "WindowServer"@
}

/// The fold the directional search performs: scan the list once, keeping the
/// best candidate seen so far.
pub open spec fn spec_pick_loop(
    windows: Seq<Window>,
    i: int,
    best: Option<Window>,
    current_id: WindowId,
    fx: int,
    fy: int,
    d: FocusDirection,
) -> Option<Window>
    decreases windows.len() - i,
{
    if i < 0 || i >= windows.len() {
        best
    } else {
        let w = windows[i];
        let cand = w.id != current_id && spec_should_focus(w) && in_direction(w, fx, fy, d);
        let new_best = if cand && (best is None || better_candidate(
            w,
            best.unwrap(),
            fx,
            fy,
            d,
        )) {
            Some(w)
        } else {
            best
        };
        spec_pick_loop(windows, i + 1, new_best, current_id, fx, fy, d)
    }
}

/// The window a directional focus command selects, if any: among the
/// focusable windows whose centre lies strictly in the chosen half-plane,
/// the one of least weighted distance, ties broken by Euclidean distance and
/// then by the lower identifier.
pub open spec fn spec_pick_dir(
    windows: Seq<Window>,
    current_id: WindowId,
    fx: int,
    fy: int,
    d: FocusDirection,
) -> Option<WindowId> {
    match spec_pick_loop(windows, 0, None, current_id, fx, fy, d) {
        Some(w) => Some(w.id),
        None => None,
    }
}

/// Law: directional selection is deterministic. For fixed window rectangles
/// and a fixed focus, any two results that meet the selection contract are
/// the same candidate.
pub proof fn lemma_directional_determinism(
    r1: Option<WindowId>,
    r2: Option<WindowId>,
    windows: Seq<Window>,
    current_id: WindowId,
    fx: int,
    fy: int,
    d: FocusDirection,
)
    requires
        r1 == spec_pick_dir(windows, current_id, fx, fy, d),
        r2 == spec_pick_dir(windows, current_id, fx, fy, d),
    ensures
        r1 == r2,
{
}


/// Exec test of `spec_should_focus`.
pub fn should_focus_window(w: &Window) -> (r: bool)
    requires
        w.wf(),
    ensures
        r == spec_should_focus(*w),
{
    proof {
        reveal_strlit("Item-0");
    }
    if w.is_minimized {
        return false;
    }
    if w.rect.width < 100 || w.rect.height < 100 {
        return false;
    }
    if w.title.as_str().unicode_len() == 0 {
        return false;
    }
    if crate::text::starts_with_str(w.title.as_str(), "Item-0") {
        return false;
    }
    if crate::text::str_eq(w.title.as_str(), "Desktop") {
        return false;
    }
    if crate::text::str_eq(w.owner.as_str(), "Dock") || crate::text::str_eq(
        w.owner.as_str(),
        "SystemUIServer",
    ) || crate::text::str_eq(w.owner.as_str(), "WindowServer") {
        return false;
    }
    true
}

/// The key of a candidate: squared distance, numerator base `2 q + p`, and
/// denominator base `2 q`.
fn candidate_key(w: &Window, fx: i64, fy: i64, d: FocusDirection) -> (r: (i64, i64, i64))
    requires
        w.wf(),
        -2 * COORD_LIMIT <= fx <= 2 * COORD_LIMIT,
        -2 * COORD_LIMIT <= fy <= 2 * COORD_LIMIT,
    ensures
        r.0 == spec_dist2(*w, fx as int, fy as int),
        r.1 == weight_base(*w, fx as int, fy as int, d) + perp_delta(*w, fx as int, fy as int, d),
        r.2 == weight_base(*w, fx as int, fy as int, d),
        0 <= r.0 <= 128 * COORD_LIMIT * COORD_LIMIT,
        0 <= r.1 <= 16 * COORD_LIMIT,
        2 <= r.2 <= 16 * COORD_LIMIT,
{
    let (cx, cy) = w.rect.center();
    let dx = cx - fx;
    let dy = cy - fy;
    proof {
        assert(dx * dx + dy * dy <= 128 * COORD_LIMIT * COORD_LIMIT) by (nonlinear_arith)
            requires
                -8 * COORD_LIMIT <= dx <= 8 * COORD_LIMIT,
                -8 * COORD_LIMIT <= dy <= 8 * COORD_LIMIT,
        ;
        assert(dx * dx >= 0) by (nonlinear_arith);
        assert(dy * dy >= 0) by (nonlinear_arith);
    }
    let dist2 = dx * dx + dy * dy;
    let adx = if dx < 0 {
        -dx
    } else {
        dx
    };
    let ady = if dy < 0 {
        -dy
    } else {
        dy
    };
    let (q0, p) = match d {
        FocusDirection::Left | FocusDirection::Right => (adx, ady),
        FocusDirection::Up | FocusDirection::Down => (ady, adx),
    };
    let q = if q0 >= 1 {
        q0
    } else {
        1
    };
    (dist2, 2 * q + p, 2 * q)
}

/// Whether candidate `a` beats candidate `b` under the weighted order.
fn key_better(ka: (i64, i64, i64), ida: WindowId, kb: (i64, i64, i64), idb: WindowId) -> (r:
    bool)
    requires
        0 <= ka.0 <= 128 * COORD_LIMIT * COORD_LIMIT,
        0 <= ka.1 <= 16 * COORD_LIMIT,
        0 <= ka.2 <= 16 * COORD_LIMIT,
        0 <= kb.0 <= 128 * COORD_LIMIT * COORD_LIMIT,
        0 <= kb.1 <= 16 * COORD_LIMIT,
        0 <= kb.2 <= 16 * COORD_LIMIT,
    ensures
        r == ({
            let lhs = ka.0 * ka.1 * ka.1 * (kb.2 * kb.2);
            let rhs = kb.0 * kb.1 * kb.1 * (ka.2 * ka.2);
            ||| lhs < rhs
            ||| (lhs == rhs && (ka.0 < kb.0 || (ka.0 == kb.0 && ida.0 < idb.0)))
        }),
{
    proof {
        lemma_key_product_bounds(ka.0 as int, ka.1 as int, ka.2 as int);
        lemma_key_product_bounds(kb.0 as int, kb.1 as int, kb.2 as int);
        let na_i = ka.0 as int * ka.1 as int * ka.1 as int;
        let nb_i = kb.0 as int * kb.1 as int * kb.1 as int;
        let da_i = ka.2 as int * ka.2 as int;
        let db_i = kb.2 as int * kb.2 as int;
        assert(0 <= na_i * db_i <= 0x8000_0000_0000_0000_0000 * 0x100_0000_0000)
            by (nonlinear_arith)
            requires
                0 <= na_i <= 0x8000_0000_0000_0000_0000,
                0 <= db_i <= 0x100_0000_0000,
        ;
        assert(0 <= nb_i * da_i <= 0x8000_0000_0000_0000_0000 * 0x100_0000_0000)
            by (nonlinear_arith)
            requires
                0 <= nb_i <= 0x8000_0000_0000_0000_0000,
                0 <= da_i <= 0x100_0000_0000,
        ;
    }
    let na = (ka.0 as i128) * (ka.1 as i128) * (ka.1 as i128);
    let nb = (kb.0 as i128) * (kb.1 as i128) * (kb.1 as i128);
    let da = (ka.2 as i128) * (ka.2 as i128);
    let db = (kb.2 as i128) * (kb.2 as i128);
    let lhs = na * db;
    let rhs = nb * da;
    lhs < rhs || (lhs == rhs && (ka.0 < kb.0 || (ka.0 == kb.0 && ida.0 < idb.0)))
}

/// Bounds of the key products, keeping them well inside 128 bits.
proof fn lemma_key_product_bounds(s: int, nbase: int, dbase: int)
    requires
        0 <= s <= 128 * COORD_LIMIT * COORD_LIMIT,
        0 <= nbase <= 16 * COORD_LIMIT,
        0 <= dbase <= 16 * COORD_LIMIT,
    ensures
        0 <= s * nbase <= 0x800_0000_0000_0000,
        0 <= s * nbase * nbase <= 0x8000_0000_0000_0000_0000,
        0 <= dbase * dbase <= 0x100_0000_0000,
{
    assert(128 * COORD_LIMIT * COORD_LIMIT == 0x80_0000_0000);
    assert(16 * COORD_LIMIT == 0x10_0000);
    assert(0 <= s * nbase <= 0x800_0000_0000_0000) by (nonlinear_arith)
        requires
            0 <= s <= 0x80_0000_0000,
            0 <= nbase <= 0x10_0000,
    ;
    assert(0 <= s * nbase * nbase <= 0x8000_0000_0000_0000_0000) by (nonlinear_arith)
        requires
            0 <= s * nbase <= 0x800_0000_0000_0000,
            0 <= nbase <= 0x10_0000,
    ;
    assert(0 <= dbase * dbase <= 0x100_0000_0000) by (nonlinear_arith)
        requires
            0 <= dbase <= 0x10_0000,
    ;
}

/// Find the window a directional focus command selects: among the focusable
/// windows whose centre lies strictly in the chosen half-plane, the one of
/// least weighted distance; ties go to the smaller Euclidean distance, then
/// to the lower identifier.
pub fn find_window_in_direction(
    windows: &Vec<Window>,
    current_id: WindowId,
    fx: i64,
    fy: i64,
    d: FocusDirection,
) -> (r: Option<WindowId>)
    requires
        crate::model::all_wf(windows@),
        -2 * COORD_LIMIT <= fx <= 2 * COORD_LIMIT,
        -2 * COORD_LIMIT <= fy <= 2 * COORD_LIMIT,
    ensures
        r == spec_pick_dir(windows@, current_id, fx as int, fy as int, d),
{
    let n = windows.len();
    let mut best: Option<usize> = None;
    let mut best_key: (i64, i64, i64) = (0, 0, 0);
    let mut i: usize = 0;
    while i < n
        invariant
            i <= n,
            n == windows@.len(),
            crate::model::all_wf(windows@),
            -2 * COORD_LIMIT <= fx <= 2 * COORD_LIMIT,
            -2 * COORD_LIMIT <= fy <= 2 * COORD_LIMIT,
            match best {
                Some(bi) => {
                    &&& bi < i
                    &&& best_key.0 == spec_dist2(windows@[bi as int], fx as int, fy as int)
                    &&& best_key.1 == weight_base(windows@[bi as int], fx as int, fy as int, d)
                        + perp_delta(windows@[bi as int], fx as int, fy as int, d)
                    &&& best_key.2 == weight_base(windows@[bi as int], fx as int, fy as int, d)
                    &&& 0 <= best_key.0 <= 128 * COORD_LIMIT * COORD_LIMIT
                    &&& 0 <= best_key.1 <= 16 * COORD_LIMIT
                    &&& 2 <= best_key.2 <= 16 * COORD_LIMIT
                    &&& spec_pick_loop(windows@, 0, None, current_id, fx as int, fy as int, d)
                        == spec_pick_loop(
                        windows@,
                        i as int,
                        Some(windows@[bi as int]),
                        current_id,
                        fx as int,
                        fy as int,
                        d,
                    )
                },
                None => spec_pick_loop(windows@, 0, None, current_id, fx as int, fy as int, d)
                    == spec_pick_loop(
                    windows@,
                    i as int,
                    None,
                    current_id,
                    fx as int,
                    fy as int,
                    d,
                ),
            },
        decreases n - i,
    {
        let w = &windows[i];
        let is_cand = w.id != current_id && should_focus_window(w) && (match d {
            FocusDirection::Left => w.rect.x + w.rect.width / 2 < fx,
            FocusDirection::Right => w.rect.x + w.rect.width / 2 > fx,
            FocusDirection::Up => w.rect.y + w.rect.height / 2 < fy,
            FocusDirection::Down => w.rect.y + w.rect.height / 2 > fy,
        });
        if is_cand {
            let key = candidate_key(w, fx, fy, d);
            let take = match best {
                None => true,
                Some(bi) => key_better(key, w.id, best_key, windows[bi].id),
            };
            if take {
                best = Some(i);
                best_key = key;
            }
        }
        i += 1;
    }
    match best {
        None => None,
        Some(bi) => Some(windows[bi].id),
    }
}


/// The focus policy's own knobs: whether focus follows the mouse, and the
/// delay between mouse-driven focus changes.
pub struct FocusManager {
    pub follows_mouse: bool,
    pub mouse_delay_ms: u64,
}

impl FocusManager {
    pub fn new(config: &crate::config::FocusConfig) -> (m: FocusManager)
        ensures
            m.follows_mouse == config.follows_mouse,
            m.mouse_delay_ms == config.mouse_delay_ms,
    {
        FocusManager {
            follows_mouse: config.follows_mouse,
            mouse_delay_ms: config.mouse_delay_ms,
        }
    }

    pub fn set_focus_follows_mouse(&mut self, enabled: bool)
        ensures
            final(self).follows_mouse == enabled,
            final(self).mouse_delay_ms == old(self).mouse_delay_ms,
    {
        self.follows_mouse = enabled;
    }

    pub fn set_mouse_delay(&mut self, delay_ms: u64)
        ensures
            final(self).mouse_delay_ms == delay_ms,
            final(self).follows_mouse == old(self).follows_mouse,
    {
        self.mouse_delay_ms = delay_ms;
    }

    pub fn is_focus_follows_mouse_enabled(&self) -> (r: bool)
        ensures
            r == self.follows_mouse,
    {
        self.follows_mouse
    }

    pub fn get_mouse_delay(&self) -> (r: u64)
        ensures
            r == self.mouse_delay_ms,
    {
        self.mouse_delay_ms
    }

    /// The window a directional focus command selects; see the free function
    /// of the same name.
    pub fn find_window_in_direction(
        &self,
        windows: &Vec<Window>,
        current_id: WindowId,
        fx: i64,
        fy: i64,
        d: FocusDirection,
    ) -> (r: Option<WindowId>)
        requires
            crate::model::all_wf(windows@),
            -2 * COORD_LIMIT <= fx <= 2 * COORD_LIMIT,
            -2 * COORD_LIMIT <= fy <= 2 * COORD_LIMIT,
        ensures
            r == spec_pick_dir(windows@, current_id, fx as int, fy as int, d),
    {
        find_window_in_direction(windows, current_id, fx, fy, d)
    }

    pub fn should_focus_window(&self, w: &Window) -> (r: bool)
        requires
            w.wf(),
        ensures
            r == spec_should_focus(*w),
    {
        should_focus_window(w)
    }
}


/// The selection only reads fields that field-wise equality preserves, so
/// running it over a copied window list picks the same window.
pub proof fn lemma_pick_loop_eq(
    a: Seq<Window>,
    b: Seq<Window>,
    i: int,
    best_a: Option<Window>,
    best_b: Option<Window>,
    current_id: WindowId,
    fx: int,
    fy: int,
    d: FocusDirection,
)
    requires
        crate::window_manager::win_seq_eq(a, b),
        match (best_a, best_b) {
            (Option::None, Option::None) => true,
            (Option::Some(x), Option::Some(y)) => crate::model::win_eq(x, y),
            _ => false,
        },
    ensures
        match (
            spec_pick_loop(a, i, best_a, current_id, fx, fy, d),
            spec_pick_loop(b, i, best_b, current_id, fx, fy, d),
        ) {
            (Option::None, Option::None) => true,
            (Option::Some(x), Option::Some(y)) => crate::model::win_eq(x, y),
            _ => false,
        },
    decreases a.len() - i,
{
    if 0 <= i < a.len() {
        let wa = a[i];
        let wb = b[i];
        assert(crate::model::win_eq(wa, wb));
        assert(spec_should_focus(wa) == spec_should_focus(wb));
        assert(in_direction(wa, fx, fy, d) == in_direction(wb, fx, fy, d));
        let cand = wa.id != current_id && spec_should_focus(wa) && in_direction(wa, fx, fy, d);
        let take_a = cand && (best_a is None || better_candidate(
            wa,
            best_a.unwrap(),
            fx,
            fy,
            d,
        ));
        let take_b = cand && (best_b is None || better_candidate(
            wb,
            best_b.unwrap(),
            fx,
            fy,
            d,
        ));
        if cand && best_a is Some {
            assert(better_candidate(wa, best_a.unwrap(), fx, fy, d) == better_candidate(
                wb,
                best_b.unwrap(),
                fx,
                fy,
                d,
            ));
        }
        assert(take_a == take_b);
        let na = if take_a {
            Some(wa)
        } else {
            best_a
        };
        let nb = if take_b {
            Some(wb)
        } else {
            best_b
        };
        lemma_pick_loop_eq(a, b, i + 1, na, nb, current_id, fx, fy, d);
    }
}

/// Corollary: the selected identifier is the same over a copied list.
pub proof fn lemma_pick_dir_eq(
    a: Seq<Window>,
    b: Seq<Window>,
    current_id: WindowId,
    fx: int,
    fy: int,
    d: FocusDirection,
)
    requires
        crate::window_manager::win_seq_eq(a, b),
    ensures
        spec_pick_dir(a, current_id, fx, fy, d) == spec_pick_dir(b, current_id, fx, fy, d),
{
    lemma_pick_loop_eq(a, b, 0, None, None, current_id, fx, fy, d);
}


/// The fold the under-cursor search performs: scan the list once, keeping
/// the smallest window found under the point (smaller windows are likelier
/// to lie on top); the earliest listed window wins ties.
pub open spec fn spec_at_point_loop(
    windows: Seq<Window>,
    i: int,
    best: Option<Window>,
    px: int,
    py: int,
) -> Option<Window>
    decreases windows.len() - i,
{
    if i < 0 || i >= windows.len() {
        best
    } else {
        let w = windows[i];
        let cand = !w.is_minimized && w.rect.has_point(px, py);
        let new_best = if cand && (best is None || w.rect.width * w.rect.height
            < best.unwrap().rect.width * best.unwrap().rect.height) {
            Some(w)
        } else {
            best
        };
        spec_at_point_loop(windows, i + 1, new_best, px, py)
    }
}

/// The window under a point, if any: the smallest non-minimized window whose
/// rectangle holds the point.
pub open spec fn spec_window_at_position(windows: Seq<Window>, px: int, py: int) -> Option<
    WindowId,
> {
    match spec_at_point_loop(windows, 0, None, px, py) {
        Some(w) => Some(w.id),
        None => None,
    }
}

/// Find the window under a point, preferring the smallest one under it.
pub fn find_window_at_position(windows: &Vec<Window>, px: i64, py: i64) -> (r: Option<WindowId>)
    requires
        crate::model::all_wf(windows@),
        -2 * COORD_LIMIT <= px <= 2 * COORD_LIMIT,
        -2 * COORD_LIMIT <= py <= 2 * COORD_LIMIT,
    ensures
        r == spec_window_at_position(windows@, px as int, py as int),
{
    let n = windows.len();
    let mut best: Option<usize> = None;
    let mut best_area: i64 = 0;
    let mut i: usize = 0;
    while i < n
        invariant
            i <= n,
            n == windows@.len(),
            crate::model::all_wf(windows@),
            -2 * COORD_LIMIT <= px <= 2 * COORD_LIMIT,
            -2 * COORD_LIMIT <= py <= 2 * COORD_LIMIT,
            match best {
                Some(bi) => {
                    &&& bi < i
                    &&& best_area == windows@[bi as int].rect.width * windows@[
                        bi as int
                    ].rect.height
                    &&& spec_at_point_loop(windows@, 0, None, px as int, py as int)
                        == spec_at_point_loop(
                        windows@,
                        i as int,
                        Some(windows@[bi as int]),
                        px as int,
                        py as int,
                    )
                },
                None => spec_at_point_loop(windows@, 0, None, px as int, py as int)
                    == spec_at_point_loop(windows@, i as int, None, px as int, py as int),
            },
        decreases n - i,
    {
        let w = &windows[i];
        let cand = !w.is_minimized && w.rect.contains(px, py);
        if cand {
            let area = w.rect.area();
            let take = match best {
                None => true,
                Some(_) => area < best_area,
            };
            if take {
                best = Some(i);
                best_area = area;
            }
        }
        i += 1;
    }
    match best {
        None => None,
        Some(bi) => Some(windows[bi].id),
    }
}

} // verus!
