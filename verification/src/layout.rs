//! The layout engine: a closed family of layout modes mapping an ordered
//! window list and a screen rectangle to one target rectangle per window.
//! Only the BSP mode carries state (the tree); every other mode is a pure
//! function of its inputs.

use vstd::prelude::*;
use crate::bsp::{ratio_wf, BspTree};
use crate::geometry::{Rect, COORD_LIMIT};
use crate::model::{distinct_ids, has_id, Window, WindowId};

verus! {

#[derive(Debug, Clone, Copy, PartialEq, Eq, Structural)]
pub enum LayoutType {
    BSP,
    Stack,
    Float,
    Grid,
    Spiral,
    Column,
    Monocle,
}

impl LayoutType {
    pub open spec fn spec_name(self) -> Seq<char> {
        match self {
            LayoutType::BSP => "BSP"@,
            LayoutType::Stack => "Stack"@,
            LayoutType::Float => "Float"@,
            LayoutType::Grid => "Grid"@,
            LayoutType::Spiral => "Spiral"@,
            LayoutType::Column => "Column"@,
            LayoutType::Monocle => "Monocle"@,
        }
    }

    pub fn name(&self) -> (r: &'static str)
        ensures
            r@ == self.spec_name(),
    {
        match self {
            LayoutType::BSP => "BSP",
            LayoutType::Stack => "Stack",
            LayoutType::Float => "Float",
            LayoutType::Grid => "Grid",
            LayoutType::Spiral => "Spiral",
            LayoutType::Column => "Column",
            LayoutType::Monocle => "Monocle",
        }
    }

    /// The layout a configured name selects; anything unrecognized falls
    /// back to the BSP mode.
    pub open spec fn spec_from_string(s: Seq<char>) -> LayoutType {
        let low = crate::text::spec_lower(s);
        if low == "bsp"@ || low == "binary"@ {
            LayoutType::BSP
        } else if low == "stack"@ || low == "stacking"@ {
            LayoutType::Stack
        } else if low == "float"@ || low == "floating"@ {
            LayoutType::Float
        } else if low == "grid"@ {
            LayoutType::Grid
        } else if low == "spiral"@ {
            LayoutType::Spiral
        } else if low == "column"@ || low == "columns"@ {
            LayoutType::Column
        } else if low == "monocle"@ || low == "fullscreen"@ {
            LayoutType::Monocle
        } else {
            LayoutType::BSP
        }
    }

    /// Select a layout by its configured name, case-insensitively.
    pub fn from_string(s: &str) -> (r: LayoutType)
        ensures
            r == LayoutType::spec_from_string(s@),
    {
        let low = crate::text::to_lower_chars(s);
        if crate::text::chars_eq_str(&low, "bsp") || crate::text::chars_eq_str(&low, "binary") {
            LayoutType::BSP
        } else if crate::text::chars_eq_str(&low, "stack") || crate::text::chars_eq_str(
            &low,
            "stacking",
        ) {
            LayoutType::Stack
        } else if crate::text::chars_eq_str(&low, "float") || crate::text::chars_eq_str(
            &low,
            "floating",
        ) {
            LayoutType::Float
        } else if crate::text::chars_eq_str(&low, "grid") {
            LayoutType::Grid
        } else if crate::text::chars_eq_str(&low, "spiral") {
            LayoutType::Spiral
        } else if crate::text::chars_eq_str(&low, "column") || crate::text::chars_eq_str(
            &low,
            "columns",
        ) {
            LayoutType::Column
        } else if crate::text::chars_eq_str(&low, "monocle") || crate::text::chars_eq_str(
            &low,
            "fullscreen",
        ) {
            LayoutType::Monocle
        } else {
            LayoutType::BSP
        }
    }

    /// The forward toggle cycle.
    pub open spec fn spec_next(self) -> LayoutType {
        match self {
            LayoutType::BSP => LayoutType::Stack,
            LayoutType::Stack => LayoutType::Grid,
            LayoutType::Grid => LayoutType::Spiral,
            LayoutType::Spiral => LayoutType::Column,
            LayoutType::Column => LayoutType::Monocle,
            LayoutType::Monocle => LayoutType::Float,
            LayoutType::Float => LayoutType::BSP,
        }
    }

    /// The backward toggle cycle.
    pub open spec fn spec_prev(self) -> LayoutType {
        match self {
            LayoutType::BSP => LayoutType::Float,
            LayoutType::Stack => LayoutType::BSP,
            LayoutType::Grid => LayoutType::Stack,
            LayoutType::Spiral => LayoutType::Grid,
            LayoutType::Column => LayoutType::Spiral,
            LayoutType::Monocle => LayoutType::Column,
            LayoutType::Float => LayoutType::Monocle,
        }
    }
}

/// The screen rectangle shrunk by a full gap on every side, before pressing
/// into the screen: the shape handed to a lone window in the stack and
/// spiral modes.
pub open spec fn spec_full_tile_raw(screen: Rect, gap: int) -> Rect {
    Rect {
        x: (screen.x + gap) as i64,
        y: (screen.y + gap) as i64,
        width: (screen.width - 2 * gap) as i64,
        height: (screen.height - 2 * gap) as i64,
    }
}

/// The lone-window tile: the gap-inset screen, pressed into the screen so a
/// gap larger than the screen cannot push it outside.
pub open spec fn spec_full_tile(screen: Rect, gap: int) -> Rect {
    spec_full_tile_raw(screen, gap).spec_clamp_into(screen)
}

/// The unpressed tile of window `i` of `n` in the stack mode: a master
/// column of the ratio's share of the width on the left, the rest stacked
/// evenly on the right.
pub open spec fn spec_stack_rect_raw(i: int, n: int, screen: Rect, gap: int, ratio: int) -> Rect {
    let mw = screen.width * ratio / 1000;
    if i == 0 {
        Rect {
            x: (screen.x + gap / 2) as i64,
            y: (screen.y + gap / 2) as i64,
            width: (mw - gap) as i64,
            height: (screen.height - gap) as i64,
        }
    } else {
        let sh = screen.height as int / (n - 1);
        Rect {
            x: (screen.x + mw + gap / 2) as i64,
            y: (screen.y + (i - 1) * sh + gap / 2) as i64,
            width: (screen.width - mw - gap) as i64,
            height: (sh - gap) as i64,
        }
    }
}

/// The tile of window `i` of `n` in the stack mode, pressed into the screen.
pub open spec fn spec_stack_rect(i: int, n: int, screen: Rect, gap: int, ratio: int) -> Rect {
    spec_stack_rect_raw(i, n, screen, gap, ratio).spec_clamp_into(screen)
}

/// The unpressed tile of window `i` of `n` in the spiral mode: the first
/// window takes the ratio's share of the width, the rest stack in the right
/// column.
pub open spec fn spec_spiral_rect_raw(i: int, n: int, screen: Rect, gap: int, ratio: int)
    -> Rect {
    let mw = screen.width * ratio / 1000;
    if i == 0 {
        Rect {
            x: (screen.x + gap / 2) as i64,
            y: (screen.y + gap / 2) as i64,
            width: (mw - gap) as i64,
            height: (screen.height - gap) as i64,
        }
    } else {
        let sh = screen.height as int / (n - 1);
        Rect {
            x: (screen.x + mw + gap / 2) as i64,
            y: (screen.y + (i - 1) * sh + gap / 2) as i64,
            width: (screen.width - mw - gap) as i64,
            height: (sh - gap) as i64,
        }
    }
}

/// The tile of window `i` of `n` in the spiral mode, pressed into the
/// screen.
pub open spec fn spec_spiral_rect(i: int, n: int, screen: Rect, gap: int, ratio: int) -> Rect {
    spec_spiral_rect_raw(i, n, screen, gap, ratio).spec_clamp_into(screen)
}

/// The side length of one of `k` cells sharing `total`, with a gap before
/// each cell and after the last; zero when the gaps alone exceed the total.
pub open spec fn spec_cell_len(total: int, gap: int, k: int) -> int {
    if total >= gap * (k + 1) {
        (total - gap * (k + 1)) / k
    } else {
        0
    }
}

/// The unpressed tile of window `i` of `n` in the column mode: `n`
/// equal-width full-height columns.
pub open spec fn spec_column_rect_raw(i: int, n: int, screen: Rect, gap: int) -> Rect {
    let cw = spec_cell_len(screen.width as int, gap, n);
    Rect {
        x: (screen.x + gap + i * (cw + gap)) as i64,
        y: (screen.y + gap) as i64,
        width: cw as i64,
        height: (screen.height - 2 * gap) as i64,
    }
}

/// The tile of window `i` of `n` in the column mode, pressed into the
/// screen.
pub open spec fn spec_column_rect(i: int, n: int, screen: Rect, gap: int) -> Rect {
    spec_column_rect_raw(i, n, screen, gap).spec_clamp_into(screen)
}

/// The number of grid columns for `n` windows: the least `c` whose square
/// reaches `n`.
pub open spec fn is_grid_cols(c: int, n: int) -> bool {
    &&& c >= 1
    &&& c * c >= n
    &&& (c - 1) * (c - 1) < n
}

pub open spec fn spec_grid_cols(n: int) -> int {
    choose|c: int| is_grid_cols(c, n)
}

/// The unpressed tile of window `i` of `n` in the grid mode, with `cols`
/// columns.
pub open spec fn spec_grid_rect_raw(i: int, n: int, cols: int, screen: Rect, gap: int) -> Rect {
    let rows = (n + cols - 1) / cols;
    let cw = spec_cell_len(screen.width as int, gap, cols);
    let ch = spec_cell_len(screen.height as int, gap, rows);
    let row = i / cols;
    let col = i % cols;
    Rect {
        x: (screen.x + gap + col * (cw + gap)) as i64,
        y: (screen.y + gap + row * (ch + gap)) as i64,
        width: cw as i64,
        height: ch as i64,
    }
}

/// The tile of window `i` of `n` in the grid mode, pressed into the screen.
pub open spec fn spec_grid_rect(i: int, n: int, cols: int, screen: Rect, gap: int) -> Rect {
    spec_grid_rect_raw(i, n, cols, screen, gap).spec_clamp_into(screen)
}

/// One tile formula for every stateless mode: float keeps the window's own
/// rectangle, monocle hands out the full screen, and the tiled modes place
/// window `i` of `n` by their shape, pressed into the screen.
pub open spec fn spec_mode_tile(
    mode: LayoutType,
    i: int,
    n: int,
    windows: Seq<Window>,
    screen: Rect,
    gap: int,
    ratio: int,
) -> Rect {
    match mode {
        LayoutType::Float => windows[i].rect,
        LayoutType::Monocle => screen,
        LayoutType::Stack => if n == 1 {
            spec_full_tile(screen, gap)
        } else {
            spec_stack_rect(i, n, screen, gap, ratio)
        },
        LayoutType::Spiral => if n == 1 {
            spec_full_tile(screen, gap)
        } else {
            spec_spiral_rect(i, n, screen, gap, ratio)
        },
        LayoutType::Column => spec_column_rect(i, n, screen, gap),
        LayoutType::Grid => spec_grid_rect(i, n, spec_grid_cols(n), screen, gap),
        LayoutType::BSP => screen,
    }
}

/// Bounds under which layout arithmetic stays well within `i64`.
pub open spec fn layout_inputs_wf(windows: Seq<Window>, screen: Rect, gap: int) -> bool {
    &&& screen.wf()
    &&& 0 <= gap <= COORD_LIMIT
    &&& windows.len() <= COORD_LIMIT
}

/// Compute the lone-window tile: the gap-inset screen, pressed into the
/// screen.
pub fn full_tile(screen: &Rect, gap: i64) -> (r: Rect)
    requires
        screen.wf(),
        0 <= gap <= COORD_LIMIT,
    ensures
        r == spec_full_tile(*screen, gap as int),
{
    let raw = Rect {
        x: screen.x + gap,
        y: screen.y + gap,
        width: screen.width - 2 * gap,
        height: screen.height - 2 * gap,
    };
    raw.clamp_into(screen)
}

/// One window per entry, every window assigned the full screen rectangle;
/// the host reveals only the focused one.
pub fn compute_monocle_layout(windows: &Vec<Window>, screen: &Rect, gap: i64) -> (r: Vec<
    (WindowId, Rect),
>)
    requires
        layout_inputs_wf(windows@, *screen, gap as int),
    ensures
        r@.len() == windows@.len(),
        forall|i: int| 0 <= i < r@.len() ==> r@[i] == (windows@[i].id, *screen),
{
    let tile = *screen;
    let mut out: Vec<(WindowId, Rect)> = Vec::new();
    let mut i: usize = 0;
    while i < windows.len()
        invariant
            i <= windows@.len(),
            out@.len() == i,
            tile == *screen,
            forall|j: int| 0 <= j < i ==> out@[j] == (windows@[j].id, tile),
        decreases windows@.len() - i,
    {
        out.push((windows[i].id, tile));
        i += 1;
    }
    out
}

/// The float mode: every window keeps its own rectangle.
pub fn compute_float_layout(windows: &Vec<Window>) -> (r: Vec<(WindowId, Rect)>)
    ensures
        r@.len() == windows@.len(),
        forall|i: int| 0 <= i < r@.len() ==> r@[i] == (windows@[i].id, windows@[i].rect),
{
    let mut out: Vec<(WindowId, Rect)> = Vec::new();
    let mut i: usize = 0;
    while i < windows.len()
        invariant
            i <= windows@.len(),
            out@.len() == i,
            forall|j: int| 0 <= j < i ==> out@[j] == (windows@[j].id, windows@[j].rect),
        decreases windows@.len() - i,
    {
        out.push((windows[i].id, windows[i].rect));
        i += 1;
    }
    out
}

/// The stacked column shared by the stack and spiral modes: entry 0 is the
/// master tile, the rest stack on the right.
fn compute_master_stack(windows: &Vec<Window>, screen: &Rect, gap: i64, ratio: i64) -> (r: Vec<
    (WindowId, Rect),
>)
    requires
        layout_inputs_wf(windows@, *screen, gap as int),
        ratio_wf(ratio as int),
        windows@.len() >= 2,
    ensures
        r@.len() == windows@.len(),
        forall|i: int|
            0 <= i < r@.len() ==> r@[i] == (
                windows@[i].id,
                spec_stack_rect(i, windows@.len() as int, *screen, gap as int, ratio as int),
            ),
{
    let n = windows.len();
    let mw = crate::bsp::ratio_part(screen.width, ratio);
    let sh = screen.height / ((n - 1) as i64);
    proof {
        assert(screen.height as int / ((n - 1) as int) == sh as int);
        vstd::arithmetic::div_mod::lemma_div_pos_is_pos(screen.height as int, (n - 1) as int);
        vstd::arithmetic::div_mod::lemma_fundamental_div_mod(
            screen.height as int,
            (n - 1) as int,
        );
        vstd::arithmetic::div_mod::lemma_mod_bound(screen.height as int, (n - 1) as int);
        assert(((n - 1) as int) * (sh as int) <= screen.height as int);
    }
    let mut out: Vec<(WindowId, Rect)> = Vec::new();
    let master_raw = Rect {
        x: screen.x + gap / 2,
        y: screen.y + gap / 2,
        width: mw - gap,
        height: screen.height - gap,
    };
    let master = master_raw.clamp_into(screen);
    out.push((windows[0].id, master));
    let mut i: usize = 1;
    while i < n
        invariant
            1 <= i <= n,
            n == windows@.len(),
            out@.len() == i,
            layout_inputs_wf(windows@, *screen, gap as int),
            ratio_wf(ratio as int),
            n >= 2,
            mw == screen.width as int * ratio / 1000,
            0 <= mw <= screen.width,
            sh == screen.height as int / ((n - 1) as int),
            0 <= sh,
            ((n - 1) as int) * (sh as int) <= screen.height as int,
            forall|j: int|
                0 <= j < i ==> out@[j] == (
                    windows@[j].id,
                    spec_stack_rect(j, n as int, *screen, gap as int, ratio as int),
                ),
        decreases n - i,
    {
        proof {
            vstd::arithmetic::mul::lemma_mul_inequality((i - 1) as int, (n - 1) as int, sh as int);
            assert(((i - 1) as int) * (sh as int) <= screen.height as int);
            vstd::arithmetic::mul::lemma_mul_nonnegative((i - 1) as int, sh as int);
        }
        let tile_raw = Rect {
            x: screen.x + mw + gap / 2,
            y: screen.y + ((i - 1) as i64) * sh + gap / 2,
            width: screen.width - mw - gap,
            height: sh - gap,
        };
        let tile = tile_raw.clamp_into(screen);
        out.push((windows[i].id, tile));
        i += 1;
    }
    out
}

/// One master tile on the left, the remaining windows stacked vertically in
/// the right column. A lone window takes the whole screen minus the gap.
pub fn compute_stack_layout(windows: &Vec<Window>, screen: &Rect, gap: i64, ratio: i64) -> (r:
    Vec<(WindowId, Rect)>)
    requires
        layout_inputs_wf(windows@, *screen, gap as int),
        ratio_wf(ratio as int),
        windows@.len() >= 1,
    ensures
        r@.len() == windows@.len(),
        windows@.len() == 1 ==> r@[0] == (windows@[0].id, spec_full_tile(*screen, gap as int)),
        windows@.len() >= 2 ==> forall|i: int|
            0 <= i < r@.len() ==> r@[i] == (
                windows@[i].id,
                spec_stack_rect(i, windows@.len() as int, *screen, gap as int, ratio as int),
            ),
{
    if windows.len() == 1 {
        let tile = full_tile(screen, gap);
        let mut out: Vec<(WindowId, Rect)> = Vec::new();
        out.push((windows[0].id, tile));
        out
    } else {
        compute_master_stack(windows, screen, gap, ratio)
    }
}

/// The simplified spiral: the first window takes the ratio's share of the
/// width, the rest stack in the right column.
pub fn compute_spiral_layout(windows: &Vec<Window>, screen: &Rect, gap: i64, ratio: i64) -> (r:
    Vec<(WindowId, Rect)>)
    requires
        layout_inputs_wf(windows@, *screen, gap as int),
        ratio_wf(ratio as int),
        windows@.len() >= 1,
    ensures
        r@.len() == windows@.len(),
        windows@.len() == 1 ==> r@[0] == (windows@[0].id, spec_full_tile(*screen, gap as int)),
        windows@.len() >= 2 ==> forall|i: int|
            0 <= i < r@.len() ==> r@[i] == (
                windows@[i].id,
                spec_spiral_rect(i, windows@.len() as int, *screen, gap as int, ratio as int),
            ),
{
    if windows.len() == 1 {
        let tile = full_tile(screen, gap);
        let mut out: Vec<(WindowId, Rect)> = Vec::new();
        out.push((windows[0].id, tile));
        out
    } else {
        let r = compute_master_stack(windows, screen, gap, ratio);
        proof {
            assert forall|i: int| 0 <= i < r@.len() implies r@[i] == (
                windows@[i].id,
                spec_spiral_rect(i, windows@.len() as int, *screen, gap as int, ratio as int),
            ) by {
                assert(spec_spiral_rect(i, windows@.len() as int, *screen, gap as int, ratio as int)
                    == spec_stack_rect(i, windows@.len() as int, *screen, gap as int, ratio as int));
            }
        }
        r
    }
}

/// The side length of one of `k` cells sharing `total` with gaps between
/// and around them.
fn cell_len(total: i64, gap: i64, k: i64) -> (c: i64)
    requires
        0 <= total <= 2 * COORD_LIMIT,
        0 <= gap <= COORD_LIMIT,
        1 <= k <= COORD_LIMIT,
    ensures
        c == spec_cell_len(total as int, gap as int, k as int),
        0 <= c <= total,
        (c as int) * (k as int) <= total,
{
    proof {
        assert((gap as int) * ((k + 1) as int) <= COORD_LIMIT * (COORD_LIMIT + 1))
            by (nonlinear_arith)
            requires
                0 <= gap <= COORD_LIMIT,
                1 <= k <= COORD_LIMIT,
        ;
        vstd::arithmetic::mul::lemma_mul_nonnegative(gap as int, (k + 1) as int);
    }
    let need = gap * (k + 1);
    if total >= need {
        let c = (total - need) / k;
        proof {
            vstd::arithmetic::div_mod::lemma_div_pos_is_pos((total - need) as int, k as int);
            vstd::arithmetic::div_mod::lemma_fundamental_div_mod((total - need) as int, k as int);
            vstd::arithmetic::div_mod::lemma_mod_bound((total - need) as int, k as int);
            assert((k as int) * (c as int) <= (total - need) as int);
            vstd::arithmetic::mul::lemma_mul_is_commutative(k as int, c as int);
            assert((c as int) <= (c as int) * (k as int)) by (nonlinear_arith)
                requires
                    0 <= c,
                    1 <= k,
            ;
        }
        c
    } else {
        0
    }
}

/// `n` equal-width, full-height columns.
pub fn compute_column_layout(windows: &Vec<Window>, screen: &Rect, gap: i64) -> (r: Vec<
    (WindowId, Rect),
>)
    requires
        layout_inputs_wf(windows@, *screen, gap as int),
        windows@.len() >= 1,
    ensures
        r@.len() == windows@.len(),
        forall|i: int|
            0 <= i < r@.len() ==> r@[i] == (
                windows@[i].id,
                spec_column_rect(i, windows@.len() as int, *screen, gap as int),
            ),
{
    let n = windows.len();
    let cw = cell_len(screen.width, gap, n as i64);
    let mut out: Vec<(WindowId, Rect)> = Vec::new();
    let mut i: usize = 0;
    while i < n
        invariant
            i <= n,
            n == windows@.len(),
            1 <= n <= COORD_LIMIT,
            out@.len() == i,
            layout_inputs_wf(windows@, *screen, gap as int),
            cw == spec_cell_len(screen.width as int, gap as int, n as int),
            0 <= cw <= screen.width,
            (cw as int) * (n as int) <= screen.width as int,
            forall|j: int|
                0 <= j < i ==> out@[j] == (
                    windows@[j].id,
                    spec_column_rect(j, n as int, *screen, gap as int),
                ),
        decreases n - i,
    {
        proof {
            assert((i as int) * ((cw + gap) as int) <= COORD_LIMIT * (3 * COORD_LIMIT))
                by (nonlinear_arith)
                requires
                    0 <= i <= COORD_LIMIT,
                    0 <= cw + gap <= 3 * COORD_LIMIT,
            ;
            vstd::arithmetic::mul::lemma_mul_nonnegative(i as int, (cw + gap) as int);
        }
        let tile_raw = Rect {
            x: screen.x + gap + (i as i64) * (cw + gap),
            y: screen.y + gap,
            width: cw,
            height: screen.height - 2 * gap,
        };
        let tile = tile_raw.clamp_into(screen);
        out.push((windows[i].id, tile));
        i += 1;
    }
    out
}

/// Two candidate column counts agreeing with `is_grid_cols` are equal.
pub proof fn lemma_grid_cols_unique(c1: int, c2: int, n: int)
    requires
        is_grid_cols(c1, n),
        is_grid_cols(c2, n),
    ensures
        c1 == c2,
{
    if c1 < c2 {
        assert(c1 * c1 <= (c2 - 1) * (c2 - 1)) by (nonlinear_arith)
            requires
                1 <= c1 <= c2 - 1,
        ;
    }
    if c2 < c1 {
        assert(c2 * c2 <= (c1 - 1) * (c1 - 1)) by (nonlinear_arith)
            requires
                1 <= c2 <= c1 - 1,
        ;
    }
}

/// The least number of columns whose square reaches `n`.
fn grid_cols(n: usize) -> (c: usize)
    requires
        1 <= n <= COORD_LIMIT,
    ensures
        is_grid_cols(c as int, n as int),
        c as int == spec_grid_cols(n as int),
        1 <= c <= n,
{
    let mut c: usize = 1;
    loop
        invariant
            1 <= c <= n,
            n <= COORD_LIMIT,
            ((c - 1) as int) * ((c - 1) as int) < n as int,
        ensures
            1 <= c <= n,
            is_grid_cols(c as int, n as int),
        decreases n - c,
    {
        proof {
            assert(c <= 256) by (nonlinear_arith)
                requires
                    1 <= c,
                    ((c - 1) as int) * ((c - 1) as int) < 65536,
            ;
            assert((c as int) * (c as int) <= 256 * 256) by (nonlinear_arith)
                requires
                    1 <= c <= 256,
            ;
        }
        let sq = c * c;
        if sq >= n {
            break;
        }
        proof {
            assert((c as int) <= (c as int) * (c as int)) by (nonlinear_arith)
                requires
                    1 <= c,
            ;
        }
        c = c + 1;
    }
    proof {
        assert(is_grid_cols(c as int, n as int));
        let cc = spec_grid_cols(n as int);
        assert(is_grid_cols(cc, n as int));
        lemma_grid_cols_unique(c as int, cc, n as int);
    }
    c
}

/// A uniform grid: the least square-reaching number of columns, rows to
/// match, cells of equal size.
pub fn compute_grid_layout(windows: &Vec<Window>, screen: &Rect, gap: i64) -> (r: Vec<
    (WindowId, Rect),
>)
    requires
        layout_inputs_wf(windows@, *screen, gap as int),
        windows@.len() >= 1,
    ensures
        r@.len() == windows@.len(),
        forall|i: int|
            0 <= i < r@.len() ==> r@[i] == (
                windows@[i].id,
                spec_grid_rect(
                    i,
                    windows@.len() as int,
                    spec_grid_cols(windows@.len() as int),
                    *screen,
                    gap as int,
                ),
            ),
{
    let n = windows.len();
    let cols = grid_cols(n);
    let rows = (n + cols - 1) / cols;
    proof {
        assert(rows as int == ((n + cols - 1) as int) / (cols as int));
        vstd::arithmetic::div_mod::lemma_div_pos_is_pos((n + cols - 1) as int, cols as int);
        // rows >= 1 because n >= 1.
        vstd::arithmetic::div_mod::lemma_div_is_ordered(
            cols as int,
            (n + cols - 1) as int,
            cols as int,
        );
        vstd::arithmetic::div_mod::lemma_div_multiples_vanish(1, cols as int);
        assert(rows >= 1);
        // rows <= n.
        assert((n + cols - 1) as int <= (n as int) * (cols as int)) by (nonlinear_arith)
            requires
                1 <= n,
                1 <= cols <= n,
        ;
        vstd::arithmetic::div_mod::lemma_div_is_ordered(
            (n + cols - 1) as int,
            (n as int) * (cols as int),
            cols as int,
        );
        vstd::arithmetic::mul::lemma_mul_is_commutative(n as int, cols as int);
        vstd::arithmetic::div_mod::lemma_div_multiples_vanish(n as int, cols as int);
        assert(rows <= n);
    }
    let cw = cell_len(screen.width, gap, cols as i64);
    let ch = cell_len(screen.height, gap, rows as i64);
    let mut out: Vec<(WindowId, Rect)> = Vec::new();
    let mut i: usize = 0;
    while i < n
        invariant
            i <= n,
            n == windows@.len(),
            1 <= n <= COORD_LIMIT,
            out@.len() == i,
            layout_inputs_wf(windows@, *screen, gap as int),
            is_grid_cols(cols as int, n as int),
            cols as int == spec_grid_cols(n as int),
            1 <= cols <= n,
            rows as int == ((n + cols - 1) as int) / (cols as int),
            1 <= rows <= n,
            cw == spec_cell_len(screen.width as int, gap as int, cols as int),
            ch == spec_cell_len(screen.height as int, gap as int, rows as int),
            0 <= cw <= screen.width,
            0 <= ch <= screen.height,
            forall|j: int|
                0 <= j < i ==> out@[j] == (
                    windows@[j].id,
                    spec_grid_rect(j, n as int, cols as int, *screen, gap as int),
                ),
        decreases n - i,
    {
        let row = i / cols;
        let col = i % cols;
        proof {
            assert(row as int == (i as int) / (cols as int));
            assert(col as int == (i as int) % (cols as int));
            vstd::arithmetic::div_mod::lemma_mod_bound(i as int, cols as int);
            vstd::arithmetic::div_mod::lemma_div_pos_is_pos(i as int, cols as int);
            vstd::arithmetic::div_mod::lemma_div_is_ordered(i as int, n as int, cols as int);
            assert((col as int) * ((cw + gap) as int) <= COORD_LIMIT * (3 * COORD_LIMIT))
                by (nonlinear_arith)
                requires
                    0 <= col <= COORD_LIMIT,
                    0 <= cw + gap <= 3 * COORD_LIMIT,
            ;
            assert((row as int) * ((ch + gap) as int) <= COORD_LIMIT * (3 * COORD_LIMIT))
                by (nonlinear_arith)
                requires
                    0 <= row <= COORD_LIMIT,
                    0 <= ch + gap <= 3 * COORD_LIMIT,
            ;
            vstd::arithmetic::mul::lemma_mul_nonnegative(col as int, (cw + gap) as int);
            vstd::arithmetic::mul::lemma_mul_nonnegative(row as int, (ch + gap) as int);
        }
        let tile_raw = Rect {
            x: screen.x + gap + (col as i64) * (cw + gap),
            y: screen.y + gap + (row as i64) * (ch + gap),
            width: cw,
            height: ch,
        };
        let tile = tile_raw.clamp_into(screen);
        out.push((windows[i].id, tile));
        i += 1;
    }
    out
}


/// Some entry of the layout carries this window.
pub open spec fn keyed(s: Seq<(WindowId, Rect)>, x: WindowId) -> bool {
    exists|i: int| 0 <= i < s.len() && s[i].0 == x
}

/// The stateful layout engine. Only the BSP mode keeps state between calls:
/// its tree, synchronized against the caller's window list on every compute.
pub struct LayoutManager {
    pub current_layout: LayoutType,
    pub bsp_root: Option<BspTree>,
    pub split_ratio: i64,
}

impl LayoutManager {
    pub open spec fn wf(self) -> bool {
        &&& ratio_wf(self.split_ratio as int)
        &&& match self.bsp_root {
            Some(t) => t.wf() && t.spec_distinct(),
            None => true,
        }
    }

    /// Whether the BSP tree holds the window.
    pub open spec fn tree_has(self, id: WindowId) -> bool {
        match self.bsp_root {
            Some(t) => t.spec_contains(id),
            None => false,
        }
    }

    /// Build the engine from a layout configuration; the split ratio is
    /// clamped into the valid band.
    pub fn new(config: &crate::config::LayoutConfig) -> (m: LayoutManager)
        ensures
            m.wf(),
            m.current_layout == LayoutType::spec_from_string(config.default_layout@),
            m.bsp_root is None,
    {
        let layout = LayoutType::from_string(config.default_layout.as_str());
        let mut ratio = config.split_ratio;
        if ratio < 1 {
            ratio = 1;
        }
        if ratio > 999 {
            ratio = 999;
        }
        LayoutManager { current_layout: layout, bsp_root: None, split_ratio: ratio }
    }

    pub fn with_layout(layout: LayoutType, split_ratio: i64) -> (m: LayoutManager)
        requires
            ratio_wf(split_ratio as int),
        ensures
            m.wf(),
            m.current_layout == layout,
            m.split_ratio == split_ratio,
            m.bsp_root is None,
    {
        LayoutManager { current_layout: layout, bsp_root: None, split_ratio }
    }

    /// In BSP mode, grow the tree by one window (a window already present is
    /// left alone, keeping the tree free of duplicates); other modes keep no
    /// per-window state.
    pub fn add_window(&mut self, window_id: WindowId, screen_rect: Rect)
        requires
            old(self).wf(),
            screen_rect.wf(),
        ensures
            final(self).wf(),
            final(self).current_layout == old(self).current_layout,
            final(self).split_ratio == old(self).split_ratio,
            old(self).current_layout == LayoutType::BSP ==> forall|x: WindowId|
                final(self).tree_has(x) <==> (old(self).tree_has(x) || x == window_id),
            old(self).current_layout != LayoutType::BSP ==> final(self).bsp_root == old(
                self,
            ).bsp_root,
    {
        if self.current_layout == LayoutType::BSP {
            let ratio = self.split_ratio;
            let root = self.bsp_root.take();
            match root {
                Some(t) => {
                    if t.contains(window_id) {
                        self.bsp_root = Some(t);
                    } else {
                        proof {
                            t.lemma_insert_wf(window_id, ratio, true);
                            t.lemma_insert_contains(window_id, ratio, true);
                            t.lemma_insert_distinct(window_id, ratio, true);
                            t.spec_insert(window_id, ratio, true).lemma_assign_props(screen_rect);
                        }
                        let t2 = t.insert(window_id, ratio);
                        let t3 = t2.assign_rects(screen_rect);
                        self.bsp_root = Some(t3);
                    }
                },
                None => {
                    let leaf = BspTree::new_leaf(window_id, screen_rect);
                    proof {
                        assert(leaf.spec_distinct());
                        assert forall|x: WindowId|
                            leaf.spec_contains(x) <==> (x == window_id) by {}
                    }
                    self.bsp_root = Some(leaf);
                },
            }
        }
    }

    /// In BSP mode, take one window out of the tree; the sibling of its leaf
    /// is promoted.
    pub fn remove_window(&mut self, window_id: WindowId, screen_rect: Rect)
        requires
            old(self).wf(),
            screen_rect.wf(),
        ensures
            final(self).wf(),
            final(self).current_layout == old(self).current_layout,
            final(self).split_ratio == old(self).split_ratio,
            old(self).current_layout == LayoutType::BSP ==> forall|x: WindowId|
                final(self).tree_has(x) <==> (old(self).tree_has(x) && x != window_id),
            old(self).current_layout != LayoutType::BSP ==> final(self).bsp_root == old(
                self,
            ).bsp_root,
    {
        if self.current_layout == LayoutType::BSP {
            let root = self.bsp_root.take();
            match root {
                Some(t) => {
                    proof {
                        t.lemma_remove_props(window_id);
                    }
                    match t.remove(window_id) {
                        None => {
                            proof {
                                assert forall|x: WindowId|
                                    #[trigger] t.spec_contains(x) implies x == window_id by {
                                    t.lemma_contains_leaf_ids(x);
                                    assert(t.leaf_ids() == seq![window_id]);
                                }
                            }
                            self.bsp_root = None;
                        },
                        Some(t2) => {
                            proof {
                                t2.lemma_assign_props(screen_rect);
                            }
                            let t3 = t2.assign_rects(screen_rect);
                            self.bsp_root = Some(t3);
                        },
                    }
                },
                None => {
                    self.bsp_root = None;
                },
            }
        }
    }

    /// Cycle to the next layout mode.
    pub fn toggle_layout(&mut self)
        ensures
            final(self).current_layout == old(self).current_layout.spec_next(),
            final(self).bsp_root == old(self).bsp_root,
            final(self).split_ratio == old(self).split_ratio,
    {
        self.current_layout = match self.current_layout {
            LayoutType::BSP => LayoutType::Stack,
            LayoutType::Stack => LayoutType::Grid,
            LayoutType::Grid => LayoutType::Spiral,
            LayoutType::Spiral => LayoutType::Column,
            LayoutType::Column => LayoutType::Monocle,
            LayoutType::Monocle => LayoutType::Float,
            LayoutType::Float => LayoutType::BSP,
        };
    }

    /// Cycle to the previous layout mode.
    pub fn previous_layout(&mut self)
        ensures
            final(self).current_layout == old(self).current_layout.spec_prev(),
            final(self).bsp_root == old(self).bsp_root,
            final(self).split_ratio == old(self).split_ratio,
    {
        self.current_layout = match self.current_layout {
            LayoutType::BSP => LayoutType::Float,
            LayoutType::Stack => LayoutType::BSP,
            LayoutType::Grid => LayoutType::Stack,
            LayoutType::Spiral => LayoutType::Grid,
            LayoutType::Column => LayoutType::Spiral,
            LayoutType::Monocle => LayoutType::Column,
            LayoutType::Float => LayoutType::Monocle,
        };
    }

    /// Same as `toggle_layout`, under the name the command surface uses.
    pub fn next_layout(&mut self)
        ensures
            final(self).current_layout == old(self).current_layout.spec_next(),
            final(self).bsp_root == old(self).bsp_root,
            final(self).split_ratio == old(self).split_ratio,
    {
        self.toggle_layout();
    }

    pub fn set_layout(&mut self, layout: LayoutType)
        ensures
            final(self).current_layout == layout,
            final(self).bsp_root == old(self).bsp_root,
            final(self).split_ratio == old(self).split_ratio,
    {
        self.current_layout = layout;
    }

    pub fn get_current_layout(&self) -> (r: LayoutType)
        ensures
            r == self.current_layout,
    {
        self.current_layout
    }

    pub fn current_layout(&self) -> (r: LayoutType)
        ensures
            r == self.current_layout,
    {
        self.current_layout
    }

    /// Nudge the split ratio, clamped to the tenth-to-nine-tenths band.
    pub fn adjust_split_ratio(&mut self, delta: i64)
        requires
            -1000 <= delta <= 1000,
            ratio_wf(old(self).split_ratio as int),
        ensures
            final(self).split_ratio == if old(self).split_ratio + delta < 100 {
                100int
            } else if old(self).split_ratio + delta > 900 {
                900int
            } else {
                old(self).split_ratio + delta
            },
            ratio_wf(final(self).split_ratio as int),
            final(self).bsp_root == old(self).bsp_root,
            final(self).current_layout == old(self).current_layout,
    {
        let mut v = self.split_ratio + delta;
        if v < 100 {
            v = 100;
        }
        if v > 900 {
            v = 900;
        }
        self.split_ratio = v;
    }

    pub fn get_split_ratio(&self) -> (r: i64)
        ensures
            r == self.split_ratio,
    {
        self.split_ratio
    }

    pub fn reset_split_ratio(&mut self)
        ensures
            final(self).split_ratio == 500,
            final(self).bsp_root == old(self).bsp_root,
            final(self).current_layout == old(self).current_layout,
    {
        self.split_ratio = 500;
    }
}


/// Remove from the tree, in scan order, every window the list no longer
/// holds; removing the last window empties the tree.
pub open spec fn spec_remove_stale(
    t: Option<BspTree>,
    ids: Seq<WindowId>,
    windows: Seq<Window>,
    k: int,
) -> Option<BspTree>
    decreases ids.len() - k,
{
    if k < 0 || k >= ids.len() {
        t
    } else {
        let t1 = if !has_id(windows, ids[k]) {
            match t {
                Some(tt) => tt.spec_remove(ids[k]),
                None => None,
            }
        } else {
            t
        };
        spec_remove_stale(t1, ids, windows, k + 1)
    }
}

/// Adopt, in list order, every window the tree does not hold yet; an empty
/// layout is seeded with a fresh leaf over the screen.
pub open spec fn spec_adopt(
    t: Option<BspTree>,
    windows: Seq<Window>,
    ratio: i64,
    seed: Rect,
    m: int,
) -> Option<BspTree>
    decreases windows.len() - m,
{
    if m < 0 || m >= windows.len() {
        t
    } else {
        let wid = windows[m].id;
        let t1 = match t {
            None => Some(BspTree::Leaf { id: wid, rect: seed }),
            Some(tt) => if tt.spec_contains(wid) {
                Some(tt)
            } else {
                Some(tt.spec_insert(wid, ratio, true))
            },
        };
        spec_adopt(t1, windows, ratio, seed, m + 1)
    }
}

/// The synchronized tree: stale windows dropped, new ones adopted, and the
/// rectangles re-assigned from the screen down. This pins the whole BSP
/// relayout as a function of the previous tree and the inputs alone.
pub open spec fn spec_bsp_sync(
    t: Option<BspTree>,
    windows: Seq<Window>,
    ratio: i64,
    screen: Rect,
) -> Option<BspTree> {
    let ids = match t {
        Some(tt) => tt.leaf_ids(),
        None => Seq::empty(),
    };
    match spec_adopt(spec_remove_stale(t, ids, windows, 0), windows, ratio, screen, 0) {
        Some(tt) => Some(tt.spec_assign(screen)),
        None => None,
    }
}

/// Law: re-running the layout on equal inputs from equal states yields the
/// same tree, and hence the same tiles: the synchronization is a function of
/// the previous tree and the inputs alone.
pub proof fn lemma_bsp_relayout_deterministic(
    t: Option<BspTree>,
    windows: Seq<Window>,
    ratio: i64,
    screen: Rect,
    r1: Option<BspTree>,
    r2: Option<BspTree>,
)
    requires
        r1 == spec_bsp_sync(t, windows, ratio, screen),
        r2 == spec_bsp_sync(t, windows, ratio, screen),
    ensures
        r1 == r2,
{
}

/// Whether an optional tree holds the window.
pub open spec fn opt_has(o: Option<BspTree>, x: WindowId) -> bool {
    match o {
        Some(t) => t.spec_contains(x),
        None => false,
    }
}

/// A layout indexed by the window list keys exactly the listed windows.
proof fn lemma_indexed_keys(r: Seq<(WindowId, Rect)>, windows: Seq<Window>)
    requires
        r.len() == windows.len(),
        forall|i: int| 0 <= i < r.len() ==> (#[trigger] r[i]).0 == windows[i].id,
    ensures
        forall|x: WindowId| #[trigger] keyed(r, x) <==> has_id(windows, x),
{
    assert forall|x: WindowId| #[trigger] keyed(r, x) <==> has_id(windows, x) by {
        if keyed(r, x) {
            let i = choose|i: int| 0 <= i < r.len() && r[i].0 == x;
            assert(windows[i].id == x);
        }
        if has_id(windows, x) {
            let i = choose|i: int| 0 <= i < windows.len() && windows[i].id == x;
            assert(r[i].0 == x);
        }
    }
}

impl LayoutManager {
    /// Synchronize the BSP tree with the window list — drop the windows that
    /// vanished, adopt the new ones — then re-assign rectangles from the
    /// screen down and collect the inset tiles.
    fn compute_bsp_layout(&mut self, windows: &Vec<Window>, screen_rect: Rect, gap: i64) -> (r:
        Vec<(WindowId, Rect)>)
        requires
            old(self).wf(),
            layout_inputs_wf(windows@, screen_rect, gap as int),
            distinct_ids(windows@),
            windows@.len() >= 1,
        ensures
            final(self).wf(),
            final(self).current_layout == old(self).current_layout,
            final(self).split_ratio == old(self).split_ratio,
            final(self).bsp_root == spec_bsp_sync(
                old(self).bsp_root,
                windows@,
                old(self).split_ratio,
                screen_rect,
            ),
            match final(self).bsp_root {
                Some(t) => {
                    &&& t.tiles(screen_rect)
                    &&& t.wf()
                    &&& t.spec_distinct()
                    &&& r@ == t.spec_tiles(gap as int)
                    &&& forall|x: WindowId| #[trigger] t.spec_contains(x) <==> has_id(windows@, x)
                },
                None => false,
            },
    {
        let ratio = self.split_ratio;
        let mut root: Option<BspTree> = self.bsp_root.take();

        // Drop the windows the caller no longer lists.
        let stale_scan: Vec<WindowId> = match &root {
            Some(t) => t.collect_ids(),
            None => Vec::new(),
        };
        let ghost orig_root = root;
        proof {
            match orig_root {
                Some(t) => {
                    assert(stale_scan@ == t.leaf_ids());
                },
                None => {
                    assert(stale_scan@ =~= Seq::<WindowId>::empty());
                },
            }
        }
        let mut k: usize = 0;
        while k < stale_scan.len()
            invariant
                k <= stale_scan@.len(),
                ratio == old(self).split_ratio,
                spec_remove_stale(orig_root, stale_scan@, windows@, 0) == spec_remove_stale(
                    root,
                    stale_scan@,
                    windows@,
                    k as int,
                ),
                match root {
                    Some(t) => t.wf() && t.spec_distinct(),
                    None => true,
                },
                forall|x: WindowId|
                    #[trigger] opt_has(root, x) <==> (opt_has(orig_root, x) && !(exists|j: int|
                        0 <= j < k && stale_scan@[j] == x && !has_id(windows@, x))),
            decreases stale_scan@.len() - k,
        {
            let ghost prev_root = root;
            let tid = stale_scan[k];
            if crate::model::find_window(windows, tid).is_none() {
                root = match root {
                    Some(t) => {
                        proof {
                            t.lemma_remove_props(tid);
                        }
                        let r2 = t.remove(tid);
                        proof {
                            if r2 is None {
                                assert forall|x: WindowId|
                                    #[trigger] t.spec_contains(x) implies x == tid by {
                                    t.lemma_contains_leaf_ids(x);
                                    assert(t.leaf_ids() == seq![tid]);
                                }
                            }
                        }
                        r2
                    },
                    None => None,
                };
                proof {
                    assert forall|x: WindowId|
                        #[trigger] opt_has(root, x) <==> (opt_has(orig_root, x) && !(exists|j: int|
                            0 <= j < k + 1 && stale_scan@[j] == x && !has_id(
                            windows@,
                            x,
                        ))) by {
                        assert(opt_has(root, x) == (opt_has(prev_root, x) && x != tid));
                        if x == tid {
                            assert(stale_scan@[k as int] == x && !has_id(windows@, x));
                        } else {
                            assert((exists|j: int|
                                0 <= j < k + 1 && stale_scan@[j] == x && !has_id(windows@, x))
                                == (exists|j: int|
                                0 <= j < k && stale_scan@[j] == x && !has_id(windows@, x)));
                        }
                    }
                }
            } else {
                proof {
                    assert forall|x: WindowId|
                        #[trigger] opt_has(root, x) <==> (opt_has(orig_root, x) && !(exists|j: int|
                            0 <= j < k + 1 && stale_scan@[j] == x && !has_id(
                            windows@,
                            x,
                        ))) by {
                        assert((exists|j: int|
                            0 <= j < k + 1 && stale_scan@[j] == x && !has_id(windows@, x))
                            == (exists|j: int|
                            0 <= j < k && stale_scan@[j] == x && !has_id(windows@, x)));
                    }
                }
            }
            k += 1;
        }
        proof {
            assert forall|x: WindowId|
                #[trigger] opt_has(root, x) <==> (opt_has(orig_root, x) && has_id(
                windows@,
                x,
            )) by {
                if opt_has(orig_root, x) && !has_id(windows@, x) {
                    match orig_root {
                        Some(t0) => {
                            t0.lemma_contains_leaf_ids(x);
                            let j = choose|j: int|
                                0 <= j < t0.leaf_ids().len() && t0.leaf_ids()[j] == x;
                            assert(stale_scan@[j] == x);
                        },
                        None => {},
                    }
                }
            }
        }

        // Adopt the windows the tree does not hold yet.
        let ghost phase1 = root;
        proof {
            assert(phase1 == spec_remove_stale(orig_root, stale_scan@, windows@, 0));
        }
        let mut m: usize = 0;
        while m < windows.len()
            invariant
                m <= windows@.len(),
                ratio_wf(ratio as int),
                ratio == old(self).split_ratio,
                screen_rect.wf(),
                phase1 == spec_remove_stale(orig_root, stale_scan@, windows@, 0),
                spec_adopt(phase1, windows@, ratio, screen_rect, 0) == spec_adopt(
                    root,
                    windows@,
                    ratio,
                    screen_rect,
                    m as int,
                ),
                match root {
                    Some(t) => t.wf() && t.spec_distinct(),
                    None => true,
                },
                root is None ==> (phase1 is None && m == 0),
                forall|x: WindowId|
                    #[trigger] opt_has(root, x) <==> (opt_has(phase1, x) || (exists|j: int|
                        0 <= j < m && windows@[j].id == x)),
            decreases windows@.len() - m,
        {
            let ghost prev_root = root;
            let wid = windows[m].id;
            root = match root {
                Some(t) => {
                    if t.contains(wid) {
                        Some(t)
                    } else {
                        proof {
                            t.lemma_insert_wf(wid, ratio, true);
                            t.lemma_insert_contains(wid, ratio, true);
                            t.lemma_insert_distinct(wid, ratio, true);
                        }
                        Some(t.insert(wid, ratio))
                    }
                },
                None => Some(BspTree::new_leaf(wid, screen_rect)),
            };
            proof {
                assert forall|x: WindowId|
                    #[trigger] opt_has(root, x) <==> (opt_has(phase1, x) || (exists|j: int|
                        0 <= j < m + 1 && windows@[j].id == x)) by {
                    assert(opt_has(root, x) == (opt_has(prev_root, x) || x == wid));
                    if x == wid {
                        assert(windows@[m as int].id == x);
                    } else {
                        assert((exists|j: int| 0 <= j < m + 1 && windows@[j].id == x)
                            == (exists|j: int| 0 <= j < m && windows@[j].id == x));
                    }
                }
            }
            m += 1;
        }

        // Re-assign rectangles and collect the tiles.
        let ghost root_snap = root;
        proof {
            assert(root_snap == spec_adopt(phase1, windows@, ratio, screen_rect, 0));
        }
        match root {
            Some(t0) => {
                proof {
                    t0.lemma_assign_props(screen_rect);
                }
                let t1 = t0.assign_rects(screen_rect);
                let tiles = t1.collect_rects(gap);
                self.bsp_root = Some(t1);
                proof {
                    assert(self.bsp_root == spec_bsp_sync(
                        old(self).bsp_root,
                        windows@,
                        old(self).split_ratio,
                        screen_rect,
                    ));
                }
                proof {
                    assert forall|x: WindowId|
                        #[trigger] t1.spec_contains(x) <==> has_id(windows@, x) by {
                        assert(t1.spec_contains(x) == t0.spec_contains(x));
                        assert(opt_has(root_snap, x) == t0.spec_contains(x));
                        assert(opt_has(root_snap, x) <==> (opt_has(phase1, x) || (exists|j: int|
                            0 <= j < m && windows@[j].id == x)));
                        assert(opt_has(phase1, x) ==> has_id(windows@, x));
                    }
                }
                tiles
            },
            None => {
                proof {
                    assert(root_snap is None);
                    assert(m == windows@.len());
                    assert(false);
                }
                Vec::new()
            },
        }
    }

    /// Compute the layout of the active mode: one target rectangle per
    /// listed window, keyed by exactly the listed windows.
    pub fn compute_layout(&mut self, windows: &Vec<Window>, screen_rect: Rect, gap: i64) -> (r:
        Vec<(WindowId, Rect)>)
        requires
            old(self).wf(),
            layout_inputs_wf(windows@, screen_rect, gap as int),
            distinct_ids(windows@),
        ensures
            final(self).wf(),
            final(self).current_layout == old(self).current_layout,
            final(self).split_ratio == old(self).split_ratio,
            forall|x: WindowId| #[trigger] keyed(r@, x) <==> has_id(windows@, x),
            old(self).current_layout != LayoutType::BSP ==> {
                &&& final(self).bsp_root == old(self).bsp_root
                &&& r@.len() == windows@.len()
                &&& forall|i: int| 0 <= i < r@.len() ==> (#[trigger] r@[i]).0 == windows@[i].id
            },
            windows@.len() == 0 ==> r@.len() == 0,
            // Every stateless mode places window `i` by its tile formula.
            (old(self).current_layout != LayoutType::BSP && windows@.len() >= 1) ==> forall|
                i: int,
            |
                0 <= i < r@.len() ==> (#[trigger] r@[i]).1 == spec_mode_tile(
                    old(self).current_layout,
                    i,
                    windows@.len() as int,
                    windows@,
                    screen_rect,
                    gap as int,
                    old(self).split_ratio as int,
                ),
            // Every tile of a tiled mode lies inside the screen, edge to edge.
            (old(self).current_layout != LayoutType::BSP && old(self).current_layout
                != LayoutType::Float) ==> forall|i: int|
                0 <= i < r@.len() ==> {
                    &&& (#[trigger] r@[i]).1.x >= screen_rect.x
                    &&& r@[i].1.y >= screen_rect.y
                    &&& r@[i].1.x + r@[i].1.width <= screen_rect.x + screen_rect.width
                    &&& r@[i].1.y + r@[i].1.height <= screen_rect.y + screen_rect.height
                    &&& r@[i].1.width >= 0
                    &&& r@[i].1.height >= 0
                },
            // The BSP mode is characterized by its synchronized tree, a
            // function of the previous tree and the inputs alone.
            old(self).current_layout == LayoutType::BSP ==> ((windows@.len() == 0
                ==> final(self).bsp_root is None) && (windows@.len() >= 1 ==> (final(self).bsp_root
                == spec_bsp_sync(
                old(self).bsp_root,
                windows@,
                old(self).split_ratio,
                screen_rect,
            ) && match final(self).bsp_root {
                Some(t) => {
                    &&& t.tiles(screen_rect)
                    &&& t.wf()
                    &&& t.spec_distinct()
                    &&& r@ == t.spec_tiles(gap as int)
                    &&& forall|x: WindowId| #[trigger] t.spec_contains(x) <==> has_id(windows@, x)
                },
                None => false,
            }))),
    {
        if windows.len() == 0 {
            if self.current_layout == LayoutType::BSP {
                self.bsp_root = None;
            }
            let out: Vec<(WindowId, Rect)> = Vec::new();
            proof {
                assert forall|x: WindowId| #[trigger] keyed(out@, x) <==> has_id(windows@, x) by {}
            }
            return out;
        }
        let ratio = self.split_ratio;
        let out: Vec<(WindowId, Rect)>;
        if self.current_layout == LayoutType::BSP {
            let tiles = self.compute_bsp_layout(windows, screen_rect, gap);
            proof {
                match &self.bsp_root {
                    Some(t) => {
                        assert forall|x: WindowId|
                            #[trigger] keyed(tiles@, x) <==> has_id(windows@, x) by {
                            if keyed(tiles@, x) {
                                let i = choose|i: int|
                                    0 <= i < tiles@.len() && tiles@[i].0 == x;
                                assert(t.leaf_ids()[i] == x);
                                t.lemma_contains_leaf_ids(x);
                            }
                            if has_id(windows@, x) {
                                assert(t.spec_contains(x));
                                t.lemma_contains_leaf_ids(x);
                                let i = choose|i: int|
                                    0 <= i < t.leaf_ids().len() && t.leaf_ids()[i] == x;
                                assert(tiles@[i].0 == x);
                            }
                        }
                    },
                    None => {
                        assert(false);
                    },
                }
            }
            out = tiles;
        } else if self.current_layout == LayoutType::Stack {
            out = compute_stack_layout(windows, &screen_rect, gap, ratio);
            proof {
                lemma_indexed_keys(out@, windows@);
                assert forall|i: int|
                    0 <= i < out@.len() implies ((#[trigger] out@[i]).1.x >= screen_rect.x
                    && out@[i].1.y >= screen_rect.y && out@[i].1.x + out@[i].1.width
                    <= screen_rect.x + screen_rect.width && out@[i].1.y + out@[i].1.height
                    <= screen_rect.y + screen_rect.height && out@[i].1.width >= 0
                    && out@[i].1.height >= 0) by {
                    if windows@.len() == 1 {
                        assert(out@[i].1 == spec_full_tile_raw(
                            screen_rect,
                            gap as int,
                        ).spec_clamp_into(screen_rect));
                    } else {
                        assert(out@[i].1 == spec_stack_rect_raw(
                            i,
                            windows@.len() as int,
                            screen_rect,
                            gap as int,
                            ratio as int,
                        ).spec_clamp_into(screen_rect));
                    }
                    if windows@.len() == 1 {
                        spec_full_tile_raw(screen_rect, gap as int).lemma_clamp_inside(
                            screen_rect,
                        );
                    } else {
                        spec_stack_rect_raw(
                            i,
                            windows@.len() as int,
                            screen_rect,
                            gap as int,
                            ratio as int,
                        ).lemma_clamp_inside(screen_rect);
                    }
                }
            }
        } else if self.current_layout == LayoutType::Spiral {
            out = compute_spiral_layout(windows, &screen_rect, gap, ratio);
            proof {
                lemma_indexed_keys(out@, windows@);
                assert forall|i: int|
                    0 <= i < out@.len() implies ((#[trigger] out@[i]).1.x >= screen_rect.x
                    && out@[i].1.y >= screen_rect.y && out@[i].1.x + out@[i].1.width
                    <= screen_rect.x + screen_rect.width && out@[i].1.y + out@[i].1.height
                    <= screen_rect.y + screen_rect.height && out@[i].1.width >= 0
                    && out@[i].1.height >= 0) by {
                    if windows@.len() == 1 {
                        assert(out@[i].1 == spec_full_tile_raw(
                            screen_rect,
                            gap as int,
                        ).spec_clamp_into(screen_rect));
                    } else {
                        assert(out@[i].1 == spec_spiral_rect_raw(
                            i,
                            windows@.len() as int,
                            screen_rect,
                            gap as int,
                            ratio as int,
                        ).spec_clamp_into(screen_rect));
                    }
                    if windows@.len() == 1 {
                        spec_full_tile_raw(screen_rect, gap as int).lemma_clamp_inside(
                            screen_rect,
                        );
                    } else {
                        spec_spiral_rect_raw(
                            i,
                            windows@.len() as int,
                            screen_rect,
                            gap as int,
                            ratio as int,
                        ).lemma_clamp_inside(screen_rect);
                    }
                }
            }
        } else if self.current_layout == LayoutType::Grid {
            out = compute_grid_layout(windows, &screen_rect, gap);
            proof {
                lemma_indexed_keys(out@, windows@);
                assert forall|i: int|
                    0 <= i < out@.len() implies ((#[trigger] out@[i]).1.x >= screen_rect.x
                    && out@[i].1.y >= screen_rect.y && out@[i].1.x + out@[i].1.width
                    <= screen_rect.x + screen_rect.width && out@[i].1.y + out@[i].1.height
                    <= screen_rect.y + screen_rect.height && out@[i].1.width >= 0
                    && out@[i].1.height >= 0) by {
                    assert(out@[i].1 == spec_grid_rect_raw(
                        i,
                        windows@.len() as int,
                        spec_grid_cols(windows@.len() as int),
                        screen_rect,
                        gap as int,
                    ).spec_clamp_into(screen_rect));
                    spec_grid_rect_raw(
                        i,
                        windows@.len() as int,
                        spec_grid_cols(windows@.len() as int),
                        screen_rect,
                        gap as int,
                    ).lemma_clamp_inside(screen_rect);
                }
            }
        } else if self.current_layout == LayoutType::Column {
            out = compute_column_layout(windows, &screen_rect, gap);
            proof {
                lemma_indexed_keys(out@, windows@);
                assert forall|i: int|
                    0 <= i < out@.len() implies ((#[trigger] out@[i]).1.x >= screen_rect.x
                    && out@[i].1.y >= screen_rect.y && out@[i].1.x + out@[i].1.width
                    <= screen_rect.x + screen_rect.width && out@[i].1.y + out@[i].1.height
                    <= screen_rect.y + screen_rect.height && out@[i].1.width >= 0
                    && out@[i].1.height >= 0) by {
                    assert(out@[i].1 == spec_column_rect_raw(
                        i,
                        windows@.len() as int,
                        screen_rect,
                        gap as int,
                    ).spec_clamp_into(screen_rect));
                    spec_column_rect_raw(
                        i,
                        windows@.len() as int,
                        screen_rect,
                        gap as int,
                    ).lemma_clamp_inside(screen_rect);
                }
            }
        } else if self.current_layout == LayoutType::Monocle {
            out = compute_monocle_layout(windows, &screen_rect, gap);
            proof {
                lemma_indexed_keys(out@, windows@);
            }
        } else {
            out = compute_float_layout(windows);
            proof {
                lemma_indexed_keys(out@, windows@);
            }
        }
        out
    }
}

/// Bounds of the cell length: non-negative, and `k` cells fit in the total.
pub proof fn lemma_cell_len_bounds(total: int, gap: int, k: int)
    requires
        0 <= total,
        0 <= gap,
        1 <= k,
    ensures
        0 <= spec_cell_len(total, gap, k),
        spec_cell_len(total, gap, k) * k <= total,
        spec_cell_len(total, gap, k) <= total,
{
    vstd::arithmetic::mul::lemma_mul_nonnegative(gap, k + 1);
    if total >= gap * (k + 1) {
        let c = (total - gap * (k + 1)) / k;
        vstd::arithmetic::div_mod::lemma_div_pos_is_pos(total - gap * (k + 1), k);
        vstd::arithmetic::div_mod::lemma_fundamental_div_mod(total - gap * (k + 1), k);
        vstd::arithmetic::div_mod::lemma_mod_bound(total - gap * (k + 1), k);
        assert(k * c <= total - gap * (k + 1));
        vstd::arithmetic::mul::lemma_mul_is_commutative(k, c);
        assert(c <= c * k) by (nonlinear_arith)
            requires
                0 <= c,
                1 <= k,
        ;
    }
}

/// Law: two distinct tiles of the stack mode have no point in common.
pub proof fn lemma_stack_disjoint(n: int, screen: Rect, gap: int, ratio: int)
    requires
        screen.wf(),
        0 <= gap <= COORD_LIMIT,
        ratio_wf(ratio),
        2 <= n <= COORD_LIMIT,
    ensures
        forall|i: int, j: int|
            0 <= i < j < n ==> spec_stack_rect(i, n, screen, gap, ratio).disjoint(
                spec_stack_rect(j, n, screen, gap, ratio),
            ),
{
    let mw = screen.width as int * ratio / 1000;
    crate::bsp::lemma_ratio_part_bounds(screen.width as int, ratio);
    let sh = screen.height as int / (n - 1);
    vstd::arithmetic::div_mod::lemma_div_pos_is_pos(screen.height as int, n - 1);
    vstd::arithmetic::div_mod::lemma_fundamental_div_mod(screen.height as int, n - 1);
    vstd::arithmetic::div_mod::lemma_mod_bound(screen.height as int, n - 1);
    assert((n - 1) * sh <= screen.height as int);
    assert forall|i: int, j: int|
        0 <= i < j < n implies spec_stack_rect(i, n, screen, gap, ratio).disjoint(
        spec_stack_rect(j, n, screen, gap, ratio),
    ) by {
        let a = spec_stack_rect(i, n, screen, gap, ratio);
        let b = spec_stack_rect(j, n, screen, gap, ratio);
        vstd::arithmetic::mul::lemma_mul_inequality(j - 1, n - 1, sh);
        vstd::arithmetic::mul::lemma_mul_nonnegative(j - 1, sh);
        if i == 0 {
            // The master column ends at or before the stack column starts.
            assert forall|px: int, py: int|
                !(a.has_point(px, py) && b.has_point(px, py)) by {}
        } else {
            // Two stack entries: the earlier one ends above the later one.
            vstd::arithmetic::mul::lemma_mul_inequality(i - 1, n - 1, sh);
            vstd::arithmetic::mul::lemma_mul_nonnegative(i - 1, sh);
            vstd::arithmetic::mul::lemma_mul_inequality(i, j - 1, sh);
            assert(i * sh == (i - 1) * sh + sh) by (nonlinear_arith);
            assert forall|px: int, py: int|
                !(a.has_point(px, py) && b.has_point(px, py)) by {}
        }
    }
}

/// Law: two distinct tiles of the spiral mode have no point in common.
pub proof fn lemma_spiral_disjoint(n: int, screen: Rect, gap: int, ratio: int)
    requires
        screen.wf(),
        0 <= gap <= COORD_LIMIT,
        ratio_wf(ratio),
        2 <= n <= COORD_LIMIT,
    ensures
        forall|i: int, j: int|
            0 <= i < j < n ==> spec_spiral_rect(i, n, screen, gap, ratio).disjoint(
                spec_spiral_rect(j, n, screen, gap, ratio),
            ),
{
    lemma_stack_disjoint(n, screen, gap, ratio);
    assert forall|i: int, j: int|
        0 <= i < j < n implies spec_spiral_rect(i, n, screen, gap, ratio).disjoint(
        spec_spiral_rect(j, n, screen, gap, ratio),
    ) by {
        assert(spec_spiral_rect(i, n, screen, gap, ratio) == spec_stack_rect(
            i,
            n,
            screen,
            gap,
            ratio,
        ));
        assert(spec_spiral_rect(j, n, screen, gap, ratio) == spec_stack_rect(
            j,
            n,
            screen,
            gap,
            ratio,
        ));
        assert(spec_stack_rect(i, n, screen, gap, ratio).disjoint(
            spec_stack_rect(j, n, screen, gap, ratio),
        ));
    }
}

/// Law: two distinct tiles of the column mode have no point in common.
pub proof fn lemma_column_disjoint(n: int, screen: Rect, gap: int)
    requires
        screen.wf(),
        0 <= gap <= COORD_LIMIT,
        1 <= n <= COORD_LIMIT,
    ensures
        forall|i: int, j: int|
            0 <= i < j < n ==> spec_column_rect(i, n, screen, gap).disjoint(
                spec_column_rect(j, n, screen, gap),
            ),
{
    let cw = spec_cell_len(screen.width as int, gap, n);
    lemma_cell_len_bounds(screen.width as int, gap, n);
    assert forall|i: int, j: int|
        0 <= i < j < n implies spec_column_rect(i, n, screen, gap).disjoint(
        spec_column_rect(j, n, screen, gap),
    ) by {
        let s = cw + gap;
        vstd::arithmetic::mul::lemma_mul_nonnegative(i, s);
        vstd::arithmetic::mul::lemma_mul_inequality(i, n, s);
        vstd::arithmetic::mul::lemma_mul_inequality(j, n, s);
        vstd::arithmetic::mul::lemma_mul_nonnegative(j, s);
        assert(n * s <= COORD_LIMIT * (3 * COORD_LIMIT)) by (nonlinear_arith)
            requires
                1 <= n <= COORD_LIMIT,
                0 <= s <= 3 * COORD_LIMIT,
        ;
        // The earlier column ends at or before the later one starts.
        vstd::arithmetic::mul::lemma_mul_inequality(i + 1, j, s);
        assert((i + 1) * s == i * s + s) by (nonlinear_arith);
        assert forall|px: int, py: int|
            !(spec_column_rect(i, n, screen, gap).has_point(px, py) && spec_column_rect(
                j,
                n,
                screen,
                gap,
            ).has_point(px, py)) by {}
    }
}

/// Law: two distinct tiles of the grid mode have no point in common.
pub proof fn lemma_grid_disjoint(n: int, cols: int, screen: Rect, gap: int)
    requires
        screen.wf(),
        0 <= gap <= COORD_LIMIT,
        1 <= n <= COORD_LIMIT,
        is_grid_cols(cols, n),
    ensures
        forall|i: int, j: int|
            0 <= i < j < n ==> spec_grid_rect(i, n, cols, screen, gap).disjoint(
                spec_grid_rect(j, n, cols, screen, gap),
            ),
{
    let rows = (n + cols - 1) / cols;
    let cw = spec_cell_len(screen.width as int, gap, cols);
    assert(cols <= n) by (nonlinear_arith)
        requires
            is_grid_cols(cols, n),
            1 <= n,
    ;
    lemma_cell_len_bounds(screen.width as int, gap, cols);
    vstd::arithmetic::div_mod::lemma_div_pos_is_pos(n + cols - 1, cols);
    assert(rows >= 1) by {
        vstd::arithmetic::div_mod::lemma_div_is_ordered(cols, n + cols - 1, cols);
        vstd::arithmetic::div_mod::lemma_div_multiples_vanish(1, cols);
    }
    let ch = spec_cell_len(screen.height as int, gap, rows);
    lemma_cell_len_bounds(screen.height as int, gap, rows);
    assert forall|i: int, j: int|
        0 <= i < j < n implies spec_grid_rect(i, n, cols, screen, gap).disjoint(
        spec_grid_rect(j, n, cols, screen, gap),
    ) by {
        let sx = cw + gap;
        let sy = ch + gap;
        let ri = i / cols;
        let ci = i % cols;
        let rj = j / cols;
        let cj = j % cols;
        vstd::arithmetic::div_mod::lemma_fundamental_div_mod(i, cols);
        vstd::arithmetic::div_mod::lemma_fundamental_div_mod(j, cols);
        vstd::arithmetic::div_mod::lemma_mod_bound(i, cols);
        vstd::arithmetic::div_mod::lemma_mod_bound(j, cols);
        vstd::arithmetic::div_mod::lemma_div_pos_is_pos(i, cols);
        vstd::arithmetic::div_mod::lemma_div_pos_is_pos(j, cols);
        vstd::arithmetic::div_mod::lemma_div_is_ordered(i, n, cols);
        vstd::arithmetic::div_mod::lemma_div_is_ordered(j, n, cols);
        assert(ri <= n && rj <= n);
        vstd::arithmetic::mul::lemma_mul_nonnegative(ci, sx);
        vstd::arithmetic::mul::lemma_mul_nonnegative(cj, sx);
        vstd::arithmetic::mul::lemma_mul_nonnegative(ri, sy);
        vstd::arithmetic::mul::lemma_mul_nonnegative(rj, sy);
        assert(ci * sx <= COORD_LIMIT * (3 * COORD_LIMIT)) by (nonlinear_arith)
            requires
                0 <= ci <= COORD_LIMIT,
                0 <= sx <= 3 * COORD_LIMIT,
        ;
        assert(cj * sx <= COORD_LIMIT * (3 * COORD_LIMIT)) by (nonlinear_arith)
            requires
                0 <= cj <= COORD_LIMIT,
                0 <= sx <= 3 * COORD_LIMIT,
        ;
        assert(ri * sy <= COORD_LIMIT * (3 * COORD_LIMIT)) by (nonlinear_arith)
            requires
                0 <= ri <= COORD_LIMIT,
                0 <= sy <= 3 * COORD_LIMIT,
        ;
        assert(rj * sy <= COORD_LIMIT * (3 * COORD_LIMIT)) by (nonlinear_arith)
            requires
                0 <= rj <= COORD_LIMIT,
                0 <= sy <= 3 * COORD_LIMIT,
        ;
        if ci != cj {
            if ci < cj {
                vstd::arithmetic::mul::lemma_mul_inequality(ci + 1, cj, sx);
                assert((ci + 1) * sx == ci * sx + sx) by (nonlinear_arith);
            } else {
                vstd::arithmetic::mul::lemma_mul_inequality(cj + 1, ci, sx);
                assert((cj + 1) * sx == cj * sx + sx) by (nonlinear_arith);
            }
            assert forall|px: int, py: int|
                !(spec_grid_rect(i, n, cols, screen, gap).has_point(px, py) && spec_grid_rect(
                    j,
                    n,
                    cols,
                    screen,
                    gap,
                ).has_point(px, py)) by {}
        } else {
            // Same column, so the rows must differ.
            assert(ri != rj) by {
                if ri == rj {
                    assert(i == cols * ri + ci);
                    assert(j == cols * rj + cj);
                }
            }
            if ri < rj {
                vstd::arithmetic::mul::lemma_mul_inequality(ri + 1, rj, sy);
                assert((ri + 1) * sy == ri * sy + sy) by (nonlinear_arith);
            } else {
                vstd::arithmetic::mul::lemma_mul_inequality(rj + 1, ri, sy);
                assert((rj + 1) * sy == rj * sy + sy) by (nonlinear_arith);
            }
            assert forall|px: int, py: int|
                !(spec_grid_rect(i, n, cols, screen, gap).has_point(px, py) && spec_grid_rect(
                    j,
                    n,
                    cols,
                    screen,
                    gap,
                ).has_point(px, py)) by {}
        }
    }
}

} // verus!
