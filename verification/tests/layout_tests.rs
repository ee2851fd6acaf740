use skew::geometry::Rect;
use skew::layout::{LayoutManager, LayoutType};
use skew::model::{Window, WindowId};

fn win(id: u32, x: i64, y: i64, w: i64, h: i64) -> Window {
    Window {
        id: WindowId(id),
        title: format!("window {}", id),
        owner: "editor".to_string(),
        owner_pid: 100 + id as i32,
        rect: Rect { x, y, width: w, height: h },
        is_minimized: false,
        is_focused: false,
        workspace_id: 1,
    }
}

fn lookup(layout: &[(WindowId, Rect)], id: u32) -> Rect {
    layout
        .iter()
        .find(|(wid, _)| *wid == WindowId(id))
        .map(|(_, r)| *r)
        .expect("window missing from layout")
}

#[test]
fn two_window_bsp_split() {
    let screen = Rect { x: 0, y: 0, width: 1000, height: 800 };
    let mut lm = LayoutManager::with_layout(LayoutType::BSP, 500);
    let windows = vec![win(1, 0, 0, 1000, 800), win(2, 0, 0, 1000, 800)];
    let layout = lm.compute_layout(&windows, screen, 10);
    assert_eq!(layout.len(), 2);
    assert_eq!(lookup(&layout, 1), Rect { x: 5, y: 5, width: 490, height: 790 });
    assert_eq!(lookup(&layout, 2), Rect { x: 505, y: 5, width: 490, height: 790 });
}

#[test]
fn remove_collapses_sibling() {
    let screen = Rect { x: 0, y: 0, width: 1000, height: 800 };
    let mut lm = LayoutManager::with_layout(LayoutType::BSP, 500);
    let both = vec![win(1, 0, 0, 1000, 800), win(2, 0, 0, 1000, 800)];
    let _ = lm.compute_layout(&both, screen, 10);
    let only_two = vec![win(2, 0, 0, 1000, 800)];
    let layout = lm.compute_layout(&only_two, screen, 10);
    assert_eq!(layout.len(), 1);
    assert_eq!(lookup(&layout, 2), Rect { x: 5, y: 5, width: 990, height: 790 });
}

#[test]
fn grid_of_five() {
    let screen = Rect { x: 0, y: 0, width: 1200, height: 900 };
    let mut lm = LayoutManager::with_layout(LayoutType::Grid, 500);
    let windows: Vec<Window> = (1..=5).map(|i| win(i, 0, 0, 100, 100)).collect();
    let layout = lm.compute_layout(&windows, screen, 10);
    assert_eq!(layout.len(), 5);
    // cols = 3, rows = 2; integer cells of (1200 - 40) / 3 by (900 - 30) / 2.
    assert_eq!(lookup(&layout, 1), Rect { x: 10, y: 10, width: 386, height: 435 });
    assert_eq!(lookup(&layout, 2), Rect { x: 406, y: 10, width: 386, height: 435 });
    assert_eq!(lookup(&layout, 3), Rect { x: 802, y: 10, width: 386, height: 435 });
    assert_eq!(lookup(&layout, 4), Rect { x: 10, y: 455, width: 386, height: 435 });
    assert_eq!(lookup(&layout, 5), Rect { x: 406, y: 455, width: 386, height: 435 });
}

#[test]
fn stack_master_and_column() {
    let screen = Rect { x: 0, y: 0, width: 1000, height: 900 };
    let mut lm = LayoutManager::with_layout(LayoutType::Stack, 500);
    let windows: Vec<Window> = (1..=3).map(|i| win(i, 0, 0, 100, 100)).collect();
    let layout = lm.compute_layout(&windows, screen, 10);
    // Master takes half the width; the two others stack on the right.
    assert_eq!(lookup(&layout, 1), Rect { x: 5, y: 5, width: 490, height: 890 });
    assert_eq!(lookup(&layout, 2), Rect { x: 505, y: 5, width: 490, height: 440 });
    assert_eq!(lookup(&layout, 3), Rect { x: 505, y: 455, width: 490, height: 440 });
}

#[test]
fn column_splits_evenly() {
    let screen = Rect { x: 0, y: 0, width: 930, height: 600 };
    let mut lm = LayoutManager::with_layout(LayoutType::Column, 500);
    let windows: Vec<Window> = (1..=3).map(|i| win(i, 0, 0, 100, 100)).collect();
    let layout = lm.compute_layout(&windows, screen, 10);
    // (930 - 40) / 3 = 296 wide columns, full height minus the gaps.
    assert_eq!(lookup(&layout, 1), Rect { x: 10, y: 10, width: 296, height: 580 });
    assert_eq!(lookup(&layout, 2), Rect { x: 316, y: 10, width: 296, height: 580 });
    assert_eq!(lookup(&layout, 3), Rect { x: 622, y: 10, width: 296, height: 580 });
}

#[test]
fn monocle_gives_everyone_the_full_screen() {
    let screen = Rect { x: 0, y: 0, width: 800, height: 600 };
    let mut lm = LayoutManager::with_layout(LayoutType::Monocle, 500);
    let windows: Vec<Window> = (1..=2).map(|i| win(i, 0, 0, 100, 100)).collect();
    let layout = lm.compute_layout(&windows, screen, 10);
    assert_eq!(lookup(&layout, 1), screen);
    assert_eq!(lookup(&layout, 2), screen);
}

#[test]
fn gap_dominated_screens_stay_inside() {
    // With a gap wider than the cells, tiles collapse against the screen
    // edge instead of running past it.
    let screen = Rect { x: 0, y: 0, width: 50, height: 40 };
    let mut lm = LayoutManager::with_layout(LayoutType::Column, 500);
    let windows: Vec<Window> = (1..=2).map(|i| win(i, 0, 0, 100, 100)).collect();
    let layout = lm.compute_layout(&windows, screen, 30);
    for (_, r) in &layout {
        assert!(r.x >= 0 && r.y >= 0);
        assert!(r.x + r.width <= 50 && r.y + r.height <= 40);
        assert!(r.width >= 0 && r.height >= 0);
    }
}

#[test]
fn insert_ratio_is_clamped_into_band() {
    // A configured ratio outside the tenth-to-nine-tenths band is clamped
    // when a node is created: with ratio 950 the split lands at 900.
    let screen = Rect { x: 0, y: 0, width: 1000, height: 800 };
    let mut lm = LayoutManager::with_layout(LayoutType::BSP, 950);
    let windows = vec![win(1, 0, 0, 1000, 800), win(2, 0, 0, 1000, 800)];
    let layout = lm.compute_layout(&windows, screen, 0);
    assert_eq!(lookup(&layout, 1), Rect { x: 0, y: 0, width: 900, height: 800 });
    assert_eq!(lookup(&layout, 2), Rect { x: 900, y: 0, width: 100, height: 800 });
}

#[test]
fn float_keeps_own_rectangles() {
    let screen = Rect { x: 0, y: 0, width: 800, height: 600 };
    let mut lm = LayoutManager::with_layout(LayoutType::Float, 500);
    let windows = vec![win(1, 17, 23, 300, 200), win(2, 99, 44, 250, 250)];
    let layout = lm.compute_layout(&windows, screen, 10);
    assert_eq!(lookup(&layout, 1), Rect { x: 17, y: 23, width: 300, height: 200 });
    assert_eq!(lookup(&layout, 2), Rect { x: 99, y: 44, width: 250, height: 250 });
}

#[test]
fn toggle_cycle_walks_every_mode() {
    let mut lm = LayoutManager::with_layout(LayoutType::BSP, 500);
    let expected = [
        LayoutType::Stack,
        LayoutType::Grid,
        LayoutType::Spiral,
        LayoutType::Column,
        LayoutType::Monocle,
        LayoutType::Float,
        LayoutType::BSP,
    ];
    for want in expected {
        lm.toggle_layout();
        assert_eq!(lm.get_current_layout(), want);
    }
    lm.previous_layout();
    assert_eq!(lm.get_current_layout(), LayoutType::Float);
}

#[test]
fn layout_names() {
    assert_eq!(LayoutType::BSP.name(), "BSP");
    assert_eq!(LayoutType::Monocle.name(), "Monocle");
    assert_eq!(LayoutType::Spiral.name(), "Spiral");
}

#[test]
fn layout_covers_exactly_the_input_ids() {
    let screen = Rect { x: 0, y: 0, width: 1600, height: 1000 };
    for mode in [
        LayoutType::BSP,
        LayoutType::Stack,
        LayoutType::Grid,
        LayoutType::Spiral,
        LayoutType::Column,
    ] {
        let mut lm = LayoutManager::with_layout(mode, 500);
        let windows: Vec<Window> = (1..=7).map(|i| win(i, 0, 0, 100, 100)).collect();
        let layout = lm.compute_layout(&windows, screen, 10);
        assert_eq!(layout.len(), 7);
        for i in 1..=7u32 {
            assert!(layout.iter().any(|(wid, _)| *wid == WindowId(i)));
        }
    }
}

#[test]
fn tiled_modes_do_not_overlap() {
    let screen = Rect { x: 0, y: 0, width: 1600, height: 1000 };
    for mode in [
        LayoutType::BSP,
        LayoutType::Stack,
        LayoutType::Grid,
        LayoutType::Spiral,
        LayoutType::Column,
    ] {
        let mut lm = LayoutManager::with_layout(mode, 500);
        let windows: Vec<Window> = (1..=6).map(|i| win(i, 0, 0, 100, 100)).collect();
        let layout = lm.compute_layout(&windows, screen, 10);
        for a in 0..layout.len() {
            for b in (a + 1)..layout.len() {
                let (_, ra) = layout[a];
                let (_, rb) = layout[b];
                let x_overlap = ra.x < rb.x + rb.width && rb.x < ra.x + ra.width;
                let y_overlap = ra.y < rb.y + rb.height && rb.y < ra.y + ra.height;
                assert!(
                    !(x_overlap && y_overlap),
                    "{:?} overlaps {:?} in {:?}",
                    ra,
                    rb,
                    mode
                );
            }
        }
    }
}

#[test]
fn bsp_tiles_cover_the_screen_exactly_at_zero_gap() {
    let screen = Rect { x: 0, y: 0, width: 1024, height: 768 };
    let mut lm = LayoutManager::with_layout(LayoutType::BSP, 500);
    let windows: Vec<Window> = (1..=4).map(|i| win(i, 0, 0, 100, 100)).collect();
    let layout = lm.compute_layout(&windows, screen, 0);
    let area: i64 = layout.iter().map(|(_, r)| r.width * r.height).sum();
    assert_eq!(area, 1024 * 768);
    for (_, r) in &layout {
        assert!(r.x >= 0 && r.y >= 0);
        assert!(r.x + r.width <= 1024 && r.y + r.height <= 768);
    }
}

#[test]
fn split_ratio_is_clamped() {
    let mut lm = LayoutManager::with_layout(LayoutType::BSP, 500);
    lm.adjust_split_ratio(1000);
    assert_eq!(lm.get_split_ratio(), 900);
    lm.adjust_split_ratio(-1000);
    assert_eq!(lm.get_split_ratio(), 100);
    lm.reset_split_ratio();
    assert_eq!(lm.get_split_ratio(), 500);
}

#[test]
fn geometry_helpers() {
    let r = skew::geometry::Rect::new(10, 20, 300, 200);
    assert_eq!(r.area(), 60000);
    assert!(r.contains(10, 20));
    assert!(!r.contains(310, 20));
    assert!(r.contains_closed(310, 220));
    assert_eq!(r.center(), (160, 120));
    assert_eq!(
        r.inset(10),
        skew::geometry::Rect { x: 15, y: 25, width: 290, height: 190 }
    );
}
