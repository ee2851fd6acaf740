use skew::geometry::Rect;
use skew::model::{Window, WindowId};
use skew::snap::{DragResult, SnapManager, SnapRegion};

fn win(id: u32, x: i64, y: i64, w: i64, h: i64) -> Window {
    Window {
        id: WindowId(id),
        title: format!("window {}", id),
        owner: "editor".to_string(),
        owner_pid: 100 + id as i32,
        rect: Rect { x, y, width: w, height: h },
        is_minimized: false,
        is_focused: false,
        workspace_id: 1,
    }
}

#[test]
fn west_edge_snap() {
    let screen = Rect { x: 0, y: 0, width: 1600, height: 1000 };
    let mut sm = SnapManager::new(screen, 50);
    let initial = Rect { x: 100, y: 100, width: 400, height: 300 };
    sm.start_window_drag(WindowId(1), initial, 0);
    // Drop with the centre inside the west band, after a 500 ms drag.
    let final_rect = Rect { x: -100, y: 300, width: 200, height: 300 };
    let windows = vec![win(1, -100, 300, 200, 300)];
    let result = sm.end_window_drag(WindowId(1), final_rect, &windows, 500);
    assert_eq!(
        result,
        DragResult::SnapToZone(Rect { x: 8, y: 8, width: 792, height: 984 })
    );
}

#[test]
fn center_zone_swap() {
    let screen = Rect { x: 0, y: 0, width: 1600, height: 1000 };
    let mut sm = SnapManager::new(screen, 50);
    let a = win(1, 0, 0, 800, 1000);
    let initial_b = Rect { x: 800, y: 0, width: 800, height: 1000 };
    sm.start_window_drag(WindowId(2), initial_b, 0);
    // B's centre lands inside A, well inside the centre zone.
    let final_b = Rect { x: 200, y: 100, width: 400, height: 300 };
    let windows = vec![a, win(2, 200, 100, 400, 300)];
    let result = sm.end_window_drag(WindowId(2), final_b, &windows, 500);
    assert_eq!(result, DragResult::SwapWithWindow(WindowId(1), initial_b));
}

#[test]
fn sub_threshold_drag_is_restored() {
    let screen = Rect { x: 0, y: 0, width: 1600, height: 1000 };
    let mut sm = SnapManager::new(screen, 50);
    let initial = Rect { x: 100, y: 100, width: 400, height: 300 };
    sm.start_window_drag(WindowId(1), initial, 0);
    let final_rect = Rect { x: 130, y: 100, width: 400, height: 300 };
    let windows = vec![win(1, 130, 100, 400, 300)];
    let result = sm.end_window_drag(WindowId(1), final_rect, &windows, 60);
    assert_eq!(result, DragResult::ReturnToOriginal(initial));
}

#[test]
fn snap_within_slack_is_restored() {
    // A drop already within ten pixels of its zone's rectangle is restored,
    // never redundantly snapped.
    let screen = Rect { x: 0, y: 0, width: 1600, height: 1000 };
    let mut sm = SnapManager::new(screen, 50);
    let initial = Rect { x: 700, y: 500, width: 780, height: 980 };
    sm.start_window_drag(WindowId(1), initial, 0);
    // The west snap rectangle is (8, 8, 792, 984); drop within 10 of it,
    // centre inside the west band.
    let final_rect = Rect { x: 10, y: 10, width: 790, height: 980 };
    let windows = vec![win(1, 10, 10, 200, 980)];
    let result = sm.end_window_drag(WindowId(1), final_rect, &windows, 500);
    assert_eq!(result, DragResult::ReturnToOriginal(initial));
}

#[test]
fn unknown_drag_is_no_action() {
    let screen = Rect { x: 0, y: 0, width: 1600, height: 1000 };
    let mut sm = SnapManager::new(screen, 50);
    let final_rect = Rect { x: 10, y: 10, width: 400, height: 300 };
    let result = sm.end_window_drag(WindowId(9), final_rect, &Vec::new(), 500);
    assert_eq!(result, DragResult::NoAction);
}

#[test]
fn corners_beat_edges_in_zone_lookup() {
    let screen = Rect { x: 0, y: 0, width: 1600, height: 1000 };
    let sm = SnapManager::new(screen, 50);
    // (50, 50) lies in both the northwest corner square and nothing else.
    assert_eq!(sm.find_zone_at_point(50, 50), Some(SnapRegion::NorthWest));
    // (800, 60) lies in the north band only.
    assert_eq!(sm.find_zone_at_point(800, 60), Some(SnapRegion::North));
    // (800, 500) lies in the centre zone.
    assert_eq!(sm.find_zone_at_point(800, 500), Some(SnapRegion::Center));
    // (110, 180) is outside every zone on this screen.
    assert_eq!(sm.find_zone_at_point(160, 180), None);
}

#[test]
fn drag_tracking_lifecycle() {
    let screen = Rect { x: 0, y: 0, width: 1600, height: 1000 };
    let mut sm = SnapManager::new(screen, 50);
    assert!(!sm.is_window_dragging(WindowId(1)));
    sm.start_window_drag(WindowId(1), Rect { x: 0, y: 0, width: 300, height: 300 }, 0);
    assert!(sm.is_window_dragging(WindowId(1)));
    sm.update_window_drag(WindowId(1), Rect { x: 5, y: 5, width: 300, height: 300 });
    assert!(sm.is_window_dragging(WindowId(1)));
    sm.clear_drag_state(WindowId(1));
    assert!(!sm.is_window_dragging(WindowId(1)));
}

#[test]
fn region_names() {
    assert_eq!(SnapRegion::Center.name(), "Center");
    assert_eq!(SnapRegion::NorthWest.name(), "NorthWest");
    assert_eq!(SnapRegion::SouthEast.name(), "SouthEast");
}
