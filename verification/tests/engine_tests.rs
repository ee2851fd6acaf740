use skew::geometry::Rect;
use skew::hotkeys::Direction;
use skew::layout::LayoutType;
use skew::model::{Window, WindowId};
use skew::window_manager::{
    Action, Command, WindowDragEvent, WindowEvent, WindowManager,
};

fn win(id: u32, x: i64, y: i64, w: i64, h: i64, ws: u32, focused: bool) -> Window {
    Window {
        id: WindowId(id),
        title: format!("window {}", id),
        owner: "editor".to_string(),
        owner_pid: 100 + id as i32,
        rect: Rect { x, y, width: w, height: h },
        is_minimized: false,
        is_focused: focused,
        workspace_id: ws,
    }
}

fn engine() -> WindowManager {
    WindowManager::new(
        LayoutType::Float,
        500,
        10,
        Rect { x: 0, y: 0, width: 1600, height: 1000 },
        50,
    )
}

#[test]
fn self_move_is_absorbed_silently() {
    let mut wm = engine();
    let snapshot = vec![win(1, 0, 0, 800, 600, 1, true), win(2, 800, 0, 800, 600, 1, false)];
    let _ = wm.apply_snapshot(&snapshot, 1);
    let target = Rect { x: 40, y: 40, width: 400, height: 300 };
    let acts = wm.handle_command(Command::MoveWindow(WindowId(1), target));
    assert_eq!(acts.len(), 1);
    assert!(matches!(acts[0], Action::Move(WindowId(1), r) if r == target));
    // The host later reports the move; the engine absorbs it: no reaction.
    let reaction = wm.handle_window_event(WindowEvent::WindowMoved(WindowId(1), target));
    assert_eq!(reaction.len(), 0);
}

#[test]
fn drag_bracketing_keeps_state_quiet() {
    let mut wm = engine();
    let snapshot = vec![win(1, 0, 0, 800, 600, 1, true)];
    let _ = wm.apply_snapshot(&snapshot, 1);
    let initial = Rect { x: 0, y: 0, width: 800, height: 600 };
    let started = wm.handle_drag_event(
        WindowDragEvent::DragStarted { window_id: WindowId(1), initial_rect: initial, owner_pid: 101 },
        0,
    );
    assert_eq!(started.len(), 0);
    // Intermediate motion during the drag never produces actions.
    for step in 1..5i64 {
        let moved = wm.handle_window_event(WindowEvent::WindowMoved(
            WindowId(1),
            Rect { x: step * 20, y: step * 10, width: 800, height: 600 },
        ));
        assert_eq!(moved.len(), 0);
        assert!(wm.snap_manager.is_window_dragging(WindowId(1)));
    }
    // A short, small drag ends with the window returned to its origin.
    let ended = wm.handle_drag_event(
        WindowDragEvent::DragEnded {
            window_id: WindowId(1),
            final_rect: Rect { x: 80, y: 40, width: 800, height: 600 },
            owner_pid: 101,
        },
        60,
    );
    assert_eq!(ended.len(), 1);
    assert!(matches!(ended[0], Action::Move(WindowId(1), r) if r == initial));
    assert!(!wm.snap_manager.is_window_dragging(WindowId(1)));
}

#[test]
fn effective_workspace_falls_back_past_zero() {
    let mut wm = engine();
    // The host reports workspace zero; the engine must still land non-zero.
    let snapshot = vec![win(1, 0, 0, 800, 600, 3, false), win(2, 800, 0, 800, 600, 3, false)];
    let _ = wm.apply_snapshot(&snapshot, 0);
    assert_eq!(wm.get_effective_current_workspace(), 3);
    // With no windows at all it falls back to the last known workspace.
    let _ = wm.apply_snapshot(&Vec::new(), 0);
    assert_eq!(wm.get_effective_current_workspace(), 1);
}

#[test]
fn focused_window_wins_workspace_election() {
    let mut wm = engine();
    let snapshot = vec![
        win(1, 0, 0, 800, 600, 5, true),
        win(2, 0, 0, 800, 600, 2, false),
        win(3, 0, 0, 800, 600, 2, false),
    ];
    let _ = wm.apply_snapshot(&snapshot, 0);
    assert_eq!(wm.get_effective_current_workspace(), 5);
}

#[test]
fn focus_command_requires_known_window() {
    let mut wm = engine();
    let snapshot = vec![win(7, 0, 0, 800, 600, 1, false)];
    let _ = wm.apply_snapshot(&snapshot, 1);
    let hit = wm.handle_command(Command::FocusWindow(WindowId(7)));
    assert_eq!(hit.len(), 1);
    assert!(matches!(hit[0], Action::Focus(WindowId(7))));
    let miss = wm.handle_command(Command::FocusWindow(WindowId(99)));
    assert_eq!(miss.len(), 0);
}

#[test]
fn directional_focus_picks_the_window_in_that_half_plane() {
    let mut wm = engine();
    let snapshot = vec![
        win(1, 600, 400, 400, 300, 1, true),
        win(2, 0, 400, 400, 300, 1, false),
        win(3, 1100, 400, 400, 300, 1, false),
    ];
    let _ = wm.apply_snapshot(&snapshot, 1);
    let left = wm.handle_command(Command::FocusDirection(Direction::Left));
    assert_eq!(left.len(), 1);
    assert!(matches!(left[0], Action::Focus(WindowId(2))));
    let right = wm.handle_command(Command::FocusDirection(Direction::Right));
    assert_eq!(right.len(), 1);
    assert!(matches!(right[0], Action::Focus(WindowId(3))));
    // Repeated calls pick the same candidate.
    let again = wm.handle_command(Command::FocusDirection(Direction::Right));
    assert!(matches!(again[0], Action::Focus(WindowId(3))));
}

#[test]
fn duplicate_snapshot_ids_are_dropped() {
    let mut wm = engine();
    let snapshot = vec![
        win(1, 0, 0, 800, 600, 1, false),
        win(1, 50, 50, 300, 300, 1, false),
        win(2, 800, 0, 800, 600, 1, false),
    ];
    let _ = wm.apply_snapshot(&snapshot, 1);
    assert_eq!(wm.window_count(), 2);
    // The first record of the colliding pair wins.
    assert_eq!(wm.windows[0].rect, Rect { x: 0, y: 0, width: 800, height: 600 });
}

#[test]
fn quit_command_emits_quit() {
    let mut wm = engine();
    let acts = wm.handle_command(Command::Quit);
    assert_eq!(acts.len(), 1);
    assert!(matches!(acts[0], Action::Quit));
    assert_eq!(wm.handle_command(Command::GetStatus).len(), 0);
    assert_eq!(wm.handle_command(Command::ReloadConfig).len(), 0);
}

#[test]
fn toggle_layout_relayouts_marked_self_moving() {
    let mut wm = WindowManager::new(
        LayoutType::BSP,
        500,
        10,
        Rect { x: 0, y: 0, width: 1000, height: 800 },
        50,
    );
    let snapshot = vec![win(1, 0, 0, 500, 800, 1, false), win(2, 500, 0, 500, 800, 1, false)];
    let _ = wm.apply_snapshot(&snapshot, 1);
    let acts = wm.handle_command(Command::ToggleLayout);
    assert_eq!(wm.layout_manager.get_current_layout(), LayoutType::Stack);
    assert_eq!(acts.len(), 1);
    match &acts[0] {
        Action::MoveAll(layouts, targets) => {
            assert_eq!(layouts.len(), 2);
            assert_eq!(targets.len(), 2);
            for (id, _) in layouts {
                assert!(wm.programmatically_moving.contains(id));
            }
        }
        other => panic!("expected a bulk move, got {:?}", other),
    }
}

#[test]
fn center_drop_swaps_via_bulk_move() {
    let mut wm = engine();
    let a = win(1, 0, 0, 800, 1000, 1, false);
    let b = win(2, 800, 0, 800, 1000, 1, false);
    let _ = wm.apply_snapshot(&vec![a, b], 1);
    let initial_b = Rect { x: 800, y: 0, width: 800, height: 1000 };
    let _ = wm.handle_drag_event(
        WindowDragEvent::DragStarted { window_id: WindowId(2), initial_rect: initial_b, owner_pid: 102 },
        0,
    );
    let final_b = Rect { x: 200, y: 100, width: 400, height: 300 };
    let acts = wm.handle_drag_event(
        WindowDragEvent::DragEnded { window_id: WindowId(2), final_rect: final_b, owner_pid: 102 },
        500,
    );
    assert_eq!(acts.len(), 1);
    match &acts[0] {
        Action::MoveAll(layouts, _) => {
            assert_eq!(layouts.len(), 2);
            // The dragged window takes the target's rectangle; the target
            // takes the dragged window's pre-drag rectangle.
            assert!(layouts.iter().any(|(id, r)| *id == WindowId(2)
                && *r == Rect { x: 0, y: 0, width: 800, height: 1000 }));
            assert!(layouts.iter().any(|(id, r)| *id == WindowId(1) && *r == initial_b));
        }
        other => panic!("expected a bulk move, got {:?}", other),
    }
}

#[test]
fn swap_main_trades_with_the_first_workspace_window() {
    let mut wm = engine();
    let snapshot = vec![
        win(1, 0, 0, 800, 1000, 1, false),
        win(2, 800, 0, 800, 1000, 1, true),
    ];
    let _ = wm.apply_snapshot(&snapshot, 1);
    let acts = wm.handle_command(Command::SwapMain);
    assert_eq!(acts.len(), 1);
    match &acts[0] {
        Action::MoveAll(layouts, _) => {
            assert!(layouts.iter().any(|(id, r)| *id == WindowId(2)
                && *r == Rect { x: 0, y: 0, width: 800, height: 1000 }));
            assert!(layouts.iter().any(|(id, r)| *id == WindowId(1)
                && *r == Rect { x: 800, y: 0, width: 800, height: 1000 }));
        }
        other => panic!("expected a bulk move, got {:?}", other),
    }
    assert!(wm.programmatically_moving.contains(&WindowId(1)));
    assert!(wm.programmatically_moving.contains(&WindowId(2)));
}

#[test]
fn fullscreen_moves_the_focused_window_to_the_screen() {
    let mut wm = engine();
    let snapshot = vec![win(1, 100, 100, 400, 300, 1, true)];
    let _ = wm.apply_snapshot(&snapshot, 1);
    let acts = wm.handle_command(Command::ToggleFullscreen);
    assert_eq!(acts.len(), 1);
    assert!(matches!(acts[0], Action::Move(WindowId(1), r)
        if r == Rect { x: 0, y: 0, width: 1600, height: 1000 }));
    assert!(wm.programmatically_moving.contains(&WindowId(1)));
}

#[test]
fn close_focused_window_needs_a_focus() {
    let mut wm = engine();
    let none = wm.handle_command(Command::CloseFocusedWindow);
    assert_eq!(none.len(), 0);
    let _ = wm.apply_snapshot(&vec![win(4, 0, 0, 800, 600, 1, true)], 1);
    let acts = wm.handle_command(Command::CloseFocusedWindow);
    assert_eq!(acts.len(), 1);
    assert!(matches!(acts[0], Action::Close(WindowId(4))));
}

#[test]
fn destroyed_windows_leave_the_world_model() {
    let mut wm = engine();
    let snapshot = vec![win(1, 0, 0, 800, 600, 1, false), win(2, 800, 0, 800, 600, 1, false)];
    let _ = wm.apply_snapshot(&snapshot, 1);
    assert_eq!(wm.window_count(), 2);
    let _ = wm.handle_window_event(WindowEvent::WindowDestroyed(WindowId(1)));
    assert_eq!(wm.window_count(), 1);
    assert_eq!(wm.windows[0].id, WindowId(2));
}

#[test]
fn focus_event_moves_the_focus_flag() {
    let mut wm = engine();
    let snapshot = vec![win(1, 0, 0, 800, 600, 1, true), win(2, 800, 0, 800, 600, 1, false)];
    let _ = wm.apply_snapshot(&snapshot, 1);
    let _ = wm.handle_window_event(WindowEvent::WindowFocused(WindowId(2)));
    assert!(!wm.windows.iter().find(|w| w.id == WindowId(1)).unwrap().is_focused);
    assert!(wm.windows.iter().find(|w| w.id == WindowId(2)).unwrap().is_focused);
}

#[test]
fn resize_event_updates_the_stored_rectangle() {
    let mut wm = engine();
    let _ = wm.apply_snapshot(&vec![win(1, 0, 0, 800, 600, 1, false)], 1);
    let bigger = Rect { x: 0, y: 0, width: 900, height: 700 };
    let acts = wm.handle_window_event(WindowEvent::WindowResized(WindowId(1), bigger));
    assert_eq!(acts.len(), 0);
    assert_eq!(wm.windows[0].rect, bigger);
}

#[test]
fn smallest_window_under_the_cursor_wins() {
    let windows = vec![
        win(1, 0, 0, 1600, 1000, 1, false),
        win(2, 100, 100, 400, 300, 1, false),
    ];
    assert_eq!(
        skew::focus::find_window_at_position(&windows, 200, 200),
        Some(WindowId(2))
    );
    assert_eq!(
        skew::focus::find_window_at_position(&windows, 1200, 800),
        Some(WindowId(1))
    );
    assert_eq!(skew::focus::find_window_at_position(&windows, -5, -5), None);
}

#[test]
fn self_move_updates_the_stored_rectangle() {
    let mut wm = engine();
    let _ = wm.apply_snapshot(&vec![win(1, 0, 0, 800, 600, 1, false)], 1);
    let target = Rect { x: 40, y: 40, width: 400, height: 300 };
    let _ = wm.handle_command(Command::MoveWindow(WindowId(1), target));
    let reaction = wm.handle_window_event(WindowEvent::WindowMoved(WindowId(1), target));
    assert_eq!(reaction.len(), 0);
    assert_eq!(wm.windows[0].rect, target);
}

#[test]
fn unsolicited_move_runs_the_snap_decision() {
    // A window the host reports moved, outside any drag, is treated as the
    // end of a single-shot drag from its previously stored position.
    let mut wm = engine();
    let _ = wm.apply_snapshot(&vec![win(1, 700, 400, 400, 300, 1, false)], 1);
    // The initial relayout marked the window; the host's echo consumes it.
    let home = Rect { x: 700, y: 400, width: 400, height: 300 };
    assert_eq!(wm.handle_window_event(WindowEvent::WindowMoved(WindowId(1), home)).len(), 0);
    // Small motion below the snap threshold: restored to where it was.
    let nudged = Rect { x: 720, y: 400, width: 400, height: 300 };
    let acts = wm.handle_window_event(WindowEvent::WindowMoved(WindowId(1), nudged));
    assert_eq!(acts.len(), 1);
    assert!(matches!(acts[0], Action::Move(WindowId(1), r)
        if r == Rect { x: 700, y: 400, width: 400, height: 300 }));
}

#[test]
fn unsolicited_move_into_a_zone_snaps() {
    let mut wm = engine();
    let _ = wm.apply_snapshot(&vec![win(1, 700, 400, 400, 300, 1, false)], 1);
    // The initial relayout marked the window; the host's echo consumes it.
    let home = Rect { x: 700, y: 400, width: 400, height: 300 };
    assert_eq!(wm.handle_window_event(WindowEvent::WindowMoved(WindowId(1), home)).len(), 0);
    // A long move whose centre lands in the west band snaps to the west half.
    let west = Rect { x: -100, y: 300, width: 200, height: 300 };
    let acts = wm.handle_window_event(WindowEvent::WindowMoved(WindowId(1), west));
    assert_eq!(acts.len(), 1);
    assert!(matches!(acts[0], Action::Move(WindowId(1), r)
        if r == Rect { x: 8, y: 8, width: 792, height: 984 }));
    // The snap was marked self-induced: the host's report of it is silent.
    let echo = wm.handle_window_event(WindowEvent::WindowMoved(
        WindowId(1),
        Rect { x: 8, y: 8, width: 792, height: 984 },
    ));
    assert_eq!(echo.len(), 0);
}

#[test]
fn move_direction_swaps_rectangles() {
    let mut wm = engine();
    let snapshot = vec![
        win(1, 900, 400, 400, 300, 1, true),
        win(2, 100, 400, 400, 300, 1, false),
    ];
    let _ = wm.apply_snapshot(&snapshot, 1);
    let acts = wm.handle_command(Command::MoveDirection(Direction::Left));
    assert_eq!(acts.len(), 1);
    match &acts[0] {
        Action::MoveAll(layouts, _) => {
            assert_eq!(layouts[0], (WindowId(1), Rect { x: 100, y: 400, width: 400, height: 300 }));
            assert_eq!(layouts[1], (WindowId(2), Rect { x: 900, y: 400, width: 400, height: 300 }));
        }
        other => panic!("expected a bulk move, got {:?}", other),
    }
}
