use skew::config::{
    default_hotkeys, Config, FocusConfig, GeneralConfig, HotkeyConfig, IpcConfig, LayoutConfig,
};
use skew::control::{plan_bulk_moves, MoveStep};
use skew::geometry::Rect;
use skew::hotkeys::{parse_action, parse_key_combination, ModifierKey, ParsedAction};
use skew::ipc::{parse_request, IpcClient, IpcMessage, IpcRequest};
use skew::model::{Window, WindowId};
use skew::focus::FocusManager;
use skew::layout::LayoutType;
use skew::source::CGWindowInfo;
use skew::window_manager::Command;

fn msg(command: &str, args: &[&str]) -> IpcMessage {
    IpcMessage {
        command: command.to_string(),
        args: args.iter().map(|a| a.to_string()).collect(),
    }
}

#[test]
fn default_config_validates() {
    let c = Config::default();
    assert!(c.validate().is_ok());
    assert_eq!(c.general.gap, 10);
    assert_eq!(c.layout.split_ratio, 500);
    assert_eq!(default_hotkeys().len(), 15);
}

#[test]
fn general_config_rejects_bad_values() {
    let mut g = GeneralConfig {
        gap: 10,
        border_width: 2,
        border_color: "#cccccc".to_string(),
        active_border_color: "#0080ff".to_string(),
    };
    assert!(g.validate().is_ok());
    g.gap = 101;
    assert!(g.validate().is_err());
    g.gap = 10;
    g.border_color = "red".to_string();
    assert!(g.validate().is_err());
}

#[test]
fn layout_config_rejects_unknown_names_and_ratios() {
    let mut l = LayoutConfig { default_layout: "BSP".to_string(), split_ratio: 500 };
    assert!(l.validate().is_ok());
    l.default_layout = "mosaic".to_string();
    assert!(l.validate().is_err());
    l.default_layout = "grid".to_string();
    l.split_ratio = 1000;
    assert!(l.validate().is_err());
}

#[test]
fn focus_and_ipc_config_bounds() {
    assert!(FocusConfig { follows_mouse: true, mouse_delay_ms: 100 }.validate().is_ok());
    assert!(FocusConfig { follows_mouse: true, mouse_delay_ms: 10001 }.validate().is_err());
    assert!(IpcConfig { socket_path: "/tmp/skew.sock".to_string() }.validate().is_ok());
    assert!(IpcConfig { socket_path: String::new() }.validate().is_err());
}

#[test]
fn hotkey_config_checks_modifiers_and_actions() {
    let good = HotkeyConfig {
        mod_key: "Alt".to_string(),
        bindings: vec![("alt+h".to_string(), "focus_left".to_string())],
    };
    assert!(good.validate().is_ok());
    let bad_mod = HotkeyConfig { mod_key: "hyper".to_string(), bindings: vec![] };
    assert!(bad_mod.validate().is_err());
    let bad_action = HotkeyConfig {
        mod_key: "alt".to_string(),
        bindings: vec![("alt+h".to_string(), "teleport".to_string())],
    };
    assert!(bad_action.validate().is_err());
    let exec_needs_arg = HotkeyConfig {
        mod_key: "alt".to_string(),
        bindings: vec![("alt+t".to_string(), "exec".to_string())],
    };
    assert!(exec_needs_arg.validate().is_err());
}

#[test]
fn key_combinations_parse_modifiers_in_order() {
    let kc = parse_key_combination("ctrl+alt+space").expect("combination should parse");
    assert_eq!(kc.modifiers, vec![ModifierKey::Ctrl, ModifierKey::Alt]);
    assert_eq!(kc.key, "space".to_string());
    assert!(parse_key_combination("hyper+x").is_none());
    let bare = parse_key_combination("h").expect("a bare key parses");
    assert!(bare.modifiers.is_empty());
    assert_eq!(bare.key, "h".to_string());
}

#[test]
fn actions_parse_to_commands() {
    assert!(matches!(
        parse_action("focus_left"),
        Ok(ParsedAction::Run(Command::FocusDirection(skew::hotkeys::Direction::Left)))
    ));
    assert!(matches!(
        parse_action("toggle_layout"),
        Ok(ParsedAction::Run(Command::ToggleLayout))
    ));
    assert!(matches!(parse_action("restart"), Ok(ParsedAction::Run(Command::ReloadConfig))));
    match parse_action("exec:terminal") {
        Ok(ParsedAction::Exec(prog)) => assert_eq!(prog, "terminal".to_string()),
        other => panic!("expected a launch, got {:?}", other),
    }
    assert!(parse_action("exec").is_err());
    assert!(parse_action("teleport").is_err());
}

#[test]
fn requests_dispatch_to_commands() {
    assert_eq!(
        parse_request(&msg("focus", &["42"])),
        Ok(IpcRequest::Dispatch(Command::FocusWindow(WindowId(42))))
    );
    assert_eq!(
        parse_request(&msg("toggle-layout", &[])),
        Ok(IpcRequest::Dispatch(Command::ToggleLayout))
    );
    assert_eq!(parse_request(&msg("quit", &[])), Ok(IpcRequest::Dispatch(Command::Quit)));
    assert_eq!(parse_request(&msg("stop", &[])), Ok(IpcRequest::Dispatch(Command::Quit)));
    assert_eq!(parse_request(&msg("ping", &[])), Ok(IpcRequest::Ping));
    assert_eq!(parse_request(&msg("help", &[])), Ok(IpcRequest::Help));
    match parse_request(&msg("move", &["7", "10", "20", "300", "200"])) {
        Ok(IpcRequest::Dispatch(Command::MoveWindow(id, rect))) => {
            assert_eq!(id, WindowId(7));
            assert_eq!(rect, Rect { x: 10, y: 20, width: 300, height: 200 });
        }
        other => panic!("expected a move, got {:?}", other),
    }
}

#[test]
fn bad_requests_come_back_with_messages() {
    assert_eq!(parse_request(&msg("focus", &["abc"])), Err("Invalid window ID".to_string()));
    assert_eq!(
        parse_request(&msg("focus", &[])),
        Err("focus command requires window ID argument".to_string())
    );
    assert_eq!(parse_request(&msg("close", &["-3"])), Err("Invalid window ID".to_string()));
    assert_eq!(
        parse_request(&msg("move", &["7", "10"])),
        Err("move command requires: window_id x y width height".to_string())
    );
    assert_eq!(
        parse_request(&msg("move", &["7", "10", "20", "300", "nope"])),
        Err("move command requires: window_id x y width height".to_string())
    );
    let unknown = parse_request(&msg("dance", &[])).unwrap_err();
    assert!(unknown.starts_with("Unknown command: 'dance'"));
}

#[test]
fn ipc_client_remembers_its_socket() {
    let c = IpcClient::new("/tmp/skew.sock".to_string());
    assert_eq!(c.socket_path(), "/tmp/skew.sock");
}

fn raw(
    number: u32,
    title: &str,
    owner: &str,
    pid: i32,
    w: i64,
    h: i64,
    layer: i64,
    on_screen: bool,
    alpha_milli: u32,
) -> CGWindowInfo {
    CGWindowInfo {
        window_number: number,
        title: title.to_string(),
        owner: owner.to_string(),
        owner_pid: pid,
        rect: Rect { x: 0, y: 0, width: w, height: h },
        layer,
        is_on_screen: on_screen,
        alpha_milli,
        workspace_id: 1,
    }
}

#[test]
fn manageable_filter_applies_every_rule() {
    let ok = raw(1, "notes", "editor", 10, 800, 600, 0, true, 1000);
    assert!(ok.manageable());
    assert!(!raw(2, "hud", "editor", 10, 800, 600, 25, true, 1000).manageable());
    assert!(!raw(3, "gone", "editor", 10, 800, 600, 0, false, 1000).manageable());
    assert!(!raw(4, "ghost", "editor", 10, 800, 600, 0, true, 50).manageable());
    assert!(!raw(5, "tiny", "editor", 10, 40, 600, 0, true, 1000).manageable());
    assert!(!raw(6, "bar", "Dock", 10, 800, 600, 0, true, 1000).manageable());
    assert!(!raw(7, "", "SystemThing", 10, 800, 600, 0, true, 1000).manageable());
    assert!(!raw(8, "", "ab", 10, 800, 600, 0, true, 1000).manageable());
    // An untitled window of an ordinary owner is still manageable.
    assert!(raw(9, "", "editor", 10, 800, 600, 0, true, 1000).manageable());
    let windows = skew::source::filter_manageable(&vec![
        raw(1, "notes", "editor", 10, 800, 600, 0, true, 1000),
        raw(6, "bar", "Dock", 10, 800, 600, 0, true, 1000),
    ]);
    assert_eq!(windows.len(), 1);
    assert_eq!(windows[0].id, WindowId(1));
}

fn rec(id: u32, pid: i32) -> Window {
    Window {
        id: WindowId(id),
        title: format!("window {}", id),
        owner: "editor".to_string(),
        owner_pid: pid,
        rect: Rect { x: 0, y: 0, width: 400, height: 300 },
        is_minimized: false,
        is_focused: false,
        workspace_id: 1,
    }
}

#[test]
fn bulk_move_plan_matches_by_pid_and_position() {
    let windows = vec![rec(1, 10), rec(2, 20), rec(3, 10), rec(4, 10)];
    let r1 = Rect { x: 0, y: 0, width: 100, height: 100 };
    let r3 = Rect { x: 100, y: 0, width: 100, height: 100 };
    let r2 = Rect { x: 200, y: 0, width: 100, height: 100 };
    let layouts = vec![(WindowId(1), r1), (WindowId(3), r3), (WindowId(2), r2)];
    // The host exposes only two accessible windows for pid ten, so the third
    // record of that process is left out of this pass; window four has no
    // target rectangle and is skipped.
    let counts = vec![(10, 2usize), (20, 1usize)];
    let plan = plan_bulk_moves(&windows, &layouts, &counts);
    assert_eq!(
        plan,
        vec![
            MoveStep { pid: 10, index_in_pid: 0, window_id: WindowId(1), rect: r1 },
            MoveStep { pid: 10, index_in_pid: 1, window_id: WindowId(3), rect: r3 },
            MoveStep { pid: 20, index_in_pid: 0, window_id: WindowId(2), rect: r2 },
        ]
    );
}

#[test]
fn number_parsing_edges() {
    assert_eq!(skew::text::parse_u32("0"), Some(0));
    assert_eq!(skew::text::parse_u32("4294967295"), Some(u32::MAX));
    assert_eq!(skew::text::parse_u32("4294967296"), None);
    assert_eq!(skew::text::parse_u32(""), None);
    assert_eq!(skew::text::parse_u32("12x"), None);
    assert_eq!(skew::text::parse_coord("-300"), Some(-300));
    assert_eq!(skew::text::parse_coord("65536"), Some(65536));
    assert_eq!(skew::text::parse_coord("65537"), None);
    assert_eq!(skew::text::parse_coord("-"), None);
}

#[test]
fn substring_search() {
    assert!(skew::text::contains_str("SystemUIServer", "System"));
    assert!(!skew::text::contains_str("editor", "System"));
    assert!(skew::text::contains_str("anything", ""));
}

#[test]
fn layout_names_parse_case_insensitively() {
    assert_eq!(LayoutType::from_string("BSP"), LayoutType::BSP);
    assert_eq!(LayoutType::from_string("binary"), LayoutType::BSP);
    assert_eq!(LayoutType::from_string("Stacking"), LayoutType::Stack);
    assert_eq!(LayoutType::from_string("FULLSCREEN"), LayoutType::Monocle);
    assert_eq!(LayoutType::from_string("columns"), LayoutType::Column);
    assert_eq!(LayoutType::from_string("mosaic"), LayoutType::BSP);
}

#[test]
fn focus_manager_knobs() {
    let mut fm = FocusManager::new(&FocusConfig { follows_mouse: true, mouse_delay_ms: 100 });
    assert!(fm.is_focus_follows_mouse_enabled());
    assert_eq!(fm.get_mouse_delay(), 100);
    fm.set_focus_follows_mouse(false);
    fm.set_mouse_delay(250);
    assert!(!fm.is_focus_follows_mouse_enabled());
    assert_eq!(fm.get_mouse_delay(), 250);
}

#[test]
fn focus_delay_error_names_the_value() {
    let err = FocusConfig { follows_mouse: true, mouse_delay_ms: 12345 }
        .validate()
        .unwrap_err();
    assert_eq!(err, "mouse_delay_ms should not exceed 10000, got 12345");
}

#[test]
fn out_of_box_move_coordinates_are_rejected() {
    assert_eq!(
        parse_request(&msg("move", &["7", "10", "20", "70000", "200"])),
        Err("move command requires: window_id x y width height".to_string())
    );
    // A rectangle whose far edge leaves the coordinate box is also rejected.
    assert_eq!(
        parse_request(&msg("move", &["7", "60000", "0", "10000", "200"])),
        Err("move command requires: window_id x y width height".to_string())
    );
}
