use kute::window_state::{
    placed_window,
    centered, closed_state, creation_state, fps_update, parse_start_mode, place_window, popup_state, show_maximized,
    toggle_fullscreen, FullscreenChange, Lifecycle, Placement, PopupRequest, Position, StartMode, WindowState,
};

fn rect(left: i32, top: i32, right: i32, bottom: i32) -> Position {
    Position { left, top, right, bottom }
}

#[test]
fn start_modes() {
    assert_eq!(parse_start_mode("Borderless Fullscreen"), StartMode::BorderlessFullscreen);
    assert_eq!(parse_start_mode("Maximized"), StartMode::Maximized);
    assert_eq!(parse_start_mode("Remember Previous"), StartMode::RememberPrevious);
    assert_eq!(parse_start_mode("Custom"), StartMode::Custom);
    assert_eq!(parse_start_mode("Windowed"), StartMode::Windowed);
}

#[test]
fn centered_windows() {
    assert_eq!(centered(1920, 1080, 1536, 864), rect(192, 108, 1728, 972));
    // rounded toward zero like Rust's division
    assert_eq!(centered(100, 100, 103, 103), rect(-1, -1, 102, 102));
}

#[test]
fn creation_states() {
    let windowed = rect(192, 108, 1728, 972);
    let full = WindowState { fullscreen: true, maximized: false, position: rect(0, 0, 1920, 1080) };
    let plain = WindowState { fullscreen: false, maximized: false, position: windowed };
    let saved = WindowState { fullscreen: false, maximized: true, position: rect(1, 2, 3, 4) };
    assert_eq!(creation_state(StartMode::BorderlessFullscreen, Some(saved), 1920, 1080, windowed), full);
    assert_eq!(
        creation_state(StartMode::Maximized, None, 1920, 1080, windowed),
        WindowState { fullscreen: false, maximized: true, position: windowed }
    );
    assert_eq!(creation_state(StartMode::RememberPrevious, Some(saved), 1920, 1080, windowed), saved);
    assert_eq!(creation_state(StartMode::RememberPrevious, None, 1920, 1080, windowed), full);
    assert_eq!(creation_state(StartMode::Custom, Some(saved), 1920, 1080, windowed), saved);
    assert_eq!(creation_state(StartMode::Custom, None, 1920, 1080, windowed), plain);
    assert_eq!(creation_state(StartMode::Windowed, Some(saved), 1920, 1080, windowed), plain);
}

#[test]
fn placements() {
    assert_eq!(place_window(rect(0, 0, 100, 100), None), Placement::Default);
    let work = Some(rect(0, 0, 1920, 1040));
    assert_eq!(place_window(rect(10, 20, 110, 220), work), Placement::At { x: 10, y: 20, width: 100, height: 200 });
    assert_eq!(place_window(rect(1900, 1000, 2000, 1100), work), Placement::At { x: 1820, y: 940, width: 100, height: 100 });
    assert_eq!(place_window(rect(-50, -50, 50, 50), work), Placement::At { x: 0, y: 0, width: 100, height: 100 });
    // larger than the work area: the top left corner wins
    assert_eq!(place_window(rect(100, 100, 3100, 2100), work), Placement::At { x: 0, y: 0, width: 3000, height: 2000 });
}

#[test]
fn fullscreen_and_back() {
    let state = WindowState { fullscreen: false, maximized: false, position: rect(0, 0, 10, 10) };
    let window = rect(5, 5, 805, 605);
    let monitor = rect(0, 0, 1920, 1080);
    let (entered, change) = toggle_fullscreen(state, false, None, window, monitor);
    assert_eq!(entered, WindowState { fullscreen: true, maximized: false, position: window });
    assert_eq!(change, FullscreenChange::Enter { restore_first: false, monitor });
    let (left, change) = toggle_fullscreen(entered, false, None, monitor, monitor);
    assert_eq!(left, WindowState { fullscreen: false, maximized: false, position: window });
    assert_eq!(change, FullscreenChange::Leave { rect: window, maximize: false });
}

#[test]
fn fullscreen_from_maximized_restores_maximized() {
    let state = WindowState { fullscreen: false, maximized: false, position: rect(0, 0, 10, 10) };
    let normal = rect(100, 100, 900, 700);
    let monitor = rect(0, 0, 1920, 1080);
    let (entered, change) = toggle_fullscreen(state, true, Some(normal), rect(-8, -8, 1928, 1048), monitor);
    assert_eq!(entered, WindowState { fullscreen: true, maximized: true, position: normal });
    assert_eq!(change, FullscreenChange::Enter { restore_first: true, monitor });
    let (left, change) = toggle_fullscreen(entered, false, None, monitor, monitor);
    assert!(!left.fullscreen);
    assert_eq!(change, FullscreenChange::Leave { rect: normal, maximize: true });
    assert!(show_maximized(left));
    assert!(!show_maximized(entered));
}

#[test]
fn closed_states() {
    let state = WindowState { fullscreen: false, maximized: true, position: rect(0, 0, 1, 1) };
    assert_eq!(
        closed_state(state, Some((rect(1, 2, 3, 4), false)), false, rect(9, 9, 9, 9), true),
        WindowState { fullscreen: false, maximized: false, position: rect(1, 2, 3, 4) }
    );
    assert_eq!(
        closed_state(state, Some((rect(1, 2, 3, 4), false)), true, rect(9, 9, 9, 9), false),
        WindowState { fullscreen: true, maximized: true, position: rect(1, 2, 3, 4) }
    );
    assert_eq!(
        closed_state(state, None, false, rect(9, 9, 19, 19), true),
        WindowState { fullscreen: false, maximized: true, position: rect(9, 9, 19, 19) }
    );
}

#[test]
fn popups() {
    let none = PopupRequest { x: None, y: None, width: None, height: None };
    assert_eq!(popup_state(none, 1920, 1080, 1536, 864), None);
    let sized = PopupRequest { x: None, y: None, width: Some(400), height: None };
    assert_eq!(
        popup_state(sized, 1920, 1080, 1536, 864),
        Some(WindowState { fullscreen: false, maximized: false, position: rect(760, 108, 1160, 972) })
    );
    let placed = PopupRequest { x: Some(10), y: Some(20), width: Some(300), height: Some(200) };
    assert_eq!(
        popup_state(placed, 1920, 1080, 1536, 864),
        Some(WindowState { fullscreen: false, maximized: false, position: rect(10, 20, 310, 220) })
    );
}

#[test]
fn quits_when_the_last_window_and_browser_are_gone() {
    let mut life = Lifecycle::new();
    life.window_created();
    life.browser_attached();
    life.window_created();
    assert!(!life.window_destroyed());
    assert!(life.only_window_left());
    assert!(!life.window_destroyed());
    assert!(life.browser_detached());
    let mut life = Lifecycle::new();
    life.window_created();
    life.browser_attached();
    assert!(!life.browser_detached());
    assert!(life.window_destroyed());
}

#[test]
fn fps_counter_updates() {
    assert_eq!(fps_update(None, Some((144, 6))), (Some(144), Some((144, 6))));
    assert_eq!(fps_update(Some((144, 6)), Some((144, 6))), (None, Some((144, 6))));
    assert_eq!(fps_update(Some((144, 6)), Some((144, 7))), (Some(144), Some((144, 7))));
    assert_eq!(fps_update(Some((144, 6)), Some((0, 0))), (None, Some((144, 6))));
    assert_eq!(fps_update(Some((144, 6)), None), (None, Some((144, 6))));
}

#[test]
fn off_screen_windows_lose_fullscreen() {
    let rect = Position { left: 0, top: 0, right: 1920, bottom: 1080 };
    let state = WindowState { fullscreen: true, maximized: true, position: rect };
    let (placement, stored) = placed_window(state, None);
    assert_eq!(placement, Placement::Default);
    assert_eq!(stored, WindowState { fullscreen: false, maximized: true, position: rect });
    let (placement, stored) = placed_window(state, Some(rect));
    assert_eq!(placement, Placement::At { x: 0, y: 0, width: 1920, height: 1080 });
    assert_eq!(stored, state);
}
