//! Where the client's windows go: the state a window is created with, where it lands on its monitor,
//! fullscreen and back, the state saved when it closes, and when the client quits.
use crate::text::{chars_of, eq_chars};
use vstd::prelude::*;

verus! {

broadcast use vstd::string::group_string_axioms;

/// A rectangle in screen pixels.
#[derive(Clone, Copy, PartialEq, Eq, Structural, Debug)]
pub struct Position {
    pub left: i32,
    pub top: i32,
    pub right: i32,
    pub bottom: i32,
}

/// What is remembered of a window: fullscreen, maximized, and the rectangle to restore down to.
#[derive(Clone, Copy, PartialEq, Eq, Structural, Debug)]
pub struct WindowState {
    pub fullscreen: bool,
    /// A maximized window's rectangle overhangs the screen, so the position is the size to restore
    /// down to and the flag maximizes on top of it.
    pub maximized: bool,
    pub position: Position,
}

/// `x / 2` as Rust's integer division computes it: rounded toward zero.
pub open spec fn half(x: int) -> int {
    if x >= 0 {
        x / 2
    } else {
        -((-x) / 2)
    }
}

/// A window of the given size centered on the screen.
pub open spec fn centered_rect(screen_width: int, screen_height: int, width: int, height: int) -> (int, int, int, int) {
    let left = half(screen_width - width);
    let top = half(screen_height - height);
    (left, top, left + width, top + height)
}

/// The values a centered window needs fit in `i32`.
pub open spec fn centered_fits(screen_width: i32, screen_height: i32, width: i32, height: i32) -> bool {
    let (l, t, r, b) = centered_rect(screen_width as int, screen_height as int, width as int, height as int);
    &&& i32::MIN <= screen_width - width <= i32::MAX
    &&& i32::MIN <= screen_height - height <= i32::MAX
    &&& i32::MIN <= r <= i32::MAX
    &&& i32::MIN <= b <= i32::MAX
}

fn half_exec(x: i32) -> (h: i32)
    ensures
        h == half(x as int),
{
    if x >= 0 {
        x / 2
    } else if x == i32::MIN {
        -0x4000_0000
    } else {
        -((-x) / 2)
    }
}

/// A window of `width` by `height` centered on a screen of `screen_width` by `screen_height`.
pub fn centered(screen_width: i32, screen_height: i32, width: i32, height: i32) -> (position: Position)
    requires
        centered_fits(screen_width, screen_height, width, height),
    ensures
        (position.left as int, position.top as int, position.right as int, position.bottom as int)
            == centered_rect(screen_width as int, screen_height as int, width as int, height as int),
{
    let left = half_exec(screen_width - width);
    let top = half_exec(screen_height - height);
    Position { left, top, right: left + width, bottom: top + height }
}

/// How a window is started.
#[derive(Clone, Copy, PartialEq, Eq, Structural, Debug)]
pub enum StartMode {
    BorderlessFullscreen,
    Maximized,
    RememberPrevious,
    Custom,
    /// Any other setting: a centered window.
    Windowed,
}

/// The start mode a "startMode" setting names.
pub open spec fn start_mode_of(setting: Seq<char>) -> StartMode {
    if setting == "Borderless Fullscreen"@ {
        StartMode::BorderlessFullscreen
    } else if setting == "Maximized"@ {
        StartMode::Maximized
    } else if setting == "Remember Previous"@ {
        StartMode::RememberPrevious
    } else if setting == "Custom"@ {
        StartMode::Custom
    } else {
        StartMode::Windowed
    }
}

/// The start mode a "startMode" setting names.
pub fn parse_start_mode(setting: &str) -> (mode: StartMode)
    ensures
        mode == start_mode_of(setting@),
{
    let s = chars_of(setting);
    if eq_chars(&s, &chars_of("Borderless Fullscreen")) {
        StartMode::BorderlessFullscreen
    } else if eq_chars(&s, &chars_of("Maximized")) {
        StartMode::Maximized
    } else if eq_chars(&s, &chars_of("Remember Previous")) {
        StartMode::RememberPrevious
    } else if eq_chars(&s, &chars_of("Custom")) {
        StartMode::Custom
    } else {
        StartMode::Windowed
    }
}

/// Whether a window started with the "startMode" setting `setting` is created from the state the
/// main window was closed in ("lastPosition"): only "Remember Previous" reads it.
pub fn restores_last_position(setting: &str) -> (res: bool)
    ensures
        res == (start_mode_of(setting@) == StartMode::RememberPrevious),
{
    match parse_start_mode(setting) {
        StartMode::RememberPrevious => true,
        _ => false,
    }
}

/// The state a new window is created with. Without anything to restore it covers the whole screen
/// borderless; "Maximized" and the windowed modes take `windowed`, the rectangle of a window at the
/// default size centered on the screen; "Remember Previous" and "Custom" take the state handed in.
pub open spec fn creation_state_of(
    mode: StartMode,
    init_state: Option<WindowState>,
    screen_width: i32,
    screen_height: i32,
    windowed: Position,
) -> WindowState {
    let fallback = WindowState {
        fullscreen: true,
        maximized: false,
        position: Position { left: 0, top: 0, right: screen_width, bottom: screen_height },
    };
    let windowed_state = WindowState { fullscreen: false, maximized: false, position: windowed };
    match mode {
        StartMode::BorderlessFullscreen => fallback,
        StartMode::Maximized => WindowState { fullscreen: false, maximized: true, position: windowed },
        StartMode::RememberPrevious => match init_state {
            Some(state) => state,
            None => fallback,
        },
        StartMode::Custom => match init_state {
            Some(state) => state,
            None => windowed_state,
        },
        StartMode::Windowed => windowed_state,
    }
}

/// The state a new window is created with (see `creation_state_of`).
pub fn creation_state(
    mode: StartMode,
    init_state: Option<WindowState>,
    screen_width: i32,
    screen_height: i32,
    windowed: Position,
) -> (state: WindowState)
    ensures
        state == creation_state_of(mode, init_state, screen_width, screen_height, windowed),
{
    let fallback = WindowState {
        fullscreen: true,
        maximized: false,
        position: Position { left: 0, top: 0, right: screen_width, bottom: screen_height },
    };
    let windowed_state = WindowState { fullscreen: false, maximized: false, position: windowed };
    match mode {
        StartMode::BorderlessFullscreen => fallback,
        StartMode::Maximized => WindowState { fullscreen: false, maximized: true, position: windowed },
        StartMode::RememberPrevious => match init_state {
            Some(state) => state,
            None => fallback,
        },
        StartMode::Custom => match init_state {
            Some(state) => state,
            None => windowed_state,
        },
        StartMode::Windowed => windowed_state,
    }
}

/// Where a window is created.
#[derive(Clone, Copy, PartialEq, Eq, Structural, Debug)]
pub enum Placement {
    /// The rectangle is on no monitor: Windows picks the place (`CW_USEDEFAULT`) and the window is
    /// not fullscreen.
    Default,
    /// At `x`, `y` with the rectangle's size.
    At { x: i32, y: i32, width: i32, height: i32 },
}

/// `value` clamped into `min..=max` (`i32::clamp`, which needs `min <= max`).
pub open spec fn clamp(value: int, min: int, max: int) -> int {
    if value < min {
        min
    } else if value > max {
        max
    } else {
        value
    }
}

/// `value` clamped into `min..=max`, for `min <= max` (what `i32::clamp` computes there).
pub fn clamp_i32(value: i32, min: i32, max: i32) -> (res: i32)
    requires
        min <= max,
    ensures
        res == clamp(value as int, min as int, max as int),
{
    if value < min {
        min
    } else if value > max {
        max
    } else {
        value
    }
}

/// The sizes and limits of a placement fit in `i32`.
pub open spec fn placement_fits(rect: Position, work: Option<Position>) -> bool {
    &&& i32::MIN <= rect.right - rect.left <= i32::MAX
    &&& i32::MIN <= rect.bottom - rect.top <= i32::MAX
    &&& match work {
        Some(w) => i32::MIN <= w.right - (rect.right - rect.left) <= i32::MAX && i32::MIN <= w.bottom - (
        rect.bottom - rect.top) <= i32::MAX,
        None => true,
    }
}

/// Where a window with the rectangle `rect` is created: on no monitor (`work` is `None`) Windows
/// decides; otherwise the window keeps its size and is moved into the monitor's work area, its left
/// and top edges held inside it (the work area's left and top edges win when the window is larger).
pub open spec fn placement_of(rect: Position, work: Option<Position>) -> Placement {
    match work {
        None => Placement::Default,
        Some(area) => {
            let w = rect.right - rect.left;
            let h = rect.bottom - rect.top;
            let max_x = if area.left > area.right - w { area.left as int } else { area.right - w };
            let max_y = if area.top > area.bottom - h { area.top as int } else { area.bottom - h };
            Placement::At {
                x: clamp(rect.left as int, area.left as int, max_x) as i32,
                y: clamp(rect.top as int, area.top as int, max_y) as i32,
                width: w as i32,
                height: h as i32,
            }
        },
    }
}

/// Where a window with the rectangle `rect` is created (see `placement_of`); `work` is the work
/// area of the monitor the rectangle is on.
pub fn place_window(rect: Position, work: Option<Position>) -> (placement: Placement)
    requires
        placement_fits(rect, work),
    ensures
        placement == placement_of(rect, work),
{
    match work {
        None => Placement::Default,
        Some(area) => {
            let w = rect.right - rect.left;
            let h = rect.bottom - rect.top;
            let right_limit = area.right - w;
            let bottom_limit = area.bottom - h;
            let max_x = if area.left > right_limit { area.left } else { right_limit };
            let max_y = if area.top > bottom_limit { area.top } else { bottom_limit };
            Placement::At { x: clamp_i32(rect.left, area.left, max_x), y: clamp_i32(rect.top, area.top, max_y), width: w, height: h }
        },
    }
}

/// Where a window lands on its monitor: it keeps its size; its left edge is inside the work area,
/// and so is its right edge unless the window is wider than the work area; the same for the top and
/// bottom edges. A window whose rectangle lies inside the work area stays exactly where it was.
pub proof fn lemma_placement_in_area(rect: Position, area: Position)
    requires
        placement_fits(rect, Some(area)),
    ensures
        ({
            let w = rect.right - rect.left;
            let h = rect.bottom - rect.top;
            match placement_of(rect, Some(area)) {
                Placement::At { x, y, width, height } => {
                    &&& width == w && height == h
                    &&& area.left <= x && (x + w <= area.right || x == area.left)
                    &&& area.top <= y && (y + h <= area.bottom || y == area.top)
                    &&& (area.left <= rect.left && rect.right <= area.right ==> x == rect.left)
                    &&& (area.top <= rect.top && rect.bottom <= area.bottom ==> y == rect.top)
                },
                Placement::Default => false,
            }
        }),
{
}

/// The state a window is stored with once it is placed: a window whose rectangle is on no monitor
/// is created where Windows decides, as a bordered window, so it is no longer fullscreen.
pub open spec fn placed_state_of(state: WindowState, placement: Placement) -> WindowState {
    match placement {
        Placement::Default => WindowState { fullscreen: false, ..state },
        Placement::At { .. } => state,
    }
}

/// Where a window in `state` is created and the state it is stored with (see `placement_of` and
/// `placed_state_of`); `work` is the work area of the monitor its rectangle is on.
pub fn placed_window(state: WindowState, work: Option<Position>) -> (res: (Placement, WindowState))
    requires
        placement_fits(state.position, work),
    ensures
        res.0 == placement_of(state.position, work),
        res.1 == placed_state_of(state, res.0),
{
    let placement = place_window(state.position, work);
    let stored = match placement {
        Placement::Default => WindowState { fullscreen: false, maximized: state.maximized, position: state.position },
        Placement::At { .. } => state,
    };
    (placement, stored)
}

// ---------------------------------------------------------------------------------------------
// Fullscreen (F11) and back
// ---------------------------------------------------------------------------------------------

/// What F11 does to the window.
#[derive(Clone, Copy, PartialEq, Eq, Structural, Debug)]
pub enum FullscreenChange {
    /// Leave fullscreen: a bordered window at `rect`, maximized on top of it when `maximize`.
    Leave { rect: Position, maximize: bool },
    /// Enter fullscreen: restore a maximized window first when `restore_first`, then cover `monitor`
    /// borderless.
    Enter { restore_first: bool, monitor: Position },
}

/// F11 on a window in `state`. Entering records whether the window is maximized (`zoomed`) and the
/// rectangle to come back to: the restore rectangle of a maximized window (`normal_rect`, when
/// Windows handed it out) or else the window's rectangle (`window_rect`).
pub open spec fn fullscreen_toggle(
    state: WindowState,
    zoomed: bool,
    normal_rect: Option<Position>,
    window_rect: Position,
    monitor: Position,
) -> (WindowState, FullscreenChange) {
    if state.fullscreen {
        (
            WindowState { fullscreen: false, ..state },
            FullscreenChange::Leave { rect: state.position, maximize: state.maximized },
        )
    } else {
        let rect = match normal_rect {
            Some(normal) => if zoomed {
                normal
            } else {
                window_rect
            },
            None => window_rect,
        };
        (
            WindowState { fullscreen: true, maximized: zoomed, position: rect },
            FullscreenChange::Enter { restore_first: zoomed, monitor },
        )
    }
}

/// F11 on a window (see `fullscreen_toggle`): the new state and what to do to the window.
pub fn toggle_fullscreen(
    state: WindowState,
    zoomed: bool,
    normal_rect: Option<Position>,
    window_rect: Position,
    monitor: Position,
) -> (res: (WindowState, FullscreenChange))
    ensures
        res == fullscreen_toggle(state, zoomed, normal_rect, window_rect, monitor),
{
    if state.fullscreen {
        (
            WindowState { fullscreen: false, maximized: state.maximized, position: state.position },
            FullscreenChange::Leave { rect: state.position, maximize: state.maximized },
        )
    } else {
        let rect = match normal_rect {
            Some(normal) => if zoomed {
                normal
            } else {
                window_rect
            },
            None => window_rect,
        };
        (
            WindowState { fullscreen: true, maximized: zoomed, position: rect },
            FullscreenChange::Enter { restore_first: zoomed, monitor },
        )
    }
}

/// F11 twice gives the window back: entering fullscreen and leaving it again ends in a bordered
/// window at the rectangle it had before, maximized again exactly when it was maximized.
pub proof fn lemma_fullscreen_round_trip(
    state: WindowState,
    zoomed: bool,
    normal_rect: Option<Position>,
    window_rect: Position,
    monitor: Position,
    zoomed2: bool,
    normal_rect2: Option<Position>,
    window_rect2: Position,
    monitor2: Position,
)
    requires
        !state.fullscreen,
    ensures
        ({
            let (entered, _) = fullscreen_toggle(state, zoomed, normal_rect, window_rect, monitor);
            let (left, change) = fullscreen_toggle(entered, zoomed2, normal_rect2, window_rect2, monitor2);
            let before = match normal_rect {
                Some(normal) => if zoomed {
                    normal
                } else {
                    window_rect
                },
                None => window_rect,
            };
            &&& !left.fullscreen
            &&& left.maximized == zoomed
            &&& left.position == before
            &&& change == FullscreenChange::Leave { rect: before, maximize: zoomed }
        }),
{
}

/// F11 flips fullscreen, whatever the window looked like.
pub proof fn lemma_fullscreen_flips(
    state: WindowState,
    zoomed: bool,
    normal_rect: Option<Position>,
    window_rect: Position,
    monitor: Position,
)
    ensures
        fullscreen_toggle(state, zoomed, normal_rect, window_rect, monitor).0.fullscreen == !state.fullscreen,
{
}

/// A window is shown maximized when its state is maximized and not fullscreen.
pub open spec fn shows_maximized(state: WindowState) -> bool {
    state.maximized && !state.fullscreen
}

/// Whether a hidden window is shown maximized (`SW_MAXIMIZE`) rather than plainly (`SW_SHOW`).
pub fn show_maximized(state: WindowState) -> (res: bool)
    ensures
        res == shows_maximized(state),
{
    state.maximized && !state.fullscreen
}

/// The state remembered of the main window when it closes. The restore rectangle and the maximized
/// flag come from the window's placement when Windows hands it out (`placement`, with whether it
/// shows maximized); otherwise the rectangle is the window's and the flag stays as it was. The window
/// is fullscreen exactly when its style has none of the bordered window's bits.
pub open spec fn closed_state_of(
    state: WindowState,
    placement: Option<(Position, bool)>,
    zoomed: bool,
    window_rect: Position,
    has_border_style: bool,
) -> WindowState {
    match placement {
        Some((normal, shows_max)) => WindowState {
            fullscreen: !has_border_style,
            maximized: shows_max || zoomed,
            position: normal,
        },
        None => WindowState { fullscreen: !has_border_style, maximized: state.maximized, position: window_rect },
    }
}

/// The state remembered of the main window when it closes (see `closed_state_of`).
pub fn closed_state(
    state: WindowState,
    placement: Option<(Position, bool)>,
    zoomed: bool,
    window_rect: Position,
    has_border_style: bool,
) -> (res: WindowState)
    ensures
        res == closed_state_of(state, placement, zoomed, window_rect, has_border_style),
{
    match placement {
        Some((normal, shows_max)) => WindowState {
            fullscreen: !has_border_style,
            maximized: shows_max || zoomed,
            position: normal,
        },
        None => WindowState { fullscreen: !has_border_style, maximized: state.maximized, position: window_rect },
    }
}

// ---------------------------------------------------------------------------------------------
// Popups
// ---------------------------------------------------------------------------------------------

/// What a page asked of a popup (`window.open` features): each of x, y, width and height, if set.
#[derive(Clone, Copy, PartialEq, Eq, Structural, Debug)]
pub struct PopupRequest {
    pub x: Option<i32>,
    pub y: Option<i32>,
    pub width: Option<i32>,
    pub height: Option<i32>,
}

/// The rectangle of a popup: what the page left out keeps the default size and stays centered.
pub open spec fn popup_rect(
    request: PopupRequest,
    screen_width: i32,
    screen_height: i32,
    default_width: i32,
    default_height: i32,
) -> (int, int, int, int) {
    let width = match request.width {
        Some(w) => w as int,
        None => default_width as int,
    };
    let height = match request.height {
        Some(h) => h as int,
        None => default_height as int,
    };
    let left = match request.x {
        Some(x) => x as int,
        None => half(screen_width - width),
    };
    let top = match request.y {
        Some(y) => y as int,
        None => half(screen_height - height),
    };
    (left, top, left + width, top + height)
}

/// The values of a popup's rectangle fit in `i32`.
pub open spec fn popup_fits(
    request: PopupRequest,
    screen_width: i32,
    screen_height: i32,
    default_width: i32,
    default_height: i32,
) -> bool {
    let width = match request.width {
        Some(w) => w as int,
        None => default_width as int,
    };
    let height = match request.height {
        Some(h) => h as int,
        None => default_height as int,
    };
    let (l, t, r, b) = popup_rect(request, screen_width, screen_height, default_width, default_height);
    &&& i32::MIN <= screen_width - width <= i32::MAX
    &&& i32::MIN <= screen_height - height <= i32::MAX
    &&& i32::MIN <= r <= i32::MAX
    &&& i32::MIN <= b <= i32::MAX
}

/// The state a popup window is created with: none when the page set none of the four, so the window
/// takes the default; otherwise a plain window at `popup_rect`.
pub open spec fn popup_state_of(
    request: PopupRequest,
    screen_width: i32,
    screen_height: i32,
    default_width: i32,
    default_height: i32,
) -> Option<WindowState> {
    if request.x is None && request.y is None && request.width is None && request.height is None {
        None
    } else {
        let (l, t, r, b) = popup_rect(request, screen_width, screen_height, default_width, default_height);
        Some(
            WindowState {
                fullscreen: false,
                maximized: false,
                position: Position { left: l as i32, top: t as i32, right: r as i32, bottom: b as i32 },
            },
        )
    }
}

/// The state a popup window is created with (see `popup_state_of`); the defaults are the size of
/// a window at the default size.
pub fn popup_state(
    request: PopupRequest,
    screen_width: i32,
    screen_height: i32,
    default_width: i32,
    default_height: i32,
) -> (state: Option<WindowState>)
    requires
        popup_fits(request, screen_width, screen_height, default_width, default_height),
    ensures
        state == popup_state_of(request, screen_width, screen_height, default_width, default_height),
{
    if request.x.is_none() && request.y.is_none() && request.width.is_none() && request.height.is_none() {
        return None;
    }
    let width = match request.width {
        Some(w) => w,
        None => default_width,
    };
    let height = match request.height {
        Some(h) => h,
        None => default_height,
    };
    let left = match request.x {
        Some(x) => x,
        None => half_exec(screen_width - width),
    };
    let top = match request.y {
        Some(y) => y,
        None => half_exec(screen_height - height),
    };
    Some(
        WindowState {
            fullscreen: false,
            maximized: false,
            position: Position { left, top, right: left + width, bottom: top + height },
        },
    )
}

// ---------------------------------------------------------------------------------------------
// When the client quits
// ---------------------------------------------------------------------------------------------

/// The windows and browsers that are open. The client quits its message loop when the last of both
/// is gone, whichever goes last.
#[derive(Clone, Copy, PartialEq, Eq, Structural, Debug)]
pub struct Lifecycle {
    pub windows: usize,
    pub browsers: usize,
}

impl Lifecycle {
    /// Nothing open yet.
    pub fn new() -> (lifecycle: Lifecycle)
        ensures
            lifecycle.windows == 0 && lifecycle.browsers == 0,
    {
        Lifecycle { windows: 0, browsers: 0 }
    }

    /// A window of ours was created.
    pub fn window_created(&mut self)
        requires
            old(self).windows < usize::MAX,
        ensures
            final(self).windows == old(self).windows + 1,
            final(self).browsers == old(self).browsers,
    {
        self.windows = self.windows + 1;
    }

    /// A browser was attached.
    pub fn browser_attached(&mut self)
        requires
            old(self).browsers < usize::MAX,
        ensures
            final(self).browsers == old(self).browsers + 1,
            final(self).windows == old(self).windows,
    {
        self.browsers = self.browsers + 1;
    }

    /// A window of ours was destroyed; true when the client quits now.
    pub fn window_destroyed(&mut self) -> (quit: bool)
        requires
            old(self).windows > 0,
        ensures
            final(self).windows == old(self).windows - 1,
            final(self).browsers == old(self).browsers,
            quit == (final(self).windows == 0 && final(self).browsers == 0),
    {
        let quit = self.windows == 1 && self.browsers == 0;
        self.windows = self.windows - 1;
        quit
    }

    /// A browser closed; true when the client quits now.
    pub fn browser_detached(&mut self) -> (quit: bool)
        requires
            old(self).browsers > 0,
        ensures
            final(self).browsers == old(self).browsers - 1,
            final(self).windows == old(self).windows,
            quit == (final(self).windows == 0 && final(self).browsers == 0),
    {
        let quit = self.browsers == 1 && self.windows == 0;
        self.browsers = self.browsers - 1;
        quit
    }

    /// Another instance's arguments reach the social window only when it is the last window left.
    pub fn only_window_left(&self) -> (res: bool)
        ensures
            res == (self.windows == 1),
    {
        self.windows == 1
    }
}

// ---------------------------------------------------------------------------------------------
// The FPS counter
// ---------------------------------------------------------------------------------------------

/// What the FPS counter shows on a timer tick: the hook's FPS when it published some (`current`,
/// as FPS and frame time) that is above zero and differs from what was shown last.
pub open spec fn fps_update_of(last: Option<(u64, u64)>, current: Option<(u64, u64)>) -> Option<u64> {
    match current {
        Some(stats) => if stats.0 > 0 && last != Some(stats) {
            Some(stats.0)
        } else {
            None
        },
        None => None,
    }
}

/// The FPS to show on a timer tick, and the stats to remember for the next one.
pub fn fps_update(last: Option<(u64, u64)>, current: Option<(u64, u64)>) -> (res: (Option<u64>, Option<(u64, u64)>))
    ensures
        res.0 == fps_update_of(last, current),
        res.1 == if res.0 is Some {
            current
        } else {
            last
        },
{
    match current {
        Some(stats) => {
            let same = match last {
                Some(previous) => previous.0 == stats.0 && previous.1 == stats.1,
                None => false,
            };
            if stats.0 > 0 && !same {
                (Some(stats.0), Some(stats))
            } else {
                (None, last)
            }
        },
        None => (None, last),
    }
}

// ---------------------------------------------------------------------------------------------
// Smaller pieces
// ---------------------------------------------------------------------------------------------

/// The state of a bench window at `rect`: borderless (the rectangle is the client area) when it is
/// locked in front of the client, a plain window otherwise.
pub fn bench_window_state(rect: Position, locked: bool) -> (state: WindowState)
    ensures
        state == (WindowState { fullscreen: locked, maximized: false, position: rect }),
{
    WindowState { fullscreen: locked, maximized: false, position: rect }
}

/// Left, top, right and bottom of a client area of `width` by `height` whose top left corner is at
/// (`x`, `y`) on the screen.
pub fn screen_rect(x: i32, y: i32, width: i32, height: i32) -> (rect: [i32; 4])
    requires
        i32::MIN <= x + width <= i32::MAX,
        i32::MIN <= y + height <= i32::MAX,
    ensures
        rect@ == seq![x, y, (x + width) as i32, (y + height) as i32],
{
    let rect = [x, y, x + width, y + height];
    assert(rect@ =~= seq![x, y, (x + width) as i32, (y + height) as i32]);
    rect
}


/// The start modes by their names: "Borderless Fullscreen", "Maximized", "Remember Previous" and
/// "Custom" each name their own mode; every other name is a centered window.
pub proof fn lemma_start_mode_names(other: Seq<char>)
    ensures
        start_mode_of("Borderless Fullscreen"@) == StartMode::BorderlessFullscreen,
        start_mode_of("Maximized"@) == StartMode::Maximized,
        start_mode_of("Remember Previous"@) == StartMode::RememberPrevious,
        start_mode_of("Custom"@) == StartMode::Custom,
        other != "Borderless Fullscreen"@ && other != "Maximized"@ && other != "Remember Previous"@ && other
            != "Custom"@ ==> start_mode_of(other) == StartMode::Windowed,
{
    reveal_strlit("Borderless Fullscreen");
    reveal_strlit("Maximized");
    reveal_strlit("Remember Previous");
    reveal_strlit("Custom");
    assert("Borderless Fullscreen"@.len() == 21);
    assert("Maximized"@.len() == 9);
    assert("Remember Previous"@.len() == 17);
    assert("Custom"@.len() == 6);
}

/// How a new window starts: borderless over the whole screen, maximized over the default window, a
/// plain default window, or the state handed in; a state handed in is used only by "Remember
/// Previous" and "Custom", and without one "Remember Previous" falls back to fullscreen and "Custom"
/// to the default window.
pub proof fn lemma_creation_states(
    init_state: Option<WindowState>,
    screen_width: i32,
    screen_height: i32,
    windowed: Position,
)
    ensures
        ({
            let screen = Position { left: 0, top: 0, right: screen_width, bottom: screen_height };
            let create = |mode: StartMode| creation_state_of(mode, init_state, screen_width, screen_height, windowed);
            &&& create(StartMode::BorderlessFullscreen) == (WindowState { fullscreen: true, maximized: false, position: screen })
            &&& create(StartMode::Maximized) == (WindowState { fullscreen: false, maximized: true, position: windowed })
            &&& create(StartMode::Windowed) == (WindowState { fullscreen: false, maximized: false, position: windowed })
            &&& (init_state matches Some(s) ==> create(StartMode::RememberPrevious) == s && create(StartMode::Custom) == s)
            &&& (init_state is None ==> create(StartMode::RememberPrevious) == create(StartMode::BorderlessFullscreen)
                && create(StartMode::Custom) == create(StartMode::Windowed))
        }),
{
}

/// A popup the page sized: it is a plain window, at the position and of the size the page asked
/// for; what the page left out is the default size, centered on the screen; a page that asked for
/// nothing gets the default window.
pub proof fn lemma_popup_rect(
    request: PopupRequest,
    screen_width: i32,
    screen_height: i32,
    default_width: i32,
    default_height: i32,
)
    requires
        popup_fits(request, screen_width, screen_height, default_width, default_height),
    ensures
        ({
            let state = popup_state_of(request, screen_width, screen_height, default_width, default_height);
            &&& (request.x is None && request.y is None && request.width is None && request.height is None <==> state
                is None)
            &&& (state matches Some(s) ==> {
                let w = match request.width {
                    Some(w) => w as int,
                    None => default_width as int,
                };
                let h = match request.height {
                    Some(h) => h as int,
                    None => default_height as int,
                };
                &&& !s.fullscreen && !s.maximized
                &&& s.position.right - s.position.left == w
                &&& s.position.bottom - s.position.top == h
                &&& (request.x matches Some(x) ==> s.position.left == x)
                &&& (request.y matches Some(y) ==> s.position.top == y)
                &&& (request.x is None ==> s.position.left == half(screen_width - w))
                &&& (request.y is None ==> s.position.top == half(screen_height - h))
            })
        }),
{
}

/// What is remembered of the main window when it closes: it was fullscreen exactly when its style
/// has none of the bordered window's bits; the rectangle is the restore rectangle where Windows
/// handed one out, else the window's own; it is maximized when it shows or is zoomed maximized.
pub proof fn lemma_closed_state(
    state: WindowState,
    placement: Option<(Position, bool)>,
    zoomed: bool,
    window_rect: Position,
    has_border_style: bool,
)
    ensures
        ({
            let closed = closed_state_of(state, placement, zoomed, window_rect, has_border_style);
            &&& closed.fullscreen == !has_border_style
            &&& (placement matches Some((normal, shows_max)) ==> closed.position == normal && closed.maximized == (
            shows_max || zoomed))
            &&& (placement is None ==> closed.position == window_rect && closed.maximized == state.maximized)
        }),
{
}


/// The FPS counter shows a value only when the hook published one above zero that differs from what
/// was shown last, and then it shows the hook's FPS.
pub proof fn lemma_fps_updates(last: Option<(u64, u64)>, current: Option<(u64, u64)>)
    ensures
        current is None ==> fps_update_of(last, current) is None,
        (current matches Some(stats) && stats.0 > 0 && last != current) ==> fps_update_of(last, current) == Some(
            (current->0).0,
        ),
        last == current ==> fps_update_of(last, current) is None,
        (current matches Some(stats) && stats.0 == 0) ==> fps_update_of(last, current) is None,
{
}

} // verus!
