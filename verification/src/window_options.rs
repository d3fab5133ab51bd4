//! How a window is to come up.

use vstd::prelude::*;

verus! {

/// Position and size that a browser or window is asked to have.
#[derive(Clone, Copy, Debug, PartialEq, Eq, Structural)]
pub struct BrowserBounds {
    pub x: i32,
    pub y: i32,
    pub width: i32,
    pub height: i32,
}

/// Position and size as CEF takes them.
#[derive(Clone, Copy, Debug, PartialEq, Eq, Structural)]
pub struct Rect {
    pub x: i32,
    pub y: i32,
    pub width: i32,
    pub height: i32,
}

/// The rectangle with these bounds.
pub open spec fn rect_of(bounds: BrowserBounds) -> Rect {
    Rect { x: bounds.x, y: bounds.y, width: bounds.width, height: bounds.height }
}

impl Rect {
    /// The rectangle with these bounds.
    pub fn of(bounds: BrowserBounds) -> (rect: Rect)
        ensures
            rect == rect_of(bounds),
            rect.x == bounds.x,
            rect.y == bounds.y,
            rect.width == bounds.width,
            rect.height == bounds.height,
    {
        Rect { x: bounds.x, y: bounds.y, width: bounds.width, height: bounds.height }
    }
}

impl Default for Rect {
    /// The empty rectangle at the origin.
    fn default() -> (rect: Rect)
        ensures
            rect == (Rect { x: 0, y: 0, width: 0, height: 0 }),
    {
        Rect { x: 0, y: 0, width: 0, height: 0 }
    }
}

/// Initial visibility state for a newly created window.
#[derive(Clone, Copy, Debug, PartialEq, Eq, Structural)]
pub enum WindowState {
    /// Show the window normally.
    Normal,
    /// Create the window minimized.
    Minimized,
    /// Create the window maximized.
    Maximized,
    /// Create the window hidden.
    Hidden,
}

impl Default for WindowState {
    fn default() -> (state: WindowState)
        ensures
            state == WindowState::Normal,
    {
        WindowState::Normal
    }
}

/// The show states of CEF.
#[derive(Clone, Copy, Debug, PartialEq, Eq, Structural)]
pub enum ShowState {
    Normal,
    Minimized,
    Maximized,
    Fullscreen,
    Hidden,
    /// How many states there are; not a state.
    NumValues,
}

/// The CEF show state that a window state stands for.
pub open spec fn show_state_of(state: WindowState) -> ShowState {
    match state {
        WindowState::Normal => ShowState::Normal,
        WindowState::Minimized => ShowState::Minimized,
        WindowState::Maximized => ShowState::Maximized,
        WindowState::Hidden => ShowState::Hidden,
    }
}

/// The window state that a CEF show state stands for. Those without one of
/// their own count as normal.
pub open spec fn window_state_of(state: ShowState) -> WindowState {
    match state {
        ShowState::Minimized => WindowState::Minimized,
        ShowState::Maximized => WindowState::Maximized,
        ShowState::Hidden => WindowState::Hidden,
        _ => WindowState::Normal,
    }
}

impl From<WindowState> for ShowState {
    fn from(state: WindowState) -> (shown: ShowState) {
        match state {
            WindowState::Normal => ShowState::Normal,
            WindowState::Minimized => ShowState::Minimized,
            WindowState::Maximized => ShowState::Maximized,
            WindowState::Hidden => ShowState::Hidden,
        }
    }
}

impl vstd::std_specs::convert::FromSpecImpl<WindowState> for ShowState {
    open spec fn obeys_from_spec() -> bool {
        true
    }

    open spec fn from_spec(state: WindowState) -> ShowState {
        show_state_of(state)
    }
}

impl From<ShowState> for WindowState {
    fn from(state: ShowState) -> (window: WindowState) {
        match state {
            ShowState::Normal => WindowState::Normal,
            ShowState::Minimized => WindowState::Minimized,
            ShowState::Maximized => WindowState::Maximized,
            ShowState::Hidden => WindowState::Hidden,
            _ => WindowState::Normal,
        }
    }
}

impl vstd::std_specs::convert::FromSpecImpl<ShowState> for WindowState {
    open spec fn obeys_from_spec() -> bool {
        true
    }

    open spec fn from_spec(state: ShowState) -> WindowState {
        window_state_of(state)
    }
}

/// A window state survives the way to CEF and back.
pub proof fn lemma_window_state_round_trip(state: WindowState)
    ensures
        window_state_of(show_state_of(state)) == state,
{
}

/// A CEF show state survives the way here and back, if it has a window state.
pub proof fn lemma_show_state_round_trip(state: ShowState)
    requires
        state != ShowState::Fullscreen,
        state != ShowState::NumValues,
    ensures
        show_state_of(window_state_of(state)) == state,
{
}

/// Each window state goes to the CEF show state of the same name, and no other
/// one does.
pub proof fn lemma_show_state_has_the_same_name(state: WindowState)
    ensures
        show_state_of(state) is Normal <==> state is Normal,
        show_state_of(state) is Minimized <==> state is Minimized,
        show_state_of(state) is Maximized <==> state is Maximized,
        show_state_of(state) is Hidden <==> state is Hidden,
        <ShowState as vstd::std_specs::convert::FromSpec<WindowState>>::obeys_from_spec(),
        <ShowState as vstd::std_specs::convert::FromSpec<WindowState>>::from_spec(state) == show_state_of(state),
{
}

/// Each CEF show state that has a window state of the same name goes to that
/// one; all others count as normal.
pub proof fn lemma_window_state_has_the_same_name(state: ShowState)
    ensures
        window_state_of(state) is Minimized <==> state is Minimized,
        window_state_of(state) is Maximized <==> state is Maximized,
        window_state_of(state) is Hidden <==> state is Hidden,
        window_state_of(state) is Normal <==> state is Normal || state is Fullscreen
            || state is NumValues,
        <WindowState as vstd::std_specs::convert::FromSpec<ShowState>>::obeys_from_spec(),
        <WindowState as vstd::std_specs::convert::FromSpec<ShowState>>::from_spec(state) == window_state_of(state),
{
}

/// A rectangle has the position and the size that it was asked to have.
pub proof fn lemma_rect_keeps_the_bounds(bounds: BrowserBounds)
    ensures
        rect_of(bounds).x == bounds.x,
        rect_of(bounds).y == bounds.y,
        rect_of(bounds).width == bounds.width,
        rect_of(bounds).height == bounds.height,
{
}

/// Options for creating a new top-level browser window.
#[derive(Debug, Clone)]
pub struct WindowOptions {
    /// Initial URL to load.
    pub url: String,
    /// Initial window position and size.
    pub bounds: BrowserBounds,
    /// Initial visibility state of the window.
    pub show_state: WindowState,
}

} // verus!
