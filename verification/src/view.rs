//! State behind the GUI views: the menu bar, the settings sidebar and the
//! timeline window. The widgets themselves are drawn by the host's GUI
//! library; these types carry what persists between frames.

use vstd::prelude::*;

verus! {

/// Which edge the settings sidebar docks to.
#[derive(Clone, Copy, PartialEq, Eq, Structural, Debug)]
pub enum PanelSide {
    Left,
    Right,
}

/// The menu bar.
pub struct MenuView {}

impl MenuView {
    pub fn new() -> (r: MenuView) {
        MenuView {  }
    }
}

/// Persistent sidebar state.
pub struct SidebarState {
    pub shown: bool,
    pub side: PanelSide,
}

impl SidebarState {
    pub fn new() -> (r: SidebarState)
        ensures
            r.shown == false,
            r.side == PanelSide::Right,
    {
        SidebarState { shown: false, side: PanelSide::Right }
    }
}

/// The settings sidebar.
pub struct SidebarView {}

impl SidebarView {
    pub fn new() -> (r: SidebarView) {
        SidebarView {  }
    }
}

/// The timeline window: remembers whether playback ran before a drag.
pub struct TimelineWindow {
    pub was_playing: bool,
}

impl TimelineWindow {
    pub fn new() -> (r: TimelineWindow)
        ensures
            r.was_playing == false,
    {
        TimelineWindow { was_playing: false }
    }
}

} // verus!
