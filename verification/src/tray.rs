//! The tray icon's menu.

use vstd::prelude::*;

verus! {

/// Menu id of the item that shows or hides the main window.
pub const TRAY_ID_SHOW_HIDE: &'static str = "tray_show_hide";

/// Menu id of the item that quits.
pub const TRAY_ID_EXIT: &'static str = "tray_exit";

/// Message that a double left click on the tray icon sends to the event loop.
pub const TRAY_TOGGLE_MESSAGE: &'static str = "tray:toggle";

/// Label of the show/hide item: "hide" while the window is visible, "show"
/// otherwise.
pub fn show_hide_label(visible: bool) -> (label: &'static str)
    ensures
        label@ == (if visible { "Скрыть"@ } else { "Показать"@ }),
{
    if visible {
        "Скрыть"
    } else {
        "Показать"
    }
}

} // verus!
