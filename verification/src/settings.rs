//! Plain state shared by the settings window and the library view: what
//! the settings window asks of its caller, the overlay server's status as
//! the window shows it, the player-name density and the library's date
//! filter.

use vstd::prelude::*;

verus! {

/// What the settings window asks its caller to do after a frame.
#[derive(Clone, Copy, Debug)]
pub struct SettingsOutcome {
    pub saved: bool,
    pub reset_defaults: bool,
    pub classify_now: bool,
    pub stop_classification: bool,
    /// Start (or restart) the overlay server with the current settings.
    pub overlay_apply: bool,
    /// Open the overlay template folder.
    pub overlay_open_folder: bool,
    /// Rewrite the overlay templates with the built-in originals.
    pub overlay_restore_defaults: bool,
}

impl Default for SettingsOutcome {
    /// Nothing requested.
    fn default() -> (r: Self)
        ensures
            !r.saved && !r.reset_defaults && !r.classify_now && !r.stop_classification && !r.overlay_apply
                && !r.overlay_open_folder && !r.overlay_restore_defaults,
    {
        SettingsOutcome {
            saved: false,
            reset_defaults: false,
            classify_now: false,
            stop_classification: false,
            overlay_apply: false,
            overlay_open_folder: false,
            overlay_restore_defaults: false,
        }
    }
}

/// The overlay server's state as the settings window renders it.
#[derive(Clone, Debug)]
pub struct OverlayUiStatus {
    pub running: bool,
    pub bound_port: u16,
    pub url: String,
    pub error: Option<String>,
}

impl Default for OverlayUiStatus {
    /// Not running, no port, no URL, no error.
    fn default() -> (r: Self)
        ensures
            !r.running,
            r.bound_port == 0,
            r.url@ == Seq::<char>::empty(),
            r.error is None,
    {
        OverlayUiStatus { running: false, bound_port: 0, url: String::new(), error: None }
    }
}

/// Vertical rhythm of the player identity block: `Compact` for
/// single-line bars, `Normal` for card headers.
#[derive(Clone, Copy, Debug, PartialEq, Eq, Structural)]
pub enum NameDensity {
    Compact,
    Normal,
}

/// Date filter of the replay library.
#[derive(Clone, Copy, Debug, PartialEq, Eq, Structural)]
pub enum DateRange {
    All,
    Today,
    ThisWeek,
    ThisMonth,
}

impl Default for DateRange {
    /// The current week.
    fn default() -> (r: Self)
        ensures
            r == DateRange::ThisWeek,
    {
        DateRange::ThisWeek
    }
}

} // verus!
