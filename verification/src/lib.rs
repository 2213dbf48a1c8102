//! Battery levels of wireless Logitech devices in the system tray.

use vstd::prelude::*;

pub mod app;
pub mod clock;
pub mod config;
pub mod cut;
pub mod hid;
pub mod i18n;
pub mod icon;
pub mod label;
pub mod menu;
pub mod model;
pub mod notify;
pub mod order;
pub mod shell;
pub mod subject;
pub mod supervisor;
pub mod text;
pub mod textmap;
pub mod tray;
pub mod update;

verus! {

/// The name under which the application stores its files and registers itself.
pub const APP_ID: &'static str = "logitray";

} // verus!
