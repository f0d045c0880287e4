//! Identifiers shared by the overlay, the applet and the compositor entry.

use vstd::prelude::*;

verus! {

/// Application id used for the config directory and D-Bus activation.
pub const APP_ID: &'static str = "io.github.michelet76.CosmicExtCheatsheet";

/// Application id of the panel applet.
pub const APPLET_ID: &'static str = "io.github.michelet76.CosmicExtCheatsheet.Applet";

/// Name of the overlay binary.
pub const BIN_NAME: &'static str = "cosmic-ext-cheatsheet";

/// Symbolic icon shown by the panel applet.
pub const ICON_SYMBOLIC: &'static str = "io.github.michelet76.CosmicExtCheatsheet-symbolic";

/// Description stored with the compositor binding that opens the cheatsheet.
pub const SHORTCUT_DESCRIPTION: &'static str = "Keyboard shortcut cheatsheet";

} // verus!
