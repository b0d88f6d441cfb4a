//! ANSI colour codes for terminal output.
use vstd::prelude::*;

verus! {

// Regular colours
pub const RED: &'static str = "\x1b[31m";
pub const GREEN: &'static str = "\x1b[32m";
pub const YELLOW: &'static str = "\x1b[33m";
pub const BLUE: &'static str = "\x1b[34m";
pub const MAGENTA: &'static str = "\x1b[35m";
pub const CYAN: &'static str = "\x1b[36m";

// Bright colours
pub const BR_RED: &'static str = "\x1b[91m";
pub const BR_GREEN: &'static str = "\x1b[92m";
pub const BR_YELLOW: &'static str = "\x1b[93m";
pub const BR_BLUE: &'static str = "\x1b[94m";
pub const BR_MAGENTA: &'static str = "\x1b[95m";
pub const BR_CYAN: &'static str = "\x1b[96m";

// Styles
pub const BOLD: &'static str = "\x1b[1m";
pub const DIM: &'static str = "\x1b[90m";
pub const ITALIC: &'static str = "\x1b[3m";
pub const RESET: &'static str = "\x1b[0m";

// Semantic aliases
pub const USER_COLOR: &'static str = BR_CYAN;
pub const BOT_COLOR: &'static str = BR_GREEN;
pub const ERROR_COLOR: &'static str = BR_RED;
pub const INFO_COLOR: &'static str = BR_BLUE;
pub const WARN_COLOR: &'static str = BR_YELLOW;
pub const ACCENT: &'static str = BR_MAGENTA;
pub const MUTED: &'static str = DIM;

} // verus!
