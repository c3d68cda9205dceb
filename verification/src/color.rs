//! ANSI color codes used by the prompt segments.

use vstd::prelude::*;

verus! {

pub const RESET: &'static str = "\u{1b}[0m";

pub const BLUE: &'static str = "\u{1b}[34m";

pub const GREEN: &'static str = "\u{1b}[32m";

pub const RED: &'static str = "\u{1b}[31m";

pub const PURPLE: &'static str = "\u{1b}[35m";

pub const BRIGHT_BLACK: &'static str = "\u{1b}[90m";

pub const BRIGHT_MAGENTA: &'static str = "\u{1b}[95m";

} // verus!
