//! Plain command-line configuration values. The argument parsing itself is
//! an embedding concern; the core only models the parsed choices: which ROM
//! to load, the screen colors, the interpreter variant, and the window
//! resolution.

use crate::interpreter::InterpreterVariant;
use vstd::prelude::*;

verus! {

/// The parsed command line: the ROM path and the presentation and
/// interpreter choices made at startup.
pub struct Cli {
    /// Path for the ROM to load.
    pub rom_path: String,
    /// Color of the foreground of the screen.
    pub on_color: ColorValue,
    /// Color of the background of the screen.
    pub off_color: ColorValue,
    /// Color of the highlighted text (like pressed keys).
    pub alt_color: ColorValue,
    /// Variant of the CHIP-8 interpreter.
    pub interpreter_variant: InterpreterVariant,
    /// Screen resolution.
    pub resolution: Resolution,
}

/// The named colors selectable on the command line.
#[derive(Debug, Clone, Copy, PartialEq, Eq, Structural)]
pub enum ColorValue {
    Green,
    Red,
    Yellow,
    Blue,
    Magenta,
    Cyan,
    White,
    Black,
    Grey,
    Gray,
}

/// The window resolutions selectable on the command line.
#[derive(Debug, Clone, Copy, PartialEq, Eq, Structural)]
pub enum Resolution {
    /// 800x600 (4:3)
    SuperVGA,
    /// 1280x720 (16:9)
    HD,
    /// 1280x960 (4:3)
    QuadVGA,
    /// 1400x1050 (4:3)
    SuperXGA,
    /// 1920x1080 (16:9)
    FullHD,
    /// 2560x1440 (16:9)
    QuadHD,
    /// 3440x1440 (21:9)
    UltraWideQHD,
}

impl Resolution {
    /// The pixel dimensions of each selectable resolution.
    pub open spec fn spec_window_dimensions(&self) -> (usize, usize) {
        match self {
            Resolution::SuperVGA => (800usize, 600usize),
            Resolution::HD => (1280usize, 720usize),
            Resolution::QuadVGA => (1280usize, 960usize),
            Resolution::SuperXGA => (1400usize, 1050usize),
            Resolution::FullHD => (1920usize, 1080usize),
            Resolution::QuadHD => (2560usize, 1440usize),
            Resolution::UltraWideQHD => (3440usize, 1440usize),
        }
    }

    pub fn to_window_dimensions(&self) -> (r: (usize, usize))
        ensures
            r == self.spec_window_dimensions(),
    {
        let (width, height): (usize, usize) = match self {
            Resolution::SuperVGA => (800, 600),
            Resolution::HD => (1280, 720),
            Resolution::QuadVGA => (1280, 960),
            Resolution::SuperXGA => (1400, 1050),
            Resolution::FullHD => (1920, 1080),
            Resolution::QuadHD => (2560, 1440),
            Resolution::UltraWideQHD => (3440, 1440),
        };
        (width, height)
    }
}

} // verus!
