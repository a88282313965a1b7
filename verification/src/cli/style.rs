//! Colors and glyphs of the terminal output.

use vstd::prelude::*;
use crate::text::{decimal, push_decimal, push_str, string_from_str};

verus! {

/// When to colorize output.
#[derive(Debug, Clone, Copy, PartialEq, Eq, Structural)]
pub enum ColorChoice {
    Auto,
    Always,
    Never,
}

/// Which glyph set progress output uses.
#[derive(Debug, Clone, Copy, PartialEq, Eq, Structural)]
pub enum ProgressMode {
    Plain,
    Nerd,
}

/// How output is decorated.
#[derive(Debug, Clone, Copy, PartialEq, Eq, Structural)]
pub struct Style {
    pub color_on: bool,
    /// Prefer Nerd Font glyphs (eyecandy) over plain TTY-safe ASCII.
    pub eyecandy: bool,
}

/// 256-color codes given to workers in turn.
pub const WORKER_PALETTE: [u8; 9] = [39, 69, 208, 198, 34, 226, 51, 141, 44];

/// The palette entry for position `i` (`0 <= i < 9`).
pub open spec fn palette_code(i: int) -> u8 {
    if i == 0 { 39 }
    else if i == 1 { 69 }
    else if i == 2 { 208 }
    else if i == 3 { 198 }
    else if i == 4 { 34 }
    else if i == 5 { 226 }
    else if i == 6 { 51 }
    else if i == 7 { 141 }
    else { 44 }
}

/// `text` wrapped in the ANSI color sequence `prefix` when color is on.
pub open spec fn spec_paint(color_on: bool, prefix: Seq<char>, text: Seq<char>) -> Seq<char> {
    if color_on {
        "\x1b["@ + prefix + "m"@ + text + "\x1b[0m"@
    } else {
        text
    }
}

/// The ANSI foreground prefix of `worker`'s color.
pub open spec fn spec_worker_ansi(worker: usize) -> Seq<char> {
    "38;5;"@ + decimal(palette_code((worker % 9) as int) as nat)
}

impl ColorChoice {
    /// Whether this choice turns color on, given whether stdout is a terminal.
    pub fn resolves_to(self, is_tty: bool) -> (on: bool)
        ensures
            on == match self {
                ColorChoice::Always => true,
                ColorChoice::Never => false,
                ColorChoice::Auto => is_tty,
            },
    {
        match self {
            ColorChoice::Always => true,
            ColorChoice::Never => false,
            ColorChoice::Auto => is_tty,
        }
    }

    /// The lowercase name used in configuration files.
    pub fn name(self) -> (s: &'static str)
        ensures
            s@ == match self {
                ColorChoice::Auto => "auto"@,
                ColorChoice::Always => "always"@,
                ColorChoice::Never => "never"@,
            },
    {
        match self {
            ColorChoice::Auto => "auto",
            ColorChoice::Always => "always",
            ColorChoice::Never => "never",
        }
    }
}

impl Style {
    pub fn new(color_on: bool, eyecandy: bool) -> (s: Style)
        ensures
            s == (Style { color_on, eyecandy }),
    {
        Style { color_on, eyecandy }
    }

    /// `text`, wrapped in the color `ansi_prefix` when color is on.
    pub fn paint(&self, ansi_prefix: &str, text: &str) -> (s: String)
        ensures
            s@ == spec_paint(self.color_on, ansi_prefix@, text@),
    {
        if self.color_on {
            let mut s = String::new();
            push_str(&mut s, "\x1b[");
            push_str(&mut s, ansi_prefix);
            push_str(&mut s, "m");
            push_str(&mut s, text);
            push_str(&mut s, "\x1b[0m");
            assert(s@ =~= spec_paint(self.color_on, ansi_prefix@, text@));
            s
        } else {
            string_from_str(text)
        }
    }

    /// The color prefix of `worker`: the palette cycles every nine workers.
    pub fn worker_ansi(&self, worker: usize) -> (s: String)
        ensures
            s@ == spec_worker_ansi(worker),
    {
        let i = worker % 9;
        let code = WORKER_PALETTE[i];
        assert(code == palette_code(i as int));
        let mut s = String::new();
        push_str(&mut s, "38;5;");
        push_decimal(&mut s, code as u64);
        assert(s@ =~= spec_worker_ansi(worker));
        s
    }

    pub fn bar_filled(&self) -> (c: char)
        ensures
            c == if self.eyecandy { '\u{25b0}' } else { '#' },
    {
        if self.eyecandy { '\u{25b0}' } else { '#' }
    }

    pub fn bar_empty(&self) -> (c: char)
        ensures
            c == if self.eyecandy { '\u{25b1}' } else { '-' },
    {
        if self.eyecandy { '\u{25b1}' } else { '-' }
    }

    pub fn download_glyph(&self) -> (c: char)
        ensures
            c == if self.eyecandy { '\u{f019}' } else { '>' },
    {
        if self.eyecandy { '\u{f019}' } else { '>' }
    }

    pub fn worker_glyph(&self) -> (c: char)
        ensures
            c == if self.eyecandy { '\u{e0b0}' } else { '*' },
    {
        if self.eyecandy { '\u{e0b0}' } else { '*' }
    }
}

/// Worker colors repeat with a period of nine workers.
pub proof fn lemma_worker_palette_cycles(worker: usize)
    requires
        worker + 9 <= usize::MAX,
    ensures
        spec_worker_ansi(worker) == spec_worker_ansi((worker + 9) as usize),
{
    assert((worker + 9) % 9 == worker % 9);
}

/// Painting with color off leaves the text as it is.
pub proof fn lemma_colorless_paint_is_identity(prefix: Seq<char>, text: Seq<char>)
    ensures
        spec_paint(false, prefix, text) == text,
{
}

} // verus!
