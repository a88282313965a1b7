//! The pacman-style `shard.conf` toggles: a bare `Color` turns color on, a
//! commented `#Color` turns it off, and `key = value` lines set values.

use vstd::prelude::*;
use crate::cli::style::{ColorChoice, ProgressMode};
use crate::text::{chars_eq_str, chars_of, find_char, split_lines, split_once, str_lines, sub_vec, trim, trim_vec, views};

verus! {

/// The options read from the file at `path`.
pub struct Config {
    pub path: String,
    pub color: Option<ColorChoice>,
    pub progress: Option<ProgressMode>,
}

pub type FlagState = (Option<ColorChoice>, Option<ProgressMode>);

pub open spec fn is_color_key(k: Seq<char>) -> bool {
    k == "Color"@ || k == "color"@
}

pub open spec fn is_progress_key(k: Seq<char>) -> bool {
    k == "Progress"@ || k == "progress"@
}

/// The options after reading one line.
pub open spec fn apply_flag_line(state: FlagState, raw: Seq<char>) -> FlagState {
    let t = trim(raw);
    if t.len() == 0 || t[0] == '[' {
        state
    } else if t[0] == '#' {
        if is_color_key(trim(t.drop_first())) {
            (Some(ColorChoice::Never), state.1)
        } else {
            state
        }
    } else if is_color_key(t) {
        (Some(ColorChoice::Always), state.1)
    } else {
        match split_once(t, '=') {
            Some((k, v)) => {
                let key = trim(k);
                let value = trim(v);
                if is_color_key(key) {
                    if value == "always"@ {
                        (Some(ColorChoice::Always), state.1)
                    } else if value == "never"@ {
                        (Some(ColorChoice::Never), state.1)
                    } else if value == "auto"@ {
                        (Some(ColorChoice::Auto), state.1)
                    } else {
                        state
                    }
                } else if is_progress_key(key) {
                    if value == "plain"@ {
                        (state.0, Some(ProgressMode::Plain))
                    } else if value == "nerd"@ {
                        (state.0, Some(ProgressMode::Nerd))
                    } else {
                        state
                    }
                } else {
                    state
                }
            },
            None => state,
        }
    }
}

/// The options after reading `lines` in order, starting from nothing set.
pub open spec fn parse_flag_lines(lines: Seq<Seq<char>>) -> FlagState
    decreases lines.len(),
{
    if lines.len() == 0 {
        (None, None)
    } else {
        apply_flag_line(parse_flag_lines(lines.drop_last()), lines.last())
    }
}

fn is_color_word(cs: &[char]) -> (b: bool)
    ensures
        b == is_color_key(cs@),
{
    chars_eq_str(cs, "Color") || chars_eq_str(cs, "color")
}

fn apply_line(state: FlagState, raw: &[char]) -> (next: FlagState)
    ensures
        next == apply_flag_line(state, raw@),
{
    let t = trim_vec(raw);
    if t.len() == 0 || t[0] == '[' {
        return state;
    }
    if t[0] == '#' {
        let rest = sub_vec(t.as_slice(), 1, t.len());
        assert(rest@ =~= t@.drop_first());
        let name = trim_vec(rest.as_slice());
        if is_color_word(name.as_slice()) {
            return (Some(ColorChoice::Never), state.1);
        }
        return state;
    }
    if is_color_word(t.as_slice()) {
        return (Some(ColorChoice::Always), state.1);
    }
    match find_char(t.as_slice(), '=') {
        Some(eq) => {
            let k = sub_vec(t.as_slice(), 0, eq);
            let v = sub_vec(t.as_slice(), eq + 1, t.len());
            let key = trim_vec(k.as_slice());
            let value = trim_vec(v.as_slice());
            if is_color_word(key.as_slice()) {
                if chars_eq_str(value.as_slice(), "always") {
                    (Some(ColorChoice::Always), state.1)
                } else if chars_eq_str(value.as_slice(), "never") {
                    (Some(ColorChoice::Never), state.1)
                } else if chars_eq_str(value.as_slice(), "auto") {
                    (Some(ColorChoice::Auto), state.1)
                } else {
                    state
                }
            } else if chars_eq_str(key.as_slice(), "Progress") || chars_eq_str(
                key.as_slice(),
                "progress",
            ) {
                if chars_eq_str(value.as_slice(), "plain") {
                    (state.0, Some(ProgressMode::Plain))
                } else if chars_eq_str(value.as_slice(), "nerd") {
                    (state.0, Some(ProgressMode::Nerd))
                } else {
                    state
                }
            } else {
                state
            }
        },
        None => state,
    }
}

/// Reads the color and progress options out of a configuration file body.
pub fn parse_options(body: &str) -> (r: FlagState)
    ensures
        r == parse_flag_lines(str_lines(body@)),
{
    let cs = chars_of(body);
    let lines = split_lines(cs.as_slice());
    let mut state: FlagState = (None, None);
    let mut i: usize = 0;
    while i < lines.len()
        invariant
            i <= lines.len(),
            views(lines@) == str_lines(body@),
            state == parse_flag_lines(views(lines@).take(i as int)),
        decreases lines.len() - i,
    {
        assert(views(lines@).take(i + 1).drop_last() =~= views(lines@).take(i as int));
        state = apply_line(state, lines[i].as_slice());
        i = i + 1;
    }
    assert(views(lines@).take(i as int) =~= views(lines@));
    state
}

impl Config {
    /// The options of the file at `path`, given its body when it could be
    /// read: nothing set when it could not.
    pub fn from_file(path: String, body: Option<&str>) -> (c: Config)
        ensures
            c.path == path,
            match body {
                Some(b) => (c.color, c.progress) == parse_flag_lines(str_lines(b@)),
                None => c.color is None && c.progress is None,
            },
    {
        match body {
            Some(b) => {
                let (color, progress) = parse_options(b);
                Config { path, color, progress }
            },
            None => Config { path, color: None, progress: None },
        }
    }

    /// Where the options were read from.
    pub fn path(&self) -> (p: &String)
        ensures
            p == &self.path,
    {
        &self.path
    }
}

} // verus!
