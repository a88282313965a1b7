//! The live progress display: which view is shown, when a frame is
//! painted, and the terminal text of a frame.

use vstd::prelude::*;
use super::state::{ProgressTracker, event_target, spec_handle};
use super::style::{Style, spec_paint};
use crate::engine::progress::ProgressEvent;
use crate::text::{chars_of, decimal, push_char, push_decimal, push_str};

verus! {

/// Minimum time between two throttled paints, in milliseconds.
pub const PAINT_INTERVAL_MS: u64 = 80;

/// Which picture the display shows.
#[derive(Debug, Clone, Copy, PartialEq, Eq, Structural)]
pub enum ViewMode {
    /// One summary line with the segmented bar.
    Bar,
    /// One line per worker.
    Workers,
}

/// A key press the display reacts to.
#[derive(Debug, Clone, Copy, PartialEq, Eq, Structural)]
pub enum KeyCommand {
    ToggleView,
}

/// The command a key press asks for: `v` toggles the view.
pub fn key_command(key: char, pressed: bool) -> (c: Option<KeyCommand>)
    ensures
        c == (if pressed && key == 'v' { Some(KeyCommand::ToggleView) } else { None::<KeyCommand> }),
{
    if pressed && key == 'v' {
        Some(KeyCommand::ToggleView)
    } else {
        None
    }
}

/// Columns a character takes: one for ASCII, two otherwise.
pub open spec fn spec_unicode_width(c: char) -> nat {
    if (c as u32) < 128 { 1 } else { 2 }
}

pub fn unicode_width(c: char) -> (w: usize)
    ensures
        w == spec_unicode_width(c),
{
    if (c as u32) < 128 {
        1
    } else {
        2
    }
}

pub open spec fn is_ascii_alpha(c: char) -> bool {
    ('a' <= c && c <= 'z') || ('A' <= c && c <= 'Z')
}

/// How many characters an escape sequence takes after its `ESC`: up to and
/// including the first ASCII letter, or all that is left.
pub open spec fn escape_len(s: Seq<char>) -> int
    decreases s.len(),
{
    if s.len() == 0 {
        0
    } else if is_ascii_alpha(s[0]) {
        1
    } else {
        1 + escape_len(s.drop_first())
    }
}

proof fn lemma_escape_len_bounds(s: Seq<char>)
    ensures
        0 <= escape_len(s) <= s.len(),
    decreases s.len(),
{
    if s.len() > 0 && !is_ascii_alpha(s[0]) {
        lemma_escape_len_bounds(s.drop_first());
    }
}

/// `s` cut after `width - shown` more visible characters; escape sequences
/// are copied whole and take no room.
pub open spec fn spec_truncate(s: Seq<char>, width: nat, shown: nat) -> Seq<char>
    decreases s.len(),
{
    if s.len() == 0 {
        Seq::empty()
    } else if s[0] == '\x1b' {
        let k = escape_len(s.drop_first());
        if 0 <= k <= s.len() - 1 {
            s.subrange(0, k + 1) + spec_truncate(s.skip(k + 1), width, shown)
        } else {
            s
        }
    } else if shown >= width {
        Seq::empty()
    } else {
        seq![s[0]] + spec_truncate(s.drop_first(), width, shown + 1)
    }
}

/// Truncation only cuts: what `truncate_line` keeps is always a prefix of
/// the line, so colors and text are never altered, only shortened.
pub proof fn lemma_truncation_keeps_a_prefix(s: Seq<char>, width: nat, shown: nat)
    ensures
        spec_truncate(s, width, shown).len() <= s.len(),
        spec_truncate(s, width, shown) == s.subrange(0, spec_truncate(s, width, shown).len() as int),
    decreases s.len(),
{
    if s.len() == 0 {
    } else if s[0] == '\x1b' {
        let k = escape_len(s.drop_first());
        lemma_escape_len_bounds(s.drop_first());
        lemma_truncation_keeps_a_prefix(s.skip(k + 1), width, shown);
        let rest = spec_truncate(s.skip(k + 1), width, shown);
        assert(s.subrange(0, k + 1) + rest =~= s.subrange(0, k + 1 + rest.len()));
    } else if shown >= width {
    } else {
        lemma_truncation_keeps_a_prefix(s.drop_first(), width, shown + 1);
        let rest = spec_truncate(s.drop_first(), width, shown + 1);
        assert(seq![s[0]] + rest =~= s.subrange(0, 1 + rest.len() as int));
    }
}

/// A line without escape sequences that fits the width is kept whole.
pub proof fn lemma_short_plain_lines_are_kept(s: Seq<char>, width: nat, shown: nat)
    requires
        shown + s.len() <= width,
        forall|i: int| 0 <= i < s.len() ==> s[i] != '\x1b',
    ensures
        spec_truncate(s, width, shown) == s,
    decreases s.len(),
{
    if s.len() > 0 {
        assert(s[0] != '\x1b');
        lemma_short_plain_lines_are_kept(s.drop_first(), width, shown + 1);
        assert(seq![s[0]] + s.drop_first() =~= s);
    }
}

/// The characters of `s` that take a column: all but the escape sequences
/// (each from its `ESC` through the next ASCII letter).
pub open spec fn visible_len(s: Seq<char>) -> nat
    decreases s.len(),
{
    if s.len() == 0 {
        0
    } else if s[0] == '\x1b' {
        let k = escape_len(s.drop_first());
        if 0 <= k <= s.len() - 1 {
            visible_len(s.skip(k + 1))
        } else {
            0
        }
    } else {
        1 + visible_len(s.drop_first())
    }
}

/// Whether the first `n` characters of `s` end between two pieces of it
/// (a visible character or a whole escape sequence), so that no escape
/// sequence starting before `n` is cut.
pub open spec fn at_piece_boundary(s: Seq<char>, n: int) -> bool
    decreases s.len(),
{
    if n == 0 {
        true
    } else if s.len() == 0 {
        false
    } else if s[0] == '\x1b' {
        let k = escape_len(s.drop_first());
        if 0 <= k <= s.len() - 1 && k + 1 <= n {
            at_piece_boundary(s.skip(k + 1), n - (k + 1))
        } else {
            false
        }
    } else {
        at_piece_boundary(s.drop_first(), n - 1)
    }
}

/// An escape sequence that stops before the end of `t` stops at a letter.
proof fn lemma_escape_stops_at_a_letter(t: Seq<char>)
    requires
        escape_len(t) < t.len(),
    ensures
        escape_len(t) >= 1,
        is_ascii_alpha(t[escape_len(t) - 1]),
    decreases t.len(),
{
    if !is_ascii_alpha(t[0]) {
        lemma_escape_stops_at_a_letter(t.drop_first());
        assert(t.drop_first()[escape_len(t.drop_first()) - 1] == t[escape_len(t) - 1]);
    }
}

/// An escape sequence closed by a letter reads the same whatever follows it.
proof fn lemma_closed_escape_ignores_what_follows(t: Seq<char>, x: Seq<char>)
    requires
        1 <= escape_len(t) <= t.len(),
        is_ascii_alpha(t[escape_len(t) - 1]),
    ensures
        escape_len(t.subrange(0, escape_len(t)) + x) == escape_len(t),
    decreases t.len(),
{
    let k = escape_len(t);
    let y = t.subrange(0, k) + x;
    assert(y[0] == t[0]);
    if !is_ascii_alpha(t[0]) {
        let t1 = t.drop_first();
        lemma_escape_len_bounds(t1);
        assert(t1[escape_len(t1) - 1] == t[k - 1]);
        lemma_closed_escape_ignores_what_follows(t1, x);
        assert(y.drop_first() =~= t1.subrange(0, escape_len(t1)) + x);
    }
}

/// Truncation fills the width and no more: the kept text shows
/// `min(width, visible)` columns, it ends between two pieces of the line
/// (an escape sequence is never cut), and a line that fits is kept whole.
pub proof fn lemma_truncation_fills_the_width(s: Seq<char>, width: nat, shown: nat)
    requires
        shown <= width,
    ensures
        visible_len(spec_truncate(s, width, shown)) == if visible_len(s) <= width - shown {
            visible_len(s)
        } else {
            (width - shown) as nat
        },
        at_piece_boundary(s, spec_truncate(s, width, shown).len() as int),
        visible_len(s) + shown <= width ==> spec_truncate(s, width, shown) == s,
    decreases s.len(),
{
    let out = spec_truncate(s, width, shown);
    if s.len() == 0 {
    } else if s[0] == '\x1b' {
        let t = s.drop_first();
        let k = escape_len(t);
        lemma_escape_len_bounds(t);
        let rest = s.skip(k + 1);
        lemma_truncation_fills_the_width(rest, width, shown);
        let x = spec_truncate(rest, width, shown);
        assert(out == s.subrange(0, k + 1) + x);
        if k < t.len() {
            lemma_escape_stops_at_a_letter(t);
            lemma_closed_escape_ignores_what_follows(t, x);
            assert(out.drop_first() =~= t.subrange(0, k) + x);
            assert(out[0] == '\x1b');
            assert(out.skip(k + 1) =~= x);
        } else {
            assert(rest.len() == 0);
            assert(x.len() == 0);
            assert(out =~= s);
        }
        if visible_len(s) + shown <= width {
            assert(s.subrange(0, k + 1) + rest =~= s);
        }
    } else if shown >= width {
    } else {
        let rest = s.drop_first();
        lemma_truncation_fills_the_width(rest, width, shown + 1);
        let x = spec_truncate(rest, width, shown + 1);
        assert(out == seq![s[0]] + x);
        assert(out[0] == s[0]);
        assert(out.drop_first() =~= x);
        if visible_len(s) + shown <= width {
            assert(seq![s[0]] + rest =~= s);
        }
    }
}

/// The end of the escape sequence whose body starts at `start` (just after
/// its `ESC`).
fn escape_end(cs: &[char], start: usize) -> (end: usize)
    requires
        start <= cs@.len(),
    ensures
        start <= end <= cs@.len(),
        end - start == escape_len(cs@.skip(start as int)),
{
    let mut j: usize = start;
    while j < cs.len()
        invariant
            start <= j <= cs@.len(),
            escape_len(cs@.skip(start as int)) == (j - start) + escape_len(cs@.skip(j as int)),
        decreases cs.len() - j,
    {
        let d = cs[j];
        assert(cs@.skip(j as int)[0] == d);
        assert(cs@.skip(j as int).drop_first() =~= cs@.skip(j + 1));
        if ('a' <= d && d <= 'z') || ('A' <= d && d <= 'Z') {
            return j + 1;
        }
        j = j + 1;
    }
    assert(cs@.skip(j as int).len() == 0);
    j
}

/// The part of `line` that fits in `width` terminal columns, counting one
/// column per character and keeping every ANSI escape sequence intact.
pub fn truncate_line(line: &str, width: usize) -> (out: String)
    ensures
        out@ == spec_truncate(line@, width as nat, 0),
{
    let cs = chars_of(line);
    let mut out = String::new();
    let mut i: usize = 0;
    let mut shown: usize = 0;
    assert(cs@.skip(0) =~= cs@);
    while i < cs.len()
        invariant
            i <= cs@.len(),
            cs@ == line@,
            shown <= i,
            spec_truncate(line@, width as nat, 0) == out@ + spec_truncate(
                cs@.skip(i as int),
                width as nat,
                shown as nat,
            ),
        decreases cs.len() - i,
    {
        let c = cs[i];
        let ghost rest = cs@.skip(i as int);
        assert(rest[0] == c);
        assert(rest.drop_first() =~= cs@.skip(i + 1));
        if c == '\x1b' {
            let end = escape_end(cs.as_slice(), i + 1);
            proof {
                lemma_escape_len_bounds(rest.drop_first());
                assert(rest.subrange(0, (end - i) as int) =~= cs@.subrange(i as int, end as int));
                assert(rest.skip((end - i) as int) =~= cs@.skip(end as int));
            }
            let piece = crate::text::sub_vec(cs.as_slice(), i, end);
            crate::text::push_chars(&mut out, piece.as_slice());
            i = end;
        } else {
            if shown >= width {
                return out;
            }
            push_char(&mut out, c);
            shown = shown + 1;
            i = i + 1;
        }
    }
    out
}

/// The terminal width to draw for: the reported column count, or 80 when
/// the terminal does not say, and never less than 20.
pub fn terminal_width(columns: Option<u16>) -> (w: usize)
    ensures
        w == (match columns {
            Some(c) => if c >= 20 { c as int } else { 20 },
            None => 80,
        }),
{
    match columns {
        Some(c) => if c >= 20 { c as usize } else { 20 },
        None => 80,
    }
}

/// The text that redraws a frame of `lines` over the `prev_lines` lines of
/// the previous frame.
pub open spec fn spec_frame_text(lines: Seq<Seq<char>>, prev_lines: nat, width: nat) -> Seq<char> {
    let up = if prev_lines > 0 { "\x1b["@ + decimal(prev_lines) + "A"@ } else { Seq::empty() };
    let body = spec_frame_lines(lines, width, lines.len() as int);
    let tail = if lines.len() < prev_lines {
        spec_blank_lines((prev_lines - lines.len()) as nat) + "\x1b["@ + decimal((prev_lines - lines.len()) as nat)
            + "A"@
    } else {
        Seq::empty()
    };
    up + body + tail
}

/// The first `k` lines, each cleared, truncated to the width and ended.
pub open spec fn spec_frame_lines(lines: Seq<Seq<char>>, width: nat, k: int) -> Seq<char>
    decreases k,
{
    if k <= 0 {
        Seq::empty()
    } else {
        spec_frame_lines(lines, width, k - 1) + "\r\x1b[2K"@ + spec_truncate(lines[k - 1], width, 0) + "\n"@
    }
}

/// `n` cleared empty lines.
pub open spec fn spec_blank_lines(n: nat) -> Seq<char>
    decreases n,
{
    if n == 0 {
        Seq::empty()
    } else {
        spec_blank_lines((n - 1) as nat) + "\r\x1b[2K\n"@
    }
}

/// The live display: the tracker it draws, the view shown and what it needs
/// to redraw in place.
pub struct Renderer {
    style: Style,
    tracker: ProgressTracker,
    view: ViewMode,
    workers: usize,
    interactive: bool,
    terminal_width: usize,
    last_paint_ms: Option<u64>,
    prev_lines: usize,
    hint_consumed: bool,
}

impl Renderer {
    pub closed spec fn wf(&self) -> bool {
        &&& self.tracker.wf()
        &&& self.tracker.workers() == self.workers
    }

    pub closed spec fn spec_view(&self) -> ViewMode {
        self.view
    }

    pub closed spec fn spec_hint_consumed(&self) -> bool {
        self.hint_consumed
    }

    pub closed spec fn spec_interactive(&self) -> bool {
        self.interactive
    }

    pub closed spec fn spec_workers(&self) -> usize {
        self.workers
    }

    pub closed spec fn spec_prev_lines(&self) -> usize {
        self.prev_lines
    }

    pub closed spec fn spec_width(&self) -> usize {
        self.terminal_width
    }

    pub closed spec fn spec_last_paint(&self) -> Option<u64> {
        self.last_paint_ms
    }

    pub closed spec fn spec_style(&self) -> Style {
        self.style
    }

    pub closed spec fn spec_tracker(&self) -> ProgressTracker {
        self.tracker
    }

    /// A display for `workers` workers, in the bar view, drawing to a
    /// terminal (`interactive`) of `terminal_width` columns.
    pub fn new(style: Style, workers: usize, interactive: bool, terminal_width: usize) -> (r: Renderer)
        ensures
            r.wf(),
            r.spec_view() == ViewMode::Bar,
            !r.spec_hint_consumed(),
            r.spec_interactive() == interactive,
            r.spec_workers() == workers,
            r.spec_width() == terminal_width,
            r.spec_prev_lines() == 0,
            r.spec_last_paint() is None,
            r.spec_style() == style,
    {
        Renderer {
            style,
            tracker: ProgressTracker::new(workers),
            view: ViewMode::Bar,
            workers,
            interactive,
            terminal_width,
            last_paint_ms: None,
            prev_lines: 0,
            hint_consumed: false,
        }
    }

    pub fn view(&self) -> (v: ViewMode)
        ensures
            v == self.spec_view(),
    {
        self.view
    }

    /// The tracker being drawn.
    pub fn tracker(&self) -> (t: &ProgressTracker)
        ensures
            *t == self.spec_tracker(),
    {
        &self.tracker
    }

    /// Number of worker lines in the workers view.
    pub fn tracker_workers(&self) -> (n: usize)
        ensures
            n == self.spec_workers(),
    {
        self.workers
    }

    pub fn terminal_width(&self) -> (w: usize)
        ensures
            w == self.spec_width(),
    {
        self.terminal_width
    }

    pub fn style(&self) -> (s: Style)
        ensures
            s == self.spec_style(),
    {
        self.style
    }

    /// Records a progress event at time `now_ms` and says whether to paint:
    /// paints are at least 80 ms apart, and only on a terminal.
    pub fn handle_progress(&mut self, event: ProgressEvent, now_ms: u64) -> (paint: bool)
        requires
            old(self).wf(),
            event_target(event) matches Some((worker, index)) ==> worker < old(self).spec_workers()
                && index < usize::MAX,
        ensures
            final(self).wf(),
            final(self).spec_tracker()@ == spec_handle(old(self).spec_tracker()@, event),
            final(self).spec_view() == old(self).spec_view(),
            final(self).spec_hint_consumed() == old(self).spec_hint_consumed(),
            final(self).spec_prev_lines() == old(self).spec_prev_lines(),
            final(self).spec_interactive() == old(self).spec_interactive(),
            final(self).spec_workers() == old(self).spec_workers(),
            final(self).spec_width() == old(self).spec_width(),
            ({
                let throttled = old(self).spec_last_paint() matches Some(last) && now_ms >= last && now_ms
                    - last < PAINT_INTERVAL_MS;
                &&& throttled ==> !paint && final(self).spec_last_paint() == old(self).spec_last_paint()
                &&& !throttled ==> paint == old(self).spec_interactive() && final(self).spec_last_paint()
                    == Some(now_ms)
            }),
    {
        self.tracker.handle(event);
        let throttled = match self.last_paint_ms {
            Some(last) => now_ms >= last && now_ms - last < PAINT_INTERVAL_MS,
            None => false,
        };
        if throttled {
            return false;
        }
        self.last_paint_ms = Some(now_ms);
        self.interactive
    }

    /// Switches between the bar and the workers view (the key hint is then
    /// no longer shown) and says whether to paint.
    pub fn handle_key(&mut self, command: KeyCommand) -> (paint: bool)
        ensures
            final(self).spec_view() == (if old(self).spec_view() == ViewMode::Bar {
                ViewMode::Workers
            } else {
                ViewMode::Bar
            }),
            final(self).spec_hint_consumed(),
            paint == old(self).spec_interactive(),
            final(self).spec_tracker() == old(self).spec_tracker(),
            final(self).spec_interactive() == old(self).spec_interactive(),
            final(self).spec_workers() == old(self).spec_workers(),
            final(self).spec_width() == old(self).spec_width(),
            final(self).spec_prev_lines() == old(self).spec_prev_lines(),
            final(self).spec_last_paint() == old(self).spec_last_paint(),
            old(self).wf() ==> final(self).wf(),
    {
        match command {
            KeyCommand::ToggleView => {
                self.view = match self.view {
                    ViewMode::Bar => ViewMode::Workers,
                    ViewMode::Workers => ViewMode::Bar,
                };
                self.hint_consumed = true;
                self.interactive
            },
        }
    }

    /// Ends the display on the bar view and says whether to paint it.
    pub fn finish(&mut self) -> (paint: bool)
        ensures
            final(self).spec_view() == ViewMode::Bar,
            paint == old(self).spec_interactive(),
            final(self).spec_hint_consumed() == old(self).spec_hint_consumed(),
            final(self).spec_tracker() == old(self).spec_tracker(),
            final(self).spec_interactive() == old(self).spec_interactive(),
            final(self).spec_workers() == old(self).spec_workers(),
            final(self).spec_width() == old(self).spec_width(),
            final(self).spec_prev_lines() == old(self).spec_prev_lines(),
            final(self).spec_last_paint() == old(self).spec_last_paint(),
            old(self).wf() ==> final(self).wf(),
    {
        self.view = ViewMode::Bar;
        self.interactive
    }

    /// The lines of the current frame: the summary line (with a dim key
    /// hint until the view was first toggled) in the bar view, the worker
    /// lines in the workers view.
    pub fn compose_lines(&self, summary: String, worker_lines: Vec<String>) -> (lines: Vec<String>)
        ensures
            self.spec_view() == ViewMode::Workers ==> lines@ == worker_lines@,
            self.spec_view() == ViewMode::Bar && self.spec_hint_consumed() ==> lines@ == seq![summary],
            self.spec_view() == ViewMode::Bar && !self.spec_hint_consumed() ==> lines@.len() == 2 && lines@[0]
                == summary && lines@[1]@ == spec_paint(self.spec_style().color_on, "38;5;240"@, "v toggle view"@),
    {
        match self.view {
            ViewMode::Workers => worker_lines,
            ViewMode::Bar => {
                let mut lines: Vec<String> = Vec::new();
                lines.push(summary);
                if !self.hint_consumed {
                    lines.push(self.style.paint("38;5;240", "v toggle view"));
                }
                lines
            },
        }
    }

    /// The text that redraws the display with `lines`, truncated to the
    /// terminal width, over the previous frame.
    pub fn frame_text(&self, lines: &Vec<String>) -> (out: String)
        ensures
            out@ == spec_frame_text(
                lines@.map_values(|l: String| l@),
                self.spec_prev_lines() as nat,
                self.spec_width() as nat,
            ),
    {
        let ghost ls = lines@.map_values(|l: String| l@);
        let mut out = String::new();
        if self.prev_lines > 0 {
            push_str(&mut out, "\x1b[");
            push_decimal(&mut out, self.prev_lines as u64);
            push_str(&mut out, "A");
        }
        let ghost up = out@;
        let mut i: usize = 0;
        while i < lines.len()
            invariant
                i <= lines@.len(),
                ls == lines@.map_values(|l: String| l@),
                out@ == up + spec_frame_lines(ls, self.terminal_width as nat, i as int),
            decreases lines.len() - i,
        {
            push_str(&mut out, "\r\x1b[2K");
            let cut = truncate_line(lines[i].as_str(), self.terminal_width);
            push_str(&mut out, cut.as_str());
            push_str(&mut out, "\n");
            i = i + 1;
            assert(ls[i - 1] == lines@[i - 1]@);
            assert(out@ =~= up + spec_frame_lines(ls, self.terminal_width as nat, i as int));
        }
        if lines.len() < self.prev_lines {
            let ghost before = out@;
            let mut k: usize = lines.len();
            while k < self.prev_lines
                invariant
                    lines@.len() <= k <= self.prev_lines,
                    out@ == before + spec_blank_lines((k - lines@.len()) as nat),
                decreases self.prev_lines - k,
            {
                push_str(&mut out, "\r\x1b[2K\n");
                k = k + 1;
                assert(out@ =~= before + spec_blank_lines((k - lines@.len()) as nat));
            }
            push_str(&mut out, "\x1b[");
            push_decimal(&mut out, (self.prev_lines - lines.len()) as u64);
            push_str(&mut out, "A");
        }
        assert(out@ =~= spec_frame_text(ls, self.prev_lines as nat, self.terminal_width as nat));
        out
    }

    /// Remembers that a frame of `n` lines was drawn.
    pub fn record_frame(&mut self, n: usize)
        ensures
            final(self).spec_prev_lines() == n,
            final(self).spec_view() == old(self).spec_view(),
            final(self).spec_hint_consumed() == old(self).spec_hint_consumed(),
            final(self).spec_tracker() == old(self).spec_tracker(),
            final(self).spec_interactive() == old(self).spec_interactive(),
            final(self).spec_workers() == old(self).spec_workers(),
            final(self).spec_width() == old(self).spec_width(),
            final(self).spec_last_paint() == old(self).spec_last_paint(),
            old(self).wf() ==> final(self).wf(),
    {
        self.prev_lines = n;
    }
}

/// Toggling the view twice shows the view that was shown before.
pub proof fn lemma_toggle_twice_restores(v: ViewMode)
    ensures
        toggled(toggled(v)) == v,
{
}

pub open spec fn toggled(v: ViewMode) -> ViewMode {
    if v == ViewMode::Bar { ViewMode::Workers } else { ViewMode::Bar }
}

} // verus!
