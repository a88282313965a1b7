//! The one-line progress display used without a live terminal UI: what it
//! remembers of the chunks, when it redraws, and the whole-number parts of
//! its line (the caller prints the ratio, speed and times).

use vstd::prelude::*;
use crate::engine::progress::ProgressEvent;
use super::state::{count_flags, sum_u64};
use crate::text::{decimal, push_char, push_decimal, push_str};

verus! {

/// Cells of the `#`/`-` bar.
pub const BAR_WIDTH: usize = 40;

/// Minimum time between two redraws, in milliseconds.
pub const THROTTLE_MS: u64 = 80;

/// What the display knows, as values.
pub struct ProgressViewModel {
    pub started: Seq<bool>,
    pub done: Seq<bool>,
    pub written: Seq<u64>,
    pub total: Option<u64>,
    pub started_at_ms: Option<u64>,
    pub last_render_ms: Option<u64>,
    pub prev_line_len: nat,
    pub rendered_any: bool,
    pub tty: bool,
}

pub struct ProgressView {
    started: Vec<bool>,
    done: Vec<bool>,
    written: Vec<u64>,
    total: Option<u64>,
    started_at_ms: Option<u64>,
    last_render_ms: Option<u64>,
    prev_line_len: usize,
    rendered_any: bool,
    tty: bool,
}

impl View for ProgressView {
    type V = ProgressViewModel;

    closed spec fn view(&self) -> ProgressViewModel {
        ProgressViewModel {
            started: self.started@,
            done: self.done@,
            written: self.written@,
            total: self.total,
            started_at_ms: self.started_at_ms,
            last_render_ms: self.last_render_ms,
            prev_line_len: self.prev_line_len as nat,
            rendered_any: self.rendered_any,
            tty: self.tty,
        }
    }
}

/// `s` extended with `fill` up to length `len` (unchanged when already as long).
pub open spec fn padded<T>(s: Seq<T>, len: int, fill: T) -> Seq<T> {
    if s.len() >= len {
        s
    } else {
        s + Seq::new((len - s.len()) as nat, |_i: int| fill)
    }
}

/// The chunk tables after an event about chunk `index` grew them.
pub open spec fn grown_for(v: ProgressViewModel, index: int) -> ProgressViewModel {
    ProgressViewModel {
        started: padded(v.started, index + 1, false),
        done: padded(v.done, index + 1, false),
        written: padded(v.written, index + 1, 0u64),
        ..v
    }
}

/// The tables after one event (times and drawing aside).
pub open spec fn spec_record(v: ProgressViewModel, event: ProgressEvent) -> ProgressViewModel {
    match event {
        ProgressEvent::Start { total, .. } => ProgressViewModel { total: Some(total), ..v },
        ProgressEvent::ChunkStarted { index, .. } => {
            let g = grown_for(v, index as int);
            ProgressViewModel { started: g.started.update(index as int, true), ..g }
        },
        ProgressEvent::ChunkAdvanced { index, written, .. } => {
            let g = grown_for(v, index as int);
            ProgressViewModel { written: g.written.update(index as int, written), ..g }
        },
        ProgressEvent::ChunkComplete { index, .. } => {
            let g = grown_for(v, index as int);
            ProgressViewModel { done: g.done.update(index as int, true), ..g }
        },
        ProgressEvent::Finite { .. } => v,
    }
}

/// Chunks started and not yet done.
pub open spec fn count_in_flight(started: Seq<bool>, done: Seq<bool>) -> nat
    decreases started.len(),
{
    if started.len() == 0 {
        0
    } else {
        let last = started.len() - 1;
        count_in_flight(started.drop_last(), done.take(last))
            + (if started[last] && !(last < done.len() && done[last]) { 1nat } else { 0nat })
    }
}

fn grow(v: &mut Vec<bool>, len: usize, fill: bool)
    ensures
        final(v)@ == padded(old(v)@, len as int, fill),
{
    if v.len() >= len {
        return;
    }
    let ghost start = v@;
    while v.len() < len
        invariant
            start.len() <= v@.len() <= len,
            v@ == start + Seq::new((v@.len() - start.len()) as nat, |_i: int| fill),
        decreases len - v.len(),
    {
        v.push(fill);
        assert(v@ =~= start + Seq::new((v@.len() - start.len()) as nat, |_i: int| fill));
    }
}

fn grow_u64(v: &mut Vec<u64>, len: usize)
    ensures
        final(v)@ == padded(old(v)@, len as int, 0u64),
{
    if v.len() >= len {
        return;
    }
    let ghost start = v@;
    while v.len() < len
        invariant
            start.len() <= v@.len() <= len,
            v@ == start + Seq::new((v@.len() - start.len()) as nat, |_i: int| 0u64),
        decreases len - v.len(),
    {
        v.push(0);
        assert(v@ =~= start + Seq::new((v@.len() - start.len()) as nat, |_i: int| 0u64));
    }
}

impl ProgressView {
    pub closed spec fn wf(&self) -> bool {
        &&& self.started@.len() == self.written@.len()
        &&& self.done@.len() == self.written@.len()
    }

    /// An empty display that draws only when `tty` is set.
    pub fn with_tty(tty: bool) -> (v: ProgressView)
        ensures
            v.wf(),
            v@ == (ProgressViewModel {
                started: Seq::empty(),
                done: Seq::empty(),
                written: Seq::empty(),
                total: None,
                started_at_ms: None,
                last_render_ms: None,
                prev_line_len: 0,
                rendered_any: false,
                tty,
            }),
    {
        ProgressView {
            started: Vec::new(),
            done: Vec::new(),
            written: Vec::new(),
            total: None,
            started_at_ms: None,
            last_render_ms: None,
            prev_line_len: 0,
            rendered_any: false,
            tty,
        }
    }

    fn ensure(&mut self, index: usize)
        requires
            old(self).wf(),
            index < usize::MAX,
        ensures
            final(self).wf(),
            final(self)@ == grown_for(old(self)@, index as int),
    {
        if self.written.len() <= index {
            grow_u64(&mut self.written, index + 1);
            grow(&mut self.started, index + 1, false);
            grow(&mut self.done, index + 1, false);
        }
    }

    /// Records an event that arrived at `now_ms` and says whether to redraw:
    /// redraws are at least 80 ms apart and only happen on a terminal. The
    /// first event starts the clock.
    pub fn handle(&mut self, event: ProgressEvent, now_ms: u64) -> (redraw: bool)
        requires
            old(self).wf(),
            match event {
                ProgressEvent::ChunkStarted { index, .. } => index < usize::MAX,
                ProgressEvent::ChunkAdvanced { index, .. } => index < usize::MAX,
                ProgressEvent::ChunkComplete { index, .. } => index < usize::MAX,
                _ => true,
            },
        ensures
            final(self).wf(),
            ({
                let rec = spec_record(old(self)@, event);
                let started_at = match old(self)@.started_at_ms {
                    Some(t) => Some(t),
                    None => Some(now_ms),
                };
                let throttled = old(self)@.last_render_ms matches Some(last) && now_ms >= last && now_ms
                    - last < THROTTLE_MS;
                &&& final(self)@.started == rec.started
                &&& final(self)@.done == rec.done
                &&& final(self)@.written == rec.written
                &&& final(self)@.total == rec.total
                &&& final(self)@.started_at_ms == started_at
                &&& final(self)@.prev_line_len == old(self)@.prev_line_len
                &&& final(self)@.tty == old(self)@.tty
                &&& throttled ==> !redraw && final(self)@.last_render_ms == old(self)@.last_render_ms
                    && final(self)@.rendered_any == old(self)@.rendered_any
                &&& !throttled ==> redraw == old(self)@.tty && final(self)@.last_render_ms == Some(now_ms)
                    && final(self)@.rendered_any == (old(self)@.rendered_any || old(self)@.tty)
            }),
    {
        if self.started_at_ms.is_none() {
            self.started_at_ms = Some(now_ms);
        }
        match event {
            ProgressEvent::Start { total, .. } => {
                self.total = Some(total);
            },
            ProgressEvent::ChunkStarted { index, .. } => {
                self.ensure(index);
                self.started.set(index, true);
            },
            ProgressEvent::ChunkAdvanced { index, written, .. } => {
                self.ensure(index);
                self.written.set(index, written);
            },
            ProgressEvent::ChunkComplete { index, .. } => {
                self.ensure(index);
                self.done.set(index, true);
            },
            ProgressEvent::Finite { .. } => {},
        }
        let throttled = match self.last_render_ms {
            Some(last) => now_ms >= last && now_ms - last < THROTTLE_MS,
            None => false,
        };
        if throttled {
            return false;
        }
        self.last_render_ms = Some(now_ms);
        if self.tty {
            self.rendered_any = true;
        }
        self.tty
    }

    /// Whether the display must end its line when the download ends: only
    /// when it drew on a terminal.
    pub fn finish(&self) -> (newline: bool)
        ensures
            newline == (self@.rendered_any && self@.tty),
    {
        self.rendered_any && self.tty
    }

    /// Whether `done_bytes` can count the bytes written in a `u64`.
    pub fn done_bytes_fit(&self) -> (b: bool)
        ensures
            b == (sum_u64(self@.written) <= u64::MAX),
    {
        super::state::sum_fits(&self.written)
    }

    /// Bytes written, summed over chunks.
    pub fn done_bytes(&self) -> (n: u64)
        requires
            sum_u64(self@.written) <= u64::MAX,
        ensures
            n == sum_u64(self@.written),
    {
        super::state::sum_vec(&self.written)
    }

    /// Chunks reported done.
    pub fn finished_count(&self) -> (n: usize)
        ensures
            n == count_flags(self@.done),
    {
        let mut n: usize = 0;
        let mut i: usize = 0;
        while i < self.done.len()
            invariant
                i <= self.done.len(),
                n == count_flags(self.done@.take(i as int)),
                n <= i,
            decreases self.done.len() - i,
        {
            assert(self.done@.take(i + 1).drop_last() =~= self.done@.take(i as int));
            if self.done[i] {
                n = n + 1;
            }
            i = i + 1;
        }
        assert(self.done@.take(i as int) =~= self.done@);
        n
    }

    /// Chunks started and not yet done.
    pub fn active_count(&self) -> (n: usize)
        requires
            self.wf(),
        ensures
            n == count_in_flight(self@.started, self@.done),
    {
        let mut n: usize = 0;
        let mut i: usize = 0;
        while i < self.started.len()
            invariant
                i <= self.started.len(),
                self.done@.len() == self.started@.len(),
                n == count_in_flight(self.started@.take(i as int), self.done@.take(i as int)),
                n <= i,
            decreases self.started.len() - i,
        {
            assert(self.started@.take(i + 1).drop_last() =~= self.started@.take(i as int));
            assert(self.done@.take(i + 1).take(i as int) =~= self.done@.take(i as int));
            if self.started[i] && !self.done[i] {
                n = n + 1;
            }
            i = i + 1;
        }
        assert(self.started@.take(i as int) =~= self.started@);
        assert(self.done@.take(i as int) =~= self.done@);
        n
    }

    /// Remembers that a line of `len` characters was drawn and returns how
    /// many spaces must follow it to blank the rest of the previous line.
    pub fn record_render(&mut self, len: usize) -> (padding: usize)
        ensures
            padding == (if old(self)@.prev_line_len > len { old(self)@.prev_line_len - len } else { 0 }),
            final(self)@ == (ProgressViewModel { prev_line_len: len as nat, ..old(self)@ }),
            old(self).wf() ==> final(self).wf(),
    {
        let padding = if self.prev_line_len > len { self.prev_line_len - len } else { 0 };
        self.prev_line_len = len;
        padding
    }
}

/// `n` in decimal, right-aligned with spaces to at least `width` characters.
pub open spec fn right_aligned(n: nat, width: nat) -> Seq<char> {
    let d = decimal(n);
    if d.len() >= width {
        d
    } else {
        Seq::new((width - d.len()) as nat, |_i: int| ' ') + d
    }
}

fn push_right_aligned(s: &mut String, n: u64, width: usize)
    ensures
        final(s)@ == old(s)@ + right_aligned(n as nat, width as nat),
{
    let digits = crate::text::decimal_string(n);
    let cs = crate::text::chars_of(digits.as_str());
    let ghost start = s@;
    let mut k: usize = cs.len();
    while k < width
        invariant
            cs@ == decimal(n as nat),
            cs@.len() <= k <= width || (k == cs@.len() && cs@.len() >= width),
            s@ == start + Seq::new((k - cs@.len()) as nat, |_i: int| ' '),
        decreases width - k,
    {
        push_char(s, ' ');
        k = k + 1;
        assert(s@ =~= start + Seq::new((k - cs@.len()) as nat, |_i: int| ' '));
    }
    push_str(s, digits.as_str());
    assert(s@ =~= start + right_aligned(n as nat, width as nat));
}

impl ProgressView {
    /// The chunk tally of the line: `chunks <done:>3> done <active:>2> active`.
    pub fn chunk_tally(&self) -> (text: String)
        requires
            self.wf(),
        ensures
            text@ == "chunks "@ + right_aligned(count_flags(self@.done), 3) + " done "@ + right_aligned(
                count_in_flight(self@.started, self@.done),
                2,
            ) + " active"@,
    {
        let mut text = String::new();
        push_str(&mut text, "chunks ");
        push_right_aligned(&mut text, self.finished_count() as u64, 3);
        push_str(&mut text, " done ");
        push_right_aligned(&mut text, self.active_count() as u64, 2);
        push_str(&mut text, " active");
        text
    }
}

/// The 40-cell bar with its first `filled` cells `#` and the rest `-`.
pub open spec fn spec_hash_bar(filled: int) -> Seq<char> {
    Seq::new(40, |i: int| if i < filled { '#' } else { '-' })
}

pub fn hash_bar(filled: usize) -> (bar: String)
    ensures
        bar@ == spec_hash_bar(filled as int),
{
    let mut bar = String::new();
    let mut i: usize = 0;
    while i < BAR_WIDTH
        invariant
            i <= 40,
            bar@ == Seq::new(i as nat, |k: int| if k < filled { '#' } else { '-' }),
        decreases 40 - i,
    {
        crate::text::push_char(&mut bar, if i < filled { '#' } else { '-' });
        i = i + 1;
        assert(bar@ =~= Seq::new(i as nat, |k: int| if k < filled { '#' } else { '-' }));
    }
    bar
}

} // verus!
