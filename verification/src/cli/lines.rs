//! The whole-number parts of the progress lines: how wide the bar is, which
//! worker colors each cell, the chunk counters and the per-worker labels.
//! Ratios, speeds and times are printed by the caller.

use vstd::prelude::*;
use super::state::{ProgressTracker, TrackerView, count_active, count_flags, spec_chunk_for_offset, spec_planned_chunk_count};
use super::style::{Style, spec_paint, spec_worker_ansi};
use crate::text::{decimal, push_char, push_decimal, push_str, string_from_str};

verus! {

/// Most cells the summary bar takes.
pub const MAX_BAR_CELLS: usize = 80;

/// Columns the text around the summary bar takes.
pub const BAR_TEXT_PADDING: usize = 62;

/// Color of cells and labels that belong to no worker.
pub const DIM_ANSI: &'static str = "38;5;240";

/// Cells of the summary bar for a terminal `width` columns wide: what the
/// surrounding text leaves, between 14 and 80.
pub fn bar_cells(width: usize) -> (cells: usize)
    ensures
        cells == (if width <= 62 + 14 {
            14
        } else if width - 62 >= 80 {
            80
        } else {
            (width - 62) as usize
        }),
{
    let room = if width > BAR_TEXT_PADDING { width - BAR_TEXT_PADDING } else { 0 };
    if room < 14 {
        14
    } else if room > MAX_BAR_CELLS {
        MAX_BAR_CELLS
    } else {
        room
    }
}

/// The chunk a bar cell stands for: the one holding the cell's first byte,
/// or the cell's own number before chunks are known.
pub open spec fn cell_chunk(v: TrackerView, total: u64, cell: int, cells: int) -> usize {
    let offset = (if total * cell > u64::MAX { u64::MAX as int } else { total * cell }) / cells;
    match spec_chunk_for_offset(v, offset as u64) {
        Some(c) => c,
        None => cell as usize,
    }
}

/// The color of a bar cell: the color of the worker that last reported on
/// its chunk, or dim.
pub open spec fn cell_ansi(v: TrackerView, total: u64, cell: int, cells: int) -> Seq<char> {
    let chunk = cell_chunk(v, total, cell, cells);
    if v.chunk_worker.contains_key(chunk) {
        spec_worker_ansi(v.chunk_worker[chunk])
    } else {
        DIM_ANSI@
    }
}

/// The first `k` cells of the bar: `filled` cells drawn full, the rest empty.
pub open spec fn spec_bar(v: TrackerView, style: Style, total: u64, cells: int, filled: int, k: int) -> Seq<char>
    decreases k,
{
    if k <= 0 {
        Seq::empty()
    } else {
        let cell = k - 1;
        let glyph = if cell < filled {
            if style.eyecandy { '\u{25b0}' } else { '#' }
        } else {
            if style.eyecandy { '\u{25b1}' } else { '-' }
        };
        spec_bar(v, style, total, cells, filled, k - 1) + spec_paint(
            style.color_on,
            cell_ansi(v, total, cell, cells),
            seq![glyph],
        )
    }
}

/// The segmented bar of the summary line: `cells` cells, the first `filled`
/// full, each colored by the worker of the chunk under it.
pub fn summary_bar(tracker: &ProgressTracker, style: &Style, cells: usize, filled: usize) -> (bar: String)
    requires
        cells > 0,
    ensures
        bar@ == spec_bar(
            tracker@,
            *style,
            match tracker@.total {
                Some(t) => t,
                None => 0,
            },
            cells as int,
            filled as int,
            cells as int,
        ),
{
    let total: u64 = match tracker.total() {
        Some(t) => t,
        None => 0,
    };
    let mut bar = String::new();
    let mut cell: usize = 0;
    while cell < cells
        invariant
            cell <= cells,
            cells > 0,
            total == (match tracker@.total {
                Some(t) => t,
                None => 0u64,
            }),
            bar@ == spec_bar(tracker@, *style, total, cells as int, filled as int, cell as int),
        decreases cells - cell,
    {
        let glyph = if cell < filled { style.bar_filled() } else { style.bar_empty() };
        let scaled: u64 = match total.checked_mul(cell as u64) {
            Some(v) => v,
            None => u64::MAX,
        };
        let offset: u64 = scaled / (cells as u64);
        let chunk = match tracker.chunk_for_offset(offset) {
            Some(c) => c,
            None => cell,
        };
        let ansi = match tracker.chunk_worker(chunk) {
            Some(worker) => style.worker_ansi(worker),
            None => string_from_str(DIM_ANSI),
        };
        let mut text = String::new();
        push_char(&mut text, glyph);
        let painted = style.paint(ansi.as_str(), text.as_str());
        push_str(&mut bar, painted.as_str());
        cell = cell + 1;
        proof {
            assert(text@ =~= seq![glyph]);
            assert(chunk == cell_chunk(tracker@, total, cell - 1, cells as int));
        }
    }
    bar
}

/// The chunk count shown after `chunks done/`: the planned number once the
/// start is known, else the larger of the chunks heard of and finished.
pub fn chunk_total(tracker: &ProgressTracker) -> (n: usize)
    ensures
        n == (if spec_planned_chunk_count(tracker@) > 0 {
            spec_planned_chunk_count(tracker@) as int
        } else {
            let heard = if tracker@.chunk_worker.len() >= tracker@.written.len() {
                tracker@.chunk_worker.len() as int
            } else {
                tracker@.written.len() as int
            };
            if heard >= count_flags(tracker@.done) {
                heard
            } else {
                count_flags(tracker@.done) as int
            }
        }),
{
    let planned = tracker.planned_chunk_count();
    if planned > 0 {
        planned
    } else {
        let heard = tracker.chunk_count();
        let finished = tracker.finished_chunks();
        if heard >= finished {
            heard
        } else {
            finished
        }
    }
}

/// The chunk counters of the summary line: `chunks <finished>/<total>` and,
/// after a space, `<n> active`, each in its color.
pub fn chunk_counters(tracker: &ProgressTracker, style: &Style) -> (text: String)
    ensures
        text@ == spec_paint(
            style.color_on,
            "38;5;117"@,
            "chunks "@ + decimal(count_flags(tracker@.done)) + "/"@ + decimal(
                chunk_total_spec(tracker@) as nat,
            ),
        ) + " "@ + spec_paint(
            style.color_on,
            "38;5;180"@,
            decimal(count_active(tracker@.worker_active_chunk)) + " active"@,
        ),
{
    let finished = tracker.finished_chunks();
    let total = chunk_total(tracker);
    let mut counts = string_from_str("chunks ");
    push_decimal(&mut counts, finished as u64);
    push_str(&mut counts, "/");
    push_decimal(&mut counts, total as u64);
    let mut active = String::new();
    push_decimal(&mut active, tracker.active_worker_count() as u64);
    push_str(&mut active, " active");
    let mut text = style.paint("38;5;117", counts.as_str());
    push_str(&mut text, " ");
    let painted = style.paint("38;5;180", active.as_str());
    push_str(&mut text, painted.as_str());
    text
}

/// `chunk_total` as a value.
pub open spec fn chunk_total_spec(v: TrackerView) -> int {
    if spec_planned_chunk_count(v) > 0 {
        spec_planned_chunk_count(v) as int
    } else {
        let heard = if v.chunk_worker.len() >= v.written.len() {
            v.chunk_worker.len() as int
        } else {
            v.written.len() as int
        };
        if heard >= count_flags(v.done) {
            heard
        } else {
            count_flags(v.done) as int
        }
    }
}

/// Bytes each worker is expected to fetch: the size (at least one) split
/// evenly over the workers (at least one), and at least one byte.
pub fn worker_share(total: Option<u64>, workers: usize) -> (share: u64)
    ensures
        share == ({
            let t: int = match total {
                Some(t) => if t >= 1 { t as int } else { 1 },
                None => 1,
            };
            let w: int = if workers >= 1 { workers as int } else { 1 };
            if t / w >= 1 { t / w } else { 1 }
        }),
{
    let t: u64 = match total {
        Some(t) => if t >= 1 { t } else { 1 },
        None => 1,
    };
    let w: u64 = if workers >= 1 { workers as u64 } else { 1 };
    let q = t / w;
    if q >= 1 { q } else { 1 }
}

/// The labels that open a worker's line: its glyph and its `W<n>` name in
/// its color, then `chunk #<i>` for the chunk it is on, or a dim `idle`.
pub fn worker_label(tracker: &ProgressTracker, style: &Style, worker: usize) -> (label: String)
    ensures
        label@ == spec_paint(
            style.color_on,
            spec_worker_ansi(worker),
            seq![if style.eyecandy { '\u{e0b0}' } else { '*' }],
        ) + " "@ + spec_paint(style.color_on, spec_worker_ansi(worker), "W"@ + decimal(worker as nat))
            + " "@ + (if worker < tracker@.worker_active_chunk.len()
            && tracker@.worker_active_chunk[worker as int] is Some {
            spec_paint(
                style.color_on,
                "38;5;180"@,
                "chunk #"@ + decimal(tracker@.worker_active_chunk[worker as int]->0 as nat),
            )
        } else {
            spec_paint(style.color_on, DIM_ANSI@, "idle"@)
        }),
{
    let ansi = style.worker_ansi(worker);
    let mut glyph_text = String::new();
    push_char(&mut glyph_text, style.worker_glyph());
    let mut label = style.paint(ansi.as_str(), glyph_text.as_str());
    push_str(&mut label, " ");
    let mut name = string_from_str("W");
    push_decimal(&mut name, worker as u64);
    let painted_name = style.paint(ansi.as_str(), name.as_str());
    push_str(&mut label, painted_name.as_str());
    push_str(&mut label, " ");
    let working = match tracker.worker_active_chunk(worker) {
        Some(chunk) => {
            let mut t = string_from_str("chunk #");
            push_decimal(&mut t, chunk as u64);
            style.paint("38;5;180", t.as_str())
        },
        None => style.paint(DIM_ANSI, "idle"),
    };
    push_str(&mut label, working.as_str());
    proof {
        assert(glyph_text@ =~= seq![if style.eyecandy { '\u{e0b0}' } else { '*' }]);
    }
    label
}

/// The first `k` of the twenty dim cells of a worker's mini bar.
pub open spec fn spec_minibar(style: Style, filled: int, k: int) -> Seq<char>
    decreases k,
{
    if k <= 0 {
        Seq::empty()
    } else {
        let glyph = if k - 1 < filled {
            if style.eyecandy { '\u{25b0}' } else { '#' }
        } else {
            if style.eyecandy { '\u{25b1}' } else { '-' }
        };
        spec_minibar(style, filled, k - 1) + spec_paint(style.color_on, DIM_ANSI@, seq![glyph])
    }
}

/// A worker's twenty-cell mini bar with `filled` cells full.
pub fn worker_minibar(style: &Style, filled: usize) -> (bar: String)
    ensures
        bar@ == spec_minibar(*style, filled as int, 20),
{
    let mut bar = String::new();
    let mut cell: usize = 0;
    while cell < 20
        invariant
            cell <= 20,
            bar@ == spec_minibar(*style, filled as int, cell as int),
        decreases 20 - cell,
    {
        let glyph = if cell < filled { style.bar_filled() } else { style.bar_empty() };
        let mut text = String::new();
        push_char(&mut text, glyph);
        let painted = style.paint(DIM_ANSI, text.as_str());
        push_str(&mut bar, painted.as_str());
        cell = cell + 1;
        assert(text@ =~= seq![glyph]);
    }
    bar
}

} // verus!
