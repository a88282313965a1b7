//! The decisions behind the `shard` subcommands: the options a download is
//! started with, how output is styled, what `resume` does for an entry, and
//! the text of the `list` and `status` reports.

use vstd::prelude::*;
use super::style::{ColorChoice, Style};
use crate::config::{Config, StyleSection};
use crate::history::HistoryEntry;
use crate::engine::manager::OutcomeStatus;
use crate::engine::resolve::{DownloadOptions, FiletypeRouting};
use crate::paths::{path_join, path_join_of};
use crate::registry::{Entry, EntryStatus, Registry, active_entries, status_text};
use crate::text::{chars_of, decimal, push_char, push_decimal, push_str, starts_with_str, string_from_chars, string_from_str, sub_vec};

verus! {

/// Whether `text` is an `http://` or `https://` URL.
pub fn is_http_url(text: &str) -> (b: bool)
    ensures
        b == (("http://"@.len() <= text@.len() && text@.subrange(0, "http://"@.len() as int) == "http://"@)
            || ("https://"@.len() <= text@.len() && text@.subrange(0, "https://"@.len() as int)
            == "https://"@)),
{
    let cs = chars_of(text);
    starts_with_str(cs.as_slice(), "http://") || starts_with_str(cs.as_slice(), "https://")
}

/// The number of leading `/` and `\` characters of `s`.
pub open spec fn leading_separators(s: Seq<char>) -> int
    decreases s.len(),
{
    if s.len() > 0 && (s[0] == '/' || s[0] == '\\') {
        1 + leading_separators(s.drop_first())
    } else {
        0
    }
}

/// The command line's tilde expansion: a path starting with `~` becomes the
/// rest (without leading separators) under the home directory (empty when
/// unknown); other paths stay as they are.
pub open spec fn spec_expand_home(path: Seq<char>, home: Seq<char>) -> Seq<char> {
    if path.len() > 0 && path[0] == '~' {
        let rest = path.drop_first();
        path_join_of(home, rest.skip(leading_separators(rest)))
    } else {
        path
    }
}

proof fn lemma_leading_separators_bounds(s: Seq<char>)
    ensures
        0 <= leading_separators(s) <= s.len(),
    decreases s.len(),
{
    if s.len() > 0 && (s[0] == '/' || s[0] == '\\') {
        lemma_leading_separators_bounds(s.drop_first());
    }
}

/// Expands a leading `~` to `home`.
pub fn expand_home(path: &str, home: &str) -> (p: String)
    ensures
        p@ == spec_expand_home(path@, home@),
{
    let cs = chars_of(path);
    if cs.len() == 0 || cs[0] != '~' {
        return string_from_str(path);
    }
    let ghost rest = cs@.drop_first();
    let mut i: usize = 1;
    proof {
        assert(cs@.skip(1) =~= rest);
    }
    while i < cs.len() && (cs[i] == '/' || cs[i] == '\\')
        invariant
            1 <= i <= cs@.len(),
            rest == cs@.drop_first(),
            leading_separators(rest) == (i - 1) + leading_separators(cs@.skip(i as int)),
        decreases cs.len() - i,
    {
        assert(cs@.skip(i as int).drop_first() =~= cs@.skip(i + 1));
        i = i + 1;
    }
    proof {
        if i < cs.len() {
            assert(cs@.skip(i as int)[0] == cs@[i as int]);
        }
        lemma_leading_separators_bounds(rest);
        assert(rest.skip(leading_separators(rest)) =~= cs@.skip(i as int));
    }
    let tail = string_from_chars(sub_vec(cs.as_slice(), i, cs.len()).as_slice());
    path_join(home, tail.as_str())
}

/// The routing the configuration's file-type section asks for.
pub fn config_routing(conf: &Config) -> (routing: FiletypeRouting)
    ensures
        routing.other@ == conf.filetype.other@,
        routing.dirs@.len() == 6,
        routing.dirs@[0].0@ == "video"@ && routing.dirs@[0].1@ == conf.filetype.video@,
        routing.dirs@[1].0@ == "image"@ && routing.dirs@[1].1@ == conf.filetype.image@,
        routing.dirs@[2].0@ == "audio"@ && routing.dirs@[2].1@ == conf.filetype.audio@,
        routing.dirs@[3].0@ == "archive"@ && routing.dirs@[3].1@ == conf.filetype.archive@,
        routing.dirs@[4].0@ == "document"@ && routing.dirs@[4].1@ == conf.filetype.document@,
        routing.dirs@[5].0@ == "other"@ && routing.dirs@[5].1@ == conf.filetype.other@,
{
    let mut dirs: Vec<(String, String)> = Vec::new();
    dirs.push((string_from_str("video"), string_from_str(conf.filetype.video.as_str())));
    dirs.push((string_from_str("image"), string_from_str(conf.filetype.image.as_str())));
    dirs.push((string_from_str("audio"), string_from_str(conf.filetype.audio.as_str())));
    dirs.push((string_from_str("archive"), string_from_str(conf.filetype.archive.as_str())));
    dirs.push((string_from_str("document"), string_from_str(conf.filetype.document.as_str())));
    dirs.push((string_from_str("other"), string_from_str(conf.filetype.other.as_str())));
    FiletypeRouting { dirs, other: string_from_str(conf.filetype.other.as_str()) }
}

/// The options of `shard download`: an explicit output is used as it is;
/// without one the configured download directory (tilde-expanded) with
/// routing by file type. Flags override the configuration.
pub fn cli_download_options(
    conf: &Config,
    url: String,
    output: Option<String>,
    connections: Option<usize>,
    chunk_size: Option<u64>,
    max_attempts: Option<u32>,
    home: &str,
) -> (o: DownloadOptions)
    ensures
        o.url == url,
        match output {
            Some(out) => o.dest_path == out && o.routing is None,
            None => o.dest_path@ == spec_expand_home(conf.download.download_dir@, home@) && o.routing is Some,
        },
        o.connections == (match connections {
            Some(c) => c,
            None => conf.download.connections,
        }),
        o.chunk_size == (match chunk_size {
            Some(c) => c,
            None => conf.download.chunk_size,
        }),
        o.max_attempts == (match max_attempts {
            Some(m) => m,
            None => conf.download.max_attempts,
        }),
        o.retry_base_delay_ms == conf.download.retry_base_ms,
        o.retry_max_delay_ms == conf.download.retry_max_ms,
        o.checkpoint_interval_ms == conf.download.checkpoint_ms,
        o.resume == conf.download.resume,
{
    let (dest_path, routing) = match output {
        Some(out) => (out, None),
        None => (expand_home(conf.download.download_dir.as_str(), home), Some(config_routing(conf))),
    };
    DownloadOptions {
        url,
        dest_path,
        chunk_size: match chunk_size {
            Some(c) => c,
            None => conf.download.chunk_size,
        },
        connections: match connections {
            Some(c) => c,
            None => conf.download.connections,
        },
        max_attempts: match max_attempts {
            Some(m) => m,
            None => conf.download.max_attempts,
        },
        retry_base_delay_ms: conf.download.retry_base_ms,
        retry_max_delay_ms: conf.download.retry_max_ms,
        checkpoint_interval_ms: conf.download.checkpoint_ms,
        resume: conf.download.resume,
        routing,
    }
}

/// The options that relaunch a registered download: to where it was last
/// saved (its final destination when known), always resuming, no routing.
pub fn relaunch_options(conf: &Config, entry: &Entry) -> (o: DownloadOptions)
    ensures
        o.url@ == entry.url@,
        o.dest_path@ == (match entry.final_dest {
            Some(f) => f@,
            None => entry.dest@,
        }),
        o.chunk_size == conf.download.chunk_size,
        o.connections == conf.download.connections,
        o.max_attempts == conf.download.max_attempts,
        o.retry_base_delay_ms == conf.download.retry_base_ms,
        o.retry_max_delay_ms == conf.download.retry_max_ms,
        o.checkpoint_interval_ms == conf.download.checkpoint_ms,
        o.resume,
        o.routing is None,
{
    let dest = match &entry.final_dest {
        Some(f) => string_from_str(f.as_str()),
        None => string_from_str(entry.dest.as_str()),
    };
    DownloadOptions {
        url: string_from_str(entry.url.as_str()),
        dest_path: dest,
        chunk_size: conf.download.chunk_size,
        connections: conf.download.connections,
        max_attempts: conf.download.max_attempts,
        retry_base_delay_ms: conf.download.retry_base_ms,
        retry_max_delay_ms: conf.download.retry_max_ms,
        checkpoint_interval_ms: conf.download.checkpoint_ms,
        resume: true,
        routing: None,
    }
}

/// The options that download a history row again, to the same place, with
/// the configured settings.
pub fn redo_options(conf: &Config, row: &HistoryEntry) -> (o: DownloadOptions)
    ensures
        o.url@ == row.url@,
        o.dest_path@ == row.dest@,
        o.chunk_size == conf.download.chunk_size,
        o.connections == conf.download.connections,
        o.max_attempts == conf.download.max_attempts,
        o.retry_base_delay_ms == conf.download.retry_base_ms,
        o.retry_max_delay_ms == conf.download.retry_max_ms,
        o.checkpoint_interval_ms == conf.download.checkpoint_ms,
        o.resume == conf.download.resume,
        o.routing is None,
{
    DownloadOptions {
        url: string_from_str(row.url.as_str()),
        dest_path: string_from_str(row.dest.as_str()),
        chunk_size: conf.download.chunk_size,
        connections: conf.download.connections,
        max_attempts: conf.download.max_attempts,
        retry_base_delay_ms: conf.download.retry_base_ms,
        retry_max_delay_ms: conf.download.retry_max_ms,
        checkpoint_interval_ms: conf.download.checkpoint_ms,
        resume: conf.download.resume,
        routing: None,
    }
}

/// The output style: flags win over the configuration; colors follow the
/// color choice, resolved against whether stdout is a terminal.
pub fn resolve_style(
    eyecandy_flag: Option<bool>,
    color_flag: Option<ColorChoice>,
    conf: &StyleSection,
    is_tty: bool,
) -> (s: Style)
    ensures
        s.eyecandy == (match eyecandy_flag {
            Some(e) => e,
            None => conf.prefer_eyecandy,
        }),
        s.color_on == (match (match color_flag {
            Some(c) => c,
            None => conf.color,
        }) {
            ColorChoice::Auto => is_tty,
            ColorChoice::Always => true,
            ColorChoice::Never => false,
        }),
{
    let eyecandy = match eyecandy_flag {
        Some(e) => e,
        None => conf.prefer_eyecandy,
    };
    let choice = match color_flag {
        Some(c) => c,
        None => conf.color,
    };
    Style::new(choice.resolves_to(is_tty), eyecandy)
}

/// What `shard resume` does, given the live process's answer to `status`.
#[derive(Debug, Clone, Copy, PartialEq, Eq, Structural)]
pub enum ResumeStep {
    /// The live process was cancelled: say so and stop.
    AlreadyCancelled,
    /// A live process answers: ask it to resume.
    SendResume,
    /// No process answers: start the download again from its sidecar.
    Relaunch,
}

pub fn resume_step(probe: Option<&str>) -> (step: ResumeStep)
    ensures
        step == (match probe {
            Some(reply) => if reply@ == "cancelled"@ {
                ResumeStep::AlreadyCancelled
            } else {
                ResumeStep::SendResume
            },
            None => ResumeStep::Relaunch,
        }),
{
    match probe {
        Some(reply) => {
            if crate::text::str_equal(reply, "cancelled") {
                ResumeStep::AlreadyCancelled
            } else {
                ResumeStep::SendResume
            }
        },
        None => ResumeStep::Relaunch,
    }
}

/// The registry status a download that ended without error gets.
pub fn finished_status(status: OutcomeStatus) -> (s: EntryStatus)
    ensures
        s == (if status == OutcomeStatus::Cancelled { EntryStatus::Cancelled } else { EntryStatus::Completed }),
{
    match status {
        OutcomeStatus::Cancelled => EntryStatus::Cancelled,
        OutcomeStatus::Completed => EntryStatus::Completed,
    }
}

/// The `LIVE` column of `shard list`: `-` when no process answers, `off`
/// when it answers `cancelled` or `ok`, else its answer.
pub fn live_column(reply: Option<&str>) -> (col: String)
    ensures
        col@ == (match reply {
            Some(r) => if r@ == "cancelled"@ || r@ == "ok"@ { "off"@ } else { r@ },
            None => "-"@,
        }),
{
    match reply {
        Some(r) => {
            if crate::text::str_equal(r, "cancelled") || crate::text::str_equal(r, "ok") {
                string_from_str("off")
            } else {
                string_from_str(r)
            }
        },
        None => string_from_str("-"),
    }
}

/// `s` padded with spaces on the right to at least `width` characters.
pub open spec fn pad_right(s: Seq<char>, width: nat) -> Seq<char> {
    if s.len() >= width {
        s
    } else {
        s + Seq::new((width - s.len()) as nat, |_i: int| ' ')
    }
}

fn push_padded(out: &mut String, s: &str, width: usize)
    ensures
        final(out)@ == old(out)@ + pad_right(s@, width as nat),
{
    let cs = chars_of(s);
    push_str(out, s);
    let ghost mid = out@;
    let mut k: usize = cs.len();
    while k < width
        invariant
            cs@.len() <= k <= width || (k == cs@.len() && cs@.len() >= width),
            out@ == mid + Seq::new((k - cs@.len()) as nat, |_i: int| ' '),
        decreases width - k,
    {
        push_char(out, ' ');
        k = k + 1;
        assert(out@ =~= mid + Seq::new((k - cs@.len()) as nat, |_i: int| ' '));
    }
    assert(out@ =~= old(out)@ + pad_right(s@, width as nat));
}

/// One row of `shard list`: id, status and liveness in columns of 22, 11
/// and 7 characters, then the destination.
pub fn list_row(id: &str, status: EntryStatus, live: &str, dest: &str) -> (row: String)
    ensures
        row@ == pad_right(id@, 22) + " "@ + pad_right(status_text(status), 11) + " "@ + pad_right(live@, 7)
            + " "@ + dest@,
{
    let mut row = String::new();
    push_padded(&mut row, id, 22);
    push_str(&mut row, " ");
    push_padded(&mut row, status.name(), 11);
    push_str(&mut row, " ");
    push_padded(&mut row, live, 7);
    push_str(&mut row, " ");
    push_str(&mut row, dest);
    row
}

/// The download `shard status` reports on: the one named, else the newest
/// still downloading, else none.
pub fn status_needle(id: Option<&str>, registry: &Registry) -> (needle: Option<String>)
    ensures
        match id {
            Some(i) => needle matches Some(n) && n@ == i@,
            None => {
                let active = active_entries(registry.entries@);
                if active.len() > 0 {
                    needle matches Some(n) && n@ == active.last().id@
                } else {
                    needle is None
                }
            },
        },
{
    match id {
        Some(i) => Some(string_from_str(i)),
        None => {
            let active = registry.active();
            if active.len() > 0 {
                let last = active[active.len() - 1];
                proof {
                    assert(active@.map_values(|e: &Entry| *e)[active@.len() - 1] == *last);
                }
                Some(string_from_str(last.id.as_str()))
            } else {
                proof {
                    assert(active@.map_values(|e: &Entry| *e).len() == 0);
                }
                None
            }
        },
    }
}

/// The lines `shard status` prints for `entry`, given how its process
/// answered (`live`).
pub fn status_report(entry: &Entry, live: &str) -> (lines: Vec<String>)
    ensures
        lines@.len() == (if entry.status == EntryStatus::Completed { 7nat } else { 8nat }),
        lines@[0]@ == "id:       "@ + entry.id@,
        lines@[1]@ == "url:      "@ + entry.url@,
        lines@[2]@ == "dest:     "@ + (match entry.final_dest {
            Some(f) => f@,
            None => entry.dest@,
        }),
        lines@[3]@ == "status:   "@ + status_text(entry.status) + " ("@ + live@ + ")"@,
        lines@[4]@ == "pid:      "@ + decimal(entry.pid as nat),
        lines@[5]@ == "started:  "@ + entry.started_at@,
        lines@[6]@ == "updated:  "@ + entry.updated_at@,
        entry.status != EntryStatus::Completed ==> lines@[7]@ == "hint:     `shard resume "@ + entry.id@
            + "` to continue where it left off"@,
{
    let mut lines: Vec<String> = Vec::new();
    let mut l0 = string_from_str("id:       ");
    push_str(&mut l0, entry.id.as_str());
    lines.push(l0);
    let mut l1 = string_from_str("url:      ");
    push_str(&mut l1, entry.url.as_str());
    lines.push(l1);
    let mut l2 = string_from_str("dest:     ");
    match &entry.final_dest {
        Some(f) => push_str(&mut l2, f.as_str()),
        None => push_str(&mut l2, entry.dest.as_str()),
    }
    lines.push(l2);
    let mut l3 = string_from_str("status:   ");
    push_str(&mut l3, entry.status.name());
    push_str(&mut l3, " (");
    push_str(&mut l3, live);
    push_str(&mut l3, ")");
    lines.push(l3);
    let mut l4 = string_from_str("pid:      ");
    push_decimal(&mut l4, entry.pid as u64);
    lines.push(l4);
    let mut l5 = string_from_str("started:  ");
    push_str(&mut l5, entry.started_at.as_str());
    lines.push(l5);
    let mut l6 = string_from_str("updated:  ");
    push_str(&mut l6, entry.updated_at.as_str());
    lines.push(l6);
    if entry.status != EntryStatus::Completed {
        let mut l7 = string_from_str("hint:     `shard resume ");
        push_str(&mut l7, entry.id.as_str());
        push_str(&mut l7, "` to continue where it left off");
        lines.push(l7);
    }
    lines
}

/// The liveness text of `shard status`: `running (<reply>)` or `not running`.
pub fn liveness(reply: Option<&str>) -> (s: String)
    ensures
        s@ == (match reply {
            Some(r) => "running ("@ + r@ + ")"@,
            None => "not running"@,
        }),
{
    match reply {
        Some(r) => {
            let mut s = string_from_str("running (");
            push_str(&mut s, r);
            push_str(&mut s, ")");
            s
        },
        None => string_from_str("not running"),
    }
}

} // verus!
