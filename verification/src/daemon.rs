//! The daemon: where its sockets and files live, and the decisions of its
//! request handler (what a request asks for, how a registered download is
//! described, what a finished download leaves in the history).

use vstd::prelude::*;
use crate::cli::control::ControlCommand;
use crate::config::Config;
use crate::engine::error::DownloadError;
use crate::engine::manager::{DownloadOutcome, OutcomeStatus};
use crate::engine::resolve::{DownloadOptions, FiletypeRouting};
use crate::paths::{path_join, path_join_of};
use crate::registry::{Entry, EntryStatus};
use crate::rpc::{DownloadInfo, DownloadStatus, Request, Response};
use crate::history::HistoryEntry;
use crate::text::{chars_of, push_str, starts_with_str, string_from_chars, string_from_str, sub_vec};

verus! {

/// Name of the control socket inside the daemon's run directory.
pub const SOCKET_NAME: &'static str = "control.sock";

/// The daemon, bound to the control socket in its run directory.
pub struct Daemon {
    socket_path: String,
}

impl Daemon {
    pub closed spec fn spec_socket_path(&self) -> Seq<char> {
        self.socket_path@
    }

    /// The daemon for `run_dir` (the directory that holds the control socket
    /// and the per-download sockets; it is created before).
    pub fn new(run_dir: &str) -> (d: Daemon)
        ensures
            d.spec_socket_path() == path_join_of(run_dir@, SOCKET_NAME@),
    {
        Daemon { socket_path: path_join(run_dir, SOCKET_NAME) }
    }

    /// Where the daemon listens.
    pub fn socket_path(&self) -> (p: &str)
        ensures
            p@ == self.spec_socket_path(),
    {
        self.socket_path.as_str()
    }
}

/// The shared data directory: `<base>/shard` with the base
/// `$XDG_DATA_HOME`, else `<home>/.local/share`, else empty.
pub fn data_dir(xdg_data_home: Option<&str>, home: Option<&str>) -> (p: String)
    ensures
        p@ == path_join_of(
            match xdg_data_home {
                Some(x) => x@,
                None => match home {
                    Some(h) => path_join_of(path_join_of(h@, ".local"@), "share"@),
                    None => Seq::<char>::empty(),
                },
            },
            "shard"@,
        ),
{
    let base = match xdg_data_home {
        Some(x) => string_from_str(x),
        None => match home {
            Some(h) => {
                let local = path_join(h, ".local");
                path_join(local.as_str(), "share")
            },
            None => String::new(),
        },
    };
    path_join(base.as_str(), "shard")
}

/// The daemon's control socket under the data directory:
/// `<data_dir>/run/control.sock`.
pub fn control_socket_path(data_dir: &str) -> (p: String)
    ensures
        p@ == path_join_of(path_join_of(data_dir@, "run"@), SOCKET_NAME@),
{
    let run = path_join(data_dir, "run");
    path_join(run.as_str(), SOCKET_NAME)
}

/// `path` with a leading `~/` replaced by the home directory (when known).
pub open spec fn spec_expand_tilde(path: Seq<char>, home: Option<Seq<char>>) -> Seq<char> {
    if path.len() >= 2 && path.subrange(0, 2) == "~/"@ && home is Some {
        path_join_of(home->0, path.skip(2))
    } else {
        path
    }
}

/// Expands a leading `~/` to the home directory, when there is one.
pub fn expand_tilde(path: &str, home: Option<&str>) -> (p: String)
    ensures
        p@ == spec_expand_tilde(
            path@,
            match home {
                Some(h) => Some(h@),
                None => None,
            },
        ),
{
    let cs = chars_of(path);
    if starts_with_str(cs.as_slice(), "~/") {
        proof {
            reveal_strlit("~/");
        }
        match home {
            Some(h) => {
                let rest = string_from_chars(sub_vec(cs.as_slice(), 2, cs.len()).as_slice());
                assert(rest@ =~= path@.skip(2));
                return path_join(h, rest.as_str());
            },
            None => {},
        }
    }
    string_from_str(path)
}

/// Where a daemon download is saved, and how it is routed: an explicit
/// destination (tilde-expanded) is used as it is; without one, the
/// configured download directory with routing by file type.
pub fn resolve_dest(conf: &Config, dest: Option<String>, home: Option<&str>) -> (r: (String, Option<FiletypeRouting>))
    ensures
        match dest {
            Some(d) => r.0@ == spec_expand_tilde(
                d@,
                match home {
                    Some(h) => Some(h@),
                    None => None,
                },
            ) && r.1 is None,
            None => {
                &&& r.0@ == spec_expand_tilde(
                    conf.download.download_dir@,
                    match home {
                        Some(h) => Some(h@),
                        None => None,
                    },
                )
                &&& r.1 is Some
                &&& r.1->0.other@ == conf.filetype.other@
                &&& r.1->0.dirs@.len() == 6
                &&& r.1->0.dirs@[0].0@ == "video"@ && r.1->0.dirs@[0].1@ == conf.filetype.video@
                &&& r.1->0.dirs@[1].0@ == "image"@ && r.1->0.dirs@[1].1@ == conf.filetype.image@
                &&& r.1->0.dirs@[2].0@ == "audio"@ && r.1->0.dirs@[2].1@ == conf.filetype.audio@
                &&& r.1->0.dirs@[3].0@ == "archive"@ && r.1->0.dirs@[3].1@ == conf.filetype.archive@
                &&& r.1->0.dirs@[4].0@ == "document"@ && r.1->0.dirs@[4].1@ == conf.filetype.document@
                &&& r.1->0.dirs@[5].0@ == "other"@ && r.1->0.dirs@[5].1@ == conf.filetype.other@
            },
        },
{
    match dest {
        Some(d) => (expand_tilde(d.as_str(), home), None),
        None => {
            let base = expand_tilde(conf.download.download_dir.as_str(), home);
            let mut dirs: Vec<(String, String)> = Vec::new();
            dirs.push((string_from_str("video"), string_from_str(conf.filetype.video.as_str())));
            dirs.push((string_from_str("image"), string_from_str(conf.filetype.image.as_str())));
            dirs.push((string_from_str("audio"), string_from_str(conf.filetype.audio.as_str())));
            dirs.push((string_from_str("archive"), string_from_str(conf.filetype.archive.as_str())));
            dirs.push((string_from_str("document"), string_from_str(conf.filetype.document.as_str())));
            dirs.push((string_from_str("other"), string_from_str(conf.filetype.other.as_str())));
            let routing = FiletypeRouting { dirs, other: string_from_str(conf.filetype.other.as_str()) };
            (base, Some(routing))
        },
    }
}

/// The engine options for a daemon download of `url` to `dest_path`, with
/// the configured download settings.
pub fn download_options(
    conf: &Config,
    url: &str,
    dest_path: String,
    routing: Option<FiletypeRouting>,
) -> (o: DownloadOptions)
    ensures
        o.url@ == url@,
        o.dest_path == dest_path,
        o.chunk_size == conf.download.chunk_size,
        o.connections == conf.download.connections,
        o.max_attempts == conf.download.max_attempts,
        o.retry_base_delay_ms == conf.download.retry_base_ms,
        o.retry_max_delay_ms == conf.download.retry_max_ms,
        o.checkpoint_interval_ms == conf.download.checkpoint_ms,
        o.resume == conf.download.resume,
        o.routing == routing,
{
    DownloadOptions {
        url: string_from_str(url),
        dest_path,
        chunk_size: conf.download.chunk_size,
        connections: conf.download.connections,
        max_attempts: conf.download.max_attempts,
        retry_base_delay_ms: conf.download.retry_base_ms,
        retry_max_delay_ms: conf.download.retry_max_ms,
        checkpoint_interval_ms: conf.download.checkpoint_ms,
        resume: conf.download.resume,
        routing,
    }
}

/// The protocol status of a registered download: `paused` when it is
/// downloading and its controller reads paused, else its registry status.
pub open spec fn spec_info_status(status: EntryStatus, paused: bool) -> DownloadStatus {
    if status == EntryStatus::Downloading && paused {
        DownloadStatus::Paused
    } else {
        match status {
            EntryStatus::Downloading => DownloadStatus::Downloading,
            EntryStatus::Completed => DownloadStatus::Completed,
            EntryStatus::Cancelled => DownloadStatus::Cancelled,
            EntryStatus::Failed => DownloadStatus::Failed,
        }
    }
}

/// Describes a registered download for the protocol; `paused` tells whether
/// a controller for it exists here and reads paused.
pub fn to_info(entry: &Entry, paused: bool) -> (info: DownloadInfo)
    ensures
        info.id@ == entry.id@,
        info.url@ == entry.url@,
        info.dest@ == entry.dest@,
        info.status == spec_info_status(entry.status, paused),
        info.size == 0,
        info.done_bytes == 0,
        info.sha256@ == Seq::<char>::empty(),
        info.error is None,
{
    let status = if entry.status == EntryStatus::Downloading && paused {
        DownloadStatus::Paused
    } else {
        match entry.status {
            EntryStatus::Downloading => DownloadStatus::Downloading,
            EntryStatus::Completed => DownloadStatus::Completed,
            EntryStatus::Cancelled => DownloadStatus::Cancelled,
            EntryStatus::Failed => DownloadStatus::Failed,
        }
    };
    DownloadInfo {
        id: string_from_str(entry.id.as_str()),
        url: string_from_str(entry.url.as_str()),
        dest: string_from_str(entry.dest.as_str()),
        status,
        size: 0,
        done_bytes: 0,
        sha256: String::new(),
        error: None,
    }
}

/// The reply to a pause, resume or cancel for download `id`: acknowledged
/// when a controller for it runs here, an error otherwise.
pub fn control_reply(id: &str, running: bool) -> (r: Response)
    ensures
        running ==> (r matches Response::Ack { id: i } && i@ == id@),
        !running ==> (r matches Response::Error { code, message } && code@ == "not_running"@
            && message@ == "download "@ + id@ + " is not running in this daemon"@),
{
    if running {
        Response::Ack { id: string_from_str(id) }
    } else {
        let mut message = string_from_str("download ");
        push_str(&mut message, id);
        push_str(&mut message, " is not running in this daemon");
        Response::Error { code: string_from_str("not_running"), message }
    }
}

/// What the handler does for a request.
#[derive(Debug, Clone)]
pub enum BackendAction {
    /// Answer right away with this response.
    Reply(Response),
    /// Start downloading `url` (to `dest` when given).
    Start { url: String, dest: Option<String> },
    /// Describe every registered download.
    List,
    /// Describe the download `id` names (by id or URL).
    Status { id: String },
    /// Steer the running download `id`.
    Control { id: String, command: ControlCommand },
}

/// Decides what a request asks of the handler.
pub fn plan_request(request: Request) -> (a: BackendAction)
    ensures
        match request {
            Request::Ping => a matches BackendAction::Reply(Response::Pong),
            Request::Start { url, dest, .. } => a matches BackendAction::Start { url: u, dest: d } && u
                == url && d == dest,
            Request::List => a matches BackendAction::List,
            Request::Status { id } => a matches BackendAction::Status { id: i } && i == id,
            Request::Pause { id } => a matches BackendAction::Control { id: i, command } && i == id
                && command == ControlCommand::Pause,
            Request::Resume { id } => a matches BackendAction::Control { id: i, command } && i == id
                && command == ControlCommand::Resume,
            Request::Cancel { id } => a matches BackendAction::Control { id: i, command } && i == id
                && command == ControlCommand::Cancel,
            Request::Watch => a matches BackendAction::Reply(Response::Error { code, message })
                && code@ == "watch_unavailable"@ && message@
                == "snapshot broadcast lands with the watch bus"@,
        },
{
    match request {
        Request::Ping => BackendAction::Reply(Response::Pong),
        Request::Start { url, dest, .. } => BackendAction::Start { url, dest },
        Request::List => BackendAction::List,
        Request::Status { id } => BackendAction::Status { id },
        Request::Pause { id } => BackendAction::Control { id, command: ControlCommand::Pause },
        Request::Resume { id } => BackendAction::Control { id, command: ControlCommand::Resume },
        Request::Cancel { id } => BackendAction::Control { id, command: ControlCommand::Cancel },
        Request::Watch => BackendAction::Reply(
            Response::Error {
                code: string_from_str("watch_unavailable"),
                message: string_from_str("snapshot broadcast lands with the watch bus"),
            },
        ),
    }
}

/// What a finished download leaves behind: its registry status, and for the
/// history its final URL, size and digest (none of them for a failure; a
/// cancelled download records size zero and an empty digest).
pub fn completion(outcome: &Result<DownloadOutcome, DownloadError>) -> (r: (
    EntryStatus,
    Option<String>,
    Option<u64>,
    Option<String>,
))
    ensures
        match outcome {
            Ok(o) => match o.status {
                OutcomeStatus::Completed => r.0 == EntryStatus::Completed && r.1 == Some(o.final_url)
                    && r.2 == Some(o.size) && r.3 == Some(o.sha256),
                OutcomeStatus::Cancelled => r.0 == EntryStatus::Cancelled && r.1 == Some(o.final_url)
                    && r.2 == Some(0u64) && (r.3 matches Some(s) && s@ == Seq::<char>::empty()),
            },
            Err(_) => r.0 == EntryStatus::Failed && r.1 is None && r.2 is None && r.3 is None,
        },
{
    match outcome {
        Ok(o) => match o.status {
            OutcomeStatus::Completed => (
                EntryStatus::Completed,
                Some(o.final_url.clone()),
                Some(o.size),
                Some(o.sha256.clone()),
            ),
            OutcomeStatus::Cancelled => (
                EntryStatus::Cancelled,
                Some(o.final_url.clone()),
                Some(0),
                Some(String::new()),
            ),
        },
        Err(_) => (EntryStatus::Failed, None, None, None),
    }
}

/// The history row for a registered download that finished as `outcome`,
/// stamped `updated_at`; a missing size is recorded as zero.
pub fn history_entry(
    entry: &Entry,
    outcome: &Result<DownloadOutcome, DownloadError>,
    updated_at: String,
) -> (h: HistoryEntry)
    ensures
        ({
            let (status, final_url, size, sha256) = spec_completion(*outcome);
            &&& h.id@ == entry.id@
            &&& h.url@ == entry.url@
            &&& h.dest@ == entry.dest@
            &&& h.started_at@ == entry.started_at@
            &&& h.updated_at == updated_at
            &&& h.status == status
            &&& h.size == (match size {
                Some(n) => n,
                None => 0,
            })
            &&& opt_text(h.final_url) == final_url
            &&& opt_text(h.sha256) == sha256
        }),
{
    let (status, final_url, size, sha256) = completion(outcome);
    HistoryEntry {
        id: string_from_str(entry.id.as_str()),
        url: string_from_str(entry.url.as_str()),
        final_url,
        dest: string_from_str(entry.dest.as_str()),
        status,
        size: match size {
            Some(n) => n,
            None => 0,
        },
        sha256,
        started_at: string_from_str(entry.started_at.as_str()),
        updated_at,
    }
}

pub open spec fn opt_text(o: Option<String>) -> Option<Seq<char>> {
    match o {
        Some(s) => Some(s@),
        None => None,
    }
}

/// `completion` as values: status, final URL, size and digest.
pub open spec fn spec_completion(outcome: Result<DownloadOutcome, DownloadError>) -> (
    EntryStatus,
    Option<Seq<char>>,
    Option<u64>,
    Option<Seq<char>>,
) {
    match outcome {
        Ok(o) => match o.status {
            OutcomeStatus::Completed => (
                EntryStatus::Completed,
                Some(o.final_url@),
                Some(o.size),
                Some(o.sha256@),
            ),
            OutcomeStatus::Cancelled => (EntryStatus::Cancelled, Some(o.final_url@), Some(0u64), Some(Seq::empty())),
        },
        Err(_) => (EntryStatus::Failed, None, None, None),
    }
}

} // verus!
