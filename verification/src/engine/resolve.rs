//! Where a download lands and which file category it belongs to.

use vstd::prelude::*;
use crate::paths::{path_join, path_join_of};
use crate::text::{chars_eq_str, chars_of, is_ws, lemma_trim_end_at, lemma_trim_start_at, trim_end, trim_start, split_from, contains_char, split_on, split_on_char, starts_with_str, string_from_chars, string_from_str, sub_vec, trim, trim_quotes, trim_quotes_vec, trim_vec, views};

verus! {

/// Mapping from file category to the directory leaf it is saved under.
#[derive(Debug, Clone)]
pub struct FiletypeRouting {
    /// `(category, leaf)` pairs; a later pair for a category overrides an earlier one.
    pub dirs: Vec<(String, String)>,
    /// Leaf used when the category has no entry.
    pub other: String,
}

/// What the remote told us about the file.
#[derive(Debug, Clone)]
pub struct RemoteMetadata {
    pub final_url: String,
    pub size: u64,
    pub etag: Option<String>,
    pub last_modified: Option<String>,
    pub accepts_ranges: bool,
    pub content_disposition: Option<String>,
}

/// The file name one `;`-separated piece of a `Content-Disposition` header
/// offers: the `filename=` value, unquoted and trimmed, when it is non-empty
/// and names no directory.
pub open spec fn disposition_candidate(part: Seq<char>) -> Option<Seq<char>> {
    let p = trim(part);
    if p.len() >= 9 && p.subrange(0, 9) == "filename="@ {
        let name = trim_quotes(trim(p.skip(9)));
        if name.len() == 0 || name.contains('/') || name.contains('\\') {
            None
        } else {
            Some(name)
        }
    } else {
        None
    }
}

/// The first candidate among `parts`.
pub open spec fn first_candidate(parts: Seq<Seq<char>>) -> Option<Seq<char>>
    decreases parts.len(),
{
    if parts.len() == 0 {
        None
    } else {
        match disposition_candidate(parts[0]) {
            Some(name) => Some(name),
            None => first_candidate(parts.drop_first()),
        }
    }
}

/// The file name a `Content-Disposition` value offers.
pub open spec fn spec_disposition_filename(value: Seq<char>) -> Option<Seq<char>> {
    first_candidate(split_on(value, ';'))
}

fn candidate(part: &[char]) -> (r: Option<Vec<char>>)
    ensures
        match r {
            Some(name) => disposition_candidate(part@) == Some(name@),
            None => disposition_candidate(part@) is None,
        },
{
    let p = trim_vec(part);
    if !starts_with_str(p.as_slice(), "filename=") {
        proof {
            reveal_strlit("filename=");
        }
        return None;
    }
    proof {
        reveal_strlit("filename=");
    }
    let rest = sub_vec(p.as_slice(), 9, p.len());
    assert(rest@ =~= p@.skip(9));
    let trimmed = trim_vec(rest.as_slice());
    let name = trim_quotes_vec(trimmed.as_slice());
    if name.len() == 0 || contains_char(name.as_slice(), '/') || contains_char(name.as_slice(), '\\') {
        None
    } else {
        Some(name)
    }
}

/// The file name a `Content-Disposition` header value offers, if any.
pub fn parse_content_disposition_filename(value: &str) -> (r: Option<String>)
    ensures
        match r {
            Some(name) => spec_disposition_filename(value@) == Some(name@),
            None => spec_disposition_filename(value@) is None,
        },
{
    let cs = chars_of(value);
    let parts = split_on_char(cs.as_slice(), ';');
    let mut i: usize = 0;
    assert(views(parts@).skip(0) =~= views(parts@));
    while i < parts.len()
        invariant
            i <= parts.len(),
            views(parts@) == split_on(value@, ';'),
            first_candidate(views(parts@).skip(i as int)) == spec_disposition_filename(value@),
        decreases parts.len() - i,
    {
        assert(views(parts@).skip(i as int)[0] == parts[i as int]@);
        match candidate(parts[i].as_slice()) {
            Some(name) => {
                return Some(string_from_chars(name.as_slice()));
            },
            None => {},
        }
        assert(views(parts@).skip(i as int).drop_first() =~= views(parts@).skip(i + 1));
        i = i + 1;
    }
    None
}

/// What `Url::parse` followed by `Url::path` yields for `text` (`None` when
/// the text is not a URL).
pub uninterp spec fn url_path_of(text: Seq<char>) -> Option<Seq<char>>;

/// Parses `text` with `url::Url::parse` and returns the parsed URL's path.
#[verifier::external_body]
fn parsed_url_path(text: &str) -> (path: Option<String>)
    ensures
        match path {
            Some(p) => url_path_of(text@) == Some(p@),
            None => url_path_of(text@) is None,
        },
{
    url::Url::parse(text).ok().map(|parsed| parsed.path().to_string())
}

/// The last `/`-separated segment of a URL's path, when the path is absolute
/// and that segment is non-empty.
pub open spec fn spec_url_basename(url: Seq<char>) -> Option<Seq<char>> {
    match url_path_of(url) {
        Some(p) => if p.len() > 0 && p[0] == '/' {
            let segment = split_on(p.drop_first(), '/').last();
            if segment.len() == 0 { None } else { Some(segment) }
        } else {
            None
        },
        None => None,
    }
}

proof fn lemma_split_nonempty(s: Seq<char>, c: char, start: int, i: int)
    requires
        0 <= start <= i,
    ensures
        split_from(s, c, start, i).len() >= 1,
    decreases s.len() - i,
{
    if i < s.len() {
        if s[i] == c {
            lemma_split_nonempty(s, c, i + 1, i + 1);
        } else {
            lemma_split_nonempty(s, c, start, i + 1);
        }
    }
}


/// The name a URL suggests for the downloaded file: its last path segment.
pub fn url_basename(final_url: &str) -> (r: Option<String>)
    ensures
        match r {
            Some(name) => spec_url_basename(final_url@) == Some(name@),
            None => spec_url_basename(final_url@) is None,
        },
{
    let path = match parsed_url_path(final_url) {
        Some(p) => p,
        None => return None,
    };
    let cs = chars_of(path.as_str());
    if cs.len() == 0 || cs[0] != '/' {
        return None;
    }
    let rest = sub_vec(cs.as_slice(), 1, cs.len());
    assert(rest@ =~= cs@.drop_first());
    let segments = split_on_char(rest.as_slice(), '/');
    proof {
        lemma_split_nonempty(rest@, '/', 0, 0);
    }
    let last = &segments[segments.len() - 1];
    assert(last@ == views(segments@).last());
    if last.len() == 0 {
        None
    } else {
        Some(string_from_chars(last.as_slice()))
    }
}

/// Index of the last `.` in `s`, if any.
pub open spec fn last_dot(s: Seq<char>) -> Option<int>
    decreases s.len(),
{
    if s.len() == 0 {
        None
    } else if s.last() == '.' {
        Some(s.len() - 1)
    } else {
        last_dot(s.drop_last())
    }
}

/// The text after the last `.`, or the whole name when it has none.
pub open spec fn extension_of(name: Seq<char>) -> Seq<char> {
    match last_dot(name) {
        Some(i) => name.skip(i + 1),
        None => name,
    }
}

pub open spec fn ascii_lower_char(c: char) -> char {
    if 'A' <= c <= 'Z' { ((c as int) + 32) as char } else { c }
}

/// `str::to_ascii_lowercase`.
pub open spec fn ascii_lower(s: Seq<char>) -> Seq<char> {
    s.map_values(|c: char| ascii_lower_char(c))
}

pub open spec fn video_exts() -> Seq<Seq<char>> {
    seq!["mp4"@, "mkv"@, "avi"@, "mov"@, "webm"@, "m4v"@, "flv"@, "wmv"@, "mpg"@, "mpeg"@]
}

pub open spec fn image_exts() -> Seq<Seq<char>> {
    seq!["jpg"@, "jpeg"@, "png"@, "gif"@, "webp"@, "bmp"@, "svg"@, "heic"@, "avif"@, "ico"@, "tiff"@]
}

pub open spec fn audio_exts() -> Seq<Seq<char>> {
    seq!["mp3"@, "wav"@, "flac"@, "ogg"@, "m4a"@, "aac"@, "opus"@, "wma"@]
}

pub open spec fn archive_exts() -> Seq<Seq<char>> {
    seq!["zip"@, "tar"@, "gz"@, "tgz"@, "bz2"@, "xz"@, "7z"@, "rar"@, "zst"@, "iso"@]
}

pub open spec fn document_exts() -> Seq<Seq<char>> {
    seq!["pdf"@, "doc"@, "docx"@, "xls"@, "xlsx"@, "ppt"@, "pptx"@, "txt"@, "md"@, "odt"@, "ods"@, "epub"@]
}

/// The category a file name falls in, by its (case-insensitive) extension.
pub open spec fn spec_filetype_category(name: Seq<char>) -> Seq<char> {
    let ext = ascii_lower(extension_of(name));
    if video_exts().contains(ext) {
        "video"@
    } else if image_exts().contains(ext) {
        "image"@
    } else if audio_exts().contains(ext) {
        "audio"@
    } else if archive_exts().contains(ext) {
        "archive"@
    } else if document_exts().contains(ext) {
        "document"@
    } else {
        "other"@
    }
}

fn in_list(ext: &[char], list: &[&str]) -> (b: bool)
    ensures
        b == list@.map_values(|w: &str| w@).contains(ext@),
{
    let mut i: usize = 0;
    while i < list.len()
        invariant
            i <= list.len(),
            forall|j: int| 0 <= j < i ==> list@[j]@ != ext@,
        decreases list.len() - i,
    {
        if chars_eq_str(ext, list[i]) {
            assert(list@.map_values(|w: &str| w@)[i as int] == ext@);
            return true;
        }
        i = i + 1;
    }
    proof {
        let words = list@.map_values(|w: &str| w@);
        if words.contains(ext@) {
            let k = choose|k: int| 0 <= k < words.len() && #[trigger] words[k] == ext@;
            assert(list@[k]@ != ext@);
        }
    }
    false
}

fn lower_extension(name: &[char]) -> (ext: Vec<char>)
    ensures
        ext@ == ascii_lower(extension_of(name@)),
{
    let mut i: usize = name.len();
    assert(name@.subrange(0, name@.len() as int) =~= name@);
    while i > 0 && name[i - 1] != '.'
        invariant
            i <= name.len(),
            last_dot(name@) == last_dot(name@.subrange(0, i as int)),
        decreases i,
    {
        assert(name@.subrange(0, i as int).drop_last() =~= name@.subrange(0, i - 1));
        i = i - 1;
    }
    let start = if i > 0 {
        assert(name@.subrange(0, i as int).last() == '.');
        i
    } else {
        assert(name@.subrange(0, 0) =~= Seq::<char>::empty());
        0
    };
    let mut out: Vec<char> = Vec::new();
    let mut k: usize = start;
    while k < name.len()
        invariant
            start <= k <= name.len(),
            out@ == ascii_lower(name@.subrange(start as int, k as int)),
        decreases name.len() - k,
    {
        let c = name[k];
        let lc = if 'A' <= c && c <= 'Z' {
            ((c as u8) + 32) as char
        } else {
            c
        };
        assert(lc == ascii_lower_char(c)) by {
            if 'A' <= c && c <= 'Z' {
                assert((c as u8) == c as int);
            }
        }
        out.push(lc);
        k = k + 1;
        assert(out@ =~= ascii_lower(name@.subrange(start as int, k as int)));
    }
    proof {
        assert(name@.subrange(0, name@.len() as int) =~= name@);
        assert(extension_of(name@) =~= name@.subrange(start as int, name@.len() as int));
    }
    out
}

/// The category of a file name: `video`, `image`, `audio`, `archive`,
/// `document` or `other`.
pub fn filetype_category(name: &str) -> (category: &'static str)
    ensures
        category@ == spec_filetype_category(name@),
{
    let cs = chars_of(name);
    let ext = lower_extension(cs.as_slice());
    let e = ext.as_slice();
    let video = ["mp4", "mkv", "avi", "mov", "webm", "m4v", "flv", "wmv", "mpg", "mpeg"];
    let image = ["jpg", "jpeg", "png", "gif", "webp", "bmp", "svg", "heic", "avif", "ico", "tiff"];
    let audio = ["mp3", "wav", "flac", "ogg", "m4a", "aac", "opus", "wma"];
    let archive = ["zip", "tar", "gz", "tgz", "bz2", "xz", "7z", "rar", "zst", "iso"];
    let document = ["pdf", "doc", "docx", "xls", "xlsx", "ppt", "pptx", "txt", "md", "odt", "ods", "epub"];
    assert(video@.map_values(|w: &str| w@) =~= video_exts());
    assert(image@.map_values(|w: &str| w@) =~= image_exts());
    assert(audio@.map_values(|w: &str| w@) =~= audio_exts());
    assert(archive@.map_values(|w: &str| w@) =~= archive_exts());
    assert(document@.map_values(|w: &str| w@) =~= document_exts());
    if in_list(e, &video) {
        "video"
    } else if in_list(e, &image) {
        "image"
    } else if in_list(e, &audio) {
        "audio"
    } else if in_list(e, &archive) {
        "archive"
    } else if in_list(e, &document) {
        "document"
    } else {
        "other"
    }
}

/// The name a download is saved under when only a directory is given: the
/// `Content-Disposition` file name, else the URL's last path segment, else
/// `download.bin`.
pub open spec fn spec_download_name(m: RemoteMetadata) -> Seq<char> {
    let from_header = match m.content_disposition {
        Some(cd) => spec_disposition_filename(cd@),
        None => None,
    };
    match from_header {
        Some(name) => name,
        None => match spec_url_basename(m.final_url@) {
            Some(name) => name,
            None => "download.bin"@,
        },
    }
}

/// The leaf routed to `category`: that of the last entry for it (as a map
/// built from the entries in order keeps the last one).
pub open spec fn route_leaf(dirs: Seq<(String, String)>, category: Seq<char>) -> Option<Seq<char>>
    decreases dirs.len(),
{
    if dirs.len() == 0 {
        None
    } else if dirs.last().0@ == category {
        Some(dirs.last().1@)
    } else {
        route_leaf(dirs.drop_last(), category)
    }
}

/// Where the download is saved. With routing: `<dest>/<leaf>/<name>` with
/// the leaf picked by the name's category. Otherwise `dest` itself, unless
/// it is a directory (or ends in a separator), then `<dest>/<name>`.
pub open spec fn spec_resolve_destination(
    o: DownloadOptions,
    m: RemoteMetadata,
    dest_is_dir: bool,
) -> Seq<char> {
    let name = spec_download_name(m);
    match o.routing {
        Some(routing) => {
            let leaf = match route_leaf(routing.dirs@, spec_filetype_category(name)) {
                Some(l) => l,
                None => routing.other@,
            };
            path_join_of(path_join_of(o.dest_path@, leaf), name)
        },
        None => {
            let d = o.dest_path@;
            let wants_dir = dest_is_dir || (d.len() > 0 && (d.last() == '/' || d.last() == '\\'));
            if wants_dir {
                path_join_of(d, name)
            } else {
                d
            }
        },
    }
}

/// Everything a download is started with. Delays are in milliseconds.
#[derive(Debug, Clone)]
pub struct DownloadOptions {
    pub url: String,
    pub dest_path: String,
    pub chunk_size: u64,
    pub connections: usize,
    pub max_attempts: u32,
    pub retry_base_delay_ms: u64,
    pub retry_max_delay_ms: u64,
    pub checkpoint_interval_ms: u64,
    pub resume: bool,
    /// When set, the destination is `<dest_path>/<category leaf>/<name>`.
    pub routing: Option<FiletypeRouting>,
}

impl Default for DownloadOptions {
    fn default() -> (o: DownloadOptions)
        ensures
            o.url@ == Seq::<char>::empty(),
            o.dest_path@ == Seq::<char>::empty(),
            o.chunk_size == 8 * 1024 * 1024,
            o.connections == 8,
            o.max_attempts == 5,
            o.retry_base_delay_ms == 500,
            o.retry_max_delay_ms == 30_000,
            o.checkpoint_interval_ms == 3000,
            o.resume,
            o.routing is None,
    {
        DownloadOptions {
            url: String::new(),
            dest_path: String::new(),
            chunk_size: 8 * 1024 * 1024,
            connections: 8,
            max_attempts: 5,
            retry_base_delay_ms: 500,
            retry_max_delay_ms: 30_000,
            checkpoint_interval_ms: 3000,
            resume: true,
            routing: None,
        }
    }
}

/// The file name to save under, see `spec_download_name`.
pub fn download_name(metadata: &RemoteMetadata) -> (name: String)
    ensures
        name@ == spec_download_name(*metadata),
{
    let from_header = match &metadata.content_disposition {
        Some(cd) => parse_content_disposition_filename(cd.as_str()),
        None => None,
    };
    match from_header {
        Some(name) => name,
        None => match url_basename(metadata.final_url.as_str()) {
            Some(name) => name,
            None => string_from_str("download.bin"),
        },
    }
}

fn lookup_leaf(dirs: &Vec<(String, String)>, category: &str) -> (leaf: Option<String>)
    ensures
        match leaf {
            Some(l) => route_leaf(dirs@, category@) == Some(l@),
            None => route_leaf(dirs@, category@) is None,
        },
{
    let mut i: usize = dirs.len();
    assert(dirs@.take(i as int) =~= dirs@);
    while i > 0
        invariant
            i <= dirs.len(),
            route_leaf(dirs@.take(i as int), category@) == route_leaf(dirs@, category@),
        decreases i,
    {
        assert(dirs@.take(i as int).last() == dirs@[i - 1]);
        if crate::text::str_equal(dirs[i - 1].0.as_str(), category) {
            return Some(dirs[i - 1].1.clone());
        }
        assert(dirs@.take(i as int).drop_last() =~= dirs@.take(i - 1));
        i = i - 1;
    }
    None
}

/// Where the download is saved; `dest_is_dir` tells whether `dest_path`
/// names an existing directory.
pub fn resolve_destination(
    options: &DownloadOptions,
    metadata: &RemoteMetadata,
    dest_is_dir: bool,
) -> (dest: String)
    ensures
        dest@ == spec_resolve_destination(*options, *metadata, dest_is_dir),
{
    let name = download_name(metadata);
    match &options.routing {
        Some(routing) => {
            let category = filetype_category(name.as_str());
            let leaf = match lookup_leaf(&routing.dirs, category) {
                Some(l) => l,
                None => routing.other.clone(),
            };
            let dir = path_join(options.dest_path.as_str(), leaf.as_str());
            path_join(dir.as_str(), name.as_str())
        },
        None => {
            let d = chars_of(options.dest_path.as_str());
            let wants_dir = dest_is_dir || (d.len() > 0 && (d[d.len() - 1] == '/' || d[d.len() - 1]
                == '\\'));
            if wants_dir {
                path_join(options.dest_path.as_str(), name.as_str())
            } else {
                options.dest_path.clone()
            }
        },
    }
}


/// What tells the listed extensions apart: length, first two characters
/// and last character.
spec fn ext_signature(e: Seq<char>) -> (nat, char, char, char) {
    (e.len(), e[0], e[1], e.last())
}


/// The signatures of the video extensions.
proof fn lemma_video_signatures(e: Seq<char>)
    requires
        video_exts().contains(e),
    ensures
        ext_signature(e) == (3nat, 'm', 'p', '4') || ext_signature(e) == (3nat, 'm', 'k', 'v') || ext_signature(e) == (3nat, 'a', 'v', 'i') || ext_signature(e) == (3nat, 'm', 'o', 'v') || ext_signature(e) == (4nat, 'w', 'e', 'm') || ext_signature(e) == (3nat, 'm', '4', 'v') || ext_signature(e) == (3nat, 'f', 'l', 'v') || ext_signature(e) == (3nat, 'w', 'm', 'v') || ext_signature(e) == (3nat, 'm', 'p', 'g') || ext_signature(e) == (4nat, 'm', 'p', 'g'),
{
    let i = choose|i: int| 0 <= i < video_exts().len() && video_exts()[i] == e;
    if i == 0 {
        reveal_strlit("mp4");
    }
    if i == 1 {
        reveal_strlit("mkv");
    }
    if i == 2 {
        reveal_strlit("avi");
    }
    if i == 3 {
        reveal_strlit("mov");
    }
    if i == 4 {
        reveal_strlit("webm");
    }
    if i == 5 {
        reveal_strlit("m4v");
    }
    if i == 6 {
        reveal_strlit("flv");
    }
    if i == 7 {
        reveal_strlit("wmv");
    }
    if i == 8 {
        reveal_strlit("mpg");
    }
    if i == 9 {
        reveal_strlit("mpeg");
    }
}

/// The signatures of the image extensions.
proof fn lemma_image_signatures(e: Seq<char>)
    requires
        image_exts().contains(e),
    ensures
        ext_signature(e) == (3nat, 'j', 'p', 'g') || ext_signature(e) == (4nat, 'j', 'p', 'g') || ext_signature(e) == (3nat, 'p', 'n', 'g') || ext_signature(e) == (3nat, 'g', 'i', 'f') || ext_signature(e) == (4nat, 'w', 'e', 'p') || ext_signature(e) == (3nat, 'b', 'm', 'p') || ext_signature(e) == (3nat, 's', 'v', 'g') || ext_signature(e) == (4nat, 'h', 'e', 'c') || ext_signature(e) == (4nat, 'a', 'v', 'f') || ext_signature(e) == (3nat, 'i', 'c', 'o') || ext_signature(e) == (4nat, 't', 'i', 'f'),
{
    let i = choose|i: int| 0 <= i < image_exts().len() && image_exts()[i] == e;
    if i == 0 {
        reveal_strlit("jpg");
    }
    if i == 1 {
        reveal_strlit("jpeg");
    }
    if i == 2 {
        reveal_strlit("png");
    }
    if i == 3 {
        reveal_strlit("gif");
    }
    if i == 4 {
        reveal_strlit("webp");
    }
    if i == 5 {
        reveal_strlit("bmp");
    }
    if i == 6 {
        reveal_strlit("svg");
    }
    if i == 7 {
        reveal_strlit("heic");
    }
    if i == 8 {
        reveal_strlit("avif");
    }
    if i == 9 {
        reveal_strlit("ico");
    }
    if i == 10 {
        reveal_strlit("tiff");
    }
}

/// The signatures of the audio extensions.
proof fn lemma_audio_signatures(e: Seq<char>)
    requires
        audio_exts().contains(e),
    ensures
        ext_signature(e) == (3nat, 'm', 'p', '3') || ext_signature(e) == (3nat, 'w', 'a', 'v') || ext_signature(e) == (4nat, 'f', 'l', 'c') || ext_signature(e) == (3nat, 'o', 'g', 'g') || ext_signature(e) == (3nat, 'm', '4', 'a') || ext_signature(e) == (3nat, 'a', 'a', 'c') || ext_signature(e) == (4nat, 'o', 'p', 's') || ext_signature(e) == (3nat, 'w', 'm', 'a'),
{
    let i = choose|i: int| 0 <= i < audio_exts().len() && audio_exts()[i] == e;
    if i == 0 {
        reveal_strlit("mp3");
    }
    if i == 1 {
        reveal_strlit("wav");
    }
    if i == 2 {
        reveal_strlit("flac");
    }
    if i == 3 {
        reveal_strlit("ogg");
    }
    if i == 4 {
        reveal_strlit("m4a");
    }
    if i == 5 {
        reveal_strlit("aac");
    }
    if i == 6 {
        reveal_strlit("opus");
    }
    if i == 7 {
        reveal_strlit("wma");
    }
}

/// The signatures of the archive extensions.
proof fn lemma_archive_signatures(e: Seq<char>)
    requires
        archive_exts().contains(e),
    ensures
        ext_signature(e) == (3nat, 'z', 'i', 'p') || ext_signature(e) == (3nat, 't', 'a', 'r') || ext_signature(e) == (2nat, 'g', 'z', 'z') || ext_signature(e) == (3nat, 't', 'g', 'z') || ext_signature(e) == (3nat, 'b', 'z', '2') || ext_signature(e) == (2nat, 'x', 'z', 'z') || ext_signature(e) == (2nat, '7', 'z', 'z') || ext_signature(e) == (3nat, 'r', 'a', 'r') || ext_signature(e) == (3nat, 'z', 's', 't') || ext_signature(e) == (3nat, 'i', 's', 'o'),
{
    let i = choose|i: int| 0 <= i < archive_exts().len() && archive_exts()[i] == e;
    if i == 0 {
        reveal_strlit("zip");
    }
    if i == 1 {
        reveal_strlit("tar");
    }
    if i == 2 {
        reveal_strlit("gz");
    }
    if i == 3 {
        reveal_strlit("tgz");
    }
    if i == 4 {
        reveal_strlit("bz2");
    }
    if i == 5 {
        reveal_strlit("xz");
    }
    if i == 6 {
        reveal_strlit("7z");
    }
    if i == 7 {
        reveal_strlit("rar");
    }
    if i == 8 {
        reveal_strlit("zst");
    }
    if i == 9 {
        reveal_strlit("iso");
    }
}

/// The signatures of the document extensions.
proof fn lemma_document_signatures(e: Seq<char>)
    requires
        document_exts().contains(e),
    ensures
        ext_signature(e) == (3nat, 'p', 'd', 'f') || ext_signature(e) == (3nat, 'd', 'o', 'c') || ext_signature(e) == (4nat, 'd', 'o', 'x') || ext_signature(e) == (3nat, 'x', 'l', 's') || ext_signature(e) == (4nat, 'x', 'l', 'x') || ext_signature(e) == (3nat, 'p', 'p', 't') || ext_signature(e) == (4nat, 'p', 'p', 'x') || ext_signature(e) == (3nat, 't', 'x', 't') || ext_signature(e) == (2nat, 'm', 'd', 'd') || ext_signature(e) == (3nat, 'o', 'd', 't') || ext_signature(e) == (3nat, 'o', 'd', 's') || ext_signature(e) == (4nat, 'e', 'p', 'b'),
{
    let i = choose|i: int| 0 <= i < document_exts().len() && document_exts()[i] == e;
    if i == 0 {
        reveal_strlit("pdf");
    }
    if i == 1 {
        reveal_strlit("doc");
    }
    if i == 2 {
        reveal_strlit("docx");
    }
    if i == 3 {
        reveal_strlit("xls");
    }
    if i == 4 {
        reveal_strlit("xlsx");
    }
    if i == 5 {
        reveal_strlit("ppt");
    }
    if i == 6 {
        reveal_strlit("pptx");
    }
    if i == 7 {
        reveal_strlit("txt");
    }
    if i == 8 {
        reveal_strlit("md");
    }
    if i == 9 {
        reveal_strlit("odt");
    }
    if i == 10 {
        reveal_strlit("ods");
    }
    if i == 11 {
        reveal_strlit("epub");
    }
}

/// No extension is in two of the lists.
proof fn lemma_extension_lists_are_disjoint(e: Seq<char>)
    ensures
        video_exts().contains(e) ==> !image_exts().contains(e) && !audio_exts().contains(e)
            && !archive_exts().contains(e) && !document_exts().contains(e),
        image_exts().contains(e) ==> !audio_exts().contains(e) && !archive_exts().contains(e)
            && !document_exts().contains(e),
        audio_exts().contains(e) ==> !archive_exts().contains(e) && !document_exts().contains(e),
        archive_exts().contains(e) ==> !document_exts().contains(e),
{
    if video_exts().contains(e) {
        lemma_video_signatures(e);
    }
    if image_exts().contains(e) {
        lemma_image_signatures(e);
    }
    if audio_exts().contains(e) {
        lemma_audio_signatures(e);
    }
    if archive_exts().contains(e) {
        lemma_archive_signatures(e);
    }
    if document_exts().contains(e) {
        lemma_document_signatures(e);
    }
}

/// Files are sorted by their extension, case-insensitively: a name whose
/// extension is on the video, image, audio, archive or document list falls
/// in that category, and one on none of them in `other`.
pub proof fn lemma_category_follows_the_extension_lists(name: Seq<char>)
    ensures
        ({
            let e = ascii_lower(extension_of(name));
            &&& video_exts().contains(e) ==> spec_filetype_category(name) == "video"@
            &&& image_exts().contains(e) ==> spec_filetype_category(name) == "image"@
            &&& audio_exts().contains(e) ==> spec_filetype_category(name) == "audio"@
            &&& archive_exts().contains(e) ==> spec_filetype_category(name) == "archive"@
            &&& document_exts().contains(e) ==> spec_filetype_category(name) == "document"@
            &&& !video_exts().contains(e) && !image_exts().contains(e) && !audio_exts().contains(e)
                && !archive_exts().contains(e) && !document_exts().contains(e)
                ==> spec_filetype_category(name) == "other"@
        }),
{
    lemma_extension_lists_are_disjoint(ascii_lower(extension_of(name)));
}


/// `trim_start(s)` is `s` from some index on.
proof fn lemma_trim_start_piece(s: Seq<char>) -> (lo: int)
    ensures
        0 <= lo <= s.len(),
        trim_start(s) == s.subrange(lo, s.len() as int),
    decreases s.len(),
{
    if s.len() > 0 && is_ws(s[0]) {
        let lo = lemma_trim_start_piece(s.drop_first());
        assert(s.drop_first().subrange(lo, s.len() - 1) =~= s.subrange(lo + 1, s.len() as int));
        lo + 1
    } else {
        assert(s.subrange(0, s.len() as int) =~= s);
        0
    }
}

/// `trim_end(s)` is `s` up to some index.
proof fn lemma_trim_end_piece(s: Seq<char>) -> (hi: int)
    ensures
        0 <= hi <= s.len(),
        trim_end(s) == s.subrange(0, hi),
    decreases s.len(),
{
    if s.len() > 0 && is_ws(s.last()) {
        let hi = lemma_trim_end_piece(s.drop_last());
        assert(s.drop_last().subrange(0, hi) =~= s.subrange(0, hi));
        hi
    } else {
        assert(s.subrange(0, s.len() as int) =~= s);
        s.len() as int
    }
}

/// A character that is nowhere in `s` is nowhere in `trim(s)` either.
proof fn lemma_trim_adds_nothing(s: Seq<char>, c: char)
    requires
        !s.contains(c),
    ensures
        !trim(s).contains(c),
{
    let lo = lemma_trim_start_piece(s);
    let t = trim_start(s);
    let hi = lemma_trim_end_piece(t);
    if trim(s).contains(c) {
        let k = choose|k: int| 0 <= k < trim(s).len() && trim(s)[k] == c;
        assert(trim(s)[k] == s[lo + k]);
    }
}

/// Splitting skips over a stretch without the separator.
proof fn lemma_split_passes(s: Seq<char>, c: char, start: int, i: int, j: int)
    requires
        0 <= start <= i <= j <= s.len(),
        forall|k: int| i <= k < j ==> s[k] != c,
    ensures
        split_from(s, c, start, i) == split_from(s, c, start, j),
    decreases j - i,
{
    if i < j {
        lemma_split_passes(s, c, start, i + 1, j);
    }
}

/// A quoted name keeps every character: `filename="N"` after a disposition
/// type offers exactly `N` (spaces, dots and all), provided `N` is not empty,
/// names no directory, holds no `;` and does not itself start or end with a
/// quote, and the disposition type holds no `;` or `=`.
pub proof fn lemma_quoted_filename_is_kept_whole(kind: Seq<char>, n: Seq<char>)
    requires
        !kind.contains(';'),
        !kind.contains('='),
        n.len() > 0,
        !n.contains('/'),
        !n.contains('\\'),
        !n.contains(';'),
        n[0] != '"',
        n.last() != '"',
    ensures
        spec_disposition_filename(kind + "; filename=\""@ + n + "\""@) == Some(n),
{
    reveal_strlit("; filename=\"");
    reveal_strlit("\"");
    reveal_strlit("filename=");
    reveal_strlit("filename=\"");
    let head = "; filename=\""@;
    let v = kind + head + n + "\""@;
    let k = kind.len() as int;
    let b = v.subrange(k + 1, v.len() as int);
    // the value splits into the disposition type and the filename part
    assert forall|x: int| 0 <= x < k implies v[x] != ';' by {
        assert(v[x] == kind[x]);
    }
    lemma_split_passes(v, ';', 0, 0, k);
    assert(v[k] == ';');
    assert forall|x: int| k + 1 <= x < v.len() implies v[x] != ';' by {
        if x < k + 12 {
            assert(v[x] == head[x - k]);
        } else if x < k + 12 + n.len() {
            assert(v[x] == n[x - k - 12]);
        } else {
            assert(v[x] == '"');
        }
    }
    lemma_split_passes(v, ';', k + 1, k + 1, v.len() as int);
    assert(v.subrange(0, k) =~= kind);
    let parts = split_on(v, ';');
    assert(parts =~= seq![kind, b]);
    // the disposition type offers no name
    if trim(kind).len() >= 9 && trim(kind).subrange(0, 9) == "filename="@ {
        lemma_trim_adds_nothing(kind, '=');
        assert("filename="@[8] == '=');
        assert(trim(kind).subrange(0, 9)[8] == trim(kind)[8]);
        assert(trim(kind).contains('='));
    }
    assert(disposition_candidate(kind) is None);
    assert(parts.drop_first() =~= seq![b]);
    // the filename part offers `n`
    let p = b.drop_first();
    assert(b =~= seq![' '] + "filename=\""@ + n + "\""@);
    assert(p =~= "filename=\""@ + n + "\""@);
    lemma_trim_start_at(b, 1);
    assert(b.subrange(1, b.len() as int) =~= p);
    lemma_trim_end_at(p, p.len() as int);
    assert(p.subrange(0, p.len() as int) =~= p);
    assert(trim(b) == p);
    assert(p.subrange(0, 9) =~= "filename="@);
    let q = p.skip(9);
    assert(q =~= seq!['"'] + n + seq!['"']);
    lemma_trim_start_at(q, 0);
    assert(q.subrange(0, q.len() as int) =~= q);
    lemma_trim_end_at(q, q.len() as int);
    assert(trim(q) == q);
    assert(q.drop_first() =~= n + seq!['"']);
    assert((n + seq!['"']).drop_last() =~= n);
    assert(trim_quotes(n) == n);
    assert(trim_quotes(n + seq!['"']) == trim_quotes(n));
    assert(trim_quotes(q) == n);
    assert(disposition_candidate(b) == Some(n));
    assert(seq![b][0] == b);
    assert(first_candidate(seq![b]) == Some(n));
    assert(parts[0] == kind);
    assert(first_candidate(parts) == Some(n));
}


/// No piece of a split holds the separator.
proof fn lemma_split_pieces_avoid(s: Seq<char>, c: char, start: int, i: int)
    requires
        0 <= start <= i <= s.len(),
        forall|k: int| start <= k < i ==> s[k] != c,
    ensures
        forall|j: int| 0 <= j < split_from(s, c, start, i).len() ==> !(#[trigger] split_from(s, c, start, i)[j]).contains(c),
    decreases s.len() - i,
{
    let pieces = split_from(s, c, start, i);
    if i >= s.len() {
        let piece = s.subrange(start, s.len() as int);
        if piece.contains(c) {
            let k = choose|k: int| 0 <= k < piece.len() && piece[k] == c;
            assert(s[start + k] == c);
        }
        assert(pieces =~= seq![piece]);
        assert(pieces[0] == piece);
    } else if s[i] == c {
        let piece = s.subrange(start, i);
        if piece.contains(c) {
            let k = choose|k: int| 0 <= k < piece.len() && piece[k] == c;
            assert(s[start + k] == c);
        }
        lemma_split_pieces_avoid(s, c, i + 1, i + 1);
        let rest = split_from(s, c, i + 1, i + 1);
        assert forall|j: int| 0 <= j < pieces.len() implies !(#[trigger] pieces[j]).contains(c) by {
            assert(pieces == seq![piece] + rest);
            if j > 0 {
                assert(pieces[j] == rest[j - 1]);
            } else {
                assert(pieces[0] == piece);
            }
        }
    } else {
        lemma_split_pieces_avoid(s, c, start, i + 1);
        assert(pieces == split_from(s, c, start, i + 1));
    }
}

/// A name found in a `Content-Disposition` value is not empty and names no
/// directory.
proof fn lemma_disposition_name_is_plain(parts: Seq<Seq<char>>)
    ensures
        first_candidate(parts) matches Some(name) ==> name.len() > 0 && !name.contains('/'),
    decreases parts.len(),
{
    if parts.len() > 0 {
        lemma_disposition_name_is_plain(parts.drop_first());
    }
}

/// The name a download is saved under is never empty and never holds a `/`.
pub proof fn lemma_download_name_is_a_plain_name(m: RemoteMetadata)
    ensures
        spec_download_name(m).len() > 0,
        !spec_download_name(m).contains('/'),
{
    if let Some(cd) = m.content_disposition {
        lemma_disposition_name_is_plain(split_on(cd@, ';'));
    }
    if let Some(p) = url_path_of(m.final_url@) {
        if p.len() > 0 && p[0] == '/' {
            lemma_split_nonempty(p.drop_first(), '/', 0, 0);
            lemma_split_pieces_avoid(p.drop_first(), '/', 0, 0);
            let pieces = split_on(p.drop_first(), '/');
            assert(pieces.last() == pieces[pieces.len() - 1]);
        }
    }
    reveal_strlit("download.bin");
    assert("download.bin"@[0] == 'd');
    if "download.bin"@.contains('/') {
        let k = choose|k: int| 0 <= k < "download.bin"@.len() && "download.bin"@[k] == '/';
    }
}

/// Saving into a directory: without routing, when `dest` is an existing
/// directory or ends in a separator, the file is saved in it under the
/// download name, so the destination is `dest` followed by the name (a path
/// strictly longer than `dest` that starts with it); otherwise `dest` is
/// the file itself.
pub proof fn lemma_directory_destination_gets_the_download_name(
    o: DownloadOptions,
    m: RemoteMetadata,
    dest_is_dir: bool,
)
    requires
        o.routing is None,
    ensures
        ({
            let d = o.dest_path@;
            let name = spec_download_name(m);
            let r = spec_resolve_destination(o, m, dest_is_dir);
            let wants_dir = dest_is_dir || (d.len() > 0 && (d.last() == '/' || d.last() == '\\'));
            &&& wants_dir ==> r == (if d.len() > 0 && d.last() != '/' { d + seq!['/'] + name } else { d + name })
            &&& wants_dir ==> r.len() > d.len() && r.subrange(0, d.len() as int) == d
                && r.subrange(r.len() - name.len(), r.len() as int) == name
            &&& !wants_dir ==> r == d
        }),
{
    let d = o.dest_path@;
    let name = spec_download_name(m);
    lemma_download_name_is_a_plain_name(m);
    assert(name[0] != '/') by {
        if name[0] == '/' {
            assert(name.contains('/'));
        }
    }
    let r = spec_resolve_destination(o, m, dest_is_dir);
    if d.len() > 0 && d.last() != '/' {
        assert((d + seq!['/'] + name).subrange(0, d.len() as int) =~= d);
        assert((d + seq!['/'] + name).subrange(d.len() + 1 as int, (d.len() + 1 + name.len()) as int) =~= name);
    } else {
        assert((d + name).subrange(0, d.len() as int) =~= d);
        assert((d + name).subrange(d.len() as int, (d.len() + name.len()) as int) =~= name);
    }
}


/// The extension is what follows the last dot: for `stem.ext` with no dot
/// in `ext`, it is `ext`, whatever dots `stem` holds.
pub proof fn lemma_extension_follows_the_last_dot(stem: Seq<char>, ext: Seq<char>)
    requires
        !ext.contains('.'),
    ensures
        extension_of(stem + seq!['.'] + ext) == ext,
{
    let name = stem + seq!['.'] + ext;
    lemma_last_dot_after(stem + seq!['.'], ext);
    assert(name.skip(stem.len() + 1 as int) =~= ext);
    assert(name == (stem + seq!['.']) + ext);
}

/// Appending dot-free text keeps the last dot where it was.
proof fn lemma_last_dot_after(head: Seq<char>, tail: Seq<char>)
    requires
        !tail.contains('.'),
        head.len() > 0,
        head.last() == '.',
    ensures
        last_dot(head + tail) == Some(head.len() - 1),
    decreases tail.len(),
{
    if tail.len() == 0 {
        assert(head + tail =~= head);
    } else {
        let s = head + tail;
        assert(s.last() == tail.last());
        assert(tail.last() != '.') by {
            if tail.last() == '.' {
                assert(tail.contains('.'));
            }
        }
        assert(!tail.drop_last().contains('.')) by {
            if tail.drop_last().contains('.') {
                let k = choose|k: int| 0 <= k < tail.drop_last().len() && tail.drop_last()[k] == '.';
                assert(tail[k] == '.');
            }
        }
        lemma_last_dot_after(head, tail.drop_last());
        assert(s.drop_last() =~= head + tail.drop_last());
    }
}

} // verus!
