//! The TOML configuration (`shard.conf`): its sections, built-in defaults and
//! the typed `config set` rules.

use vstd::prelude::*;
use crate::cli::style::ColorChoice;
use crate::paths::{path_join, path_join_of};
use crate::text::{debug_quoted, debug_quoted_of, chars_eq_str, parse_i64, push_str, spec_parse_i64, chars_of, split_lines, starts_with_str, str_lines, string_from_chars, string_from_str, sub_vec, trim, trim_quotes, trim_quotes_vec, trim_vec, views};

verus! {

#[derive(Debug, Clone, Copy, PartialEq, Eq, Structural)]
pub struct StyleSection {
    pub color: ColorChoice,
    pub prefer_eyecandy: bool,
}

#[derive(Debug, Clone)]
pub struct DownloadSection {
    pub connections: usize,
    pub chunk_size: u64,
    pub max_attempts: u32,
    pub retry_base_ms: u64,
    pub retry_max_ms: u64,
    pub checkpoint_ms: u64,
    pub resume: bool,
    pub download_dir: String,
}

/// Directory leaves, under the download directory, per file category.
#[derive(Debug, Clone)]
pub struct FiletypeSection {
    pub video: String,
    pub image: String,
    pub audio: String,
    pub archive: String,
    pub document: String,
    pub other: String,
}

#[derive(Debug, Clone)]
pub struct Config {
    pub style: StyleSection,
    pub download: DownloadSection,
    pub filetype: FiletypeSection,
}

pub fn default_color() -> (c: ColorChoice)
    ensures
        c == ColorChoice::Auto,
{
    ColorChoice::Auto
}

pub fn default_prefer_eyecandy() -> (b: bool)
    ensures
        !b,
{
    false
}

pub fn default_connections() -> (n: usize)
    ensures
        n == 8,
{
    8
}

pub fn default_chunk_size() -> (n: u64)
    ensures
        n == 8 * 1024 * 1024,
{
    8 * 1024 * 1024
}

pub fn default_max_attempts() -> (n: u32)
    ensures
        n == 5,
{
    5
}

pub fn default_retry_base_ms() -> (n: u64)
    ensures
        n == 500,
{
    500
}

pub fn default_retry_max_ms() -> (n: u64)
    ensures
        n == 30_000,
{
    30_000
}

pub fn default_checkpoint_ms() -> (n: u64)
    ensures
        n == 3000,
{
    3000
}

pub fn default_resume() -> (b: bool)
    ensures
        b,
{
    true
}

pub fn default_video_dir() -> (s: String)
    ensures
        s@ == "Videos"@,
{
    string_from_str("Videos")
}

pub fn default_image_dir() -> (s: String)
    ensures
        s@ == "Images"@,
{
    string_from_str("Images")
}

pub fn default_audio_dir() -> (s: String)
    ensures
        s@ == "Audio"@,
{
    string_from_str("Audio")
}

pub fn default_archive_dir() -> (s: String)
    ensures
        s@ == "Archives"@,
{
    string_from_str("Archives")
}

pub fn default_document_dir() -> (s: String)
    ensures
        s@ == "Documents"@,
{
    string_from_str("Documents")
}

pub fn default_other_dir() -> (s: String)
    ensures
        s@ == "Other"@,
{
    string_from_str("Other")
}

impl StyleSection {
    /// Color `auto`, no eyecandy.
    pub fn default_section() -> (s: StyleSection)
        ensures
            s == (StyleSection { color: ColorChoice::Auto, prefer_eyecandy: false }),
    {
        StyleSection { color: default_color(), prefer_eyecandy: default_prefer_eyecandy() }
    }
}

impl DownloadSection {
    /// The built-in download settings, saving under `download_dir`.
    pub fn default_section(download_dir: String) -> (s: DownloadSection)
        ensures
            s.connections == 8,
            s.chunk_size == 8 * 1024 * 1024,
            s.max_attempts == 5,
            s.retry_base_ms == 500,
            s.retry_max_ms == 30_000,
            s.checkpoint_ms == 3000,
            s.resume,
            s.download_dir == download_dir,
    {
        DownloadSection {
            connections: default_connections(),
            chunk_size: default_chunk_size(),
            max_attempts: default_max_attempts(),
            retry_base_ms: default_retry_base_ms(),
            retry_max_ms: default_retry_max_ms(),
            checkpoint_ms: default_checkpoint_ms(),
            resume: default_resume(),
            download_dir,
        }
    }
}

impl FiletypeSection {
    /// `Videos`, `Images`, `Audio`, `Archives`, `Documents` and `Other`.
    pub fn default_section() -> (s: FiletypeSection)
        ensures
            s.video@ == "Videos"@,
            s.image@ == "Images"@,
            s.audio@ == "Audio"@,
            s.archive@ == "Archives"@,
            s.document@ == "Documents"@,
            s.other@ == "Other"@,
    {
        FiletypeSection {
            video: default_video_dir(),
            image: default_image_dir(),
            audio: default_audio_dir(),
            archive: default_archive_dir(),
            document: default_document_dir(),
            other: default_other_dir(),
        }
    }
}

impl Config {
    /// The configuration used when no file exists or it is blank: every
    /// section at its defaults, saving under `download_dir`.
    pub fn with_defaults(download_dir: String) -> (c: Config)
        ensures
            c.style == StyleSection::default_section_spec(),
            c.download.connections == 8,
            c.download.chunk_size == 8 * 1024 * 1024,
            c.download.max_attempts == 5,
            c.download.retry_base_ms == 500,
            c.download.retry_max_ms == 30_000,
            c.download.checkpoint_ms == 3000,
            c.download.resume,
            c.download.download_dir == download_dir,
            c.filetype.video@ == "Videos"@,
            c.filetype.image@ == "Images"@,
            c.filetype.audio@ == "Audio"@,
            c.filetype.archive@ == "Archives"@,
            c.filetype.document@ == "Documents"@,
            c.filetype.other@ == "Other"@,
    {
        Config {
            style: StyleSection::default_section(),
            download: DownloadSection::default_section(download_dir),
            filetype: FiletypeSection::default_section(),
        }
    }
}

impl StyleSection {
    pub open spec fn default_section_spec() -> StyleSection {
        StyleSection { color: ColorChoice::Auto, prefer_eyecandy: false }
    }
}

/// Whether a configuration file's text holds nothing but whitespace (such a
/// file means the defaults).
pub fn is_blank(body: &str) -> (b: bool)
    ensures
        b == (trim(body@).len() == 0),
{
    let cs = chars_of(body);
    trim_vec(cs.as_slice()).len() == 0
}

/// Where the configuration file lives: `<base>/shard/shard.conf` with the
/// base `$XDG_CONFIG_HOME`, else `<home>/.config`, else empty.
pub fn config_path(xdg_config_home: Option<&str>, home: Option<&str>) -> (p: String)
    ensures
        p@ == path_join_of(
            path_join_of(
                match xdg_config_home {
                    Some(x) => x@,
                    None => match home {
                        Some(h) => path_join_of(h@, ".config"@),
                        None => Seq::<char>::empty(),
                    },
                },
                "shard"@,
            ),
            "shard.conf"@,
        ),
{
    let base = match xdg_config_home {
        Some(x) => string_from_str(x),
        None => match home {
            Some(h) => path_join(h, ".config"),
            None => String::new(),
        },
    };
    let dir = path_join(base.as_str(), "shard");
    path_join(dir.as_str(), "shard.conf")
}

/// `config init` refuses to overwrite an existing file.
pub fn init_refusal(exists: bool, path: &str) -> (r: Result<(), String>)
    ensures
        exists ==> (r matches Err(m) && m@ == "config already exists at "@ + path@),
        !exists ==> r is Ok,
{
    if exists {
        let mut m = string_from_str("config already exists at ");
        push_str(&mut m, path);
        Err(m)
    } else {
        Ok(())
    }
}

/// `s` with every `$HOME` replaced by `home`, scanning left to right.
pub open spec fn replace_home(s: Seq<char>, home: Seq<char>) -> Seq<char>
    decreases s.len(),
{
    if s.len() < 5 {
        s
    } else if s.subrange(0, 5) == "$HOME"@ {
        home + replace_home(s.skip(5), home)
    } else {
        seq![s[0]] + replace_home(s.drop_first(), home)
    }
}

/// The value of the first `XDG_DOWNLOAD_DIR=` line among `lines`.
pub open spec fn first_download_dir_line(lines: Seq<Seq<char>>) -> Option<Seq<char>>
    decreases lines.len(),
{
    if lines.len() == 0 {
        None
    } else if lines[0].len() >= 17 && lines[0].subrange(0, 17) == "XDG_DOWNLOAD_DIR="@ {
        Some(lines[0].skip(17))
    } else {
        first_download_dir_line(lines.drop_first())
    }
}

/// The default download directory: `~/Downloads`, unless the user-dirs file
/// names another `XDG_DOWNLOAD_DIR` (quotes dropped, `$HOME` expanded).
pub open spec fn spec_default_download_dir(home: Seq<char>, user_dirs: Option<Seq<char>>) -> Seq<
    char,
> {
    let candidate = path_join_of(home, "Downloads"@);
    match user_dirs {
        None => candidate,
        Some(body) => match first_download_dir_line(str_lines(body)) {
            None => candidate,
            Some(rest) => {
                let expanded = replace_home(trim_quotes(trim(rest)), home);
                if expanded.len() == 0 {
                    candidate
                } else {
                    expanded
                }
            },
        },
    }
}

fn replace_home_exec(s: &[char], home: &str) -> (out: Vec<char>)
    ensures
        out@ == replace_home(s@, home@),
{
    let h = chars_of(home);
    let mut out: Vec<char> = Vec::new();
    let mut i: usize = 0;
    assert(s@.skip(0) =~= s@);
    while i < s.len()
        invariant
            i <= s.len(),
            h@ == home@,
            out@ + replace_home(s@.skip(i as int), home@) == replace_home(s@, home@),
        decreases s.len() - i,
    {
        let ghost rest = s@.skip(i as int);
        if s.len() - i >= 5 && s[i] == '$' && s[i + 1] == 'H' && s[i + 2] == 'O' && s[i + 3] == 'M'
            && s[i + 4] == 'E' {
            proof {
                reveal_strlit("$HOME");
                assert(rest.subrange(0, 5) =~= "$HOME"@);
                assert(rest.skip(5) =~= s@.skip(i + 5));
            }
            let ghost before = out@;
            let mut k: usize = 0;
            while k < h.len()
                invariant
                    k <= h.len(),
                    out@ == before + h@.take(k as int),
                decreases h.len() - k,
            {
                out.push(h[k]);
                k = k + 1;
                assert(out@ =~= before + h@.take(k as int));
            }
            assert(h@.take(k as int) =~= h@);
            assert(out@ + replace_home(s@.skip(i + 5), home@) =~= before + replace_home(rest, home@));
            i = i + 5;
        } else {
            proof {
                if rest.len() >= 5 {
                    reveal_strlit("$HOME");
                    if rest.subrange(0, 5) == "$HOME"@ {
                        assert(rest.subrange(0, 5)[0] == '$');
                        assert(rest.subrange(0, 5)[1] == 'H');
                        assert(rest.subrange(0, 5)[2] == 'O');
                        assert(rest.subrange(0, 5)[3] == 'M');
                        assert(rest.subrange(0, 5)[4] == 'E');
                    }
                }
                assert(rest.drop_first() =~= s@.skip(i + 1));
            }
            let ghost before = out@;
            out.push(s[i]);
            proof {
                if rest.len() < 5 {
                    let r2 = s@.skip(i + 1);
                    assert(replace_home(r2, home@) == r2);
                    assert(rest =~= seq![s@[i as int]] + r2);
                }
            }
            assert(out@ + replace_home(s@.skip(i + 1), home@) =~= before + replace_home(rest, home@));
            i = i + 1;
        }
    }
    assert(s@.skip(i as int) =~= Seq::<char>::empty());
    out
}

/// The default download directory, given `$HOME` and the body of the
/// user-dirs file when it could be read.
pub fn default_download_dir(home: &str, user_dirs: Option<&str>) -> (dir: String)
    ensures
        dir@ == spec_default_download_dir(home@, match user_dirs {
            Some(b) => Some(b@),
            None => None,
        }),
{
    let candidate = path_join(home, "Downloads");
    let body = match user_dirs {
        Some(body) => body,
        None => return candidate,
    };
    let cs = chars_of(body);
    let lines = split_lines(cs.as_slice());
    let mut i: usize = 0;
    assert(views(lines@).skip(0) =~= views(lines@));
    while i < lines.len()
        invariant
            i <= lines.len(),
            views(lines@) == str_lines(body@),
            user_dirs == Some(body),
            candidate@ == path_join_of(home@, "Downloads"@),
            first_download_dir_line(views(lines@).skip(i as int)) == first_download_dir_line(
                views(lines@),
            ),
        decreases lines.len() - i,
    {
        let line = &lines[i];
        assert(views(lines@).skip(i as int)[0] == line@);
        if starts_with_str(line.as_slice(), "XDG_DOWNLOAD_DIR=") {
            proof {
                reveal_strlit("XDG_DOWNLOAD_DIR=");
                let tail = views(lines@).skip(i as int);
                assert(tail[0].len() >= 17 && tail[0].subrange(0, 17) == "XDG_DOWNLOAD_DIR="@);
                assert(first_download_dir_line(tail) == Some(tail[0].skip(17)));
            }
            let rest = sub_vec(line.as_slice(), 17, line.len());
            assert(rest@ =~= line@.skip(17));
            let trimmed = trim_vec(rest.as_slice());
            let unquoted = trim_quotes_vec(trimmed.as_slice());
            let expanded = replace_home_exec(unquoted.as_slice(), home);
            assert(expanded@ == replace_home(trim_quotes(trim(line@.skip(17))), home@));
            assert(first_download_dir_line(str_lines(body@)) == Some(line@.skip(17)));
            if expanded.len() == 0 {
                return candidate;
            }
            return string_from_chars(expanded.as_slice());
        }
        proof {
            reveal_strlit("XDG_DOWNLOAD_DIR=");
            assert(views(lines@).skip(i as int).drop_first() =~= views(lines@).skip(i + 1));
        }
        i = i + 1;
    }
    candidate
}

/// The settable keys, in the order `config keys` lists them.
pub open spec fn all_keys() -> Seq<Seq<char>> {
    seq![
        "color"@, "prefer-eyecandy"@, "connections"@, "chunk_size"@, "max_attempts"@,
        "retry_base_ms"@, "retry_max_ms"@, "checkpoint_ms"@, "resume"@, "download_dir"@,
        "filetype.video"@, "filetype.image"@, "filetype.audio"@, "filetype.archive"@,
        "filetype.document"@, "filetype.other"@,
    ]
}

impl Config {
    /// Every key `config set` accepts.
    pub fn keys() -> (keys: [&'static str; 16])
        ensures
            keys@.map_values(|k: &str| k@) == all_keys(),
    {
        let keys = [
            "color",
            "prefer-eyecandy",
            "connections",
            "chunk_size",
            "max_attempts",
            "retry_base_ms",
            "retry_max_ms",
            "checkpoint_ms",
            "resume",
            "download_dir",
            "filetype.video",
            "filetype.image",
            "filetype.audio",
            "filetype.archive",
            "filetype.document",
            "filetype.other",
        ];
        assert(keys@.map_values(|k: &str| k@) =~= all_keys());
        keys
    }
}

/// The table a key lives in.
#[derive(Debug, Clone, Copy, PartialEq, Eq, Structural)]
pub enum Section {
    Style,
    Download,
    Filetype,
}

impl Section {
    /// The table's name in the file.
    pub fn as_str(self) -> (s: &'static str)
        ensures
            s@ == match self {
                Section::Style => "style"@,
                Section::Download => "download"@,
                Section::Filetype => "filetype"@,
            },
    {
        match self {
            Section::Style => "style",
            Section::Download => "download",
            Section::Filetype => "filetype",
        }
    }
}

/// A typed value to store under a key.
#[derive(Debug, Clone, PartialEq, Eq)]
pub enum SetValue {
    Boolean(bool),
    Integer(i64),
    Text(String),
}

/// Where and what `config set` writes.
#[derive(Debug)]
pub struct SetEntry {
    pub section: Section,
    pub field: String,
    pub value: SetValue,
}

pub open spec fn is_download_key(k: Seq<char>) -> bool {
    ||| k == "connections"@
    ||| k == "chunk_size"@
    ||| k == "max_attempts"@
    ||| k == "retry_base_ms"@
    ||| k == "retry_max_ms"@
    ||| k == "checkpoint_ms"@
    ||| k == "resume"@
    ||| k == "download_dir"@
}

pub open spec fn is_filetype_key(k: Seq<char>) -> bool {
    ||| k == "filetype.video"@
    ||| k == "filetype.image"@
    ||| k == "filetype.audio"@
    ||| k == "filetype.archive"@
    ||| k == "filetype.document"@
    ||| k == "filetype.other"@
}

pub open spec fn is_integer_key(k: Seq<char>) -> bool {
    ||| k == "connections"@
    ||| k == "chunk_size"@
    ||| k == "max_attempts"@
    ||| k == "retry_base_ms"@
    ||| k == "retry_max_ms"@
    ||| k == "checkpoint_ms"@
}

/// The words `true`, `yes`, `on`, `1` and `false`, `no`, `off`, `0`.
pub open spec fn spec_parse_bool(v: Seq<char>) -> Option<bool> {
    if v == "true"@ || v == "yes"@ || v == "on"@ || v == "1"@ {
        Some(true)
    } else if v == "false"@ || v == "no"@ || v == "off"@ || v == "0"@ {
        Some(false)
    } else {
        None
    }
}

pub open spec fn bool_error_text(field: Seq<char>, value: Seq<char>) -> Seq<char> {
    field + " must be true or false, got "@ + debug_quoted_of(value)
}

pub open spec fn positive_error_text(field: Seq<char>) -> Seq<char> {
    field + " must be a positive integer"@
}

pub open spec fn color_error_text() -> Seq<char> {
    "color must be auto, always, or never"@
}

/// The keys joined by `", "`.
pub open spec fn join_keys(keys: Seq<Seq<char>>) -> Seq<char>
    decreases keys.len(),
{
    if keys.len() == 0 {
        Seq::empty()
    } else if keys.len() == 1 {
        keys[0]
    } else {
        join_keys(keys.drop_last()) + ", "@ + keys.last()
    }
}

pub open spec fn unknown_key_text(key: Seq<char>) -> Seq<char> {
    "unknown key "@ + debug_quoted_of(key) + "; pick one of: "@ + join_keys(all_keys())
}

/// A boolean setting.
pub fn parse_bool(value: &str, field: &str) -> (r: Result<bool, String>)
    ensures
        match r {
            Ok(b) => spec_parse_bool(value@) == Some(b),
            Err(msg) => spec_parse_bool(value@) is None && msg@ == bool_error_text(field@, value@),
        },
{
    let v = chars_of(value);
    let v = v.as_slice();
    if chars_eq_str(v, "true") || chars_eq_str(v, "yes") || chars_eq_str(v, "on") || chars_eq_str(v, "1") {
        Ok(true)
    } else if chars_eq_str(v, "false") || chars_eq_str(v, "no") || chars_eq_str(v, "off")
        || chars_eq_str(v, "0") {
        Ok(false)
    } else {
        let mut msg = crate::text::string_from_str(field);
        push_str(&mut msg, " must be true or false, got ");
        let quoted = debug_quoted(value);
        push_str(&mut msg, quoted.as_str());
        assert(msg@ =~= bool_error_text(field@, value@));
        Err(msg)
    }
}

/// A strictly positive integer setting.
pub fn parse_positive(value: &str, field: &str) -> (r: Result<i64, String>)
    ensures
        match r {
            Ok(n) => spec_parse_i64(value@) == Some(n as int) && n > 0,
            Err(msg) => !(spec_parse_i64(value@) matches Some(n) && n > 0) && msg@
                == positive_error_text(field@),
        },
{
    let v = chars_of(value);
    match parse_i64(v.as_slice()) {
        Some(n) => {
            if n > 0 {
                return Ok(n);
            }
        },
        None => {},
    }
    let mut msg = crate::text::string_from_str(field);
    push_str(&mut msg, " must be a positive integer");
    assert(msg@ =~= positive_error_text(field@));
    Err(msg)
}

/// A stored value as a mathematical value.
pub enum SetValueModel {
    Boolean(bool),
    Integer(int),
    Text(Seq<char>),
}

impl View for SetValue {
    type V = SetValueModel;

    open spec fn view(&self) -> SetValueModel {
        match self {
            SetValue::Boolean(b) => SetValueModel::Boolean(*b),
            SetValue::Integer(n) => SetValueModel::Integer(*n as int),
            SetValue::Text(s) => SetValueModel::Text(s@),
        }
    }
}

/// The table of a known key.
pub open spec fn key_section(key: Seq<char>) -> Option<Section> {
    if key == "color"@ || key == "prefer-eyecandy"@ {
        Some(Section::Style)
    } else if is_download_key(key) {
        Some(Section::Download)
    } else if is_filetype_key(key) {
        Some(Section::Filetype)
    } else {
        None
    }
}

/// The field name within its table (`filetype.` dropped).
pub open spec fn key_field(key: Seq<char>) -> Seq<char> {
    if is_filetype_key(key) { key.skip(9) } else { key }
}

/// The value stored for `field`, or the message refusing it.
pub open spec fn field_value(field: Seq<char>, value: Seq<char>) -> Result<SetValueModel, Seq<char>> {
    if field == "color"@ {
        if value == "auto"@ || value == "always"@ || value == "never"@ {
            Ok(SetValueModel::Text(value))
        } else {
            Err(color_error_text())
        }
    } else if field == "prefer-eyecandy"@ || field == "resume"@ {
        match spec_parse_bool(value) {
            Some(b) => Ok(SetValueModel::Boolean(b)),
            None => Err(bool_error_text(field, value)),
        }
    } else if is_integer_key(field) {
        match spec_parse_i64(value) {
            Some(n) => if n > 0 {
                Ok(SetValueModel::Integer(n))
            } else {
                Err(positive_error_text(field))
            },
            None => Err(positive_error_text(field)),
        }
    } else {
        Ok(SetValueModel::Text(value))
    }
}

fn is_download_word(k: &[char]) -> (b: bool)
    ensures
        b == is_download_key(k@),
{
    chars_eq_str(k, "connections") || chars_eq_str(k, "chunk_size") || chars_eq_str(k, "max_attempts")
        || chars_eq_str(k, "retry_base_ms") || chars_eq_str(k, "retry_max_ms") || chars_eq_str(
        k,
        "checkpoint_ms",
    ) || chars_eq_str(k, "resume") || chars_eq_str(k, "download_dir")
}

fn is_filetype_word(k: &[char]) -> (b: bool)
    ensures
        b == is_filetype_key(k@),
{
    chars_eq_str(k, "filetype.video") || chars_eq_str(k, "filetype.image") || chars_eq_str(
        k,
        "filetype.audio",
    ) || chars_eq_str(k, "filetype.archive") || chars_eq_str(k, "filetype.document")
        || chars_eq_str(k, "filetype.other")
}

fn is_integer_word(k: &[char]) -> (b: bool)
    ensures
        b == is_integer_key(k@),
{
    chars_eq_str(k, "connections") || chars_eq_str(k, "chunk_size") || chars_eq_str(k, "max_attempts")
        || chars_eq_str(k, "retry_base_ms") || chars_eq_str(k, "retry_max_ms") || chars_eq_str(
        k,
        "checkpoint_ms",
    )
}

fn unknown_key_message(key: &str) -> (msg: String)
    ensures
        msg@ == unknown_key_text(key@),
{
    let mut msg = crate::text::string_from_str("unknown key ");
    let quoted = debug_quoted(key);
    push_str(&mut msg, quoted.as_str());
    push_str(&mut msg, "; pick one of: ");
    let keys = Config::keys();
    let ghost all = all_keys();
    let ghost prefix = msg@;
    push_str(&mut msg, keys[0]);
    let mut i: usize = 1;
    assert(all.take(1).drop_last() =~= Seq::<Seq<char>>::empty());
    assert(msg@ =~= prefix + join_keys(all.take(1)));
    while i < 16
        invariant
            1 <= i <= 16,
            keys@.map_values(|k: &str| k@) == all,
            all == all_keys(),
            msg@ == prefix + join_keys(all.take(i as int)),
        decreases 16 - i,
    {
        assert(keys@.map_values(|k: &str| k@)[i as int] == keys[i as int]@);
        push_str(&mut msg, ", ");
        push_str(&mut msg, keys[i]);
        assert(all.take(i + 1).drop_last() =~= all.take(i as int));
        i = i + 1;
        assert(msg@ =~= prefix + join_keys(all.take(i as int)));
    }
    assert(all.take(16) =~= all);
    msg
}

/// Checks and types `config set key value`: the key must be one of
/// `Config::keys()`; `color` takes `auto`, `always` or `never`; the two
/// switches take a boolean word; the counts and delays take a positive
/// integer; directories take any text.
pub fn parse_set_value(key: &str, value: &str) -> (r: Result<SetEntry, String>)
    ensures
        match r {
            Ok(entry) => key_section(key@) == Some(entry.section) && entry.field@ == key_field(key@)
                && field_value(key_field(key@), value@) == Ok::<SetValueModel, Seq<char>>(entry.value@),
            Err(msg) => match key_section(key@) {
                None => msg@ == unknown_key_text(key@),
                Some(_) => field_value(key_field(key@), value@) == Err::<SetValueModel, Seq<char>>(msg@),
            },
        },
{
    let k = chars_of(key);
    let kk = k.as_slice();
    let section = if chars_eq_str(kk, "color") || chars_eq_str(kk, "prefer-eyecandy") {
        Section::Style
    } else if is_download_word(kk) {
        Section::Download
    } else if is_filetype_word(kk) {
        Section::Filetype
    } else {
        return Err(unknown_key_message(key));
    };
    let field = if is_filetype_word(kk) {
        proof {
            reveal_strlit("filetype.video");
            reveal_strlit("filetype.image");
            reveal_strlit("filetype.audio");
            reveal_strlit("filetype.archive");
            reveal_strlit("filetype.document");
            reveal_strlit("filetype.other");
        }
        let f = crate::text::sub_vec(kk, 9, k.len());
        assert(f@ =~= key@.skip(9));
        f
    } else {
        crate::text::sub_vec(kk, 0, k.len())
    };
    assert(field@ =~= key_field(key@));
    let fs = field.as_slice();
    let value_result: Result<SetValue, String> = if chars_eq_str(fs, "color") {
        let v = chars_of(value);
        if chars_eq_str(v.as_slice(), "auto") || chars_eq_str(v.as_slice(), "always")
            || chars_eq_str(v.as_slice(), "never") {
            Ok(SetValue::Text(crate::text::string_from_str(value)))
        } else {
            Err(crate::text::string_from_str("color must be auto, always, or never"))
        }
    } else if chars_eq_str(fs, "prefer-eyecandy") || chars_eq_str(fs, "resume") {
        let name = crate::text::string_from_chars(fs);
        match parse_bool(value, name.as_str()) {
            Ok(b) => Ok(SetValue::Boolean(b)),
            Err(msg) => Err(msg),
        }
    } else if is_integer_word(fs) {
        let name = crate::text::string_from_chars(fs);
        match parse_positive(value, name.as_str()) {
            Ok(n) => Ok(SetValue::Integer(n)),
            Err(msg) => Err(msg),
        }
    } else {
        Ok(SetValue::Text(crate::text::string_from_str(value)))
    };
    match value_result {
        Ok(v) => Ok(SetEntry { section, field: crate::text::string_from_chars(fs), value: v }),
        Err(msg) => Err(msg),
    }
}

/// `config set` knows exactly the keys `config keys` lists: a key has a
/// section if and only if it is one of them.
pub proof fn lemma_settable_keys_are_the_listed_keys(key: Seq<char>)
    ensures
        key_section(key) is Some <==> all_keys().contains(key),
{
    let keys = all_keys();
    if key_section(key) is Some {
        if key == "color"@ { assert(keys[0] == key); }
        else if key == "prefer-eyecandy"@ { assert(keys[1] == key); }
        else if key == "connections"@ { assert(keys[2] == key); }
        else if key == "chunk_size"@ { assert(keys[3] == key); }
        else if key == "max_attempts"@ { assert(keys[4] == key); }
        else if key == "retry_base_ms"@ { assert(keys[5] == key); }
        else if key == "retry_max_ms"@ { assert(keys[6] == key); }
        else if key == "checkpoint_ms"@ { assert(keys[7] == key); }
        else if key == "resume"@ { assert(keys[8] == key); }
        else if key == "download_dir"@ { assert(keys[9] == key); }
        else if key == "filetype.video"@ { assert(keys[10] == key); }
        else if key == "filetype.image"@ { assert(keys[11] == key); }
        else if key == "filetype.audio"@ { assert(keys[12] == key); }
        else if key == "filetype.archive"@ { assert(keys[13] == key); }
        else if key == "filetype.document"@ { assert(keys[14] == key); }
        else { assert(keys[15] == key); }
    }
    if keys.contains(key) {
        let i = choose|i: int| 0 <= i < keys.len() && keys[i] == key;
        assert(0 <= i < 16);
    }
}


/// The name of a section's table in the file.
pub open spec fn section_name(section: Section) -> Seq<char> {
    match section {
        Section::Style => "style"@,
        Section::Download => "download"@,
        Section::Filetype => "filetype"@,
    }
}

/// Whether the table named `section` of the TOML document `body` is itself a
/// table: `None` when the document has no such entry, and also when `body`
/// is not a TOML document (it then counts as an empty one).
pub uninterp spec fn toml_section_is_table_of(body: Seq<char>, section: Seq<char>) -> Option<bool>;

/// The TOML text of `body` with `field = value` set in the table `section`
/// (created when absent), or the serializer's error text. A `body` that is
/// not a TOML document counts as an empty one.
pub uninterp spec fn toml_with_setting_of(
    body: Seq<char>,
    section: Seq<char>,
    field: Seq<char>,
    value: SetValueModel,
) -> Result<Seq<char>, Seq<char>>;

/// Parses `body` with `toml::from_str` into a `toml::Table` (an empty one
/// when that fails), looks `section` up with `Map::get` and asks the entry
/// `Value::is_table`. The result is named, not spelled out: it is what the
/// toml crate's parser decides.
#[verifier::external_body]
fn toml_section_is_table(body: &str, section: &str) -> (r: Option<bool>)
    ensures
        r == toml_section_is_table_of(body@, section@),
{
    let doc: toml::Table = toml::from_str(body).unwrap_or_default();
    doc.get(section).map(toml::Value::is_table)
}

/// Parses `body` with `toml::from_str` (an empty `toml::Table` when that
/// fails), makes sure `section` is there with `Map::entry` and
/// `Entry::or_insert` of an empty table, inserts `field` with the value into
/// that table, and writes the document back with `toml::to_string`, whose
/// error becomes its text. The TOML text is named, not spelled out.
#[verifier::external_body]
fn toml_with_setting(body: &str, section: &str, field: &str, value: &SetValue) -> (r: Result<String, String>)
    requires
        toml_section_is_table_of(body@, section@) != Some(false),
    ensures
        toml_with_setting_of(body@, section@, field@, value@) == match r {
            Ok(t) => Ok::<Seq<char>, Seq<char>>(t@),
            Err(e) => Err::<Seq<char>, Seq<char>>(e@),
        },
{
    let mut doc: toml::Table = toml::from_str(body).unwrap_or_default();
    let parsed = match value {
        SetValue::Boolean(b) => toml::Value::Boolean(*b),
        SetValue::Integer(n) => toml::Value::Integer(*n),
        SetValue::Text(t) => toml::Value::String(t.clone()),
    };
    let entry = doc.entry(section.to_string()).or_insert(toml::Value::Table(toml::Table::new()));
    if let Some(table) = entry.as_table_mut() {
        table.insert(field.to_string(), parsed);
    }
    toml::to_string(&doc).map_err(|e| e.to_string())
}

pub open spec fn section_not_table_text() -> Seq<char> {
    "config section is not a table"@
}

/// What `config set key value` makes of the file's current text `current`
/// (empty when there is no file): the refusal of the key or value, the
/// refusal of a section entry that is not a table, or the new text.
pub open spec fn spec_config_set_body(current: Seq<char>, key: Seq<char>, value: Seq<char>) -> Result<Seq<char>, Seq<char>> {
    match key_section(key) {
        None => Err(unknown_key_text(key)),
        Some(section) => match field_value(key_field(key), value) {
            Err(msg) => Err(msg),
            Ok(v) => if toml_section_is_table_of(current, section_name(section)) == Some(false) {
                Err(section_not_table_text())
            } else {
                toml_with_setting_of(current, section_name(section), key_field(key), v)
            },
        },
    }
}

/// `config set`: checks the key and value, then gives the file's new text
/// with that one setting written into its section.
pub fn config_set_body(current: &str, key: &str, value: &str) -> (r: Result<String, String>)
    ensures
        match r {
            Ok(t) => spec_config_set_body(current@, key@, value@) == Ok::<Seq<char>, Seq<char>>(t@),
            Err(e) => spec_config_set_body(current@, key@, value@) == Err::<Seq<char>, Seq<char>>(e@),
        },
{
    let entry = match parse_set_value(key, value) {
        Ok(entry) => entry,
        Err(msg) => return Err(msg),
    };
    let section = entry.section.as_str();
    assert(section@ == section_name(entry.section));
    if toml_section_is_table(current, section) == Some(false) {
        return Err(string_from_str("config section is not a table"));
    }
    toml_with_setting(current, section, entry.field.as_str(), &entry.value)
}


/// A key `config keys` does not list, or a value its key does not take, is
/// refused before the file is looked at: the refusal is the same whatever
/// the file holds, so the app writes nothing.
pub proof fn lemma_refused_settings_ignore_the_file(c1: Seq<char>, c2: Seq<char>, key: Seq<char>, value: Seq<char>)
    requires
        key_section(key) is None || field_value(key_field(key), value) is Err,
    ensures
        spec_config_set_body(c1, key, value) is Err,
        spec_config_set_body(c1, key, value) == spec_config_set_body(c2, key, value),
{
}

} // verus!
