//! Download planning: the error kinds and lifecycle of a download, the choice
//! of format, the output file name, and the transfer strategy.

use vstd::prelude::*;
use crate::model::{extract_message, formats_view, ExtractError, FormatView, VideoFormat, VideoInfo};
use crate::progress::DownloadProgress;
use crate::text::{chars_of, is_infix, prefix_chars, same_text, string_of, take_chars, contains};

verus! {

/// Why a download failed.
#[derive(Debug, Clone)]
pub enum DownloadError {
    /// The extraction that precedes every download failed.
    ExtractError(ExtractError),
    /// The transfer failed; the text describes the failure.
    NetworkError(String),
    /// Local storage failed; the text describes the failure.
    IoError(String),
    /// The requested format is absent and there is no format at all.
    FormatNotFound(String),
    /// The external media tool is missing or failed; its diagnostic text.
    ExternalToolError(String),
    /// The caller cancelled the download.
    Cancelled,
}

/// The human-readable message of a download error.
pub open spec fn download_message(e: DownloadError) -> Seq<char> {
    match e {
        DownloadError::ExtractError(x) => "Extract error: "@ + extract_message(x),
        DownloadError::NetworkError(s) => "Network error: "@ + s@,
        DownloadError::IoError(s) => "IO error: "@ + s@,
        DownloadError::FormatNotFound(s) => "Format not found: "@ + s@,
        DownloadError::ExternalToolError(s) => "External tool error: "@ + s@,
        DownloadError::Cancelled => "Download cancelled"@,
    }
}

fn prefixed(prefix: &str, detail: &str) -> (r: String)
    ensures
        r@ == prefix@ + detail@,
{
    let mut m = String::from_str(prefix);
    m.append(detail);
    m
}

impl DownloadError {
    /// The human-readable message of this error.
    pub fn message(&self) -> (r: String)
        ensures
            r@ == download_message(*self),
    {
        match self {
            DownloadError::ExtractError(x) => {
                let inner = x.message();
                prefixed("Extract error: ", inner.as_str())
            },
            DownloadError::NetworkError(s) => prefixed("Network error: ", s.as_str()),
            DownloadError::IoError(s) => prefixed("IO error: ", s.as_str()),
            DownloadError::FormatNotFound(s) => prefixed("Format not found: ", s.as_str()),
            DownloadError::ExternalToolError(s) => prefixed("External tool error: ", s.as_str()),
            DownloadError::Cancelled => String::from_str("Download cancelled"),
        }
    }
}

/// The externally visible lifecycle of one download request.
#[derive(Debug, Clone, Copy, PartialEq, Eq, Structural)]
pub enum DownloadStatus {
    Pending,
    Downloading,
    Processing,
    Completed,
    Failed,
    Cancelled,
}

/// One download request as its caller tracks it.
#[derive(Debug, Clone)]
pub struct DownloadTask {
    pub id: String,
    pub url: String,
    pub title: String,
    pub status: DownloadStatus,
    pub progress: DownloadProgress,
}

/// The status in which a download ends: a cancellation is reported as such,
/// never as a failure.
pub open spec fn final_status<T>(result: Result<T, DownloadError>) -> DownloadStatus {
    match result {
        Ok(_) => DownloadStatus::Completed,
        Err(DownloadError::Cancelled) => DownloadStatus::Cancelled,
        Err(_) => DownloadStatus::Failed,
    }
}

/// The status in which a download with this result ends.
pub fn status_after<T>(result: &Result<T, DownloadError>) -> (r: DownloadStatus)
    ensures
        r == final_status(*result),
{
    match result {
        Ok(_) => DownloadStatus::Completed,
        Err(DownloadError::Cancelled) => DownloadStatus::Cancelled,
        Err(_) => DownloadStatus::Failed,
    }
}

/// The position of the first format whose identifier is `id`, if any.
pub open spec fn position_of(fs: Seq<FormatView>, id: Seq<char>) -> Option<int>
    decreases fs.len(),
{
    if fs.len() == 0 {
        None
    } else if fs.last().format_id == id && position_of(fs.drop_last(), id) is None {
        Some(fs.len() - 1)
    } else {
        position_of(fs.drop_last(), id)
    }
}

/// The position of the format chosen for the request `id`: the first with
/// that identifier, else the first of all.
pub open spec fn chosen_position(fs: Seq<FormatView>, id: Seq<char>) -> int {
    match position_of(fs, id) {
        Some(i) => i,
        None => 0,
    }
}

proof fn lemma_position_of(fs: Seq<FormatView>, id: Seq<char>)
    ensures
        match position_of(fs, id) {
            Some(i) => 0 <= i < fs.len() && fs[i].format_id == id && forall|j: int|
                0 <= j < i ==> (#[trigger] fs[j]).format_id != id,
            None => forall|j: int| 0 <= j < fs.len() ==> (#[trigger] fs[j]).format_id != id,
        },
    decreases fs.len(),
{
    if fs.len() > 0 {
        lemma_position_of(fs.drop_last(), id);
        assert forall|j: int| 0 <= j < fs.len() - 1 implies fs.drop_last()[j] == fs[j] by {}
    }
}

/// The format for the request `format_id`: the first with that identifier,
/// else the first format of all, since identifiers need not be stable across
/// extractions; an error only when there is no format at all.
pub fn select_format<'a>(info: &'a VideoInfo, format_id: &str) -> (r: Result<
    &'a VideoFormat,
    DownloadError,
>)
    ensures
        info.formats@.len() > 0 ==> r is Ok && *r->Ok_0 == info.formats@[chosen_position(
            formats_view(info.formats@),
            format_id@,
        )],
        info.formats@.len() > 0 && (forall|i: int|
            0 <= i < info.formats@.len() ==> (#[trigger] info.formats@[i]).format_id@
                != format_id@) ==> r is Ok && *r->Ok_0 == info.formats@[0],
        info.formats@.len() == 0 ==> r is Err && r->Err_0 is FormatNotFound
            && r->Err_0->FormatNotFound_0@ == format_id@,
{
    let ghost fs = formats_view(info.formats@);
    proof {
        lemma_position_of(fs, format_id@);
    }
    let mut i: usize = 0;
    while i < info.formats.len()
        invariant
            i <= info.formats@.len(),
            fs == formats_view(info.formats@),
            forall|j: int| 0 <= j < i ==> (#[trigger] info.formats@[j]).format_id@ != format_id@,
        decreases info.formats@.len() - i,
    {
        if same_text(info.formats[i].format_id.as_str(), format_id) {
            proof {
                lemma_position_of(fs, format_id@);
                match position_of(fs, format_id@) {
                    Some(p) => {
                        assert(fs[p] == info.formats@[p]@);
                        assert(fs[i as int] == info.formats@[i as int]@);
                    },
                    None => {
                        assert(fs[i as int] == info.formats@[i as int]@);
                    },
                }
            }
            return Ok(&info.formats[i]);
        }
        i = i + 1;
    }
    proof {
        lemma_position_of(fs, format_id@);
        match position_of(fs, format_id@) {
            Some(p) => {
                assert(fs[p] == info.formats@[p]@);
            },
            None => {},
        }
    }
    if info.formats.len() > 0 {
        Ok(&info.formats[0])
    } else {
        Err(DownloadError::FormatNotFound(String::from_str(format_id)))
    }
}

/// The longest file name stem, in characters.
pub const MAX_STEM_CHARS: usize = 200;

/// A character that file systems refuse in names.
pub open spec fn is_reserved(c: char) -> bool {
    c == '/' || c == '\\' || c == ':' || c == '*' || c == '?' || c == '"' || c == '<' || c == '>'
        || c == '|'
}

/// `c`, or `_` in place of a reserved character.
pub open spec fn safe_char(c: char) -> char {
    if is_reserved(c) {
        '_'
    } else {
        c
    }
}

/// `name` with each reserved character replaced by `_`, cut to
/// `MAX_STEM_CHARS` characters.
pub open spec fn sanitized(name: Seq<char>) -> Seq<char> {
    take_chars(name.map_values(|c: char| safe_char(c)), MAX_STEM_CHARS as nat)
}

/// A file name stem made of a title.
pub fn sanitize_filename(name: &str) -> (r: String)
    ensures
        r@ == sanitized(name@),
{
    let cs = chars_of(name);
    let mut out: Vec<char> = Vec::new();
    let mut i: usize = 0;
    while i < cs.len()
        invariant
            i <= cs@.len(),
            out@ == cs@.subrange(0, i as int).map_values(|c: char| safe_char(c)),
        decreases cs@.len() - i,
    {
        let c = cs[i];
        let d = if c == '/' || c == '\\' || c == ':' || c == '*' || c == '?' || c == '"' || c == '<'
            || c == '>' || c == '|' {
            '_'
        } else {
            c
        };
        out.push(d);
        i = i + 1;
        assert(out@ =~= cs@.subrange(0, i as int).map_values(|c: char| safe_char(c)));
    }
    assert(cs@.subrange(0, cs@.len() as int) =~= cs@);
    if out.len() > MAX_STEM_CHARS {
        let head = prefix_chars(&out, MAX_STEM_CHARS);
        string_of(&head)
    } else {
        string_of(&out)
    }
}

/// How the bytes of a format reach the disk.
#[derive(Debug, Clone, Copy, PartialEq, Eq, Structural)]
pub enum Transfer {
    /// A streamed HTTP transfer.
    Direct,
    /// A playlist handed to the external media tool, which writes one container.
    Transcode,
}

/// The format is a streaming playlist.
pub open spec fn is_playlist(f: FormatView) -> bool {
    is_infix(".m3u8"@, f.url) || f.ext == "m3u8"@
}

/// What to fetch, where to put it and how.
#[derive(Debug, Clone)]
pub struct DownloadPlan {
    pub url: String,
    pub file_name: String,
    pub transfer: Transfer,
}

/// The plan for the format `f` of a video titled `title`: a playlist is
/// transcoded into an MP4 file, any other format streamed under its own
/// extension.
pub open spec fn plan_for(title: Seq<char>, f: FormatView) -> (Seq<char>, Seq<char>, Transfer) {
    if is_playlist(f) {
        (f.url, sanitized(title) + "."@ + "mp4"@, Transfer::Transcode)
    } else {
        (f.url, sanitized(title) + "."@ + f.ext, Transfer::Direct)
    }
}

/// Chooses the format for the request `format_id` and plans its download.
pub fn plan_download(info: &VideoInfo, format_id: &str) -> (r: Result<DownloadPlan, DownloadError>)
    ensures
        info.formats@.len() > 0 ==> r is Ok && plan_for(
            info.title@,
            info.formats@[chosen_position(formats_view(info.formats@), format_id@)]@,
        ) == (r->Ok_0.url@, r->Ok_0.file_name@, r->Ok_0.transfer),
        info.formats@.len() == 0 ==> r is Err && r->Err_0 is FormatNotFound
            && r->Err_0->FormatNotFound_0@ == format_id@,
{
    let format = match select_format(info, format_id) {
        Ok(f) => f,
        Err(e) => return Err(e),
    };
    let playlist = contains(format.url.as_str(), ".m3u8") || same_text(format.ext.as_str(), "m3u8");
    let mut file_name = sanitize_filename(info.title.as_str());
    file_name.append(".");
    if playlist {
        file_name.append("mp4");
    } else {
        file_name.append(format.ext.as_str());
    }
    Ok(
        DownloadPlan {
            url: format.url.clone(),
            file_name,
            transfer: if playlist {
                Transfer::Transcode
            } else {
                Transfer::Direct
            },
        },
    )
}

/// The arguments of the external media tool for a transcode of `input` into
/// `output`: stream copy, the audio bitstream fix for the container,
/// overwrite, and machine-readable progress on standard output.
pub open spec fn tool_args(input: Seq<char>, output: Seq<char>) -> Seq<Seq<char>> {
    seq![
        "-i"@, input, "-c"@, "copy"@, "-bsf:a"@, "aac_adtstoasc"@, "-y"@, "-progress"@, "pipe:1"@,
        output,
    ]
}

/// The arguments of the external media tool for a transcode of `input` into
/// `output`.
pub fn transcode_args(input: &str, output: &str) -> (r: Vec<String>)
    ensures
        r@.map_values(|a: String| a@) == tool_args(input@, output@),
{
    let mut v: Vec<String> = Vec::new();
    v.push(String::from_str("-i"));
    v.push(String::from_str(input));
    v.push(String::from_str("-c"));
    v.push(String::from_str("copy"));
    v.push(String::from_str("-bsf:a"));
    v.push(String::from_str("aac_adtstoasc"));
    v.push(String::from_str("-y"));
    v.push(String::from_str("-progress"));
    v.push(String::from_str("pipe:1"));
    v.push(String::from_str(output));
    assert(v@.map_values(|a: String| a@) =~= tool_args(input@, output@));
    v
}

} // verus!
