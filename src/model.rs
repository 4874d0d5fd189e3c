//! The extraction result: video metadata, its candidate formats, the errors of
//! extraction, and the JSON documents that the site APIs answer with.

use vstd::prelude::*;

verus! {

/// One retrievable variant of a media resource.
#[derive(Debug, Clone)]
pub struct VideoFormat {
    pub format_id: String,
    pub ext: String,
    pub quality: String,
    pub url: String,
    pub filesize: Option<u64>,
    pub has_video: bool,
    pub has_audio: bool,
}

/// What a `VideoFormat` holds, as mathematical values.
pub struct FormatView {
    pub format_id: Seq<char>,
    pub ext: Seq<char>,
    pub quality: Seq<char>,
    pub url: Seq<char>,
    pub filesize: Option<u64>,
    pub has_video: bool,
    pub has_audio: bool,
}

impl View for VideoFormat {
    type V = FormatView;

    open spec fn view(&self) -> FormatView {
        FormatView {
            format_id: self.format_id@,
            ext: self.ext@,
            quality: self.quality@,
            url: self.url@,
            filesize: self.filesize,
            has_video: self.has_video,
            has_audio: self.has_audio,
        }
    }
}

/// Normalized result of one extraction.
#[derive(Debug, Clone)]
pub struct VideoInfo {
    pub id: String,
    pub title: String,
    pub thumbnail: Option<String>,
    pub duration: Option<u64>,
    pub uploader: Option<String>,
    pub formats: Vec<VideoFormat>,
    pub site: String,
}

/// What a `VideoInfo` holds, as mathematical values.
pub struct InfoView {
    pub id: Seq<char>,
    pub title: Seq<char>,
    pub thumbnail: Option<Seq<char>>,
    pub duration: Option<u64>,
    pub uploader: Option<Seq<char>>,
    pub formats: Seq<FormatView>,
    pub site: Seq<char>,
}

/// The view of an optional string.
pub open spec fn opt_view(o: Option<String>) -> Option<Seq<char>> {
    match o {
        Some(s) => Some(s@),
        None => None,
    }
}

/// The views of a sequence of formats.
pub open spec fn formats_view(fs: Seq<VideoFormat>) -> Seq<FormatView> {
    fs.map_values(|f: VideoFormat| f@)
}

impl View for VideoInfo {
    type V = InfoView;

    open spec fn view(&self) -> InfoView {
        InfoView {
            id: self.id@,
            title: self.title@,
            thumbnail: opt_view(self.thumbnail),
            duration: self.duration,
            uploader: opt_view(self.uploader),
            formats: formats_view(self.formats@),
            site: self.site@,
        }
    }
}

/// Why an extraction failed.
#[derive(Debug, Clone)]
pub enum ExtractError {
    /// The input is not usable as a URL.
    UnsupportedUrl(String),
    /// The transport failed; the text describes the failure.
    NetworkError(String),
    /// A page or response was reached but held nothing usable.
    ParseError(String),
    /// The remote side denied the resource or reported it empty.
    VideoNotFound,
}

/// The human-readable message of an extraction error.
pub open spec fn extract_message(e: ExtractError) -> Seq<char> {
    match e {
        ExtractError::UnsupportedUrl(s) => "Unsupported URL: "@ + s@,
        ExtractError::NetworkError(s) => "Network error: "@ + s@,
        ExtractError::ParseError(s) => "Parse error: "@ + s@,
        ExtractError::VideoNotFound => "Video not found"@,
    }
}

impl ExtractError {
    /// The human-readable message of this error.
    pub fn message(&self) -> (r: String)
        ensures
            r@ == extract_message(*self),
    {
        match self {
            ExtractError::UnsupportedUrl(s) => {
                let mut m = String::from_str("Unsupported URL: ");
                m.append(s.as_str());
                m
            },
            ExtractError::NetworkError(s) => {
                let mut m = String::from_str("Network error: ");
                m.append(s.as_str());
                m
            },
            ExtractError::ParseError(s) => {
                let mut m = String::from_str("Parse error: ");
                m.append(s.as_str());
                m
            },
            ExtractError::VideoNotFound => String::from_str("Video not found"),
        }
    }
}

/// `e` is a parse error with the message `msg`.
pub open spec fn is_parse_error(e: ExtractError, msg: Seq<char>) -> bool {
    e is ParseError && e->ParseError_0@ == msg
}

/// The views of an optional format.
pub open spec fn opt_format_view(o: Option<VideoFormat>) -> Option<FormatView> {
    match o {
        Some(f) => Some(f@),
        None => None,
    }
}

/// Some format of `fs` has the URL `url`.
pub open spec fn has_url(fs: Seq<FormatView>, url: Seq<char>) -> bool {
    exists|i: int| 0 <= i < fs.len() && (#[trigger] fs[i]).url == url
}

/// Some format of `fs` has the identifier `id`.
pub open spec fn has_id(fs: Seq<FormatView>, id: Seq<char>) -> bool {
    exists|i: int| 0 <= i < fs.len() && (#[trigger] fs[i]).format_id == id
}

/// No two formats share a URL.
pub open spec fn distinct_urls(fs: Seq<FormatView>) -> bool {
    forall|i: int, j: int| 0 <= i < j < fs.len() ==> (#[trigger] fs[i]).url != (#[trigger] fs[j]).url
}

/// No two formats share an identifier.
pub open spec fn distinct_ids(fs: Seq<FormatView>) -> bool {
    forall|i: int, j: int|
        0 <= i < j < fs.len() ==> (#[trigger] fs[i]).format_id != (#[trigger] fs[j]).format_id
}

/// `fs` without the formats whose URL or identifier an earlier kept format
/// already has: the first seen wins.
pub open spec fn keep_distinct(fs: Seq<FormatView>) -> Seq<FormatView>
    decreases fs.len(),
{
    if fs.len() == 0 {
        fs
    } else {
        let kept = keep_distinct(fs.drop_last());
        if has_url(kept, fs.last().url) || has_id(kept, fs.last().format_id) {
            kept
        } else {
            kept.push(fs.last())
        }
    }
}

/// What `keep_distinct` keeps shares neither a URL nor an identifier.
pub proof fn keep_distinct_is_distinct(fs: Seq<FormatView>)
    ensures
        distinct_urls(keep_distinct(fs)),
        distinct_ids(keep_distinct(fs)),
    decreases fs.len(),
{
    if fs.len() > 0 {
        keep_distinct_is_distinct(fs.drop_last());
        let kept = keep_distinct(fs.drop_last());
        let r = keep_distinct(fs);
        if r != kept {
            assert forall|i: int, j: int| 0 <= i < j < r.len() implies (#[trigger] r[i]).url != (
            #[trigger] r[j]).url && r[i].format_id != r[j].format_id by {
                if j == r.len() - 1 {
                    assert(r[i] == kept[i]);
                }
            }
        }
    }
}

pub(crate) fn has_url_exec(fs: &Vec<VideoFormat>, url: &str) -> (r: bool)
    ensures
        r == has_url(formats_view(fs@), url@),
{
    let mut i: usize = 0;
    while i < fs.len()
        invariant
            i <= fs@.len(),
            forall|j: int| 0 <= j < i ==> fs@[j].url@ != url@,
        decreases fs@.len() - i,
    {
        if crate::text::same_text(fs[i].url.as_str(), url) {
            assert(formats_view(fs@)[i as int].url == url@);
            return true;
        }
        i = i + 1;
    }
    assert forall|j: int| 0 <= j < formats_view(fs@).len() implies (#[trigger] formats_view(
        fs@,
    )[j]).url != url@ by {
        assert(formats_view(fs@)[j] == fs@[j]@);
    }
    false
}

fn has_id_exec(fs: &Vec<VideoFormat>, id: &str) -> (r: bool)
    ensures
        r == has_id(formats_view(fs@), id@),
{
    let mut i: usize = 0;
    while i < fs.len()
        invariant
            i <= fs@.len(),
            forall|j: int| 0 <= j < i ==> fs@[j].format_id@ != id@,
        decreases fs@.len() - i,
    {
        if crate::text::same_text(fs[i].format_id.as_str(), id) {
            assert(formats_view(fs@)[i as int].format_id == id@);
            return true;
        }
        i = i + 1;
    }
    assert forall|j: int| 0 <= j < formats_view(fs@).len() implies (#[trigger] formats_view(
        fs@,
    )[j]).format_id != id@ by {
        assert(formats_view(fs@)[j] == fs@[j]@);
    }
    false
}

/// Drops each format whose URL or identifier an earlier kept format already
/// has.
pub fn distinct_formats(formats: Vec<VideoFormat>) -> (r: Vec<VideoFormat>)
    ensures
        formats_view(r@) == keep_distinct(formats_view(formats@)),
        distinct_urls(formats_view(r@)),
        distinct_ids(formats_view(r@)),
{
    let ghost orig = formats@;
    let ghost all = formats_view(formats@);
    let mut rest = formats;
    let mut kept: Vec<VideoFormat> = Vec::new();
    let ghost mut done: int = 0;
    while rest.len() > 0
        invariant
            0 <= done <= all.len(),
            all == formats_view(orig),
            rest@ == orig.subrange(done, orig.len() as int),
            formats_view(kept@) == keep_distinct(all.subrange(0, done)),
        decreases rest@.len(),
    {
        let f = rest.remove(0);
        proof {
            let next = all.subrange(0, done + 1);
            assert(next.drop_last() =~= all.subrange(0, done));
            assert(next.last() == f@);
        }
        let seen = has_url_exec(&kept, f.url.as_str()) || has_id_exec(&kept, f.format_id.as_str());
        if !seen {
            let ghost before = kept@;
            kept.push(f);
            assert(formats_view(kept@) =~= formats_view(before).push(f@));
        }
        proof {
            done = done + 1;
            assert(rest@ =~= orig.subrange(done, orig.len() as int));
        }
    }
    assert(all.subrange(0, done) =~= all);
    proof {
        keep_distinct_is_distinct(all);
    }
    kept
}

/// A JSON document as the site APIs send it. A number keeps the value that
/// it has as an unsigned 64-bit integer, when it has one.
#[derive(Debug)]
pub enum Json {
    Null,
    Bool(bool),
    Number(Option<u64>),
    Str(String),
    Array(Vec<Json>),
    Object(Vec<(String, Json)>),
}

/// The value of the first entry named `key`.
pub open spec fn entry_value(entries: Seq<(String, Json)>, key: Seq<char>) -> Option<Json>
    decreases entries.len(),
{
    if entries.len() == 0 {
        None
    } else if entries[0].0@ == key {
        Some(entries[0].1)
    } else {
        entry_value(entries.drop_first(), key)
    }
}

/// The member `key` of an object; nothing for any other value.
pub open spec fn json_get(j: Json, key: Seq<char>) -> Option<Json> {
    match j {
        Json::Object(entries) => entry_value(entries@, key),
        _ => None,
    }
}

/// The text of a string value.
pub open spec fn json_str(j: Json) -> Option<Seq<char>> {
    match j {
        Json::Str(s) => Some(s@),
        _ => None,
    }
}

/// The value of a number that is an unsigned 64-bit integer.
pub open spec fn json_u64(j: Json) -> Option<u64> {
    match j {
        Json::Number(n) => n,
        _ => None,
    }
}

/// The items of an array.
pub open spec fn json_items(j: Json) -> Option<Seq<Json>> {
    match j {
        Json::Array(items) => Some(items@),
        _ => None,
    }
}

/// `json_get` followed by a step that reads the member.
pub open spec fn member_str(j: Json, key: Seq<char>) -> Option<Seq<char>> {
    match json_get(j, key) {
        Some(v) => json_str(v),
        None => None,
    }
}

/// The member `key` as an unsigned 64-bit integer.
pub open spec fn member_u64(j: Json, key: Seq<char>) -> Option<u64> {
    match json_get(j, key) {
        Some(v) => json_u64(v),
        None => None,
    }
}

/// The member `key` as the items of an array.
pub open spec fn member_items(j: Json, key: Seq<char>) -> Option<Seq<Json>> {
    match json_get(j, key) {
        Some(v) => json_items(v),
        None => None,
    }
}

/// `r` refers to the value that `s` holds, or both are empty.
pub open spec fn refers_to<T>(r: Option<&T>, s: Option<T>) -> bool {
    match r {
        Some(v) => s == Some(*v),
        None => s is None,
    }
}

impl Json {
    /// The member `key` of an object.
    pub fn get(&self, key: &str) -> (r: Option<&Json>)
        ensures
            refers_to(r, json_get(*self, key@)),
    {
        match self {
            Json::Object(entries) => {
                let mut i: usize = 0;
                assert(entries@.subrange(0, entries@.len() as int) =~= entries@);
                while i < entries.len()
                    invariant
                        i <= entries@.len(),
                        json_get(*self, key@) == entry_value(entries@, key@),
                        entry_value(entries@, key@) == entry_value(
                            entries@.subrange(i as int, entries@.len() as int),
                            key@,
                        ),
                    decreases entries@.len() - i,
                {
                    let ghost rest = entries@.subrange(i as int, entries@.len() as int);
                    assert(rest.drop_first() =~= entries@.subrange(i + 1, entries@.len() as int));
                    if crate::text::same_text(entries[i].0.as_str(), key) {
                        assert(rest[0] == entries@[i as int]);
                        assert(entry_value(rest, key@) == Some(entries@[i as int].1));
                        return Some(&entries[i].1);
                    }
                    i = i + 1;
                }
                None
            },
            _ => None,
        }
    }

    /// The text of a string value.
    pub fn as_str(&self) -> (r: Option<&String>)
        ensures
            match r {
                Some(s) => json_str(*self) == Some(s@),
                None => json_str(*self) is None,
            },
    {
        match self {
            Json::Str(s) => Some(s),
            _ => None,
        }
    }

    /// The value of a number that is an unsigned 64-bit integer.
    pub fn as_u64(&self) -> (r: Option<u64>)
        ensures
            r == json_u64(*self),
    {
        match self {
            Json::Number(n) => *n,
            _ => None,
        }
    }

    /// The member `key` as text.
    pub fn member_string(&self, key: &str) -> (r: Option<String>)
        ensures
            opt_view(r) == member_str(*self, key@),
    {
        match self.get(key) {
            Some(v) => match v.as_str() {
                Some(s) => Some(s.clone()),
                None => None,
            },
            None => None,
        }
    }

    /// The member `key` as an unsigned 64-bit integer.
    pub fn member_number(&self, key: &str) -> (r: Option<u64>)
        ensures
            r == member_u64(*self, key@),
    {
        match self.get(key) {
            Some(v) => v.as_u64(),
            None => None,
        }
    }

    /// The member `key` as the items of an array.
    pub fn member_array(&self, key: &str) -> (r: Option<&Vec<Json>>)
        ensures
            match r {
                Some(v) => member_items(*self, key@) == Some(v@),
                None => member_items(*self, key@) is None,
            },
    {
        match self.get(key) {
            Some(v) => v.as_array(),
            None => None,
        }
    }

    /// The items of an array.
    pub fn as_array(&self) -> (r: Option<&Vec<Json>>)
        ensures
            match r {
                Some(v) => json_items(*self) == Some(v@),
                None => json_items(*self) is None,
            },
    {
        match self {
            Json::Array(items) => Some(items),
            _ => None,
        }
    }
}

} // verus!
