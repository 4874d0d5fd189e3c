//! The video platform reached through its player API: which URLs it claims,
//! the video identifier in them, and the reading of the player response.

use vstd::prelude::*;
use crate::model::{
    distinct_formats, distinct_ids, distinct_urls, formats_view, is_parse_error, keep_distinct, json_get, member_items, member_str, member_u64, opt_format_view,
    opt_view, ExtractError, FormatView, InfoView, Json, VideoFormat, VideoInfo,
};
use crate::pattern::{first_group, is_match, regex_first_group, regex_is_match};
use crate::quality::{bitrate_label, by_rank, quality_for_bitrate, sort_by_quality};
use crate::text::{contains, decimal_string, decimal, is_infix, is_prefix, parse_u64, parsed_u64, starts_with};

verus! {

pub const WATCH_URL: &'static str = r"(?:https?://)?(?:www\.)?youtube\.com/watch\?v=";
pub const SHORTS_URL: &'static str = r"(?:https?://)?(?:www\.)?youtube\.com/shorts/";
pub const SHORT_LINK_URL: &'static str = r"(?:https?://)?youtu\.be/";
pub const WATCH_ID: &'static str = r"[?&]v=([a-zA-Z0-9_-]{11})";
pub const SHORT_LINK_ID: &'static str = r"youtu\.be/([a-zA-Z0-9_-]{11})";
pub const SHORTS_ID: &'static str = r"shorts/([a-zA-Z0-9_-]{11})";

/// The endpoint of the player API.
pub const PLAYER_API: &'static str = "https://www.youtube.com/youtubei/v1/player?prettyPrint=false";

pub const NO_VIDEO_ID: &'static str = "Could not extract video ID";
pub const NO_DETAILS: &'static str = "No video details";
pub const NO_FORMATS: &'static str = "No formats found";

/// The URLs that this platform claims.
pub open spec fn youtube_claims(url: Seq<char>) -> bool {
    regex_is_match(WATCH_URL@, url) || regex_is_match(SHORTS_URL@, url) || regex_is_match(
        SHORT_LINK_URL@,
        url,
    )
}

/// Whether this platform claims `url`.
pub fn is_youtube_url(url: &str) -> (r: bool)
    ensures
        r == youtube_claims(url@),
{
    is_match(WATCH_URL, url) || is_match(SHORTS_URL, url) || is_match(SHORT_LINK_URL, url)
}

/// The video identifier in `url`: from a `v=` parameter, else a short link,
/// else a shorts path.
pub open spec fn youtube_id(url: Seq<char>) -> Option<Seq<char>> {
    match regex_first_group(WATCH_ID@, url) {
        Some(id) => Some(id),
        None => match regex_first_group(SHORT_LINK_ID@, url) {
            Some(id) => Some(id),
            None => regex_first_group(SHORTS_ID@, url),
        },
    }
}

/// The video identifier in `url`.
pub fn extract_video_id(url: &str) -> (r: Option<String>)
    ensures
        opt_view(r) == youtube_id(url@),
{
    if let Some(id) = first_group(WATCH_ID, url) {
        return Some(id);
    }
    if let Some(id) = first_group(SHORT_LINK_ID, url) {
        return Some(id);
    }
    first_group(SHORTS_ID, url)
}

/// The video identifier in `url`, or the parse error that says it has none.
pub fn video_id_for(url: &str) -> (r: Result<String, ExtractError>)
    ensures
        match r {
            Ok(id) => youtube_id(url@) == Some(id@),
            Err(e) => youtube_id(url@) is None && is_parse_error(e, NO_VIDEO_ID@),
        },
{
    match extract_video_id(url) {
        Some(id) => Ok(id),
        None => Err(ExtractError::ParseError(String::from_str(NO_VIDEO_ID))),
    }
}

/// The container of a stream, from its declared media type.
pub open spec fn mime_ext(mime: Seq<char>) -> Seq<char> {
    if is_infix("mp4"@, mime) {
        "mp4"@
    } else if is_infix("webm"@, mime) {
        "webm"@
    } else if is_infix("3gpp"@, mime) {
        "3gp"@
    } else {
        "unknown"@
    }
}

fn ext_for_mime(mime: &str) -> (r: String)
    ensures
        r@ == mime_ext(mime@),
{
    if contains(mime, "mp4") {
        String::from_str("mp4")
    } else if contains(mime, "webm") {
        String::from_str("webm")
    } else if contains(mime, "3gpp") {
        String::from_str("3gp")
    } else {
        String::from_str("unknown")
    }
}

/// The quality of a stream: its declared label, else the bucket of its
/// bitrate (0 when none is declared).
pub open spec fn stream_quality(f: Json) -> Seq<char> {
    match member_str(f, "qualityLabel"@) {
        Some(label) => label,
        None => bitrate_label(
            match member_u64(f, "bitrate"@) {
                Some(b) => b as nat,
                None => 0,
            },
        ),
    }
}

/// The format that a stream entry of the player response describes: it needs
/// an `itag`, a `mimeType` and a `url`.
pub open spec fn stream_format(f: Json) -> Option<FormatView> {
    match (member_u64(f, "itag"@), member_str(f, "mimeType"@), member_str(f, "url"@)) {
        (Some(itag), Some(mime), Some(url)) => Some(
            FormatView {
                format_id: decimal(itag as nat),
                ext: mime_ext(mime),
                quality: stream_quality(f),
                url: url,
                filesize: match member_str(f, "contentLength"@) {
                    Some(s) => parsed_u64(s),
                    None => None,
                },
                has_video: is_prefix("video/"@, mime),
                has_audio: is_prefix("audio/"@, mime) || is_infix("audio"@, mime),
            },
        ),
        _ => None,
    }
}

/// Reads one stream entry of the player response.
pub fn parse_format(f: &Json) -> (r: Option<VideoFormat>)
    ensures
        opt_format_view(r) == stream_format(*f),
{
    let itag = match f.member_number("itag") {
        Some(n) => n,
        None => return None,
    };
    let mime = match f.member_string("mimeType") {
        Some(m) => m,
        None => return None,
    };
    let url = match f.member_string("url") {
        Some(u) => u,
        None => return None,
    };
    let has_video = starts_with(mime.as_str(), "video/");
    let has_audio = starts_with(mime.as_str(), "audio/") || contains(mime.as_str(), "audio");
    let quality = match f.member_string("qualityLabel") {
        Some(label) => label,
        None => {
            let bitrate = match f.member_number("bitrate") {
                Some(b) => b,
                None => 0,
            };
            quality_for_bitrate(bitrate)
        },
    };
    let filesize = match f.member_string("contentLength") {
        Some(s) => parse_u64(s.as_str()),
        None => None,
    };
    Some(
        VideoFormat {
            format_id: decimal_string(itag),
            ext: ext_for_mime(mime.as_str()),
            quality,
            url,
            filesize,
            has_video,
            has_audio,
        },
    )
}

/// The formats of the stream entries that describe one, in order.
pub open spec fn stream_formats(items: Seq<Json>) -> Seq<FormatView>
    decreases items.len(),
{
    if items.len() == 0 {
        Seq::empty()
    } else {
        match stream_format(items.last()) {
            Some(f) => stream_formats(items.drop_last()).push(f),
            None => stream_formats(items.drop_last()),
        }
    }
}

fn push_stream_formats(out: &mut Vec<VideoFormat>, items: &Vec<Json>)
    ensures
        formats_view(final(out)@) == formats_view(old(out)@) + stream_formats(items@),
{
    let mut i: usize = 0;
    while i < items.len()
        invariant
            i <= items@.len(),
            formats_view(out@) == formats_view(old(out)@) + stream_formats(
                items@.subrange(0, i as int),
            ),
        decreases items@.len() - i,
    {
        let ghost before = out@;
        proof {
            assert(items@.subrange(0, i + 1).drop_last() =~= items@.subrange(0, i as int));
        }
        if let Some(f) = parse_format(&items[i]) {
            out.push(f);
            assert(formats_view(out@) =~= formats_view(before).push(f@));
        }
        i = i + 1;
        assert(formats_view(out@) =~= formats_view(old(out)@) + stream_formats(
            items@.subrange(0, i as int),
        ));
    }
    assert(items@.subrange(0, items@.len() as int) =~= items@);
}

/// The stream entries under `key` of the response's streaming data.
pub open spec fn streams(response: Json, key: Seq<char>) -> Seq<Json> {
    match json_get(response, "streamingData"@) {
        Some(sd) => match member_items(sd, key) {
            Some(items) => items,
            None => Seq::empty(),
        },
        None => Seq::empty(),
    }
}

/// All formats of the response: progressive streams, then adaptive ones,
/// best quality first, without formats whose URL or identifier a better one
/// already has.
pub open spec fn player_formats(response: Json) -> Seq<FormatView> {
    keep_distinct(
        by_rank(
            stream_formats(streams(response, "formats"@)) + stream_formats(
                streams(response, "adaptiveFormats"@),
            ),
        ),
    )
}

/// The response reports the video as not playable.
pub open spec fn player_denied(response: Json) -> bool {
    match json_get(response, "playabilityStatus"@) {
        Some(status) => member_str(status, "status"@) == Some("ERROR"@),
        None => false,
    }
}

/// The URL of the last (largest) thumbnail.
pub open spec fn details_thumbnail(details: Json) -> Option<Seq<char>> {
    match json_get(details, "thumbnail"@) {
        Some(t) => match member_items(t, "thumbnails"@) {
            Some(items) => if items.len() > 0 {
                member_str(items.last(), "url"@)
            } else {
                None
            },
            None => None,
        },
        None => None,
    }
}

/// The metadata that a player response gives for `video_id`.
pub open spec fn player_info(video_id: Seq<char>, response: Json, details: Json) -> InfoView {
    InfoView {
        id: video_id,
        title: match member_str(details, "title"@) {
            Some(t) => t,
            None => "Unknown"@,
        },
        thumbnail: details_thumbnail(details),
        duration: match member_str(details, "lengthSeconds"@) {
            Some(s) => parsed_u64(s),
            None => None,
        },
        uploader: member_str(details, "author"@),
        formats: player_formats(response),
        site: "YouTube"@,
    }
}

fn thumbnail_of(details: &Json) -> (r: Option<String>)
    ensures
        opt_view(r) == details_thumbnail(*details),
{
    let t = match details.get("thumbnail") {
        Some(t) => t,
        None => return None,
    };
    let items = match t.member_array("thumbnails") {
        Some(items) => items,
        None => return None,
    };
    if items.len() == 0 {
        return None;
    }
    items[items.len() - 1].member_string("url")
}

/// Reads the player response for `video_id` into video metadata.
pub fn extract(video_id: &str, response: &Json) -> (r: Result<VideoInfo, ExtractError>)
    ensures
        player_denied(*response) ==> r == Err::<VideoInfo, ExtractError>(ExtractError::VideoNotFound),
        !player_denied(*response) ==> match json_get(*response, "videoDetails"@) {
            None => r is Err && is_parse_error(r->Err_0, NO_DETAILS@),
            Some(details) => if player_formats(*response).len() == 0 {
                r is Err && is_parse_error(r->Err_0, NO_FORMATS@)
            } else {
                r is Ok && r->Ok_0@ == player_info(video_id@, *response, details)
                    && distinct_urls(r->Ok_0@.formats) && distinct_ids(r->Ok_0@.formats)
            },
        },
{
    if let Some(status) = response.get("playabilityStatus") {
        if let Some(s) = status.member_string("status") {
            if crate::text::same_text(s.as_str(), "ERROR") {
                return Err(ExtractError::VideoNotFound);
            }
        }
    }
    let details = match response.get("videoDetails") {
        Some(d) => d,
        None => return Err(ExtractError::ParseError(String::from_str(NO_DETAILS))),
    };
    let title = match details.member_string("title") {
        Some(t) => t,
        None => String::from_str("Unknown"),
    };
    let thumbnail = thumbnail_of(details);
    let duration = match details.member_string("lengthSeconds") {
        Some(s) => parse_u64(s.as_str()),
        None => None,
    };
    let uploader = details.member_string("author");
    let mut formats: Vec<VideoFormat> = Vec::new();
    let ghost no_items: Seq<Json> = Seq::empty();
    if let Some(sd) = response.get("streamingData") {
        if let Some(items) = sd.member_array("formats") {
            push_stream_formats(&mut formats, items);
        } else {
            assert(stream_formats(no_items) =~= Seq::empty());
        }
    } else {
        assert(stream_formats(no_items) =~= Seq::empty());
    }
    let ghost progressive = formats_view(formats@);
    if let Some(sd) = response.get("streamingData") {
        if let Some(items) = sd.member_array("adaptiveFormats") {
            push_stream_formats(&mut formats, items);
        } else {
            assert(formats_view(formats@) =~= progressive + stream_formats(no_items));
        }
    } else {
        assert(formats_view(formats@) =~= progressive + stream_formats(no_items));
    }
    let formats = distinct_formats(sort_by_quality(formats));
    if formats.len() == 0 {
        return Err(ExtractError::ParseError(String::from_str(NO_FORMATS)));
    }
    let info = VideoInfo {
        id: video_id.to_string(),
        title,
        thumbnail,
        duration,
        uploader,
        formats,
        site: String::from_str("YouTube"),
    };
    Ok(info)
}

} // verus!
