//! The social platform, reached through two unofficial mirror APIs tried in
//! turn: which URLs it claims, the post identifier, the reading of each
//! mirror's answer and the fallback between them.

use vstd::prelude::*;
use crate::model::{
    distinct_formats, distinct_ids, distinct_urls, formats_view, is_parse_error, keep_distinct, json_get, json_str, member_items, member_str, member_u64,
    opt_view, ExtractError, FormatView, InfoView, Json, VideoFormat, VideoInfo,
};
use crate::pattern::{first_group, is_match, regex_first_group, regex_is_match};
use crate::quality::{bitrate_label, by_rank, quality_for_bitrate, sort_by_quality};
use crate::text::{abbreviate, abbreviated, contains, decimal, is_infix, with_number};

verus! {

pub const TWITTER_STATUS_URL: &'static str = r"(?:https?://)?(?:www\.)?twitter\.com/\w+/status/\d+";
pub const X_STATUS_URL: &'static str = r"(?:https?://)?(?:www\.)?x\.com/\w+/status/\d+";
pub const MOBILE_TWITTER_STATUS_URL: &'static str = r"(?:https?://)?(?:mobile\.)?twitter\.com/\w+/status/\d+";
pub const MOBILE_X_STATUS_URL: &'static str = r"(?:https?://)?(?:mobile\.)?x\.com/\w+/status/\d+";
pub const STATUS_ID: &'static str = r"/status/(\d+)";

pub const VX_API: &'static str = "https://api.vxtwitter.com/Twitter/status/";
pub const SYNDICATION_API: &'static str = "https://cdn.syndication.twimg.com/tweet-result?id=";
pub const SYNDICATION_QUERY: &'static str = "&lang=en&token=0";

pub const NO_TWEET_ID: &'static str = "Could not extract tweet ID";
pub const NO_VIDEO_IN_TWEET: &'static str = "No video found in tweet";
pub const NO_VIDEO_FROM_TWEET: &'static str = "Could not extract video from this tweet. The tweet may not contain a video, or the video may be protected.";

/// The most UTF-8 bytes of a post's text kept in its title.
pub const TITLE_BYTES: usize = 100;

/// The URLs that this platform claims.
pub open spec fn twitter_claims(url: Seq<char>) -> bool {
    regex_is_match(TWITTER_STATUS_URL@, url) || regex_is_match(X_STATUS_URL@, url)
        || regex_is_match(MOBILE_TWITTER_STATUS_URL@, url) || regex_is_match(
        MOBILE_X_STATUS_URL@,
        url,
    )
}

/// Whether this platform claims `url`.
pub fn is_twitter_url(url: &str) -> (r: bool)
    ensures
        r == twitter_claims(url@),
{
    is_match(TWITTER_STATUS_URL, url) || is_match(X_STATUS_URL, url) || is_match(
        MOBILE_TWITTER_STATUS_URL,
        url,
    ) || is_match(MOBILE_X_STATUS_URL, url)
}

/// The post identifier in `url`.
pub fn extract_tweet_id(url: &str) -> (r: Option<String>)
    ensures
        opt_view(r) == regex_first_group(STATUS_ID@, url@),
{
    first_group(STATUS_ID, url)
}

/// The post identifier in `url`, or the parse error that says it has none.
pub fn tweet_id_for(url: &str) -> (r: Result<String, ExtractError>)
    ensures
        match r {
            Ok(id) => regex_first_group(STATUS_ID@, url@) == Some(id@),
            Err(e) => regex_first_group(STATUS_ID@, url@) is None && is_parse_error(e, NO_TWEET_ID@),
        },
{
    match extract_tweet_id(url) {
        Some(id) => Ok(id),
        None => Err(ExtractError::ParseError(String::from_str(NO_TWEET_ID))),
    }
}

/// The two mirror APIs, in the order in which they are tried.
#[derive(Debug, Clone, Copy, PartialEq, Eq, Structural)]
pub enum Source {
    VxTwitter,
    Syndication,
}

/// The request URL of `source` for the post `tweet_id`.
pub open spec fn source_url(source: Source, tweet_id: Seq<char>) -> Seq<char> {
    match source {
        Source::VxTwitter => VX_API@ + tweet_id,
        Source::Syndication => SYNDICATION_API@ + tweet_id + SYNDICATION_QUERY@,
    }
}

/// The request URL of `source` for the post `tweet_id`.
pub fn api_url(source: Source, tweet_id: &str) -> (r: String)
    ensures
        r@ == source_url(source, tweet_id@),
{
    match source {
        Source::VxTwitter => {
            let mut u = String::from_str(VX_API);
            u.append(tweet_id);
            u
        },
        Source::Syndication => {
            let mut u = String::from_str(SYNDICATION_API);
            u.append(tweet_id);
            u.append(SYNDICATION_QUERY);
            u
        },
    }
}

/// The title of a post: its text, cut on a character boundary to
/// `TITLE_BYTES` bytes, else a label with its identifier.
pub open spec fn post_title(text: Option<Seq<char>>, tweet_id: Seq<char>) -> Seq<char> {
    match text {
        Some(t) => abbreviated(t, TITLE_BYTES as nat),
        None => "Twitter Video "@ + tweet_id,
    }
}

fn title_of(answer: &Json, tweet_id: &str) -> (r: String)
    ensures
        r@ == post_title(member_str(*answer, "text"@), tweet_id@),
{
    match answer.member_string("text") {
        Some(t) => abbreviate(t.as_str(), TITLE_BYTES),
        None => {
            let mut s = String::from_str("Twitter Video ");
            s.append(tweet_id);
            s
        },
    }
}

/// A format of the platform: an MP4 file with video and audio.
pub open spec fn post_format(index: nat, quality: Seq<char>, url: Seq<char>) -> FormatView {
    FormatView {
        format_id: "twitter_"@ + decimal(index),
        ext: "mp4"@,
        quality: quality,
        url: url,
        filesize: None,
        has_video: true,
        has_audio: true,
    }
}

fn make_format(index: usize, quality: String, url: String) -> (r: VideoFormat)
    ensures
        r@ == post_format(index as nat, quality@, url@),
{
    VideoFormat {
        format_id: with_number("twitter_", index as u64),
        ext: String::from_str("mp4"),
        quality,
        url,
        filesize: None,
        has_video: true,
        has_audio: true,
    }
}

/// The quality of a media entry of the first mirror: its height in pixels.
pub open spec fn height_quality(item: Json) -> Seq<char> {
    match json_get(item, "size"@) {
        Some(size) => match member_u64(size, "height"@) {
            Some(h) => decimal(h as nat) + "p"@,
            None => "unknown"@,
        },
        None => "unknown"@,
    }
}

/// The formats of the first mirror's media entries: the videos with a URL,
/// numbered by their position among all entries.
pub open spec fn media_formats(items: Seq<Json>) -> Seq<FormatView>
    decreases items.len(),
{
    if items.len() == 0 {
        Seq::empty()
    } else {
        let item = items.last();
        let before = media_formats(items.drop_last());
        if member_str(item, "type"@) == Some("video"@) && member_str(item, "url"@) is Some {
            before.push(
                post_format((items.len() - 1) as nat, height_quality(item), member_str(item, "url"@)->0),
            )
        } else {
            before
        }
    }
}

/// The formats of the first mirror's bare media URLs: those that look like
/// video, numbered by their position among all URLs.
pub open spec fn media_url_formats(items: Seq<Json>) -> Seq<FormatView>
    decreases items.len(),
{
    if items.len() == 0 {
        Seq::empty()
    } else {
        let before = media_url_formats(items.drop_last());
        match json_str(items.last()) {
            Some(u) => if is_infix(".mp4"@, u) || is_infix("video"@, u) {
                before.push(post_format((items.len() - 1) as nat, "unknown"@, u))
            } else {
                before
            },
            None => before,
        }
    }
}

/// The entries under `key`, or none.
pub open spec fn items_or_none(j: Json, key: Seq<char>) -> Seq<Json> {
    match member_items(j, key) {
        Some(items) => items,
        None => Seq::empty(),
    }
}

/// The formats that the first mirror's answer offers, before ordering: the
/// media entries, else the bare media URLs.
pub open spec fn vx_found(answer: Json) -> Seq<FormatView> {
    let from_media = media_formats(items_or_none(answer, "media_extended"@));
    if from_media.len() > 0 {
        from_media
    } else {
        media_url_formats(items_or_none(answer, "mediaURLs"@))
    }
}

/// The thumbnail of the first media entry.
pub open spec fn vx_thumbnail(answer: Json) -> Option<Seq<char>> {
    let items = items_or_none(answer, "media_extended"@);
    if items.len() > 0 {
        member_str(items[0], "thumbnail_url"@)
    } else {
        None
    }
}

/// The formats of the first mirror's answer: best quality first, without
/// formats whose URL or identifier a better one already has.
pub open spec fn vx_formats(answer: Json) -> Seq<FormatView> {
    keep_distinct(by_rank(vx_found(answer)))
}

/// The metadata that the first mirror's answer gives.
pub open spec fn vx_info(tweet_id: Seq<char>, answer: Json) -> InfoView {
    InfoView {
        id: tweet_id,
        title: post_title(member_str(answer, "text"@), tweet_id),
        thumbnail: vx_thumbnail(answer),
        duration: None,
        uploader: member_str(answer, "user_name"@),
        formats: vx_formats(answer),
        site: "Twitter"@,
    }
}

fn items_of<'a>(j: &'a Json, key: &str, empty: &'a Vec<Json>) -> (r: &'a Vec<Json>)
    requires
        empty@.len() == 0,
    ensures
        r@ == items_or_none(*j, key@),
{
    match j.member_array(key) {
        Some(items) => items,
        None => empty,
    }
}

fn collect_media(items: &Vec<Json>) -> (r: Vec<VideoFormat>)
    ensures
        formats_view(r@) == media_formats(items@),
{
    let mut out: Vec<VideoFormat> = Vec::new();
    let mut i: usize = 0;
    while i < items.len()
        invariant
            i <= items@.len(),
            formats_view(out@) == media_formats(items@.subrange(0, i as int)),
        decreases items@.len() - i,
    {
        let ghost before = out@;
        let item = &items[i];
        proof {
            let next = items@.subrange(0, i + 1);
            assert(next.drop_last() =~= items@.subrange(0, i as int));
            assert(next.last() == *item);
        }
        let is_video = match item.member_string("type") {
            Some(t) => crate::text::same_text(t.as_str(), "video"),
            None => false,
        };
        if is_video {
            if let Some(url) = item.member_string("url") {
                let quality = match item.get("size") {
                    Some(size) => match size.member_number("height") {
                        Some(h) => {
                            let mut q = crate::text::decimal_string(h);
                            q.append("p");
                            q
                        },
                        None => String::from_str("unknown"),
                    },
                    None => String::from_str("unknown"),
                };
                let f = make_format(i, quality, url);
                out.push(f);
                assert(formats_view(out@) =~= formats_view(before).push(f@));
            }
        }
        i = i + 1;
    }
    assert(items@.subrange(0, items@.len() as int) =~= items@);
    out
}

fn collect_media_urls(items: &Vec<Json>) -> (r: Vec<VideoFormat>)
    ensures
        formats_view(r@) == media_url_formats(items@),
{
    let mut out: Vec<VideoFormat> = Vec::new();
    let mut i: usize = 0;
    while i < items.len()
        invariant
            i <= items@.len(),
            formats_view(out@) == media_url_formats(items@.subrange(0, i as int)),
        decreases items@.len() - i,
    {
        let ghost before = out@;
        proof {
            let next = items@.subrange(0, i + 1);
            assert(next.drop_last() =~= items@.subrange(0, i as int));
            assert(next.last() == items@[i as int]);
        }
        if let Some(u) = items[i].as_str() {
            if contains(u.as_str(), ".mp4") || contains(u.as_str(), "video") {
                let f = make_format(i, String::from_str("unknown"), u.clone());
                out.push(f);
                assert(formats_view(out@) =~= formats_view(before).push(f@));
            }
        }
        i = i + 1;
    }
    assert(items@.subrange(0, items@.len() as int) =~= items@);
    out
}

/// Reads the first mirror's answer for the post `tweet_id`.
pub fn try_vxtwitter(tweet_id: &str, answer: &Json) -> (r: Result<VideoInfo, ExtractError>)
    ensures
        vx_formats(*answer).len() == 0 ==> r is Err && is_parse_error(r->Err_0, NO_VIDEO_IN_TWEET@),
        vx_formats(*answer).len() > 0 ==> r is Ok && r->Ok_0@ == vx_info(tweet_id@, *answer)
            && distinct_urls(r->Ok_0@.formats) && distinct_ids(r->Ok_0@.formats),
{
    let title = title_of(answer, tweet_id);
    let uploader = answer.member_string("user_name");
    let empty: Vec<Json> = Vec::new();
    let media = items_of(answer, "media_extended", &empty);
    let mut formats = collect_media(media);
    if formats.len() == 0 {
        let urls = items_of(answer, "mediaURLs", &empty);
        formats = collect_media_urls(urls);
    }
    let formats = distinct_formats(sort_by_quality(formats));
    if formats.len() == 0 {
        return Err(ExtractError::ParseError(String::from_str(NO_VIDEO_IN_TWEET)));
    }
    let thumbnail = if media.len() > 0 {
        media[0].member_string("thumbnail_url")
    } else {
        None
    };
    Ok(
        VideoInfo {
            id: String::from_str(tweet_id),
            title,
            thumbnail,
            duration: None,
            uploader,
            formats,
            site: String::from_str("Twitter"),
        },
    )
}

/// The quality of a variant of the second mirror: the bucket of its bitrate,
/// else a label with its position.
pub open spec fn variant_quality(variant: Json, index: nat) -> Seq<char> {
    match member_u64(variant, "bitrate"@) {
        Some(b) => bitrate_label(b as nat),
        None => "variant_"@ + decimal(index),
    }
}

/// `fs` after the variants of one media entry: each video variant with a URL
/// is appended, numbered by the count of formats before it, so that numbers
/// run on across media entries.
pub open spec fn take_variants(fs: Seq<FormatView>, variants: Seq<Json>) -> Seq<FormatView>
    decreases variants.len(),
{
    if variants.len() == 0 {
        fs
    } else {
        let v = variants.last();
        let i = (variants.len() - 1) as nat;
        let before = take_variants(fs, variants.drop_last());
        let content_type = match member_str(v, "content_type"@) {
            Some(c) => c,
            None => Seq::empty(),
        };
        if is_infix("video"@, content_type) && member_str(v, "url"@) is Some {
            before.push(post_format(before.len(), variant_quality(v, i), member_str(v, "url"@)->0))
        } else {
            before
        }
    }
}

/// The variants of a media entry that is a video; none for another entry.
pub open spec fn video_variants(media: Json) -> Seq<Json> {
    if member_str(media, "type"@) == Some("video"@) {
        match json_get(media, "video_info"@) {
            Some(info) => items_or_none(info, "variants"@),
            None => Seq::empty(),
        }
    } else {
        Seq::empty()
    }
}

/// The formats of all media entries of the second mirror's answer, entry
/// after entry.
pub open spec fn details_formats(media: Seq<Json>) -> Seq<FormatView>
    decreases media.len(),
{
    if media.len() == 0 {
        Seq::empty()
    } else {
        take_variants(details_formats(media.drop_last()), video_variants(media.last()))
    }
}

/// The thumbnail of the first media entry of the second mirror's answer.
pub open spec fn syndication_thumbnail(answer: Json) -> Option<Seq<char>> {
    let media = items_or_none(answer, "mediaDetails"@);
    if media.len() > 0 {
        member_str(media[0], "media_url_https"@)
    } else {
        None
    }
}

/// The uploader's name in the second mirror's answer.
pub open spec fn syndication_uploader(answer: Json) -> Option<Seq<char>> {
    match json_get(answer, "user"@) {
        Some(user) => member_str(user, "name"@),
        None => None,
    }
}

/// The formats of the second mirror's answer: best quality first, without
/// formats whose URL or identifier a better one already has.
pub open spec fn syndication_formats(answer: Json) -> Seq<FormatView> {
    keep_distinct(by_rank(details_formats(items_or_none(answer, "mediaDetails"@))))
}

/// The metadata that the second mirror's answer gives.
pub open spec fn syndication_info(tweet_id: Seq<char>, answer: Json) -> InfoView {
    InfoView {
        id: tweet_id,
        title: post_title(member_str(answer, "text"@), tweet_id),
        thumbnail: syndication_thumbnail(answer),
        duration: None,
        uploader: syndication_uploader(answer),
        formats: syndication_formats(answer),
        site: "Twitter"@,
    }
}

fn push_variants(out: &mut Vec<VideoFormat>, variants: &Vec<Json>)
    ensures
        formats_view(final(out)@) == take_variants(formats_view(old(out)@), variants@),
{
    let mut i: usize = 0;
    while i < variants.len()
        invariant
            i <= variants@.len(),
            formats_view(out@) == take_variants(
                formats_view(old(out)@),
                variants@.subrange(0, i as int),
            ),
        decreases variants@.len() - i,
    {
        let ghost before = out@;
        let v = &variants[i];
        proof {
            let next = variants@.subrange(0, i + 1);
            assert(next.drop_last() =~= variants@.subrange(0, i as int));
            assert(next.last() == *v);
        }
        let is_video = match v.member_string("content_type") {
            Some(c) => contains(c.as_str(), "video"),
            None => {
                assert(!is_infix("video"@, Seq::<char>::empty())) by {
                    reveal_strlit("video");
                }
                false
            },
        };
        if is_video {
            if let Some(url) = v.member_string("url") {
                let quality = match v.member_number("bitrate") {
                    Some(b) => quality_for_bitrate(b),
                    None => with_number("variant_", i as u64),
                };
                let f = make_format(out.len(), quality, url);
                out.push(f);
                assert(formats_view(out@) =~= formats_view(before).push(f@));
            }
        }
        i = i + 1;
    }
    assert(variants@.subrange(0, variants@.len() as int) =~= variants@);
}

fn collect_details(media: &Vec<Json>) -> (r: Vec<VideoFormat>)
    ensures
        formats_view(r@) == details_formats(media@),
{
    let mut out: Vec<VideoFormat> = Vec::new();
    let empty: Vec<Json> = Vec::new();
    let mut i: usize = 0;
    while i < media.len()
        invariant
            i <= media@.len(),
            empty@.len() == 0,
            formats_view(out@) == details_formats(media@.subrange(0, i as int)),
        decreases media@.len() - i,
    {
        let m = &media[i];
        proof {
            let next = media@.subrange(0, i + 1);
            assert(next.drop_last() =~= media@.subrange(0, i as int));
            assert(next.last() == *m);
        }
        let is_video = match m.member_string("type") {
            Some(t) => crate::text::same_text(t.as_str(), "video"),
            None => false,
        };
        let variants = if is_video {
            match m.get("video_info") {
                Some(info) => items_of(info, "variants", &empty),
                None => &empty,
            }
        } else {
            &empty
        };
        assert(variants@ == video_variants(*m));
        push_variants(&mut out, variants);
        i = i + 1;
    }
    assert(media@.subrange(0, media@.len() as int) =~= media@);
    out
}

/// Reads the second mirror's answer for the post `tweet_id`.
pub fn try_syndication(tweet_id: &str, answer: &Json) -> (r: Result<VideoInfo, ExtractError>)
    ensures
        syndication_formats(*answer).len() == 0 ==> r is Err && is_parse_error(
            r->Err_0,
            NO_VIDEO_IN_TWEET@,
        ),
        syndication_formats(*answer).len() > 0 ==> r is Ok && r->Ok_0@ == syndication_info(
            tweet_id@,
            *answer,
        ) && distinct_urls(r->Ok_0@.formats) && distinct_ids(r->Ok_0@.formats),
{
    let title = title_of(answer, tweet_id);
    let uploader = match answer.get("user") {
        Some(user) => user.member_string("name"),
        None => None,
    };
    let empty: Vec<Json> = Vec::new();
    let media = items_of(answer, "mediaDetails", &empty);
    let thumbnail = if media.len() > 0 {
        media[0].member_string("media_url_https")
    } else {
        None
    };
    let formats = distinct_formats(sort_by_quality(collect_details(media)));
    if formats.len() == 0 {
        return Err(ExtractError::ParseError(String::from_str(NO_VIDEO_IN_TWEET)));
    }
    Ok(
        VideoInfo {
            id: String::from_str(tweet_id),
            title,
            thumbnail,
            duration: None,
            uploader,
            formats,
            site: String::from_str("Twitter"),
        },
    )
}

/// What to do after one attempt: ask the next mirror, or finish.
#[derive(Debug)]
pub enum TwitterStep {
    Fetch(Source),
    Done(Result<VideoInfo, ExtractError>),
}

/// The step after `source` answered with `outcome`: a success is the result;
/// a failure of the first mirror moves on to the second; a failure of the
/// second ends in one message that does not tell which attempt failed.
pub fn after_attempt(source: Source, outcome: Result<VideoInfo, ExtractError>) -> (r: TwitterStep)
    ensures
        outcome is Ok ==> r == TwitterStep::Done(outcome),
        outcome is Err && source == Source::VxTwitter ==> r == TwitterStep::Fetch(
            Source::Syndication,
        ),
        outcome is Err && source == Source::Syndication ==> (r matches TwitterStep::Done(Err(e))
            && is_parse_error(e, NO_VIDEO_FROM_TWEET@)),
{
    match outcome {
        Ok(info) => TwitterStep::Done(Ok(info)),
        Err(_) => match source {
            Source::VxTwitter => TwitterStep::Fetch(Source::Syndication),
            Source::Syndication => TwitterStep::Done(
                Err(ExtractError::ParseError(String::from_str(NO_VIDEO_FROM_TWEET))),
            ),
        },
    }
}

} // verus!
