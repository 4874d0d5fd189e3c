//! Any other page: its HTML is scanned with several patterns whose matches are
//! pooled, resolved against the page's address, filtered and de-duplicated.

use vstd::prelude::*;
use crate::model::{
    distinct_ids, distinct_urls, formats_view, has_url, has_url_exec, is_parse_error, opt_view, ExtractError,
    FormatView, InfoView, VideoFormat, VideoInfo,
};
use crate::pattern::{all_groups, first_group, opt_views, regex_first_group, regex_groups};
use crate::text::{
    contains, decimal, is_infix, is_prefix, lowercase_of, replace, replace_all, starts_with,
    to_lowercase, with_number,
};

verus! {

pub const SOURCE_MP4: &'static str = r#"<source[^>]+src=["']([^"']+\.mp4[^"']*)["']"#;
pub const VIDEO_MP4: &'static str = r#"<video[^>]+src=["']([^"']+\.mp4[^"']*)["']"#;
pub const VIDEO_WEBM: &'static str = r#"<video[^>]+src=["']([^"']+\.webm[^"']*)["']"#;
pub const QUOTED_MP4: &'static str = r#"["']([^"'\s]+\.mp4(?:\?[^"']*)?)["']"#;
pub const QUOTED_WEBM: &'static str = r#"["']([^"'\s]+\.webm(?:\?[^"']*)?)["']"#;
pub const QUOTED_MOV: &'static str = r#"["']([^"'\s]+\.mov(?:\?[^"']*)?)["']"#;
pub const VIDEO_PATH: &'static str = r#"["'](https?://[^"'\s]+/video/[^"'\s]+)["']"#;
pub const VIDEOS_PATH: &'static str = r#"["'](https?://[^"'\s]+/videos/[^"'\s]+)["']"#;
pub const MEDIA_PATH_MP4: &'static str = r#"["'](https?://[^"'\s]+/media/[^"'\s]+\.mp4[^"']*)["']"#;
pub const CLOUDFRONT_MP4: &'static str = r#"["'](https?://[^"'\s]*cloudfront[^"'\s]+\.mp4[^"']*)["']"#;
pub const CDN_MP4: &'static str = r#"["'](https?://[^"'\s]*cdn[^"'\s]+\.mp4[^"']*)["']"#;
pub const VIMEO_PLAYER: &'static str = r#"["'](https?://player\.vimeo\.com/video/\d+)["']"#;
pub const WISTIA: &'static str = r#"["'](https?://fast\.wistia\.[^"'\s]+)["']"#;
pub const SCRIPT_MP4: &'static str = r#"["\']?(?:url|src|file|source|video_url|videoUrl|video)["\']?\s*[:=]\s*["']([^"']+\.mp4[^"']*)["']"#;
pub const SCRIPT_M3U8: &'static str = r#"["\']?(?:url|src|file|source|video_url|videoUrl|video)["\']?\s*[:=]\s*["']([^"']+\.m3u8[^"']*)["']"#;
pub const DATA_MP4: &'static str = r#"data-(?:src|video|url)=["']([^"']+\.mp4[^"']*)["']"#;
pub const DATA_M3U8: &'static str = r#"data-(?:src|video|url)=["']([^"']+\.m3u8[^"']*)["']"#;
pub const QUOTED_M3U8: &'static str = r#"["']([^"'\s]+\.m3u8(?:\?[^"']*)?)["']"#;
pub const SRC_M3U8: &'static str = r#"src:\s*["']([^"']+\.m3u8[^"']*)["']"#;
pub const PLAYLIST_M3U8: &'static str = r#"["\']?(?:hlsUrl|hls_url|playlist)["\']?\s*[:=]\s*["']([^"']+\.m3u8[^"']*)["']"#;
pub const IFRAME_SRC: &'static str = r#"<iframe[^>]+src=["']([^"']+)["']"#;
pub const OG_TITLE: &'static str = r#"<meta[^>]+property=["']og:title["'][^>]+content=["']([^"']+)["']"#;
pub const TITLE_ELEMENT: &'static str = r#"<title>([^<]+)</title>"#;
pub const OG_IMAGE: &'static str = r#"<meta[^>]+property=["']og:image["'][^>]+content=["']([^"']+)["']"#;

pub const NO_VIDEO_ON_PAGE: &'static str = "No video found on this page. The video may be loaded dynamically via JavaScript, which requires browser automation to extract.";

/// The patterns for direct media files, in the order in which they are scanned.
pub open spec fn direct_patterns() -> Seq<Seq<char>> {
    seq![
        SOURCE_MP4@, VIDEO_MP4@, VIDEO_WEBM@, QUOTED_MP4@, QUOTED_WEBM@, QUOTED_MOV@,
        VIDEO_PATH@, VIDEOS_PATH@, MEDIA_PATH_MP4@, CLOUDFRONT_MP4@, CDN_MP4@, VIMEO_PLAYER@,
        WISTIA@, SCRIPT_MP4@, SCRIPT_M3U8@, DATA_MP4@, DATA_M3U8@,
    ]
}

/// The patterns for streaming playlists, in the order in which they are scanned.
pub open spec fn hls_patterns() -> Seq<Seq<char>> {
    seq![QUOTED_M3U8@, SRC_M3U8@, PLAYLIST_M3U8@]
}

/// The patterns for embedded players.
pub open spec fn embed_patterns() -> Seq<Seq<char>> {
    seq![IFRAME_SRC@]
}

/// The views of a list of patterns.
pub open spec fn pattern_views(ps: Seq<&'static str>) -> Seq<Seq<char>> {
    ps.map_values(|p: &'static str| p@)
}

fn direct_pattern_list() -> (r: Vec<&'static str>)
    ensures
        pattern_views(r@) == direct_patterns(),
{
    let mut v: Vec<&'static str> = Vec::new();
    v.push(SOURCE_MP4);
    v.push(VIDEO_MP4);
    v.push(VIDEO_WEBM);
    v.push(QUOTED_MP4);
    v.push(QUOTED_WEBM);
    v.push(QUOTED_MOV);
    v.push(VIDEO_PATH);
    v.push(VIDEOS_PATH);
    v.push(MEDIA_PATH_MP4);
    v.push(CLOUDFRONT_MP4);
    v.push(CDN_MP4);
    v.push(VIMEO_PLAYER);
    v.push(WISTIA);
    v.push(SCRIPT_MP4);
    v.push(SCRIPT_M3U8);
    v.push(DATA_MP4);
    v.push(DATA_M3U8);
    assert(pattern_views(v@) =~= direct_patterns());
    v
}

fn hls_pattern_list() -> (r: Vec<&'static str>)
    ensures
        pattern_views(r@) == hls_patterns(),
{
    let mut v: Vec<&'static str> = Vec::new();
    v.push(QUOTED_M3U8);
    v.push(SRC_M3U8);
    v.push(PLAYLIST_M3U8);
    assert(pattern_views(v@) =~= hls_patterns());
    v
}

fn embed_pattern_list() -> (r: Vec<&'static str>)
    ensures
        pattern_views(r@) == embed_patterns(),
{
    let mut v: Vec<&'static str> = Vec::new();
    v.push(IFRAME_SRC);
    assert(pattern_views(v@) =~= embed_patterns());
    v
}

/// A name for the text of the URL that `Url::join` makes of `relative` on the
/// base `base`, when both parse.
pub uninterp spec fn joined_url(base: Seq<char>, relative: Seq<char>) -> Option<Seq<char>>;

/// A name for the path of `url` as `Url::path` gives it, when `url` parses.
pub uninterp spec fn url_path_of(url: Seq<char>) -> Option<Seq<char>>;

/// Relies on `url::Url::parse` and `Url::join`: `relative` resolved on `base`
/// as the URL standard does it, when both parse.
#[verifier::external_body]
fn join_url(base: &str, relative: &str) -> (r: Option<String>)
    ensures
        opt_view(r) == joined_url(base@, relative@),
{
    let base = url::Url::parse(base).ok()?;
    base.join(relative).ok().map(|u| u.to_string())
}

/// Relies on `url::Url::parse` and `Url::path`: the path of `url`, when it parses.
#[verifier::external_body]
fn url_path(url: &str) -> (r: Option<String>)
    ensures
        opt_view(r) == url_path_of(url@),
{
    url::Url::parse(url).ok().map(|u| u.path().to_string())
}

/// Relies on `uuid::Uuid::new_v4`: a random identifier, of which nothing is
/// promised.
#[verifier::external_body]
fn random_id() -> (r: String) {
    uuid::Uuid::new_v4().to_string()
}

/// `relative` made absolute against the page address `base`: absolute http(s)
/// URLs stay, protocol-relative ones get `https:`, others are joined on the
/// base, or kept as they are when that fails.
pub open spec fn resolved(base: Seq<char>, relative: Seq<char>) -> Seq<char> {
    if is_prefix("http://"@, relative) || is_prefix("https://"@, relative) {
        relative
    } else if is_prefix("//"@, relative) {
        "https:"@ + relative
    } else {
        match joined_url(base, relative) {
            Some(u) => u,
            None => relative,
        }
    }
}

/// `relative` made absolute against the page address `base`.
pub fn resolve_url(base: &str, relative: &str) -> (r: String)
    ensures
        r@ == resolved(base@, relative@),
{
    if starts_with(relative, "http://") || starts_with(relative, "https://") {
        return String::from_str(relative);
    }
    if starts_with(relative, "//") {
        let mut u = String::from_str("https:");
        u.append(relative);
        return u;
    }
    match join_url(base, relative) {
        Some(u) => u,
        None => String::from_str(relative),
    }
}

/// The lower-cased URL names an asset that is not media.
pub open spec fn names_other_asset(lower: Seq<char>) -> bool {
    is_infix("player.js"@, lower) || is_infix("video.js"@, lower) || is_infix("analytics"@, lower)
        || is_infix("tracking"@, lower) || is_infix("pixel"@, lower) || is_infix(".css"@, lower)
        || is_infix(".js"@, lower) || is_infix("thumbnail"@, lower) || is_infix("poster"@, lower)
}

/// The URL is not a known non-media asset and carries a media indicator.
pub open spec fn looks_like_video(url: Seq<char>) -> bool {
    !names_other_asset(lowercase_of(url)) && (is_infix(".mp4"@, url) || is_infix(".webm"@, url)
        || is_infix(".m3u8"@, url) || is_infix("/video"@, url))
}

/// Whether `url` is taken as a media URL.
pub fn is_valid_video_url(url: &str) -> (r: bool)
    ensures
        r == looks_like_video(url@),
{
    let lower = to_lowercase(url);
    let l = lower.as_str();
    if contains(l, "player.js") || contains(l, "video.js") || contains(l, "analytics") || contains(
        l,
        "tracking",
    ) || contains(l, "pixel") || contains(l, ".css") || contains(l, ".js") || contains(
        l,
        "thumbnail",
    ) || contains(l, "poster") {
        return false;
    }
    contains(url, ".mp4") || contains(url, ".webm") || contains(url, ".m3u8") || contains(url, "/video")
}

/// The container of a direct media URL.
pub open spec fn direct_ext(url: Seq<char>) -> Seq<char> {
    if is_infix(".webm"@, url) {
        "webm"@
    } else if is_infix(".mov"@, url) {
        "mov"@
    } else if is_infix(".m3u8"@, url) {
        "m3u8"@
    } else {
        "mp4"@
    }
}

/// An embedded player on a known video host.
pub open spec fn embeds_video_host(src: Seq<char>) -> bool {
    is_infix("youtube"@, src) || is_infix("vimeo"@, src) || is_infix("wistia"@, src) || is_infix(
        "player"@,
        src,
    )
}

/// The category of a pattern, which decides the format made of its matches.
#[derive(Debug, Clone, Copy, PartialEq, Eq, Structural)]
pub enum MatchKind {
    Direct,
    Hls,
    Embed,
}

/// The format made of a match of category `kind`, as the `n`-th format.
pub open spec fn found_format(kind: MatchKind, n: nat, url: Seq<char>) -> FormatView {
    match kind {
        MatchKind::Direct => FormatView {
            format_id: "generic_"@ + decimal(n),
            ext: direct_ext(url),
            quality: "unknown"@,
            url: url,
            filesize: None,
            has_video: true,
            has_audio: true,
        },
        MatchKind::Hls => FormatView {
            format_id: "hls_"@ + decimal(n),
            ext: "m3u8"@,
            quality: "HLS stream"@,
            url: url,
            filesize: None,
            has_video: true,
            has_audio: true,
        },
        MatchKind::Embed => FormatView {
            format_id: "embed_"@ + decimal(n),
            ext: "embed"@,
            quality: "embedded"@,
            url: url,
            filesize: None,
            has_video: true,
            has_audio: true,
        },
    }
}

/// Whether a match of category `kind`, as found and as resolved, is accepted:
/// media and playlist URLs must pass the media filter, embedded players must
/// point at a known video host.
pub open spec fn accepts(kind: MatchKind, raw: Seq<char>, full: Seq<char>) -> bool {
    match kind {
        MatchKind::Direct => looks_like_video(full),
        MatchKind::Hls => looks_like_video(full),
        MatchKind::Embed => embeds_video_host(raw),
    }
}

/// `fs` after one match: an accepted match whose resolved URL is new is
/// appended.
pub open spec fn take_match(
    fs: Seq<FormatView>,
    kind: MatchKind,
    page: Seq<char>,
    m: Option<Seq<char>>,
) -> Seq<FormatView> {
    match m {
        Some(raw) => {
            let full = resolved(page, raw);
            if accepts(kind, raw, full) && !has_url(fs, full) {
                fs.push(found_format(kind, fs.len(), full))
            } else {
                fs
            }
        },
        None => fs,
    }
}

/// `fs` after the matches `ms`, in order.
pub open spec fn take_matches(
    fs: Seq<FormatView>,
    kind: MatchKind,
    page: Seq<char>,
    ms: Seq<Option<Seq<char>>>,
) -> Seq<FormatView>
    decreases ms.len(),
{
    if ms.len() == 0 {
        fs
    } else {
        take_match(take_matches(fs, kind, page, ms.drop_last()), kind, page, ms.last())
    }
}

/// `fs` after the matches of each pattern of `pats` in `html`, pattern after
/// pattern.
pub open spec fn scan(
    fs: Seq<FormatView>,
    kind: MatchKind,
    page: Seq<char>,
    html: Seq<char>,
    pats: Seq<Seq<char>>,
) -> Seq<FormatView>
    decreases pats.len(),
{
    if pats.len() == 0 {
        fs
    } else {
        take_matches(scan(fs, kind, page, html, pats.drop_last()), kind, page, regex_groups(pats.last(), html))
    }
}

/// The formats found on the page at `page` with the HTML `html`: direct
/// media, then playlists; embedded players only when neither was found.
pub open spec fn page_formats(page: Seq<char>, html: Seq<char>) -> Seq<FormatView> {
    let found = scan(
        scan(Seq::empty(), MatchKind::Direct, page, html, direct_patterns()),
        MatchKind::Hls,
        page,
        html,
        hls_patterns(),
    );
    if found.len() > 0 {
        found
    } else {
        scan(Seq::empty(), MatchKind::Embed, page, html, embed_patterns())
    }
}

fn make_found(kind: MatchKind, n: usize, url: String) -> (r: VideoFormat)
    ensures
        r@ == found_format(kind, n as nat, url@),
{
    match kind {
        MatchKind::Direct => {
            let ext = if contains(url.as_str(), ".webm") {
                String::from_str("webm")
            } else if contains(url.as_str(), ".mov") {
                String::from_str("mov")
            } else if contains(url.as_str(), ".m3u8") {
                String::from_str("m3u8")
            } else {
                String::from_str("mp4")
            };
            VideoFormat {
                format_id: with_number("generic_", n as u64),
                ext,
                quality: String::from_str("unknown"),
                url,
                filesize: None,
                has_video: true,
                has_audio: true,
            }
        },
        MatchKind::Hls => VideoFormat {
            format_id: with_number("hls_", n as u64),
            ext: String::from_str("m3u8"),
            quality: String::from_str("HLS stream"),
            url,
            filesize: None,
            has_video: true,
            has_audio: true,
        },
        MatchKind::Embed => VideoFormat {
            format_id: with_number("embed_", n as u64),
            ext: String::from_str("embed"),
            quality: String::from_str("embedded"),
            url,
            filesize: None,
            has_video: true,
            has_audio: true,
        },
    }
}

fn take_match_exec(fs: &mut Vec<VideoFormat>, kind: MatchKind, page: &str, m: &Option<String>)
    ensures
        formats_view(final(fs)@) == take_match(formats_view(old(fs)@), kind, page@, opt_view(*m)),
{
    if let Some(raw) = m {
        let full = resolve_url(page, raw.as_str());
        let accepted = match kind {
            MatchKind::Direct => is_valid_video_url(full.as_str()),
            MatchKind::Hls => is_valid_video_url(full.as_str()),
            MatchKind::Embed => contains(raw.as_str(), "youtube") || contains(raw.as_str(), "vimeo")
                || contains(raw.as_str(), "wistia") || contains(raw.as_str(), "player"),
        };
        if accepted && !has_url_exec(fs, full.as_str()) {
            let ghost before = fs@;
            let n = fs.len();
            let f = make_found(kind, n, full);
            fs.push(f);
            assert(formats_view(fs@) =~= formats_view(before).push(f@));
        }
    }
}

fn scan_exec(fs: &mut Vec<VideoFormat>, kind: MatchKind, page: &str, html: &str, pats: &Vec<&'static str>)
    ensures
        formats_view(final(fs)@) == scan(formats_view(old(fs)@), kind, page@, html@, pattern_views(pats@)),
{
    let mut p: usize = 0;
    while p < pats.len()
        invariant
            p <= pats@.len(),
            formats_view(fs@) == scan(
                formats_view(old(fs)@),
                kind,
                page@,
                html@,
                pattern_views(pats@.subrange(0, p as int)),
            ),
        decreases pats@.len() - p,
    {
        let groups = all_groups(pats[p], html);
        let ghost start = formats_view(fs@);
        let ghost ms = opt_views(groups@);
        let mut i: usize = 0;
        while i < groups.len()
            invariant
                i <= groups@.len(),
                ms == opt_views(groups@),
                formats_view(fs@) == take_matches(start, kind, page@, ms.subrange(0, i as int)),
            decreases groups@.len() - i,
        {
            proof {
                let next = ms.subrange(0, i + 1);
                assert(next.drop_last() =~= ms.subrange(0, i as int));
            }
            take_match_exec(fs, kind, page, &groups[i]);
            i = i + 1;
        }
        proof {
            assert(ms.subrange(0, ms.len() as int) =~= ms);
            let done = pattern_views(pats@.subrange(0, p + 1));
            assert(done.drop_last() =~= pattern_views(pats@.subrange(0, p as int)));
            assert(done.last() == pats@[p as int]@);
        }
        p = p + 1;
    }
    assert(pats@.subrange(0, pats@.len() as int) =~= pats@);
}

/// Scans the page at `page` with the HTML `html` for media.
pub fn find_formats(page: &str, html: &str) -> (r: Vec<VideoFormat>)
    ensures
        formats_view(r@) == page_formats(page@, html@),
{
    let mut fs: Vec<VideoFormat> = Vec::new();
    assert(formats_view(fs@) =~= Seq::empty());
    scan_exec(&mut fs, MatchKind::Direct, page, html, &direct_pattern_list());
    scan_exec(&mut fs, MatchKind::Hls, page, html, &hls_pattern_list());
    if fs.len() == 0 {
        assert(formats_view(fs@) =~= Seq::empty());
        scan_exec(&mut fs, MatchKind::Embed, page, html, &embed_pattern_list());
    }
    fs
}

/// The five common HTML entities decoded, one after the other.
pub open spec fn html_decoded(s: Seq<char>) -> Seq<char> {
    replace_all(
        replace_all(
            replace_all(replace_all(replace_all(s, "&amp;"@, "&"@), "&lt;"@, "<"@), "&gt;"@, ">"@),
            "&quot;"@,
            "\""@,
        ),
        "&#39;"@,
        "'"@,
    )
}

/// Decodes the five common HTML entities.
pub fn html_decode(s: &str) -> (r: String)
    ensures
        r@ == html_decoded(s@),
{
    proof {
        reveal_strlit("&amp;");
        reveal_strlit("&lt;");
        reveal_strlit("&gt;");
        reveal_strlit("&quot;");
        reveal_strlit("&#39;");
    }
    let a = replace(s, "&amp;", "&");
    let b = replace(a.as_str(), "&lt;", "<");
    let c = replace(b.as_str(), "&gt;", ">");
    let d = replace(c.as_str(), "&quot;", "\"");
    replace(d.as_str(), "&#39;", "'")
}

/// The page's title: the open-graph title, else the decoded title element.
pub open spec fn page_title(html: Seq<char>) -> Option<Seq<char>> {
    match regex_first_group(OG_TITLE@, html) {
        Some(t) => Some(t),
        None => match regex_first_group(TITLE_ELEMENT@, html) {
            Some(t) => Some(html_decoded(t)),
            None => None,
        },
    }
}

/// The page's title.
pub fn extract_title(html: &str) -> (r: Option<String>)
    ensures
        opt_view(r) == page_title(html@),
{
    if let Some(t) = first_group(OG_TITLE, html) {
        return Some(t);
    }
    match first_group(TITLE_ELEMENT, html) {
        Some(t) => Some(html_decode(t.as_str())),
        None => None,
    }
}

/// The page's open-graph image.
pub fn extract_og_image(html: &str) -> (r: Option<String>)
    ensures
        opt_view(r) == regex_first_group(OG_IMAGE@, html@),
{
    first_group(OG_IMAGE, html)
}

/// The metadata of the page at `page` with the HTML `html`, named `id`.
pub open spec fn page_info(page: Seq<char>, html: Seq<char>, id: Seq<char>) -> InfoView {
    InfoView {
        id: id,
        title: match page_title(html) {
            Some(t) => t,
            None => "Unknown Video"@,
        },
        thumbnail: regex_first_group(OG_IMAGE@, html),
        duration: None,
        uploader: None,
        formats: page_formats(page, html),
        site: "Generic"@,
    }
}

/// The metadata of the page at `page` with the HTML `html`, named `id`; the
/// parse error that hints at client-side rendering when no media was found.
pub fn info_from_page(page: &str, html: &str, id: String) -> (r: Result<VideoInfo, ExtractError>)
    ensures
        page_formats(page@, html@).len() == 0 ==> r is Err && is_parse_error(
            r->Err_0,
            NO_VIDEO_ON_PAGE@,
        ),
        page_formats(page@, html@).len() > 0 ==> r is Ok && r->Ok_0@ == page_info(
            page@,
            html@,
            id@,
        ),
{
    let formats = find_formats(page, html);
    if formats.len() == 0 {
        return Err(ExtractError::ParseError(String::from_str(NO_VIDEO_ON_PAGE)));
    }
    let title = match extract_title(html) {
        Some(t) => t,
        None => String::from_str("Unknown Video"),
    };
    Ok(
        VideoInfo {
            id,
            title,
            thumbnail: extract_og_image(html),
            duration: None,
            uploader: None,
            formats,
            site: String::from_str("Generic"),
        },
    )
}

/// The identifier of a page: the path of its URL, or a random identifier when
/// the URL does not parse.
pub fn page_id(page: &str) -> (r: String)
    ensures
        url_path_of(page@) is Some ==> r@ == url_path_of(page@)->0,
{
    match url_path(page) {
        Some(p) => p,
        None => random_id(),
    }
}

/// What an extraction of the page at `page` with the HTML `html` gives.
pub open spec fn generic_outcome(page: Seq<char>, html: Seq<char>, r: Result<VideoInfo, ExtractError>) -> bool {
    &&& page_formats(page, html).len() == 0 ==> r is Err && is_parse_error(r->Err_0, NO_VIDEO_ON_PAGE@)
    &&& page_formats(page, html).len() > 0 ==> r is Ok && r->Ok_0@.formats == page_formats(page, html)
        && r->Ok_0@.title == page_info(page, html, r->Ok_0@.id).title
        && r->Ok_0@.thumbnail == regex_first_group(OG_IMAGE@, html)
        && r->Ok_0@.duration is None && r->Ok_0@.uploader is None
        && r->Ok_0@.site == "Generic"@
        && (url_path_of(page) is Some ==> r->Ok_0@.id == url_path_of(page)->0)
        && distinct_urls(r->Ok_0@.formats) && distinct_ids(r->Ok_0@.formats)
}

/// Extracts media from the page at `page`, whose HTML is `html`.
pub fn extract(page: &str, html: &str) -> (r: Result<VideoInfo, ExtractError>)
    ensures
        generic_outcome(page@, html@, r),
{
    let id = page_id(page);
    proof {
        lemma_page_formats_distinct(page@, html@);
    }
    info_from_page(page, html, id)
}

proof fn lemma_take_matches_distinct(
    fs: Seq<FormatView>,
    kind: MatchKind,
    page: Seq<char>,
    ms: Seq<Option<Seq<char>>>,
)
    requires
        distinct_urls(fs),
    ensures
        distinct_urls(take_matches(fs, kind, page, ms)),
    decreases ms.len(),
{
    if ms.len() > 0 {
        lemma_take_matches_distinct(fs, kind, page, ms.drop_last());
        let before = take_matches(fs, kind, page, ms.drop_last());
        let after = take_matches(fs, kind, page, ms);
        if after != before {
            let full = resolved(page, ms.last()->0);
            assert(!has_url(before, full));
            assert forall|i: int, j: int| 0 <= i < j < after.len() implies (#[trigger] after[i]).url
                != (#[trigger] after[j]).url by {
                if j == after.len() - 1 {
                    assert(after[i] == before[i]);
                }
            }
        }
    }
}

proof fn lemma_scan_distinct(
    fs: Seq<FormatView>,
    kind: MatchKind,
    page: Seq<char>,
    html: Seq<char>,
    pats: Seq<Seq<char>>,
)
    requires
        distinct_urls(fs),
    ensures
        distinct_urls(scan(fs, kind, page, html, pats)),
    decreases pats.len(),
{
    if pats.len() > 0 {
        lemma_scan_distinct(fs, kind, page, html, pats.drop_last());
        lemma_take_matches_distinct(
            scan(fs, kind, page, html, pats.drop_last()),
            kind,
            page,
            regex_groups(pats.last(), html),
        );
    }
}

/// The identifier of a found format at position `i`: a category prefix and
/// the position.
pub open spec fn numbered_id(id: Seq<char>, i: int) -> bool {
    id == "generic_"@ + decimal(i as nat) || id == "hls_"@ + decimal(i as nat) || id == "embed_"@
        + decimal(i as nat)
}

/// Every format's identifier carries its position.
pub open spec fn numbered(fs: Seq<FormatView>) -> bool {
    forall|i: int| 0 <= i < fs.len() ==> numbered_id(#[trigger] fs[i].format_id, i)
}

proof fn lemma_take_matches_numbered(
    fs: Seq<FormatView>,
    kind: MatchKind,
    page: Seq<char>,
    ms: Seq<Option<Seq<char>>>,
)
    requires
        numbered(fs),
    ensures
        numbered(take_matches(fs, kind, page, ms)),
    decreases ms.len(),
{
    if ms.len() > 0 {
        lemma_take_matches_numbered(fs, kind, page, ms.drop_last());
        let before = take_matches(fs, kind, page, ms.drop_last());
        let after = take_matches(fs, kind, page, ms);
        assert forall|i: int| 0 <= i < after.len() implies numbered_id(
            #[trigger] after[i].format_id,
            i,
        ) by {
            if i < before.len() {
                assert(after[i] == before[i]);
            }
        }
    }
}

proof fn lemma_scan_numbered(
    fs: Seq<FormatView>,
    kind: MatchKind,
    page: Seq<char>,
    html: Seq<char>,
    pats: Seq<Seq<char>>,
)
    requires
        numbered(fs),
    ensures
        numbered(scan(fs, kind, page, html, pats)),
    decreases pats.len(),
{
    if pats.len() > 0 {
        lemma_scan_numbered(fs, kind, page, html, pats.drop_last());
        lemma_take_matches_numbered(
            scan(fs, kind, page, html, pats.drop_last()),
            kind,
            page,
            regex_groups(pats.last(), html),
        );
    }
}

proof fn lemma_numbered_ids_differ(a: Seq<char>, i: int, b: Seq<char>, j: int)
    requires
        0 <= i < j,
        numbered_id(a, i),
        numbered_id(b, j),
    ensures
        a != b,
{
    reveal_strlit("generic_");
    reveal_strlit("hls_");
    reveal_strlit("embed_");
    if a == b {
        let prefixes = seq!["generic_"@, "hls_"@, "embed_"@];
        assert forall|p: Seq<char>, q: Seq<char>, x: nat, y: nat|
            prefixes.contains(p) && prefixes.contains(q) && p + decimal(x) == q + decimal(y)
                && x != y implies false by {
            if p == q {
                assert((p + decimal(x)).subrange(p.len() as int, (p + decimal(x)).len() as int)
                    =~= decimal(x));
                assert((q + decimal(y)).subrange(q.len() as int, (q + decimal(y)).len() as int)
                    =~= decimal(y));
                crate::text::decimal_is_injective(x, y);
            } else {
                assert((p + decimal(x))[0] == p[0]);
                assert((q + decimal(y))[0] == q[0]);
            }
        }
        assert(prefixes.contains("generic_"@) && prefixes.contains("hls_"@) && prefixes.contains(
            "embed_"@,
        )) by {
            assert(prefixes[0] == "generic_"@);
            assert(prefixes[1] == "hls_"@);
            assert(prefixes[2] == "embed_"@);
        }
    }
}

proof fn lemma_page_formats_distinct(page: Seq<char>, html: Seq<char>)
    ensures
        distinct_urls(page_formats(page, html)),
        distinct_ids(page_formats(page, html)),
{
    let empty = Seq::<FormatView>::empty();
    let direct = scan(empty, MatchKind::Direct, page, html, direct_patterns());
    lemma_scan_distinct(empty, MatchKind::Direct, page, html, direct_patterns());
    lemma_scan_distinct(direct, MatchKind::Hls, page, html, hls_patterns());
    lemma_scan_distinct(empty, MatchKind::Embed, page, html, embed_patterns());
    lemma_scan_numbered(empty, MatchKind::Direct, page, html, direct_patterns());
    lemma_scan_numbered(direct, MatchKind::Hls, page, html, hls_patterns());
    lemma_scan_numbered(empty, MatchKind::Embed, page, html, embed_patterns());
    let fs = page_formats(page, html);
    assert forall|i: int, j: int| 0 <= i < j < fs.len() implies (#[trigger] fs[i]).format_id != (
    #[trigger] fs[j]).format_id by {
        lemma_numbered_ids_differ(fs[i].format_id, i, fs[j].format_id, j);
    }
}

/// Extracting the same page twice gives the same formats, in the same order,
/// and the same title; no two of those formats share a URL or an identifier.
pub proof fn generic_extract_is_repeatable(
    page: Seq<char>,
    html: Seq<char>,
    first: Result<VideoInfo, ExtractError>,
    second: Result<VideoInfo, ExtractError>,
)
    requires
        generic_outcome(page, html, first),
        generic_outcome(page, html, second),
    ensures
        first is Ok <==> second is Ok,
        first is Ok ==> first->Ok_0@.formats == second->Ok_0@.formats,
        first is Ok ==> first->Ok_0@.title == second->Ok_0@.title,
        first is Ok ==> distinct_urls(first->Ok_0@.formats) && distinct_ids(first->Ok_0@.formats),
{
    lemma_page_formats_distinct(page, html);
}

} // verus!
