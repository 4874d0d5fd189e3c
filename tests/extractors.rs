use video_downloader::extractors::{after_extraction, select_site, Dispatch, Site};
use video_downloader::generic;
use video_downloader::model::{ExtractError, VideoFormat, VideoInfo};
use video_downloader::twitter::{extract_tweet_id, is_twitter_url, tweet_id_for};
use video_downloader::youtube::{extract_video_id, is_youtube_url, video_id_for};

fn info_with(n: usize) -> VideoInfo {
    let mut formats = Vec::new();
    for i in 0..n {
        formats.push(VideoFormat {
            format_id: format!("f{}", i),
            ext: "mp4".to_string(),
            quality: "720p".to_string(),
            url: format!("https://cdn.example.com/{}.mp4", i),
            filesize: None,
            has_video: true,
            has_audio: true,
        });
    }
    VideoInfo {
        id: "x".to_string(),
        title: "t".to_string(),
        thumbnail: None,
        duration: None,
        uploader: None,
        formats,
        site: "YouTube".to_string(),
    }
}

#[test]
fn test_is_twitter_url() {
    assert!(is_twitter_url("https://twitter.com/user/status/123456789"));
    assert!(is_twitter_url("https://x.com/user/status/123456789"));
    assert!(!is_twitter_url("https://youtube.com/watch?v=abc"));
}

#[test]
fn test_extract_tweet_id() {
    assert_eq!(
        extract_tweet_id("https://twitter.com/user/status/123456789"),
        Some("123456789".to_string())
    );
}

#[test]
fn test_is_youtube_url() {
    assert!(is_youtube_url("https://www.youtube.com/watch?v=dQw4w9WgXcQ"));
    assert!(is_youtube_url("https://youtu.be/dQw4w9WgXcQ"));
    assert!(is_youtube_url("https://www.youtube.com/shorts/abc12345678"));
    assert!(!is_youtube_url("https://twitter.com/user/status/123"));
}

#[test]
fn test_extract_video_id() {
    assert_eq!(
        extract_video_id("https://www.youtube.com/watch?v=dQw4w9WgXcQ"),
        Some("dQw4w9WgXcQ".to_string())
    );
    assert_eq!(
        extract_video_id("https://youtu.be/dQw4w9WgXcQ"),
        Some("dQw4w9WgXcQ".to_string())
    );
}

#[test]
fn shorts_id_and_missing_ids() {
    assert_eq!(
        extract_video_id("https://www.youtube.com/shorts/abc12345678"),
        Some("abc12345678".to_string())
    );
    assert_eq!(extract_video_id("https://www.youtube.com/watch?v=short"), None);
    match video_id_for("https://example.com/") {
        Err(ExtractError::ParseError(m)) => assert_eq!(m, "Could not extract video ID"),
        other => panic!("unexpected {:?}", other),
    }
    match tweet_id_for("https://x.com/user") {
        Err(ExtractError::ParseError(m)) => assert_eq!(m, "Could not extract tweet ID"),
        other => panic!("unexpected {:?}", other),
    }
    assert_eq!(tweet_id_for("https://x.com/a/status/42").unwrap(), "42");
}

#[test]
fn matchers_in_priority_order() {
    assert_eq!(select_site("https://www.youtube.com/watch?v=dQw4w9WgXcQ"), Site::YouTube);
    assert_eq!(select_site("https://mobile.twitter.com/a/status/1"), Site::Twitter);
    assert_eq!(select_site("https://example.com/page"), Site::Generic);
}

#[test]
fn matched_success_ends_dispatch() {
    let url = "https://x.com/user/status/1";
    let site = select_site(url);
    assert_eq!(site, Site::Twitter);
    match after_extraction(site, Ok(info_with(2))) {
        Dispatch::Done(Ok(info)) => assert_eq!(info.formats.len(), 2),
        other => panic!("unexpected {:?}", other),
    }
}

#[test]
fn failed_or_empty_site_extraction_falls_back_to_generic() {
    match after_extraction(Site::YouTube, Err(ExtractError::VideoNotFound)) {
        Dispatch::Run(Site::Generic) => {}
        other => panic!("unexpected {:?}", other),
    }
    match after_extraction(Site::Twitter, Ok(info_with(0))) {
        Dispatch::Run(Site::Generic) => {}
        other => panic!("unexpected {:?}", other),
    }
    match after_extraction(Site::Generic, Err(ExtractError::VideoNotFound)) {
        Dispatch::Done(Err(ExtractError::VideoNotFound)) => {}
        other => panic!("unexpected {:?}", other),
    }
}

#[test]
fn generic_page_with_source_element() {
    let html = r#"<html><head><title>Demo</title></head><body><video><source src="https://cdn.example.com/v.mp4"></video></body></html>"#;
    let url = "https://example.com/watch/demo";
    assert_eq!(select_site(url), Site::Generic);
    let info = generic::extract(url, html).unwrap();
    assert_eq!(info.formats.len(), 1);
    assert_eq!(info.formats[0].ext, "mp4");
    assert_eq!(info.formats[0].format_id, "generic_0");
    assert_eq!(info.formats[0].url, "https://cdn.example.com/v.mp4");
    assert_eq!(info.title, "Demo");
    assert_eq!(info.site, "Generic");
    assert_eq!(info.id, "/watch/demo");
}

#[test]
fn generic_extraction_twice_gives_same_formats() {
    let html = r#"<video src="/media/a.mp4"></video><script>var x = "https://cdn.example.com/b.webm"; var s = "https://cdn.example.com/a.m3u8";</script><a href='/media/a.mp4'>"#;
    let url = "https://example.com/page";
    let a = generic::extract(url, html).unwrap();
    let b = generic::extract(url, html).unwrap();
    let ua: Vec<(String, String)> = a.formats.iter().map(|f| (f.format_id.clone(), f.url.clone())).collect();
    let ub: Vec<(String, String)> = b.formats.iter().map(|f| (f.format_id.clone(), f.url.clone())).collect();
    assert_eq!(ua, ub);
    assert_eq!(
        ua,
        vec![
            ("generic_0".to_string(), "https://example.com/media/a.mp4".to_string()),
            ("generic_1".to_string(), "https://cdn.example.com/b.webm".to_string()),
            ("hls_2".to_string(), "https://cdn.example.com/a.m3u8".to_string()),
        ]
    );
    assert_eq!(a.formats[1].ext, "webm");
    assert_eq!(a.formats[2].ext, "m3u8");
    assert_eq!(a.formats[2].quality, "HLS stream");
}

#[test]
fn generic_embeds_only_without_direct_media() {
    let html = r#"<iframe width="5" src="https://player.vimeo.com/embed/9"></iframe><iframe src="https://ads.example.com/x"></iframe>"#;
    let info = generic::extract("https://example.com/p", html).unwrap();
    assert_eq!(info.formats.len(), 1);
    assert_eq!(info.formats[0].format_id, "embed_0");
    assert_eq!(info.formats[0].ext, "embed");
    assert_eq!(info.formats[0].quality, "embedded");
    assert_eq!(info.title, "Unknown Video");
}

#[test]
fn generic_page_without_media_is_a_parse_error() {
    match generic::extract("https://example.com/p", "<html><p>nothing</p></html>") {
        Err(ExtractError::ParseError(m)) => assert!(m.contains("dynamically via JavaScript")),
        other => panic!("unexpected {:?}", other),
    }
}

#[test]
fn generic_title_og_image_and_entities() {
    let html = r#"<meta property="og:image" content="https://example.com/t.jpg"><title>Tom &amp; Jerry &lt;3&gt; &quot;x&quot; &#39;y&#39;</title><source src="clip.mp4">"#;
    let info = generic::extract("https://example.com/dir/page", html).unwrap();
    assert_eq!(info.title, "Tom & Jerry <3> \"x\" 'y'");
    assert_eq!(info.thumbnail, Some("https://example.com/t.jpg".to_string()));
    assert_eq!(info.formats[0].url, "https://example.com/dir/clip.mp4");
    let og = r#"<meta property="og:title" content="Open Title"><title>Other</title>"#;
    assert_eq!(generic::extract_title(og), Some("Open Title".to_string()));
    assert_eq!(generic::html_decode("&amp;lt;"), "<");
}

#[test]
fn resolving_relative_urls() {
    assert_eq!(generic::resolve_url("https://a.com/x/y", "http://b.com/v.mp4"), "http://b.com/v.mp4");
    assert_eq!(generic::resolve_url("https://a.com/x/y", "//cdn.com/v.mp4"), "https://cdn.com/v.mp4");
    assert_eq!(generic::resolve_url("https://a.com/x/y", "v.mp4"), "https://a.com/x/v.mp4");
    assert_eq!(generic::resolve_url("not a url", "v.mp4"), "v.mp4");
}

#[test]
fn media_url_filter() {
    assert!(generic::is_valid_video_url("https://a.com/v.mp4"));
    assert!(generic::is_valid_video_url("https://a.com/video/12"));
    assert!(!generic::is_valid_video_url("https://a.com/Poster.MP4"));
    assert!(!generic::is_valid_video_url("https://a.com/ANALYTICS/v.mp4"));
    assert!(!generic::is_valid_video_url("https://a.com/v.mov"));
}

#[test]
fn page_id_is_path_or_random() {
    assert_eq!(generic::page_id("https://example.com/a/b?c=1"), "/a/b");
    let r = generic::page_id("::bad::");
    assert_eq!(r.len(), 36);
}

#[test]
fn playlist_matches_pass_the_media_filter() {
    let html = r#"<script>a = "https://cdn.example.com/tracking/x.m3u8"; b = "https://cdn.example.com/live.m3u8";</script>"#;
    let info = generic::extract("https://example.com/p", html).unwrap();
    let urls: Vec<&str> = info.formats.iter().map(|f| f.url.as_str()).collect();
    assert_eq!(urls, vec!["https://cdn.example.com/live.m3u8"]);
    assert_eq!(info.formats[0].format_id, "hls_0");
}
