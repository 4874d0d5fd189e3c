use video_downloader::model::{ExtractError, Json};
use video_downloader::twitter::{self, after_attempt, api_url, Source, TwitterStep};
use video_downloader::youtube;

fn s(v: &str) -> Json {
    Json::Str(v.to_string())
}

fn n(v: u64) -> Json {
    Json::Number(Some(v))
}

fn obj(entries: Vec<(&str, Json)>) -> Json {
    Json::Object(entries.into_iter().map(|(k, v)| (k.to_string(), v)).collect())
}

#[test]
fn youtube_player_response() {
    let response = obj(vec![
        ("playabilityStatus", obj(vec![("status", s("OK"))])),
        (
            "videoDetails",
            obj(vec![
                ("title", s("Song")),
                ("lengthSeconds", s("212")),
                ("author", s("Singer")),
                (
                    "thumbnail",
                    obj(vec![(
                        "thumbnails",
                        Json::Array(vec![obj(vec![("url", s("small.jpg"))]), obj(vec![("url", s("big.jpg"))])]),
                    )]),
                ),
            ]),
        ),
        (
            "streamingData",
            obj(vec![
                (
                    "formats",
                    Json::Array(vec![obj(vec![
                        ("itag", n(18)),
                        ("mimeType", s("video/mp4; codecs=\"avc1\"")),
                        ("url", s("https://v/18")),
                        ("qualityLabel", s("360p")),
                        ("contentLength", s("1000")),
                    ])]),
                ),
                (
                    "adaptiveFormats",
                    Json::Array(vec![
                        obj(vec![
                            ("itag", n(140)),
                            ("mimeType", s("audio/mp4")),
                            ("url", s("https://v/140")),
                            ("bitrate", n(128000)),
                        ]),
                        obj(vec![("itag", n(999)), ("mimeType", s("video/webm"))]),
                        obj(vec![
                            ("itag", n(137)),
                            ("mimeType", s("video/webm")),
                            ("url", s("https://v/137")),
                            ("qualityLabel", s("1080p")),
                        ]),
                    ]),
                ),
            ]),
        ),
    ]);
    let info = youtube::extract("dQw4w9WgXcQ", &response).unwrap();
    assert_eq!(info.id, "dQw4w9WgXcQ");
    assert_eq!(info.title, "Song");
    assert_eq!(info.duration, Some(212));
    assert_eq!(info.uploader, Some("Singer".to_string()));
    assert_eq!(info.thumbnail, Some("big.jpg".to_string()));
    assert_eq!(info.site, "YouTube");
    let ids: Vec<&str> = info.formats.iter().map(|f| f.format_id.as_str()).collect();
    assert_eq!(ids, vec!["137", "18", "140"]);
    assert_eq!(info.formats[0].ext, "webm");
    assert_eq!(info.formats[1].filesize, Some(1000));
    assert!(info.formats[1].has_video && !info.formats[1].has_audio);
    assert_eq!(info.formats[2].quality, "128kbps");
    assert!(info.formats[2].has_audio && !info.formats[2].has_video);
}

#[test]
fn youtube_errors() {
    let denied = obj(vec![("playabilityStatus", obj(vec![("status", s("ERROR"))]))]);
    assert!(matches!(youtube::extract("x", &denied), Err(ExtractError::VideoNotFound)));
    match youtube::extract("x", &obj(vec![])) {
        Err(ExtractError::ParseError(m)) => assert_eq!(m, "No video details"),
        other => panic!("unexpected {:?}", other),
    }
    let bare = obj(vec![("videoDetails", obj(vec![]))]);
    match youtube::extract("x", &bare) {
        Err(ExtractError::ParseError(m)) => assert_eq!(m, "No formats found"),
        other => panic!("unexpected {:?}", other),
    }
    let unnamed = obj(vec![
        ("videoDetails", obj(vec![])),
        (
            "streamingData",
            obj(vec![(
                "formats",
                Json::Array(vec![obj(vec![("itag", n(5)), ("mimeType", s("video/3gpp")), ("url", s("u"))])]),
            )]),
        ),
    ]);
    let info = youtube::extract("x", &unnamed).unwrap();
    assert_eq!(info.title, "Unknown");
    assert_eq!(info.formats[0].ext, "3gp");
    assert_eq!(info.formats[0].quality, "0kbps");
}

#[test]
fn first_mirror_answer() {
    let long_text: String = std::iter::repeat('a').take(120).collect();
    let answer = obj(vec![
        ("text", s(&long_text)),
        ("user_name", s("Poster")),
        (
            "media_extended",
            Json::Array(vec![
                obj(vec![("type", s("image")), ("url", s("https://p/i.jpg"))]),
                obj(vec![
                    ("type", s("video")),
                    ("url", s("https://p/v.mp4")),
                    ("thumbnail_url", s("https://p/t.jpg")),
                    ("size", obj(vec![("height", n(720))])),
                ]),
            ]),
        ),
    ]);
    let info = twitter::try_vxtwitter("77", &answer).unwrap();
    assert_eq!(info.title.chars().count(), 103);
    assert!(info.title.ends_with("..."));
    assert_eq!(info.uploader, Some("Poster".to_string()));
    assert_eq!(info.thumbnail, None);
    assert_eq!(info.formats.len(), 1);
    assert_eq!(info.formats[0].format_id, "twitter_1");
    assert_eq!(info.formats[0].quality, "720p");
    assert_eq!(info.site, "Twitter");

    let urls_only = obj(vec![(
        "mediaURLs",
        Json::Array(vec![s("https://p/a.jpg"), s("https://p/b.mp4")]),
    )]);
    let info = twitter::try_vxtwitter("78", &urls_only).unwrap();
    assert_eq!(info.title, "Twitter Video 78");
    assert_eq!(info.formats[0].format_id, "twitter_1");
    assert_eq!(info.formats[0].quality, "unknown");

    match twitter::try_vxtwitter("79", &obj(vec![])) {
        Err(ExtractError::ParseError(m)) => assert_eq!(m, "No video found in tweet"),
        other => panic!("unexpected {:?}", other),
    }
}

#[test]
fn post_titles_are_cut_by_bytes() {
    let media = || {
        Json::Array(vec![obj(vec![("type", s("video")), ("url", s("https://p/v.mp4"))])])
    };
    let accented: String = std::iter::repeat('é').take(60).collect();
    let info = twitter::try_vxtwitter("1", &obj(vec![("text", s(&accented)), ("media_extended", media())])).unwrap();
    let expected: String = std::iter::repeat('é').take(50).collect::<String>() + "...";
    assert_eq!(info.title, expected);
    let kana: String = std::iter::repeat('あ').take(101).collect();
    let info = twitter::try_vxtwitter("2", &obj(vec![("text", s(&kana)), ("media_extended", media())])).unwrap();
    let expected: String = std::iter::repeat('あ').take(33).collect::<String>() + "...";
    assert_eq!(info.title, expected);
    let exact: String = std::iter::repeat('b').take(100).collect();
    let info = twitter::try_vxtwitter("3", &obj(vec![("text", s(&exact)), ("media_extended", media())])).unwrap();
    assert_eq!(info.title, exact);
}

#[test]
fn second_mirror_answer() {
    let answer = obj(vec![
        ("text", s("short")),
        ("user", obj(vec![("name", s("Name"))])),
        (
            "mediaDetails",
            Json::Array(vec![obj(vec![
                ("type", s("video")),
                ("media_url_https", s("https://p/thumb.jpg")),
                (
                    "video_info",
                    obj(vec![(
                        "variants",
                        Json::Array(vec![
                            obj(vec![("content_type", s("application/x-mpegURL")), ("url", s("https://p/pl.m3u8"))]),
                            obj(vec![("content_type", s("video/mp4")), ("url", s("https://p/low.mp4")), ("bitrate", n(256000))]),
                            obj(vec![("content_type", s("video/mp4")), ("url", s("https://p/high.mp4")), ("bitrate", n(2176000))]),
                            obj(vec![("content_type", s("video/mp4")), ("url", s("https://p/mid.mp4"))]),
                        ]),
                    )]),
                ),
            ])]),
        ),
    ]);
    let info = twitter::try_syndication("5", &answer).unwrap();
    assert_eq!(info.title, "short");
    assert_eq!(info.uploader, Some("Name".to_string()));
    assert_eq!(info.thumbnail, Some("https://p/thumb.jpg".to_string()));
    let got: Vec<(&str, &str)> = info.formats.iter().map(|f| (f.format_id.as_str(), f.quality.as_str())).collect();
    assert_eq!(got, vec![("twitter_1", "1080p"), ("twitter_0", "256kbps"), ("twitter_2", "variant_3")]);
}

fn video_media(url: &str, bitrate: u64) -> Json {
    obj(vec![
        ("type", s("video")),
        (
            "video_info",
            obj(vec![(
                "variants",
                Json::Array(vec![obj(vec![("content_type", s("video/mp4")), ("url", s(url)), ("bitrate", n(bitrate))])]),
            )]),
        ),
    ])
}

#[test]
fn second_mirror_numbers_across_media() {
    let answer = obj(vec![(
        "mediaDetails",
        Json::Array(vec![
            video_media("https://p/one.mp4", 600_000),
            video_media("https://p/two.mp4", 1_200_000),
            video_media("https://p/one.mp4", 2_500_000),
        ]),
    )]);
    let info = twitter::try_syndication("6", &answer).unwrap();
    let got: Vec<(&str, &str)> = info.formats.iter().map(|f| (f.format_id.as_str(), f.url.as_str())).collect();
    assert_eq!(
        got,
        vec![("twitter_2", "https://p/one.mp4"), ("twitter_1", "https://p/two.mp4")]
    );
}

#[test]
fn youtube_formats_sharing_a_url_collapse() {
    let entry = |itag: u64, url: &str, label: &str| {
        obj(vec![("itag", n(itag)), ("mimeType", s("video/mp4")), ("url", s(url)), ("qualityLabel", s(label))])
    };
    let response = obj(vec![
        ("videoDetails", obj(vec![("title", s("T"))])),
        (
            "streamingData",
            obj(vec![(
                "formats",
                Json::Array(vec![
                    entry(18, "https://v/a", "360p"),
                    entry(22, "https://v/a", "720p"),
                    entry(18, "https://v/b", "360p"),
                    entry(37, "https://v/c", "1080p"),
                ]),
            )]),
        ),
    ]);
    let info = youtube::extract("x", &response).unwrap();
    let ids: Vec<&str> = info.formats.iter().map(|f| f.format_id.as_str()).collect();
    assert_eq!(ids, vec!["37", "22", "18"]);
    assert_eq!(info.formats[2].url, "https://v/b");
}

#[test]
fn mirror_fallback() {
    assert_eq!(api_url(Source::VxTwitter, "9"), "https://api.vxtwitter.com/Twitter/status/9");
    assert_eq!(
        api_url(Source::Syndication, "9"),
        "https://cdn.syndication.twimg.com/tweet-result?id=9&lang=en&token=0"
    );
    assert!(matches!(
        after_attempt(Source::VxTwitter, Err(ExtractError::VideoNotFound)),
        TwitterStep::Fetch(Source::Syndication)
    ));
    match after_attempt(Source::Syndication, Err(ExtractError::NetworkError("x".to_string()))) {
        TwitterStep::Done(Err(ExtractError::ParseError(m))) => assert!(m.starts_with("Could not extract video from this tweet")),
        other => panic!("unexpected {:?}", other),
    }
}
