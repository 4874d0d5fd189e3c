use video_downloader::download::{
    plan_download, sanitize_filename, select_format, status_after, transcode_args, DownloadError,
    DownloadStatus, Transfer,
};
use video_downloader::model::{ExtractError, VideoFormat, VideoInfo};

fn fmt(id: &str, ext: &str, url: &str) -> VideoFormat {
    VideoFormat {
        format_id: id.to_string(),
        ext: ext.to_string(),
        quality: "unknown".to_string(),
        url: url.to_string(),
        filesize: None,
        has_video: true,
        has_audio: true,
    }
}

fn info(title: &str, formats: Vec<VideoFormat>) -> VideoInfo {
    VideoInfo {
        id: "id".to_string(),
        title: title.to_string(),
        thumbnail: None,
        duration: None,
        uploader: None,
        formats,
        site: "Generic".to_string(),
    }
}

#[test]
fn reserved_characters_become_underscores() {
    assert_eq!(sanitize_filename("A/B:C*D?E<F>G|H"), "A_B_C_D_E_F_G_H");
    assert_eq!(sanitize_filename("A/B:C*D?\"E<F>G|H"), "A_B_C_D__E_F_G_H");
    assert_eq!(sanitize_filename("back\\slash"), "back_slash");
    assert_eq!(sanitize_filename("日本語 title"), "日本語 title");
}

#[test]
fn long_titles_are_cut_to_two_hundred_characters() {
    let long: String = std::iter::repeat('x').take(250).collect();
    assert_eq!(sanitize_filename(&long).chars().count(), 200);
    let wide: String = std::iter::repeat('é').take(250).collect();
    assert_eq!(sanitize_filename(&wide).chars().count(), 200);
    let exact: String = std::iter::repeat('y').take(200).collect();
    assert_eq!(sanitize_filename(&exact), exact);
}

#[test]
fn unknown_format_id_falls_back_to_first() {
    let v = info("t", vec![fmt("a", "mp4", "https://x/a.mp4"), fmt("b", "webm", "https://x/b.webm")]);
    assert_eq!(select_format(&v, "zzz").unwrap().format_id, "a");
    assert_eq!(select_format(&v, "b").unwrap().format_id, "b");
}

#[test]
fn no_formats_is_format_not_found() {
    let v = info("t", vec![]);
    match select_format(&v, "a") {
        Err(DownloadError::FormatNotFound(id)) => assert_eq!(id, "a"),
        other => panic!("unexpected {:?}", other),
    }
    assert!(matches!(plan_download(&v, "a"), Err(DownloadError::FormatNotFound(_))));
}

#[test]
fn plans_direct_and_transcoded_downloads() {
    let v = info(
        "My: Video",
        vec![fmt("a", "webm", "https://x/a.webm"), fmt("h", "m3u8", "https://x/list.m3u8")],
    );
    let p = plan_download(&v, "a").unwrap();
    assert_eq!(p.file_name, "My_ Video.webm");
    assert_eq!(p.transfer, Transfer::Direct);
    assert_eq!(p.url, "https://x/a.webm");
    let h = plan_download(&v, "h").unwrap();
    assert_eq!(h.file_name, "My_ Video.mp4");
    assert_eq!(h.transfer, Transfer::Transcode);
}

#[test]
fn tool_argument_template() {
    let args = transcode_args("https://x/list.m3u8", "/tmp/o.mp4");
    assert_eq!(
        args,
        vec![
            "-i", "https://x/list.m3u8", "-c", "copy", "-bsf:a", "aac_adtstoasc", "-y",
            "-progress", "pipe:1", "/tmp/o.mp4",
        ]
    );
}

#[test]
fn final_statuses() {
    let ok: Result<u8, DownloadError> = Ok(1);
    assert_eq!(status_after(&ok), DownloadStatus::Completed);
    let cancelled: Result<u8, DownloadError> = Err(DownloadError::Cancelled);
    assert_eq!(status_after(&cancelled), DownloadStatus::Cancelled);
    let failed: Result<u8, DownloadError> = Err(DownloadError::IoError("disk".to_string()));
    assert_eq!(status_after(&failed), DownloadStatus::Failed);
}

#[test]
fn error_messages() {
    assert_eq!(DownloadError::Cancelled.message(), "Download cancelled");
    assert_eq!(DownloadError::FormatNotFound("x".to_string()).message(), "Format not found: x");
    assert_eq!(DownloadError::NetworkError("down".to_string()).message(), "Network error: down");
    assert_eq!(DownloadError::IoError("full".to_string()).message(), "IO error: full");
    assert_eq!(
        DownloadError::ExternalToolError("missing".to_string()).message(),
        "External tool error: missing"
    );
    assert_eq!(
        DownloadError::ExtractError(ExtractError::VideoNotFound).message(),
        "Extract error: Video not found"
    );
    assert_eq!(ExtractError::ParseError("p".to_string()).message(), "Parse error: p");
    assert_eq!(ExtractError::UnsupportedUrl("u".to_string()).message(), "Unsupported URL: u");
    assert_eq!(ExtractError::NetworkError("n".to_string()).message(), "Network error: n");
}
