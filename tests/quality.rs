use video_downloader::model::VideoFormat;
use video_downloader::quality::{quality_for_bitrate, quality_rank, sort_by_quality};

fn fmt(id: &str, quality: &str) -> VideoFormat {
    VideoFormat {
        format_id: id.to_string(),
        ext: "mp4".to_string(),
        quality: quality.to_string(),
        url: format!("https://cdn.example.com/{}.mp4", id),
        filesize: None,
        has_video: true,
        has_audio: true,
    }
}

#[test]
fn bitrate_buckets() {
    assert_eq!(quality_for_bitrate(2_500_000), "1080p");
    assert_eq!(quality_for_bitrate(1_200_000), "720p");
    assert_eq!(quality_for_bitrate(600_000), "480p");
    assert_eq!(quality_for_bitrate(250_000), "250kbps");
    assert_eq!(quality_for_bitrate(2_000_000), "1080p");
    assert_eq!(quality_for_bitrate(499_999), "499kbps");
    assert_eq!(quality_for_bitrate(0), "0kbps");
}

#[test]
fn label_ranks() {
    assert_eq!(quality_rank("1080p"), 4);
    assert_eq!(quality_rank("720p"), 3);
    assert_eq!(quality_rank("480p"), 2);
    assert_eq!(quality_rank("360p"), 1);
    assert_eq!(quality_rank("250kbps"), 0);
}

#[test]
fn sort_is_by_rank_and_stable() {
    let input = vec![
        fmt("a", "250kbps"),
        fmt("b", "480p"),
        fmt("c", "1080p"),
        fmt("d", "720p"),
        fmt("e", "480p"),
        fmt("f", "1080p"),
        fmt("g", "unknown"),
    ];
    let out = sort_by_quality(input);
    let ids: Vec<&str> = out.iter().map(|f| f.format_id.as_str()).collect();
    assert_eq!(ids, vec!["c", "f", "d", "b", "e", "a", "g"]);
}
