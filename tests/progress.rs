use video_downloader::download::{status_after, DownloadError, DownloadStatus};
use video_downloader::progress::{
    transcode_progress, StreamProgress, TranscodeProgress, TransferAction, TransferEvent, FULL,
};

#[test]
fn chunked_transfer_reports_growing_totals() {
    let mut s = StreamProgress::new(Some(35));
    let mut seen = Vec::new();
    let mut last_percent = 0.0f32;
    for (i, len) in [10u64, 20, 5].iter().enumerate() {
        match s.step(TransferEvent::Chunk(*len), false, (i as u64 + 1) * 1000) {
            TransferAction::Report(p) => {
                seen.push(p.downloaded);
                last_percent = p.percent_hundredths as f32 / 100.0;
            }
            other => panic!("unexpected {:?}", other),
        }
    }
    assert_eq!(seen, vec![10, 30, 35]);
    assert_eq!(last_percent, 100.0);
    assert!(matches!(s.step(TransferEvent::End, false, 4000), TransferAction::Finish));
}

#[test]
fn speed_and_unknown_total() {
    let mut s = StreamProgress::new(None);
    let p = s.on_chunk(5000, 2000);
    assert_eq!(p.speed, 2500);
    assert_eq!(p.percent_hundredths, 0);
    let mut t = StreamProgress::new(Some(3));
    let q = t.on_chunk(1, 0);
    assert_eq!(q.speed, 0);
    assert_eq!(q.percent_hundredths, 3333);
    let r = t.on_chunk(10, 10);
    assert_eq!(r.percent_hundredths, FULL);
}

#[test]
fn cancelling_mid_transfer() {
    let mut s = StreamProgress::new(Some(50));
    let mut reported = Vec::new();
    let mut result: Result<(), DownloadError> = Ok(());
    for i in 0..5u64 {
        let cancel = i == 2;
        match s.step(TransferEvent::Chunk(10), cancel, i * 100) {
            TransferAction::Report(p) => reported.push(p),
            TransferAction::Abort(e) => {
                result = Err(e);
                break;
            }
            TransferAction::Finish | TransferAction::Continue => break,
        }
    }
    assert_eq!(reported.len(), 2);
    assert!(reported.iter().all(|p| p.percent_hundredths < FULL));
    assert_eq!(s.downloaded, 20);
    assert_eq!(status_after(&result), DownloadStatus::Cancelled);
}

#[test]
fn cancellation_wins_over_errors() {
    let mut s = StreamProgress::new(Some(50));
    let a = s.step(TransferEvent::Failed(DownloadError::NetworkError("reset".to_string())), true, 5);
    assert!(matches!(a, TransferAction::Abort(DownloadError::Cancelled)));
    let b = s.step(TransferEvent::Failed(DownloadError::IoError("disk".to_string())), false, 5);
    match b {
        TransferAction::Abort(e) => assert_eq!(status_after::<()>(&Err(e)), DownloadStatus::Failed),
        other => panic!("unexpected {:?}", other),
    }
}

#[test]
fn transcode_lines() {
    let p = transcode_progress("out_time_ms=150000000").unwrap();
    assert_eq!(p.downloaded, 150);
    assert_eq!(p.percent_hundredths, 5000);
    assert_eq!(p.total, None);
    let q = transcode_progress("out_time_ms=900000000").unwrap();
    assert_eq!(q.percent_hundredths, 9900);
    assert_eq!(transcode_progress("out_time_ms=N/A"), None);
    assert_eq!(transcode_progress("frame=10"), None);
    assert_eq!(transcode_progress("out_time_ms=2000000").unwrap().downloaded, 2);
}

#[test]
fn transcode_snapshots_only_rise_and_end_complete() {
    let mut t = TranscodeProgress::new();
    let mut seen = Vec::new();
    for line in [
        "frame=1",
        "out_time_ms=500000",
        "out_time_ms=900000",
        "out_time_ms=200000000",
        "out_time_ms=200000000",
        "out_time_ms=199000000",
        "progress=continue",
        "out_time_ms=201000000",
    ] {
        if let Some(p) = t.on_line(line) {
            assert!(p.percent_hundredths < FULL);
            seen.push(p.downloaded);
        }
    }
    assert_eq!(seen, vec![0, 200, 201]);
    let done = t.transcode_complete();
    assert_eq!(done.downloaded, 202);
    assert_eq!(done.total, Some(202));
    assert_eq!(done.percent_hundredths, FULL);
}

#[test]
fn transcode_exit_outcomes() {
    let mut t = TranscodeProgress::new();
    t.on_line("out_time_ms=5000000");
    match t.on_exit(true, false, String::new()) {
        Ok(p) => {
            assert_eq!(p.downloaded, 6);
            assert_eq!(p.percent_hundredths, FULL);
        }
        other => panic!("unexpected {:?}", other),
    }
    match t.on_exit(false, false, "bad input".to_string()) {
        Err(DownloadError::ExternalToolError(m)) => assert_eq!(m, "bad input"),
        other => panic!("unexpected {:?}", other),
    }
    assert!(matches!(t.on_exit(true, true, String::new()), Err(DownloadError::Cancelled)));
    assert!(matches!(t.on_exit(false, true, "x".to_string()), Err(DownloadError::Cancelled)));
    let fresh = TranscodeProgress::new();
    assert_eq!(fresh.transcode_complete().downloaded, 0);
}

#[test]
fn empty_chunks_report_nothing() {
    let mut s = StreamProgress::new(Some(10));
    assert!(matches!(s.step(TransferEvent::Chunk(4), false, 1), TransferAction::Report(_)));
    assert!(matches!(s.step(TransferEvent::Chunk(0), false, 2), TransferAction::Continue));
    assert_eq!(s.downloaded, 4);
    match s.step(TransferEvent::Chunk(6), false, 3) {
        TransferAction::Report(p) => assert_eq!(p.downloaded, 10),
        other => panic!("unexpected {:?}", other),
    }
}
