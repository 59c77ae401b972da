use youwee::download::{
    build_format_string, DownloadError, DownloadRequest, DownloadStatus, Phase, ProcessEvent,
    Supervisor, SupervisorAction,
};

fn line(s: &str) -> ProcessEvent {
    ProcessEvent::Line(s.to_string())
}

fn started(id: &str) -> Supervisor {
    let mut s = Supervisor::new(id.to_string());
    s.begin();
    s
}

#[test]
fn format_strings() {
    assert_eq!(
        build_format_string("1080", "mp4"),
        "bestvideo[height<=1080][ext=mp4]+bestaudio[ext=m4a]/bestvideo[height<=1080]+bestaudio/best[height<=1080]/best"
    );
    assert_eq!(
        build_format_string("4k", "mkv"),
        "bestvideo[height<=2160]+bestaudio/best[height<=2160]/best"
    );
    assert_eq!(
        build_format_string("2k", "webm"),
        "bestvideo[height<=1440]+bestaudio/best[height<=1440]/best"
    );
    assert_eq!(
        build_format_string("best", "mp4"),
        "bestvideo[ext=mp4]+bestaudio[ext=m4a]/bestvideo+bestaudio/best"
    );
    assert_eq!(build_format_string("best", "mkv"), "bestvideo+bestaudio/best");
    assert_eq!(build_format_string("audio", "mp3"), "bestaudio/best");
    assert_eq!(build_format_string("720", "opus"), "bestaudio[ext=webm]/bestaudio/best");
    assert_eq!(build_format_string("720", "m4a"), "bestaudio[ext=m4a]/bestaudio/best");
    assert_eq!(build_format_string("audio", "flac"), "bestaudio[ext=m4a]/bestaudio/best");
}

#[test]
fn video_request_arguments() {
    let req = DownloadRequest {
        id: "d1".to_string(),
        url: "https://example.com/v".to_string(),
        output_path: "/tmp/out".to_string(),
        quality: "720".to_string(),
        format: "mp4".to_string(),
        download_playlist: false,
    };
    assert_eq!(
        req.arguments(),
        vec![
            "--newline",
            "-f",
            "bestvideo[height<=720][ext=mp4]+bestaudio[ext=m4a]/bestvideo[height<=720]+bestaudio/best[height<=720]/best",
            "-o",
            "/tmp/out/%(title)s.%(ext)s",
            "--no-playlist",
            "--merge-output-format",
            "mp4",
            "https://example.com/v",
        ]
    );
}

#[test]
fn audio_request_arguments() {
    let req = DownloadRequest {
        id: "d2".to_string(),
        url: "u".to_string(),
        output_path: "o".to_string(),
        quality: "audio".to_string(),
        format: "wav".to_string(),
        download_playlist: true,
    };
    assert_eq!(
        req.arguments(),
        vec![
            "--newline",
            "-f",
            "bestaudio[ext=m4a]/bestaudio/best",
            "-o",
            "o/%(title)s.%(ext)s",
            "-x",
            "--audio-format",
            "mp3",
            "--audio-quality",
            "0",
            "u",
        ]
    );
}

#[test]
fn scenario_exit_code_one_without_cancellation_fails() {
    let mut s = started("x");
    match s.on_event(ProcessEvent::Terminated(Some(1)), false) {
        SupervisorAction::Fail(DownloadError::DownloadFailed(code), ev) => {
            assert_eq!(code, Some(1));
            assert_eq!(ev.status, DownloadStatus::Failed);
            assert_eq!(ev.id, "x");
        }
        other => panic!("unexpected {:?}", other),
    }
    assert_eq!(s.phase(), Phase::Failed);
}

#[test]
fn scenario_exit_code_one_with_cancellation_is_cancelled() {
    let mut s = started("x");
    match s.on_event(ProcessEvent::Terminated(Some(1)), true) {
        SupervisorAction::Cancel(ev) => assert_eq!(ev.status, DownloadStatus::Cancelled),
        other => panic!("unexpected {:?}", other),
    }
    assert_eq!(s.phase(), Phase::Cancelled);
    let mut s = started("y");
    assert!(matches!(s.on_event(ProcessEvent::Terminated(Some(0)), true), SupervisorAction::Cancel(_)));
}

#[test]
fn nothing_after_cancellation() {
    let mut s = started("c");
    assert!(matches!(s.on_event(line("[download]  10.0% of 1MiB"), false), SupervisorAction::Emit(_)));
    assert!(matches!(s.on_event(line("[download]  20.0% of 1MiB"), true), SupervisorAction::Cancel(_)));
    assert!(matches!(s.on_event(line("[download]  30.0% of 1MiB"), false), SupervisorAction::Continue));
    assert!(matches!(s.on_event(ProcessEvent::Terminated(Some(0)), false), SupervisorAction::Continue));
    assert!(matches!(s.abort(DownloadError::Cancelled), SupervisorAction::Continue));
    assert_eq!(s.phase(), Phase::Cancelled);
}

#[test]
fn playlist_position_is_inherited_by_next_progress_event() {
    let mut s = started("p");
    match s.on_event(line("[download] Downloading item 3 of 12"), false) {
        SupervisorAction::Emit(ev) => {
            assert_eq!(ev.playlist_index, Some(3));
            assert_eq!(ev.playlist_count, Some(12));
            assert_eq!(ev.percent_micros, 0);
        }
        other => panic!("unexpected {:?}", other),
    }
    match s.on_event(line("[download]  42.5% of 10.00MiB at 1.20MiB/s ETA 00:05"), false) {
        SupervisorAction::Emit(ev) => {
            assert_eq!(ev.percent_micros, 42_500_000);
            assert_eq!(ev.speed, "1.20MiB/s");
            assert_eq!(ev.eta, "00:05");
            assert_eq!(ev.playlist_index, Some(3));
            assert_eq!(ev.playlist_count, Some(12));
            assert_eq!(ev.status, DownloadStatus::Downloading);
        }
        other => panic!("unexpected {:?}", other),
    }
    match s.on_event(line("[download] Downloading item 4 of 12"), false) {
        SupervisorAction::Emit(ev) => {
            assert_eq!(ev.percent_micros, 0);
            assert_eq!(ev.speed, "1.20MiB/s");
            assert_eq!(ev.playlist_index, Some(4));
        }
        other => panic!("unexpected {:?}", other),
    }
}

#[test]
fn successful_run_finishes_with_title() {
    let mut s = started("f");
    assert!(matches!(s.on_event(line("[youtube] id: Downloading webpage"), false), SupervisorAction::Continue));
    assert_eq!(s.phase(), Phase::Running);
    assert!(matches!(
        s.on_event(line("[download] Destination: /v/Clip.mp4"), false),
        SupervisorAction::Emit(_)
    ));
    match s.on_event(ProcessEvent::Terminated(Some(0)), false) {
        SupervisorAction::Finish(ev) => {
            assert_eq!(ev.percent_micros, 100_000_000);
            assert_eq!(ev.speed, "");
            assert_eq!(ev.eta, "");
            assert_eq!(ev.title.as_deref(), Some("Clip"));
            assert_eq!(ev.status, DownloadStatus::Finished);
            assert_eq!(ev.status.as_str(), "finished");
        }
        other => panic!("unexpected {:?}", other),
    }
    assert_eq!(s.phase(), Phase::Finished);
    s.begin();
    assert_eq!(s.phase(), Phase::Starting);
}

#[test]
fn process_error_fails() {
    let mut s = started("e");
    match s.on_event(ProcessEvent::ProcessError("boom".to_string()), false) {
        SupervisorAction::Fail(err, ev) => {
            assert_eq!(err.message(), "Process error: boom");
            assert_eq!(ev.status.as_str(), "failed");
        }
        other => panic!("unexpected {:?}", other),
    }
}

#[test]
fn download_error_messages() {
    assert_eq!(DownloadError::Cancelled.message(), "Download cancelled");
    assert_eq!(DownloadError::DownloadFailed(None).message(), "Download failed");
    assert_eq!(DownloadError::DownloadFailed(Some(1)).message(), "Download failed (exit code 1)");
    assert_eq!(DownloadError::DownloadFailed(Some(-15)).message(), "Download failed (exit code -15)");
    assert_eq!(DownloadError::DownloadFailed(Some(i32::MIN)).message(), "Download failed (exit code -2147483648)");
    assert_eq!(
        DownloadError::ToolNotFound("not found".to_string()).message(),
        "Failed to start yt-dlp: not found. Please install yt-dlp: brew install yt-dlp"
    );
}

#[test]
fn abort_while_starting() {
    let mut s = started("a");
    match s.abort(DownloadError::ToolNotFound("x".to_string())) {
        SupervisorAction::Fail(DownloadError::ToolNotFound(_), ev) => assert_eq!(ev.status, DownloadStatus::Failed),
        other => panic!("unexpected {:?}", other),
    }
    let mut s = started("b");
    assert!(matches!(s.abort(DownloadError::Cancelled), SupervisorAction::Cancel(_)));
    let mut idle = Supervisor::new("i".to_string());
    assert!(matches!(idle.on_event(line("[download] 5.0%"), false), SupervisorAction::Continue));
    assert_eq!(idle.phase(), Phase::Idle);
}

#[test]
fn percent_never_goes_down_within_an_item() {
    let mut s = started("m");
    let percents: Vec<u64> = [
        "[download]  50.0% of 1MiB",
        "[download]  10.0% of 1MiB",
        "[download]  60.0% of 1MiB",
        "[download] Downloading item 2 of 3",
        "[download]  5.0% of 1MiB",
    ]
    .iter()
    .map(|l| match s.on_event(line(l), false) {
        SupervisorAction::Emit(ev) => ev.percent_micros,
        other => panic!("unexpected {:?}", other),
    })
    .collect();
    assert_eq!(percents, vec![50_000_000, 50_000_000, 60_000_000, 0, 5_000_000]);
}
