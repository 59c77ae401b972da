use youwee::download::ProcessEvent;
use youwee::probe::{
    info_probe_args, kill_commands, parse_subtitle_list, playlist_probe_args, probe_output,
    subtitle_list_args, truncate_description, watch_url,
};

#[test]
fn probe_arguments() {
    assert_eq!(
        info_probe_args("U"),
        vec!["--dump-json", "--no-download", "--no-playlist", "--no-warnings", "--socket-timeout", "15", "U"]
    );
    assert_eq!(
        playlist_probe_args("U", Some(25)),
        vec!["--flat-playlist", "--dump-json", "--no-warnings", "--socket-timeout", "30", "--playlist-end", "25", "U"]
    );
    assert_eq!(
        playlist_probe_args("U", Some(0)),
        vec!["--flat-playlist", "--dump-json", "--no-warnings", "--socket-timeout", "30", "U"]
    );
    assert_eq!(playlist_probe_args("U", None).len(), 6);
    assert_eq!(subtitle_list_args("U"), vec!["--list-subs", "--skip-download", "--no-warnings", "U"]);
}

#[test]
fn watch_address() {
    assert_eq!(watch_url("abc"), "https://www.youtube.com/watch?v=abc");
}

#[test]
fn description_preview() {
    assert_eq!(truncate_description("short"), "short");
    let exact = "é".repeat(200);
    assert_eq!(truncate_description(&exact), exact);
    let long = "é".repeat(201);
    assert_eq!(truncate_description(&long), format!("{}...", "é".repeat(200)));
}

#[test]
fn probe_output_collects_or_fails() {
    let ok = vec![
        ProcessEvent::Line("{\"a\":".to_string()),
        ProcessEvent::Line("1}".to_string()),
        ProcessEvent::Terminated(Some(0)),
    ];
    assert_eq!(probe_output(&ok).unwrap(), "{\"a\":1}");
    let failed = vec![ProcessEvent::Line("x".to_string()), ProcessEvent::Terminated(Some(2))];
    assert_eq!(probe_output(&failed).unwrap_err(), "yt-dlp command failed");
    let broken = vec![ProcessEvent::ProcessError("io".to_string()), ProcessEvent::Terminated(Some(2))];
    assert_eq!(probe_output(&broken).unwrap_err(), "Process error: io");
    assert_eq!(probe_output(&Vec::new()).unwrap(), "");
}

#[test]
fn kill_command_lists() {
    let unix = kill_commands(false);
    assert_eq!(unix.len(), 2);
    assert_eq!(unix[0].0, "pkill");
    assert_eq!(unix[0].1, vec!["-9", "-f", "yt-dlp"]);
    assert_eq!(unix[1].1, vec!["-9", "-f", "ffmpeg"]);
    let win = kill_commands(true);
    assert_eq!(win[0].0, "taskkill");
    assert_eq!(win[1].1, vec!["/F", "/IM", "ffmpeg.exe"]);
}

#[test]
fn subtitle_listing() {
    let listing = "[info] Available automatic captions for abc:\nLanguage Name Formats\nen English vtt, srt\nvi Vietnamese vtt\nen English vtt\n[info] Available subtitles for abc:\nLanguage Name Formats\nen English vtt\nxx Other vtt\n";
    let subs = parse_subtitle_list(listing);
    let got: Vec<(String, String, bool)> =
        subs.into_iter().map(|s| (s.lang, s.name, s.is_auto)).collect();
    assert_eq!(
        got,
        vec![
            ("en".to_string(), "English".to_string(), true),
            ("vi".to_string(), "Vietnamese".to_string(), true),
            ("en".to_string(), "English".to_string(), false),
            ("xx".to_string(), "xx".to_string(), false),
        ]
    );
}

#[test]
fn empty_listing_gives_defaults() {
    let subs = parse_subtitle_list("");
    let langs: Vec<String> = subs.iter().map(|s| s.lang.clone()).collect();
    assert_eq!(langs, vec!["en", "vi", "ja", "ko", "zh"]);
    assert!(subs.iter().all(|s| !s.is_auto));
    assert_eq!(subs[4].name, "Chinese");
}
