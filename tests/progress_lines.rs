use youwee::progress::{classify_line, parse_progress};

#[test]
fn scenario_download_progress_line() {
    let p = parse_progress("[download]  42.5% of 10.00MiB at 1.20MiB/s ETA 00:05").unwrap();
    assert_eq!(p.percent_micros, 42_500_000);
    assert_eq!(p.speed, "1.20MiB/s");
    assert_eq!(p.eta, "00:05");
    assert_eq!(p.playlist_index, None);
    assert_eq!(p.playlist_count, None);
}

#[test]
fn scenario_playlist_position_line() {
    let u = classify_line("[download] Downloading item 3 of 12");
    let pos = u.playlist.unwrap();
    assert_eq!(pos.index, Some(3));
    assert_eq!(pos.count, Some(12));
    assert!(u.progress.is_none());
    assert!(u.title.is_none());
}

#[test]
fn percent_tokens_are_read_exactly() {
    for (line, micros) in [
        ("[download]   0.0% of 3.00MiB", 0u64),
        ("[download]  99.9% of 3.00MiB", 99_900_000),
        ("[download] 100.0% of 3.00MiB in 00:01", 100_000_000),
        ("[download]  7% of 3.00MiB", 7_000_000),
        ("status 12.3456789%", 12_345_678),
        ("1.2.3% odd", 2_300_000),
    ] {
        assert_eq!(parse_progress(line).unwrap().percent_micros, micros, "{}", line);
    }
}

#[test]
fn percent_without_number_is_no_progress() {
    assert!(parse_progress("[download] %").is_none());
    assert!(parse_progress("[download] about % done").is_none());
    assert!(parse_progress("no percent here").is_none());
    assert!(parse_progress("rate .%").is_none());
}

#[test]
fn percent_over_hundred_is_no_progress() {
    assert!(parse_progress("[download] 150.0% of 1MiB").is_none());
    assert!(parse_progress("[download] 100.5% of 1MiB").is_none());
}

#[test]
fn progress_without_rate_or_eta_gives_empty_texts() {
    let p = parse_progress("[download]  10.0% of 5.00MiB").unwrap();
    assert_eq!(p.speed, "");
    assert_eq!(p.eta, "");
}

#[test]
fn trailing_text_still_matches() {
    let p = parse_progress("[download]  42.5% of ~10.00MiB at  1.20MiB/s ETA 00:05 (frag 3/9) extra")
        .unwrap();
    assert_eq!(p.percent_micros, 42_500_000);
    assert_eq!(p.speed, "1.20MiB/s");
    assert_eq!(p.eta, "00:05");
}

#[test]
fn progress_and_playlist_on_one_line() {
    let p = parse_progress("Downloading item 2 of 5 at 50.0% at 3MiB/s ETA 00:10").unwrap();
    assert_eq!(p.percent_micros, 50_000_000);
    assert_eq!(p.playlist_index, Some(2));
    assert_eq!(p.playlist_count, Some(5));
}

#[test]
fn playlist_number_too_large_is_absent() {
    let u = classify_line("Downloading item 99999999999 of 12");
    let pos = u.playlist.unwrap();
    assert_eq!(pos.index, None);
    assert_eq!(pos.count, Some(12));
}

#[test]
fn destination_line_gives_title() {
    let u = classify_line("[download] Destination: /home/me/Videos/My Clip.f137.mp4");
    assert_eq!(u.title.unwrap(), "My Clip.f137");
    let u = classify_line("[ExtractAudio] Destination: /tmp/out/Song.mp3");
    assert_eq!(u.title.unwrap(), "Song");
    let u = classify_line("[download] Destination: nofolder.mp4");
    assert!(u.title.is_none());
}

#[test]
fn unrecognized_line_states_nothing() {
    let u = classify_line("[youtube] abc: Downloading webpage");
    assert!(u.playlist.is_none() && u.progress.is_none() && u.title.is_none());
    assert!(!u.has_data());
    let u = classify_line("");
    assert!(!u.has_data());
}

#[test]
fn keywords_inside_words_are_not_markers() {
    let p = parse_progress("[download]  10.0% format 22 at 1MiB/s ETA 00:09").unwrap();
    assert_eq!(p.speed, "1MiB/s");
    assert_eq!(p.eta, "00:09");
    let p = parse_progress("[download]  10.0% whatever 22 BETA 3").unwrap();
    assert_eq!(p.speed, "");
    assert_eq!(p.eta, "");
}
