use youwee::transcript::{
    caption_fetch_args, caption_source, description_transcript, is_caption_file, is_usable,
    pick_caption, rank_caption_files, TranscriptSource,
};

fn names(v: &[&str]) -> Vec<String> {
    v.iter().map(|s| s.to_string()).collect()
}

#[test]
fn fetch_arguments() {
    assert_eq!(
        caption_fetch_args("U", "/tmp/t/transcript"),
        vec![
            "--skip-download", "--write-auto-sub", "--write-sub", "--sub-lang", "en,vi,ja,ko,zh",
            "--sub-format", "vtt/srt", "-o", "/tmp/t/transcript", "--no-warnings", "U",
        ]
    );
}

#[test]
fn caption_files_are_recognized() {
    assert!(is_caption_file("t.en.vtt"));
    assert!(is_caption_file("t.vi.srt"));
    assert!(!is_caption_file("t.en.json"));
    assert!(!is_caption_file("vtt"));
}

#[test]
fn ranking_prefers_english_then_short_names() {
    let r = rank_caption_files(&names(&[
        "t.vi.vtt",
        "t.en-orig.vtt",
        "notes.txt",
        "t.en.vtt",
        "t.ja-en.srt",
        "t.ko.vtt",
    ]));
    assert_eq!(r.len(), 5);
    assert_eq!(r[0], "t.en.vtt");
    assert!(r[1] == "t.vi.vtt" || r[1] == "t.ko.vtt");
    assert!(r[2] == "t.vi.vtt" || r[2] == "t.ko.vtt");
    assert_ne!(r[1], r[2]);
    assert_eq!(r[3], "t.ja-en.srt");
    assert_eq!(r[4], "t.en-orig.vtt");
    assert!(rank_caption_files(&names(&["a.txt"])).is_empty());
}

#[test]
fn usable_needs_more_than_ten_words() {
    assert!(!is_usable("one two three four five six seven eight nine ten"));
    assert!(is_usable("one two three four five six seven eight nine ten eleven"));
    assert!(!is_usable(""));
    assert!(!is_usable("   "));
}

#[test]
fn source_from_name() {
    assert_eq!(caption_source("transcript.en.vtt"), TranscriptSource::Subtitle);
    assert_eq!(caption_source("transcript.en-orig.vtt"), TranscriptSource::AutoCaption);
    assert_eq!(caption_source("vtt"), TranscriptSource::AutoCaption);
    assert_eq!(TranscriptSource::AutoCaption.as_str(), "auto-caption");
    assert_eq!(TranscriptSource::DescriptionFallback.as_str(), "description-fallback");
    assert_eq!(TranscriptSource::Subtitle.as_str(), "subtitle");
}

#[test]
fn first_usable_caption_wins() {
    let short = "00:00:01.000 --> 00:00:02.000\nToo short\n".to_string();
    let long = "00:00:01.000 --> 00:00:02.000\nOne two three four five six\n\n00:00:02.000 --> 00:00:03.000\nseven eight nine ten eleven\n".to_string();
    let files = vec![
        ("t.en.vtt".to_string(), short),
        ("t.vi-en.vtt".to_string(), long.clone()),
        ("t.ko.vtt".to_string(), long),
    ];
    let t = pick_caption(&files).unwrap();
    assert_eq!(t.text, "One two three four five six seven eight nine ten eleven");
    assert_eq!(t.source, TranscriptSource::AutoCaption);
    assert!(pick_caption(&files[..1].to_vec()).is_none());
    assert!(pick_caption(&Vec::new()).is_none());
}

#[test]
fn description_fallback() {
    let long = format!("  {}  ", "d".repeat(101));
    let t = description_transcript(Some(&long)).unwrap();
    assert_eq!(t.text, long);
    assert_eq!(t.source, TranscriptSource::DescriptionFallback);
    let msg = description_transcript(Some(&"d".repeat(100))).unwrap_err();
    assert_eq!(msg, "No transcript available for this video. The video may not have subtitles.");
    assert!(description_transcript(None).is_err());
}
