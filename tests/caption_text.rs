use youwee::captions::parse_subtitle_file;

#[test]
fn scenario_duplicate_window_collapsed() {
    let input = "00:00:01.000 --> 00:00:02.000\nHello <i>world</i>\n\n00:00:02.000 --> 00:00:03.000\nHello <i>world</i>\n";
    assert_eq!(parse_subtitle_file(input), "Hello world");
}

#[test]
fn vtt_with_header_notes_and_directives() {
    let input = "WEBVTT\nKind: captions\nLanguage: en\n\nNOTE a comment\n\n00:00:00.000 --> 00:00:01.000 align:start position:0%\nFirst <c.colorE5E5E5>line</c>\n\n00:00:01.000 --> 00:00:02.000\nSecond line\n";
    assert_eq!(
        parse_subtitle_file(input),
        "Kind: captions Language: en First line Second line"
    );
}

#[test]
fn srt_dialect() {
    let input = "1\r\n00:00:01,000 --> 00:00:02,000\r\nOne\r\n\r\n2\r\n00:00:02,000 --> 00:00:03,000\r\nTwo\r\n";
    assert_eq!(parse_subtitle_file(input), "One Two");
}

#[test]
fn only_consecutive_duplicates_are_dropped() {
    let input = "a\na\nb\na\n";
    assert_eq!(parse_subtitle_file(input), "a b a");
}

#[test]
fn empty_and_markup_only_inputs() {
    assert_eq!(parse_subtitle_file(""), "");
    assert_eq!(parse_subtitle_file("WEBVTT\n\n"), "");
    assert_eq!(parse_subtitle_file("<b></b>\n123\n"), "");
}

#[test]
fn unmatched_brackets_are_kept() {
    assert_eq!(parse_subtitle_file("a < b\n<>x\n"), "a < b <>x");
}

#[test]
fn reparsing_output_gives_it_back() {
    let input = "WEBVTT\n\n00:00:01.000 --> 00:00:02.000\n<v Bob>Hi there</v>\n\n00:00:02.000 --> 00:00:03.000\n  so   long  \n";
    let once = parse_subtitle_file(input);
    assert_eq!(once, "Hi there so   long");
    assert_eq!(parse_subtitle_file(&once), once);
    assert_eq!(parse_subtitle_file(input), once);
}
