use youwee::media::{
    check_playlist_entries, check_playlist_output, summarize_entry, summarize_format,
    summarize_info, EntryFields, FormatFields, InfoFields, JsonText,
};

fn s(x: &str) -> Option<String> {
    Some(x.to_string())
}

#[test]
fn info_defaults_and_playlist_count() {
    let i = summarize_info(InfoFields {
        kind: s("playlist"),
        playlist_count: Some(4_294_967_297),
        id: None,
        title: None,
        description: Some("é".repeat(201)),
    });
    assert!(i.is_playlist);
    assert_eq!(i.playlist_count, Some(1));
    assert_eq!(i.id, "");
    assert_eq!(i.title, "Unknown");
    assert_eq!(i.description.unwrap(), format!("{}...", "é".repeat(200)));
    let v = summarize_info(InfoFields {
        kind: s("video"),
        playlist_count: Some(3),
        id: s("x"),
        title: s("T"),
        description: None,
    });
    assert!(!v.is_playlist);
    assert_eq!(v.playlist_count, None);
    assert_eq!(v.title, "T");
    assert!(v.description.is_none());
}

#[test]
fn formats_need_an_id() {
    assert!(summarize_format(FormatFields { format_id: None, ext: s("mp4"), width: None, height: None }).is_none());
    let f = summarize_format(FormatFields { format_id: s("137"), ext: None, width: Some(1920), height: Some(1080) }).unwrap();
    assert_eq!(f.format_id, "137");
    assert_eq!(f.ext, "unknown");
    assert_eq!(f.width, Some(1920));
    assert_eq!(f.height, Some(1080));
}

fn text(t: Option<&str>, url: Option<&str>) -> Option<JsonText> {
    Some(JsonText { text: t.map(|x| x.to_string()), url: url.map(|x| x.to_string()) })
}

#[test]
fn entry_fallbacks() {
    let e = summarize_entry(EntryFields {
        id: s("abc"),
        title: None,
        thumbnail: None,
        first_thumbnail: text(None, Some("http://t/1.jpg")),
        channel: None,
        uploader: text(Some("Up"), None),
    })
    .unwrap();
    assert_eq!(e.url, "https://www.youtube.com/watch?v=abc");
    assert_eq!(e.title, "Unknown");
    assert_eq!(e.thumbnail.as_deref(), Some("http://t/1.jpg"));
    assert_eq!(e.channel.as_deref(), Some("Up"));
    let e = summarize_entry(EntryFields {
        id: s("abc"),
        title: s("T"),
        thumbnail: text(Some("direct"), None),
        first_thumbnail: text(None, Some("other")),
        channel: text(None, None),
        uploader: text(Some("Up"), None),
    })
    .unwrap();
    assert_eq!(e.thumbnail.as_deref(), Some("direct"));
    assert_eq!(e.channel, None);
    assert!(summarize_entry(EntryFields { id: s(""), title: None, thumbnail: None, first_thumbnail: None, channel: None, uploader: None }).is_none());
    assert!(summarize_entry(EntryFields { id: None, title: None, thumbnail: None, first_thumbnail: None, channel: None, uploader: None }).is_none());
}

#[test]
fn playlist_checks() {
    assert_eq!(check_playlist_output("", false).unwrap_err(), "Failed to fetch playlist info");
    assert!(check_playlist_output("{}", false).is_ok());
    assert!(check_playlist_output("", true).is_ok());
    assert_eq!(check_playlist_entries(0).unwrap_err(), "No videos found in playlist");
    assert!(check_playlist_entries(2).is_ok());
}
