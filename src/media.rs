//! The decisions taken on an item's metadata and on playlist entries, over
//! the fields that the probes' JSON gives.
use vstd::prelude::*;
use crate::probe::{truncate_description, watch_url, DESCRIPTION_PREVIEW_CHARS};
use crate::text::str_eq;

verus! {

pub open spec fn opt_text(o: Option<String>) -> Option<Seq<char>> {
    match o {
        Some(s) => Some(s@),
        None => None,
    }
}

/// A text field, or the given default where it is missing.
pub open spec fn text_or(o: Option<String>, d: Seq<char>) -> Seq<char> {
    match o {
        Some(s) => s@,
        None => d,
    }
}

/// A count as a `u32`, cut to its low 32 bits as `as u32` does.
pub open spec fn low_u32(c: u64) -> u32 {
    (c % 0x1_0000_0000) as u32
}

fn text_or_exec(o: Option<String>, d: &str) -> (r: String)
    ensures
        r@ == text_or(o, d@),
{
    match o {
        Some(s) => s,
        None => String::from_str(d),
    }
}

fn low_u32_exec(o: Option<u64>) -> (r: Option<u32>)
    ensures
        r == match o {
            Some(c) => Some(low_u32(c)),
            None => None,
        },
{
    match o {
        Some(c) => Some((c % 0x1_0000_0000) as u32),
        None => None,
    }
}

/// The fields read from an item's metadata.
pub struct InfoFields {
    /// The `_type` member.
    pub kind: Option<String>,
    pub playlist_count: Option<u64>,
    pub id: Option<String>,
    pub title: Option<String>,
    pub description: Option<String>,
}

/// What is shown of an item's metadata, besides its numbers.
pub struct InfoSummary {
    pub id: String,
    pub title: String,
    pub description: Option<String>,
    pub is_playlist: bool,
    pub playlist_count: Option<u32>,
}

/// The shown metadata: a missing id is empty, a missing title `Unknown`,
/// the description cut for preview; the item is a playlist when its type
/// says so, and only then has a count.
pub fn summarize_info(f: InfoFields) -> (r: InfoSummary)
    ensures
        r.is_playlist == (f.kind is Some && (f.kind->0)@ == "playlist"@),
        r.playlist_count == if r.is_playlist {
            match f.playlist_count {
                Some(c) => Some(low_u32(c)),
                None => None,
            }
        } else {
            None
        },
        r.id@ == text_or(f.id, ""@),
        r.title@ == text_or(f.title, "Unknown"@),
        match f.description {
            Some(d) => r.description is Some && (d@.len() > DESCRIPTION_PREVIEW_CHARS ==> (
            r.description->0)@ == d@.take(DESCRIPTION_PREVIEW_CHARS as int) + "..."@) && (d@.len()
                <= DESCRIPTION_PREVIEW_CHARS ==> (r.description->0)@ == d@),
            None => r.description is None,
        },
{
    let is_playlist = match &f.kind {
        Some(k) => str_eq(k.as_str(), "playlist"),
        None => false,
    };
    let playlist_count = if is_playlist {
        low_u32_exec(f.playlist_count)
    } else {
        None
    };
    let description = match &f.description {
        Some(d) => Some(truncate_description(d.as_str())),
        None => None,
    };
    InfoSummary {
        id: text_or_exec(f.id, ""),
        title: text_or_exec(f.title, "Unknown"),
        description,
        is_playlist,
        playlist_count,
    }
}

/// The fields read from one format of an item.
pub struct FormatFields {
    pub format_id: Option<String>,
    pub ext: Option<String>,
    pub width: Option<u64>,
    pub height: Option<u64>,
}

pub struct FormatSummary {
    pub format_id: String,
    pub ext: String,
    pub width: Option<u32>,
    pub height: Option<u32>,
}

/// A format is listed only with an id; a missing extension is `unknown`.
pub fn summarize_format(f: FormatFields) -> (r: Option<FormatSummary>)
    ensures
        match f.format_id {
            Some(id) => r matches Some(s) && s.format_id@ == id@ && s.ext@ == text_or(
                f.ext,
                "unknown"@,
            ) && s.width == match f.width {
                Some(c) => Some(low_u32(c)),
                None => None,
            } && s.height == match f.height {
                Some(c) => Some(low_u32(c)),
                None => None,
            },
            None => r is None,
        },
{
    match f.format_id {
        Some(format_id) => Some(
            FormatSummary {
                format_id,
                ext: text_or_exec(f.ext, "unknown"),
                width: low_u32_exec(f.width),
                height: low_u32_exec(f.height),
            },
        ),
        None => None,
    }
}

/// A JSON member as read here: its text where it is a string, and the text
/// of its `url` member where it has one.
pub struct JsonText {
    pub text: Option<String>,
    pub url: Option<String>,
}

/// The fields read from one playlist entry; `None` is a missing member.
pub struct EntryFields {
    pub id: Option<String>,
    pub title: Option<String>,
    pub thumbnail: Option<JsonText>,
    /// The first element of the `thumbnails` array.
    pub first_thumbnail: Option<JsonText>,
    pub channel: Option<JsonText>,
    pub uploader: Option<JsonText>,
}

pub struct EntrySummary {
    pub id: String,
    pub title: String,
    pub url: String,
    pub thumbnail: Option<String>,
    pub channel: Option<String>,
}

/// The thumbnail of an entry: its `thumbnail` member, else the first of its
/// `thumbnails`; a string as it is, an object by its `url`.
pub open spec fn thumbnail_of(f: EntryFields) -> Option<Seq<char>> {
    let v = match f.thumbnail {
        Some(t) => Some(t),
        None => f.first_thumbnail,
    };
    match v {
        Some(t) => match t.text {
            Some(s) => Some(s@),
            None => opt_text(t.url),
        },
        None => None,
    }
}

/// The channel of an entry: its `channel` member, else its `uploader`,
/// where that member is a string.
pub open spec fn channel_of(f: EntryFields) -> Option<Seq<char>> {
    match f.channel {
        Some(c) => opt_text(c.text),
        None => match f.uploader {
            Some(u) => opt_text(u.text),
            None => None,
        },
    }
}

/// A playlist entry is listed only with a nonempty id; its title defaults
/// to `Unknown` and its address is the watch address of the id.
pub fn summarize_entry(f: EntryFields) -> (r: Option<EntrySummary>)
    ensures
        match f.id {
            Some(id) if id@.len() > 0 => r matches Some(s) && s.id@ == id@ && s.title@ == text_or(
                f.title,
                "Unknown"@,
            ) && s.url@ == "https://www.youtube.com/watch?v="@ + id@ && opt_text(s.thumbnail)
                == thumbnail_of(f) && opt_text(s.channel) == channel_of(f),
            _ => r is None,
        },
{
    let ghost thumb = thumbnail_of(f);
    let ghost chan = channel_of(f);
    let id = match f.id {
        Some(id) => id,
        None => {
            return None;
        },
    };
    if id.as_str().is_empty() {
        return None;
    }
    let thumbnail = match f.thumbnail {
        Some(t) => match t.text {
            Some(s) => Some(s),
            None => t.url,
        },
        None => match f.first_thumbnail {
            Some(t) => match t.text {
                Some(s) => Some(s),
                None => t.url,
            },
            None => None,
        },
    };
    let channel = match f.channel {
        Some(c) => c.text,
        None => match f.uploader {
            Some(u) => u.text,
            None => None,
        },
    };
    let url = watch_url(id.as_str());
    Some(EntrySummary { title: text_or_exec(f.title, "Unknown"), url, id, thumbnail, channel })
}

/// Whether a playlist listing can be read: it fails only when the
/// downloader failed and printed nothing.
pub fn check_playlist_output(output: &str, success: bool) -> (r: Result<(), String>)
    ensures
        !success && output@.len() == 0 ==> (r matches Err(m) && m@
            == "Failed to fetch playlist info"@),
        success || output@.len() > 0 ==> r is Ok,
{
    if !success && output.is_empty() {
        Err(String::from_str("Failed to fetch playlist info"))
    } else {
        Ok(())
    }
}

/// A playlist listing with no usable entry is an error.
pub fn check_playlist_entries(count: usize) -> (r: Result<(), String>)
    ensures
        count == 0 ==> (r matches Err(m) && m@ == "No videos found in playlist"@),
        count > 0 ==> r is Ok,
{
    if count == 0 {
        Err(String::from_str("No videos found in playlist"))
    } else {
        Ok(())
    }
}

} // verus!
