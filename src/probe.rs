//! Information probes of the downloader: their arguments, how their output
//! is collected, and how the caption listing is read.
use vstd::prelude::*;
use crate::download::{texts, ProcessEvent};
use crate::text::{
    chars_of, contains, contains_exec, decimal, lines, lines_of, push_decimal, starts_with,
    starts_with_exec, str_eq, string_of, trim, trimmed, word_end, word_end_exec,
};

verus! {

/// Arguments that ask for one item's metadata as one JSON object.
pub open spec fn info_probe_arguments(url: Seq<char>) -> Seq<Seq<char>> {
    seq![
        "--dump-json"@,
        "--no-download"@,
        "--no-playlist"@,
        "--no-warnings"@,
        "--socket-timeout"@,
        "15"@,
        url,
    ]
}

pub fn info_probe_args(url: &str) -> (r: Vec<String>)
    ensures
        texts(r@) == info_probe_arguments(url@),
{
    let mut args: Vec<String> = Vec::new();
    args.push(String::from_str("--dump-json"));
    args.push(String::from_str("--no-download"));
    args.push(String::from_str("--no-playlist"));
    args.push(String::from_str("--no-warnings"));
    args.push(String::from_str("--socket-timeout"));
    args.push(String::from_str("15"));
    args.push(String::from_str(url));
    assert(texts(args@) =~= info_probe_arguments(url@));
    args
}

/// Arguments that list a playlist's entries, one JSON object per line, at
/// most `limit` of them when a positive limit is given.
pub open spec fn playlist_probe_arguments(url: Seq<char>, limit: Option<u32>) -> Seq<Seq<char>> {
    let head = seq![
        "--flat-playlist"@,
        "--dump-json"@,
        "--no-warnings"@,
        "--socket-timeout"@,
        "30"@,
    ];
    let bound = match limit {
        Some(l) if l > 0 => seq!["--playlist-end"@, decimal(l as nat)],
        _ => Seq::empty(),
    };
    head + bound + seq![url]
}

pub fn playlist_probe_args(url: &str, limit: Option<u32>) -> (r: Vec<String>)
    ensures
        texts(r@) == playlist_probe_arguments(url@, limit),
{
    let mut args: Vec<String> = Vec::new();
    args.push(String::from_str("--flat-playlist"));
    args.push(String::from_str("--dump-json"));
    args.push(String::from_str("--no-warnings"));
    args.push(String::from_str("--socket-timeout"));
    args.push(String::from_str("30"));
    match limit {
        Some(l) => {
            if l > 0 {
                args.push(String::from_str("--playlist-end"));
                let mut n = String::new();
                push_decimal(&mut n, l as u64);
                args.push(n);
            }
        },
        None => {},
    }
    args.push(String::from_str(url));
    assert(texts(args@) =~= playlist_probe_arguments(url@, limit));
    args
}

/// Arguments that list the captions an item offers.
pub open spec fn subtitle_list_arguments(url: Seq<char>) -> Seq<Seq<char>> {
    seq!["--list-subs"@, "--skip-download"@, "--no-warnings"@, url]
}

pub fn subtitle_list_args(url: &str) -> (r: Vec<String>)
    ensures
        texts(r@) == subtitle_list_arguments(url@),
{
    let mut args: Vec<String> = Vec::new();
    args.push(String::from_str("--list-subs"));
    args.push(String::from_str("--skip-download"));
    args.push(String::from_str("--no-warnings"));
    args.push(String::from_str(url));
    assert(texts(args@) =~= subtitle_list_arguments(url@));
    args
}

/// The watch address of a video id.
pub fn watch_url(id: &str) -> (r: String)
    ensures
        r@ == "https://www.youtube.com/watch?v="@ + id@,
{
    let mut s = String::from_str("https://www.youtube.com/watch?v=");
    s.append(id);
    s
}

/// The most characters of a description that are shown.
pub const DESCRIPTION_PREVIEW_CHARS: usize = 200;

/// A description cut to `DESCRIPTION_PREVIEW_CHARS` characters, with `...`
/// where it was cut.
pub fn truncate_description(s: &str) -> (r: String)
    ensures
        s@.len() > DESCRIPTION_PREVIEW_CHARS ==> r@ == s@.take(DESCRIPTION_PREVIEW_CHARS as int)
            + "..."@,
        s@.len() <= DESCRIPTION_PREVIEW_CHARS ==> r@ == s@,
{
    let v = chars_of(s);
    if v.len() > DESCRIPTION_PREVIEW_CHARS {
        let mut r = string_of(&v, 0, DESCRIPTION_PREVIEW_CHARS);
        r.append("...");
        r
    } else {
        String::from_str(s)
    }
}

/// What a probe's events amount to: the standard output, or the first
/// failure in the order the events came.
pub open spec fn probe_result(evs: Seq<ProcessEvent>) -> Result<Seq<char>, Seq<char>>
    decreases evs.len(),
{
    if evs.len() == 0 {
        Ok(Seq::empty())
    } else {
        match evs[0] {
            ProcessEvent::Line(t) => match probe_result(evs.drop_first()) {
                Ok(rest) => Ok(t@ + rest),
                Err(e) => Err(e),
            },
            ProcessEvent::ProcessError(m) => Err("Process error: "@ + m@),
            ProcessEvent::Terminated(code) => if code != Some(0i32) {
                Err("yt-dlp command failed"@)
            } else {
                probe_result(evs.drop_first())
            },
        }
    }
}

/// Collects a probe's output: the output pieces joined, unless the process
/// broke down or ended with a code other than 0.
pub fn probe_output(evs: &Vec<ProcessEvent>) -> (r: Result<String, String>)
    ensures
        match probe_result(evs@) {
            Ok(o) => r matches Ok(s) && s@ == o,
            Err(e) => r matches Err(m) && m@ == e,
        },
{
    let mut out = String::new();
    let mut i: usize = 0;
    assert(evs@.skip(0) =~= evs@);
    while i < evs.len()
        invariant
            i <= evs@.len(),
            probe_result(evs@) == match probe_result(evs@.skip(i as int)) {
                Ok(rest) => Ok(out@ + rest),
                Err(e) => Err(e),
            },
        decreases evs.len() - i,
    {
        assert(evs@.skip(i as int).drop_first() =~= evs@.skip(i + 1));
        match &evs[i] {
            ProcessEvent::Line(t) => {
                let ghost before = out@;
                out.append(t.as_str());
                proof {
                    match probe_result(evs@.skip(i + 1)) {
                        Ok(rest) => {
                            assert(before + (t@ + rest) =~= out@ + rest);
                        },
                        Err(_) => {},
                    }
                }
            },
            ProcessEvent::ProcessError(m) => {
                let mut e = String::from_str("Process error: ");
                e.append(m.as_str());
                return Err(e);
            },
            ProcessEvent::Terminated(code) => {
                if *code != Some(0i32) {
                    return Err(String::from_str("yt-dlp command failed"));
                }
            },
        }
        i = i + 1;
    }
    assert(out@ + Seq::<char>::empty() =~= out@);
    Ok(out)
}

/// A command line: a program and its arguments.
pub open spec fn command_view(c: (String, Vec<String>)) -> (Seq<char>, Seq<Seq<char>>) {
    (c.0@, texts(c.1@))
}

/// The commands that kill every downloader process and every converter
/// process it spawned, whatever their parent.
pub open spec fn kill_command_lines(windows: bool) -> Seq<(Seq<char>, Seq<Seq<char>>)> {
    if windows {
        seq![
            ("taskkill"@, seq!["/F"@, "/IM"@, "yt-dlp.exe"@]),
            ("taskkill"@, seq!["/F"@, "/IM"@, "ffmpeg.exe"@]),
        ]
    } else {
        seq![
            ("pkill"@, seq!["-9"@, "-f"@, "yt-dlp"@]),
            ("pkill"@, seq!["-9"@, "-f"@, "ffmpeg"@]),
        ]
    }
}

fn command(program: &str, a: &str, b: &str, c: &str) -> (r: (String, Vec<String>))
    ensures
        command_view(r) == (program@, seq![a@, b@, c@]),
{
    let mut args: Vec<String> = Vec::new();
    args.push(String::from_str(a));
    args.push(String::from_str(b));
    args.push(String::from_str(c));
    assert(texts(args@) =~= seq![a@, b@, c@]);
    (String::from_str(program), args)
}

pub fn kill_commands(windows: bool) -> (r: Vec<(String, Vec<String>)>)
    ensures
        r@.map_values(|c: (String, Vec<String>)| command_view(c)) == kill_command_lines(windows),
{
    let mut r: Vec<(String, Vec<String>)> = Vec::new();
    if windows {
        r.push(command("taskkill", "/F", "/IM", "yt-dlp.exe"));
        r.push(command("taskkill", "/F", "/IM", "ffmpeg.exe"));
    } else {
        r.push(command("pkill", "-9", "-f", "yt-dlp"));
        r.push(command("pkill", "-9", "-f", "ffmpeg"));
    }
    assert(r@.map_values(|c: (String, Vec<String>)| command_view(c)) =~= kill_command_lines(
        windows,
    ));
    r
}

/// A caption track an item offers.
#[derive(Clone, Debug)]
pub struct SubtitleInfo {
    pub lang: String,
    pub name: String,
    pub is_auto: bool,
}

pub open spec fn subtitle_view(s: SubtitleInfo) -> (Seq<char>, Seq<char>, bool) {
    (s.lang@, s.name@, s.is_auto)
}

/// The display name of a caption language; an unknown code stands for itself.
pub open spec fn caption_language_name(code: Seq<char>) -> Seq<char> {
    if code == "en"@ {
        "English"@
    } else if code == "vi"@ {
        "Vietnamese"@
    } else if code == "ja"@ {
        "Japanese"@
    } else if code == "ko"@ {
        "Korean"@
    } else if code == "zh"@ {
        "Chinese"@
    } else if code == "zh-Hans"@ {
        "Chinese (Simplified)"@
    } else if code == "zh-Hant"@ {
        "Chinese (Traditional)"@
    } else if code == "th"@ {
        "Thai"@
    } else if code == "id"@ {
        "Indonesian"@
    } else if code == "ms"@ {
        "Malay"@
    } else if code == "fr"@ {
        "French"@
    } else if code == "de"@ {
        "German"@
    } else if code == "es"@ {
        "Spanish"@
    } else if code == "pt"@ {
        "Portuguese"@
    } else if code == "ru"@ {
        "Russian"@
    } else if code == "ar"@ {
        "Arabic"@
    } else if code == "hi"@ {
        "Hindi"@
    } else if code == "it"@ {
        "Italian"@
    } else if code == "nl"@ {
        "Dutch"@
    } else if code == "pl"@ {
        "Polish"@
    } else if code == "tr"@ {
        "Turkish"@
    } else if code == "uk"@ {
        "Ukrainian"@
    } else {
        code
    }
}

fn caption_language_name_exec(code: &str) -> (r: String)
    ensures
        r@ == caption_language_name(code@),
{
    let name = if str_eq(code, "en") {
        "English"
    } else if str_eq(code, "vi") {
        "Vietnamese"
    } else if str_eq(code, "ja") {
        "Japanese"
    } else if str_eq(code, "ko") {
        "Korean"
    } else if str_eq(code, "zh") {
        "Chinese"
    } else if str_eq(code, "zh-Hans") {
        "Chinese (Simplified)"
    } else if str_eq(code, "zh-Hant") {
        "Chinese (Traditional)"
    } else if str_eq(code, "th") {
        "Thai"
    } else if str_eq(code, "id") {
        "Indonesian"
    } else if str_eq(code, "ms") {
        "Malay"
    } else if str_eq(code, "fr") {
        "French"
    } else if str_eq(code, "de") {
        "German"
    } else if str_eq(code, "es") {
        "Spanish"
    } else if str_eq(code, "pt") {
        "Portuguese"
    } else if str_eq(code, "ru") {
        "Russian"
    } else if str_eq(code, "ar") {
        "Arabic"
    } else if str_eq(code, "hi") {
        "Hindi"
    } else if str_eq(code, "it") {
        "Italian"
    } else if str_eq(code, "nl") {
        "Dutch"
    } else if str_eq(code, "pl") {
        "Polish"
    } else if str_eq(code, "tr") {
        "Turkish"
    } else if str_eq(code, "uk") {
        "Ukrainian"
    } else {
        code
    };
    String::from_str(name)
}

/// The state of reading a caption listing: whether the current section
/// lists automatic captions, and the tracks found so far.
pub open spec fn listing_state(ls: Seq<Seq<char>>) -> (bool, Seq<(Seq<char>, Seq<char>, bool)>)
    decreases ls.len(),
{
    if ls.len() == 0 {
        (false, Seq::empty())
    } else {
        let (auto, subs) = listing_state(ls.drop_last());
        let t = trim(ls.last());
        if contains(t, "automatic captions"@) || contains(t, "auto-generated"@) {
            (true, subs)
        } else if contains(t, "subtitles"@) && !contains(t, "auto"@) {
            (false, subs)
        } else if t.len() == 0 || starts_with(t, "Language"@) || starts_with(t, "["@) || contains(
            t,
            "Available"@,
        ) {
            (auto, subs)
        } else {
            let lang = t.take(word_end(t, 0));
            if exists|k: int|
                0 <= k < subs.len() && (#[trigger] subs[k]).0 == lang && subs[k].2 == auto {
                (auto, subs)
            } else {
                (auto, subs.push((lang, caption_language_name(lang), auto)))
            }
        }
    }
}

/// The tracks offered when a listing names none.
pub open spec fn default_tracks() -> Seq<(Seq<char>, Seq<char>, bool)> {
    seq![
        ("en"@, "English"@, false),
        ("vi"@, "Vietnamese"@, false),
        ("ja"@, "Japanese"@, false),
        ("ko"@, "Korean"@, false),
        ("zh"@, "Chinese"@, false),
    ]
}

/// The tracks a caption listing names.
pub open spec fn listed_tracks(listing: Seq<char>) -> Seq<(Seq<char>, Seq<char>, bool)> {
    let subs = listing_state(lines(listing)).1;
    if subs.len() == 0 {
        default_tracks()
    } else {
        subs
    }
}

fn track(lang: &str, name: &str) -> (r: SubtitleInfo)
    ensures
        subtitle_view(r) == (lang@, name@, false),
{
    SubtitleInfo { lang: String::from_str(lang), name: String::from_str(name), is_auto: false }
}

/// The caption tracks named by the downloader's caption listing: each
/// language under the section it stands in (authored or automatic), once
/// per section, with its display name; the five preferred languages when
/// the listing names none.
pub fn parse_subtitle_list(listing: &str) -> (r: Vec<SubtitleInfo>)
    ensures
        r@.map_values(|s: SubtitleInfo| subtitle_view(s)) == listed_tracks(listing@),
{
    let v = chars_of(listing);
    let ls = lines_of(&v);
    let ghost lsv = lines(v@);
    let auto_kw = chars_of("automatic captions");
    let generated_kw = chars_of("auto-generated");
    let subtitles_kw = chars_of("subtitles");
    let auto_word = chars_of("auto");
    let language_kw = chars_of("Language");
    let bracket = chars_of("[");
    let available_kw = chars_of("Available");
    let mut subs: Vec<SubtitleInfo> = Vec::new();
    let mut auto = false;
    let mut k: usize = 0;
    while k < ls.len()
        invariant
            k <= ls@.len() == lsv.len(),
            lsv == lines(listing@),
            forall|j: int| 0 <= j < ls@.len() ==> (#[trigger] ls@[j])@ == lsv[j],
            auto_kw@ == "automatic captions"@,
            generated_kw@ == "auto-generated"@,
            subtitles_kw@ == "subtitles"@,
            auto_word@ == "auto"@,
            language_kw@ == "Language"@,
            bracket@ == "["@,
            available_kw@ == "Available"@,
            listing_state(lsv.take(k as int)) == (auto, subs@.map_values(
                |s: SubtitleInfo| subtitle_view(s),
            )),
        decreases ls.len() - k,
    {
        let ghost prev = subs@.map_values(|s: SubtitleInfo| subtitle_view(s));
        assert(lsv.take(k + 1).drop_last() =~= lsv.take(k as int));
        assert(lsv.take(k + 1).last() == lsv[k as int]);
        let t = trimmed(&ls[k]);
        if contains_exec(&t, &auto_kw) || contains_exec(&t, &generated_kw) {
            auto = true;
        } else if contains_exec(&t, &subtitles_kw) && !contains_exec(&t, &auto_word) {
            auto = false;
        } else if t.len() == 0 || starts_with_exec(&t, &language_kw) || starts_with_exec(
            &t,
            &bracket,
        ) || contains_exec(&t, &available_kw) {
        } else {
            let e = word_end_exec(&t, 0);
            let lang = string_of(&t, 0, e);
            assert(t@.subrange(0, e as int) =~= t@.take(e as int));
            let mut seen = false;
            let mut j: usize = 0;
            while j < subs.len()
                invariant
                    j <= subs@.len(),
                    prev == subs@.map_values(|s: SubtitleInfo| subtitle_view(s)),
                    seen == exists|q: int|
                        0 <= q < j && (#[trigger] prev[q]).0 == lang@ && prev[q].2 == auto,
                decreases subs.len() - j,
            {
                if subs[j].is_auto == auto && str_eq(subs[j].lang.as_str(), lang.as_str()) {
                    seen = true;
                }
                proof {
                    assert(prev[j as int] == subtitle_view(subs@[j as int]));
                }
                j = j + 1;
            }
            if !seen {
                let name = caption_language_name_exec(lang.as_str());
                subs.push(SubtitleInfo { lang, name, is_auto: auto });
                assert(subs@.map_values(|s: SubtitleInfo| subtitle_view(s)) =~= prev.push(
                    subtitle_view(subs@.last()),
                ));
            }
        }
        k = k + 1;
    }
    assert(lsv.take(lsv.len() as int) =~= lsv);
    if subs.len() == 0 {
        let mut d: Vec<SubtitleInfo> = Vec::new();
        d.push(track("en", "English"));
        d.push(track("vi", "Vietnamese"));
        d.push(track("ja", "Japanese"));
        d.push(track("ko", "Korean"));
        d.push(track("zh", "Chinese"));
        assert(d@.map_values(|s: SubtitleInfo| subtitle_view(s)) =~= default_tracks());
        d
    } else {
        subs
    }
}

} // verus!
