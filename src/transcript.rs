//! Transcript acquisition: which caption files to try and in what order,
//! which parsed text is good enough, and the description fallback.
use vstd::prelude::*;
use crate::captions::{caption_text, parse_subtitle_file};
use crate::text::{
    chars_of, contains, contains_exec, ends_with, ends_with_exec, is_whitespace, is_ws, last_pos,
    rfind_char, trim, trim_str,
};
use crate::download::texts;

verus! {

broadcast use vstd::seq_lib::group_to_multiset_ensures;

/// The downloader's arguments that fetch captions only: authored and
/// automatic ones, in the preferred languages, as one of the two dialects,
/// written under `output_template`.
pub open spec fn caption_fetch_arguments(url: Seq<char>, output_template: Seq<char>) -> Seq<
    Seq<char>,
> {
    seq![
        "--skip-download"@,
        "--write-auto-sub"@,
        "--write-sub"@,
        "--sub-lang"@,
        "en,vi,ja,ko,zh"@,
        "--sub-format"@,
        "vtt/srt"@,
        "-o"@,
        output_template,
        "--no-warnings"@,
        url,
    ]
}

pub fn caption_fetch_args(url: &str, output_template: &str) -> (r: Vec<String>)
    ensures
        texts(r@) == caption_fetch_arguments(url@, output_template@),
{
    let mut args: Vec<String> = Vec::new();
    args.push(String::from_str("--skip-download"));
    args.push(String::from_str("--write-auto-sub"));
    args.push(String::from_str("--write-sub"));
    args.push(String::from_str("--sub-lang"));
    args.push(String::from_str("en,vi,ja,ko,zh"));
    args.push(String::from_str("--sub-format"));
    args.push(String::from_str("vtt/srt"));
    args.push(String::from_str("-o"));
    args.push(String::from_str(output_template));
    args.push(String::from_str("--no-warnings"));
    args.push(String::from_str(url));
    assert(texts(args@) =~= caption_fetch_arguments(url@, output_template@));
    args
}

/// A file name of one of the two caption dialects.
pub open spec fn is_caption_name(name: Seq<char>) -> bool {
    ends_with(name, ".vtt"@) || ends_with(name, ".srt"@)
}

pub fn is_caption_file(name: &str) -> (r: bool)
    ensures
        r == is_caption_name(name@),
{
    let v = chars_of(name);
    ends_with_exec(&v, &chars_of(".vtt")) || ends_with_exec(&v, &chars_of(".srt"))
}

/// Whether a caption file name marks English.
pub open spec fn is_english_name(name: Seq<char>) -> bool {
    contains(name, ".en."@)
}

/// The order in which caption files are tried: English first, then
/// shorter names, which authored tracks tend to have.
pub open spec fn ranks_before_or_with(a: Seq<char>, b: Seq<char>) -> bool {
    (is_english_name(a) && !is_english_name(b)) || (is_english_name(a) == is_english_name(b)
        && a.len() <= b.len())
}

pub open spec fn is_ranked(s: Seq<String>) -> bool {
    forall|i: int, j: int|
        0 <= i < j < s.len() ==> ranks_before_or_with(#[trigger] s[i]@, #[trigger] s[j]@)
}

pub open spec fn caption_names(names: Seq<String>) -> Seq<String> {
    names.filter(|n: String| is_caption_name(n@))
}

/// The caption files among `names`, each once, in the order to try them.
pub fn rank_caption_files(names: &Vec<String>) -> (r: Vec<String>)
    ensures
        r@.to_multiset() == caption_names(names@).to_multiset(),
        is_ranked(r@),
{
    let mut r: Vec<String> = Vec::new();
    let mut keys: Vec<(bool, usize)> = Vec::new();
    let mut i: usize = 0;
    while i < names.len()
        invariant
            i <= names@.len(),
            r@.len() == keys@.len(),
            forall|k: int|
                0 <= k < r@.len() ==> (#[trigger] keys@[k]).0 == is_english_name(r@[k]@) && keys@[k].1
                    == r@[k]@.len(),
            r@.to_multiset() == caption_names(names@.take(i as int)).to_multiset(),
            is_ranked(r@),
        decreases names.len() - i,
    {
        let name = &names[i];
        proof {
            let pred = |n: String| is_caption_name(n@);
            assert(names@.take(i + 1) =~= names@.take(i as int).push(names@[i as int]));
            names@.take(i as int).lemma_filter_push(names@[i as int], pred);
        }
        if is_caption_file(name.as_str()) {
            let v = chars_of(name.as_str());
            let key = (contains_exec(&v, &chars_of(".en.")), v.len());
            let mut p: usize = 0;
            while p < keys.len() && !((key.0 && !keys[p].0) || (key.0 == keys[p].0 && key.1
                < keys[p].1))
                invariant
                    p <= keys@.len() == r@.len(),
                    forall|k: int| 0 <= k < p ==> ranks_before_or_with(#[trigger] r@[k]@, v@),
                    forall|k: int|
                        0 <= k < r@.len() ==> (#[trigger] keys@[k]).0 == is_english_name(r@[k]@)
                            && keys@[k].1 == r@[k]@.len(),
                    key.0 == is_english_name(v@),
                    key.1 == v@.len(),
                decreases keys.len() - p,
            {
                p = p + 1;
            }
            let ghost before = r@;
            r.insert(p, name.clone());
            keys.insert(p, key);
            proof {
                vstd::seq_lib::to_multiset_insert(before, p as int, names@[i as int]);
                assert(r@ == before.insert(p as int, r@[p as int]));
                assert forall|a: int, b: int| 0 <= a < b < r@.len() implies ranks_before_or_with(
                    #[trigger] r@[a]@,
                    #[trigger] r@[b]@,
                ) by {
                    if b < p {
                        assert(r@[a] == before[a] && r@[b] == before[b]);
                    } else if b == p {
                        assert(r@[a] == before[a]);
                    } else if a < p {
                        assert(r@[a] == before[a] && r@[b] == before[b - 1]);
                        assert(ranks_before_or_with(before[a]@, before[p as int]@));
                    } else if a == p {
                        assert(r@[b] == before[b - 1]);
                        assert(ranks_before_or_with(before[p as int]@, before[b - 1]@));
                    } else {
                        assert(r@[a] == before[a - 1] && r@[b] == before[b - 1]);
                    }
                }
            }
        }
        i = i + 1;
    }
    assert(names@.take(names@.len() as int) =~= names@);
    r
}

/// The number of whitespace-separated words in `s`.
pub open spec fn word_count(s: Seq<char>) -> nat
    decreases s.len(),
{
    if s.len() == 0 {
        0
    } else {
        let n = s.len() as int;
        let starts = !is_ws(s[n - 1]) && (n == 1 || is_ws(s[n - 2]));
        word_count(s.drop_last()) + if starts {
            1nat
        } else {
            0nat
        }
    }
}

/// The fewest words a caption text needs to count as a transcript, less one.
pub const MIN_TRANSCRIPT_WORDS: usize = 10;

pub open spec fn is_usable_transcript(s: Seq<char>) -> bool {
    word_count(s) > MIN_TRANSCRIPT_WORDS
}

/// Whether a parsed caption text has more than `MIN_TRANSCRIPT_WORDS` words.
pub fn is_usable(text: &str) -> (r: bool)
    ensures
        r == is_usable_transcript(text@),
{
    let v = chars_of(text);
    let mut count: usize = 0;
    let mut i: usize = 0;
    while i < v.len()
        invariant
            i <= v@.len(),
            count == word_count(v@.take(i as int)),
            count <= i,
        decreases v.len() - i,
    {
        assert(v@.take(i + 1).drop_last() =~= v@.take(i as int));
        if !is_whitespace(v[i]) && (i == 0 || is_whitespace(v[i - 1])) {
            count = count + 1;
        }
        i = i + 1;
    }
    assert(v@.take(v@.len() as int) =~= v@);
    count > MIN_TRANSCRIPT_WORDS
}

/// Where a transcript came from.
#[derive(Clone, Copy, Debug, PartialEq, Eq, Structural)]
pub enum TranscriptSource {
    Subtitle,
    AutoCaption,
    DescriptionFallback,
}

impl TranscriptSource {
    pub fn as_str(&self) -> (r: &'static str)
        ensures
            r@ == match *self {
                TranscriptSource::Subtitle => "subtitle"@,
                TranscriptSource::AutoCaption => "auto-caption"@,
                TranscriptSource::DescriptionFallback => "description-fallback"@,
            },
    {
        match self {
            TranscriptSource::Subtitle => "subtitle",
            TranscriptSource::AutoCaption => "auto-caption",
            TranscriptSource::DescriptionFallback => "description-fallback",
        }
    }
}

pub open spec fn is_ascii_letter(c: char) -> bool {
    ('a' <= c && c <= 'z') || ('A' <= c && c <= 'Z')
}

/// The language tag of a caption file name: the part between its last two dots.
pub open spec fn language_tag(name: Seq<char>) -> Seq<char> {
    let d2 = last_pos(name, '.');
    if d2 < 0 {
        Seq::empty()
    } else {
        let d1 = last_pos(name.take(d2), '.');
        if d1 < 0 {
            Seq::empty()
        } else {
            name.subrange(d1 + 1, d2)
        }
    }
}

/// Whether a caption file looks authored: its language tag is a plain code
/// of two or three letters (automatic tracks and tracks in a second
/// language carry longer tags such as `en-orig` or `vi-en`). A heuristic,
/// as the ranking is.
pub open spec fn looks_authored(name: Seq<char>) -> bool {
    let t = language_tag(name);
    2 <= t.len() <= 3 && forall|k: int| 0 <= k < t.len() ==> is_ascii_letter(#[trigger] t[k])
}

pub fn caption_source(name: &str) -> (r: TranscriptSource)
    ensures
        r == if looks_authored(name@) {
            TranscriptSource::Subtitle
        } else {
            TranscriptSource::AutoCaption
        },
{
    let v = chars_of(name);
    let tag_ok = match rfind_char(&v, '.') {
        Some(d2) => {
            let head = crate::text::slice_of(&v, 0, d2);
            assert(head@ =~= v@.take(d2 as int));
            match rfind_char(&head, '.') {
                Some(d1) => {
                    let len = d2 - (d1 + 1);
                    if 2 <= len && len <= 3 {
                        let mut ok = true;
                        let mut k = d1 + 1;
                        while k < d2
                            invariant
                                d1 + 1 <= k <= d2 < v@.len(),
                                ok == forall|j: int|
                                    d1 + 1 <= j < k ==> is_ascii_letter(#[trigger] v@[j]),
                            decreases d2 - k,
                        {
                            let c = v[k];
                            ok = ok && (('a' <= c && c <= 'z') || ('A' <= c && c <= 'Z'));
                            k = k + 1;
                        }
                        proof {
                            let t = v@.subrange(d1 + 1, d2 as int);
                            assert(t == language_tag(v@));
                            if ok {
                                assert forall|j: int| 0 <= j < t.len() implies is_ascii_letter(
                                    #[trigger] t[j],
                                ) by {
                                    assert(t[j] == v@[d1 + 1 + j]);
                                }
                            } else {
                                let j = choose|j: int|
                                    d1 + 1 <= j < d2 && !is_ascii_letter(#[trigger] v@[j]);
                                assert(t[j - d1 - 1] == v@[j]);
                            }
                        }
                        ok
                    } else {
                        false
                    }
                },
                None => false,
            }
        },
        None => false,
    };
    if tag_ok {
        TranscriptSource::Subtitle
    } else {
        TranscriptSource::AutoCaption
    }
}

/// A transcript and where it came from.
#[derive(Clone, Debug)]
pub struct Transcript {
    pub text: String,
    pub source: TranscriptSource,
}

/// The first caption file, in the order given, whose text is a usable
/// transcript. Each entry is a file's name and its content.
pub fn pick_caption(files: &Vec<(String, String)>) -> (r: Option<Transcript>)
    ensures
        match r {
            Some(t) => exists|k: int|
                0 <= k < files@.len() && t.text@ == caption_text(files@[k].1@)
                    && is_usable_transcript(t.text@) && (forall|j: int|
                    0 <= j < k ==> !is_usable_transcript(caption_text(#[trigger] files@[j].1@)))
                    && t.source == if looks_authored(files@[k].0@) {
                    TranscriptSource::Subtitle
                } else {
                    TranscriptSource::AutoCaption
                },
            None => forall|j: int|
                0 <= j < files@.len() ==> !is_usable_transcript(
                    caption_text(#[trigger] files@[j].1@),
                ),
        },
{
    let mut k: usize = 0;
    while k < files.len()
        invariant
            k <= files@.len(),
            forall|j: int|
                0 <= j < k ==> !is_usable_transcript(caption_text(#[trigger] files@[j].1@)),
        decreases files.len() - k,
    {
        let text = parse_subtitle_file(files[k].1.as_str());
        if is_usable(text.as_str()) {
            let source = caption_source(files[k].0.as_str());
            return Some(Transcript { text, source });
        }
        k = k + 1;
    }
    None
}

/// The fewest characters a description needs to stand in for a transcript,
/// less one.
pub const MIN_DESCRIPTION_CHARS: usize = 100;

/// Why no transcript could be had.
pub const NO_TRANSCRIPT_MESSAGE: &'static str =
    "No transcript available for this video. The video may not have subtitles.";

/// The description, as it is, as a transcript, when without surrounding
/// whitespace it is longer than `MIN_DESCRIPTION_CHARS` characters;
/// otherwise no transcript at all.
pub fn description_transcript(description: Option<&str>) -> (r: Result<Transcript, String>)
    ensures
        match description {
            Some(d) if trim(d@).len() > MIN_DESCRIPTION_CHARS => r matches Ok(t) && t.text@ == d@
                && t.source == TranscriptSource::DescriptionFallback,
            _ => r matches Err(m) && m@ == NO_TRANSCRIPT_MESSAGE@,
        },
{
    match description {
        Some(d) => {
            let t = trim_str(d);
            let n = chars_of(t.as_str()).len();
            if n > MIN_DESCRIPTION_CHARS {
                Ok(Transcript { text: String::from_str(d), source: TranscriptSource::DescriptionFallback })
            } else {
                Err(String::from_str(NO_TRANSCRIPT_MESSAGE))
            }
        },
        None => Err(String::from_str(NO_TRANSCRIPT_MESSAGE)),
    }
}

} // verus!
