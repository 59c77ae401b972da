//! Classification of the downloader's output lines: progress, playlist
//! position and destination markers.
use vstd::prelude::*;
use crate::text::{
    all_digits, capped_value, chars_of, contains, contains_exec, digits_end, digits_end_exec, digits_value,
    is_ascii_digit, is_digit, is_whitespace, is_ws, last_pos, occurs_at, occurs_at_exec, prefix_value, rfind_char,
    slice_of, string_of, word_end, word_end_exec, ws_end, ws_end_exec,
};

verus! {

/// Percent values are held in millionths of a percent.
pub const MICROS_PER_PERCENT: u64 = 1_000_000;

/// The number before a percent sign that starts at `i`: `(whole_end,
/// frac_start, sign)`, where the whole part is `s[i..whole_end]`, the
/// fraction is `s[frac_start..sign]` and `s[sign]` is the percent sign.
pub open spec fn percent_at(s: Seq<char>, i: int) -> Option<(int, int, int)> {
    if 0 <= i < s.len() && is_digit(s[i]) {
        let e1 = digits_end(s, i);
        if e1 < s.len() && s[e1] == '%' {
            Some((e1, e1, e1))
        } else if e1 < s.len() && s[e1] == '.' {
            let e2 = digits_end(s, e1 + 1);
            if e2 < s.len() && s[e2] == '%' {
                Some((e1, e1 + 1, e2))
            } else {
                None
            }
        } else {
            None
        }
    } else {
        None
    }
}

/// The leftmost number with a percent sign at or after `i`, with its start.
pub open spec fn first_percent_from(s: Seq<char>, i: int) -> Option<(int, int, int, int)>
    decreases s.len() - i,
{
    if i < 0 || i >= s.len() {
        None
    } else {
        match percent_at(s, i) {
            Some(m) => Some((i, m.0, m.1, m.2)),
            None => first_percent_from(s, i + 1),
        }
    }
}

pub open spec fn first_percent(s: Seq<char>) -> Option<(int, int, int, int)> {
    first_percent_from(s, 0)
}

/// Whether `whole.frac` lies in [0, 100].
pub open spec fn percent_in_range(whole: Seq<char>, frac: Seq<char>) -> bool {
    digits_value(whole) < 100 || (digits_value(whole) == 100 && forall|k: int|
        0 <= k < frac.len() ==> #[trigger] frac[k] == '0')
}

/// `whole.frac` in millionths, the fraction cut after six digits.
pub open spec fn percent_micros(whole: Seq<char>, frac: Seq<char>) -> nat {
    digits_value(whole) * 1_000_000 + prefix_value(frac, 6)
}

/// The word after `kw` at `i`, where `kw` starts a word there and
/// whitespace follows it, then a word.
pub open spec fn word_after_at(s: Seq<char>, kw: Seq<char>, i: int) -> Option<Seq<char>> {
    if occurs_at(s, kw, i) && (i == 0 || is_ws(s[i - 1])) {
        let a = i + kw.len();
        let b = ws_end(s, a);
        if b > a && b < s.len() {
            Some(s.subrange(b, word_end(s, b)))
        } else {
            None
        }
    } else {
        None
    }
}

pub open spec fn word_after_from(s: Seq<char>, kw: Seq<char>, i: int) -> Option<Seq<char>>
    decreases s.len() + 1 - i,
{
    if i < 0 || i > s.len() {
        None
    } else {
        match word_after_at(s, kw, i) {
            Some(w) => Some(w),
            None => word_after_from(s, kw, i + 1),
        }
    }
}

/// The word that follows the first `kw` that starts a word and is followed
/// by whitespace and a word, or the empty text where there is none.
pub open spec fn word_after(s: Seq<char>, kw: Seq<char>) -> Seq<char> {
    match word_after_from(s, kw, 0) {
        Some(w) => w,
        None => Seq::empty(),
    }
}

/// What a progress line states: percent in millionths, rate and time left.
pub open spec fn progress_of(s: Seq<char>) -> Option<(nat, Seq<char>, Seq<char>)> {
    match first_percent(s) {
        Some(m) => {
            let whole = s.subrange(m.0, m.1);
            let frac = s.subrange(m.2, m.3);
            let rest = s.subrange(m.3 + 1, s.len() as int);
            if percent_in_range(whole, frac) {
                Some((percent_micros(whole, frac), word_after(rest, "at"@), word_after(rest, "ETA"@)))
            } else {
                None
            }
        },
        None => None,
    }
}

pub open spec fn playlist_at(s: Seq<char>, i: int) -> Option<(Seq<char>, Seq<char>)> {
    let k = "Downloading item "@;
    if occurs_at(s, k, i) {
        let a = i + k.len();
        let e1 = digits_end(s, a);
        if e1 > a && occurs_at(s, " of "@, e1) {
            let b = e1 + " of "@.len();
            let e2 = digits_end(s, b);
            if e2 > b {
                Some((s.subrange(a, e1), s.subrange(b, e2)))
            } else {
                None
            }
        } else {
            None
        }
    } else {
        None
    }
}

pub open spec fn playlist_from(s: Seq<char>, i: int) -> Option<(Seq<char>, Seq<char>)>
    decreases s.len() + 1 - i,
{
    if i < 0 || i > s.len() {
        None
    } else {
        match playlist_at(s, i) {
            Some(p) => Some(p),
            None => playlist_from(s, i + 1),
        }
    }
}

/// A decimal number as a `u32`, where it fits.
pub open spec fn as_u32(d: Seq<char>) -> Option<u32> {
    if digits_value(d) <= u32::MAX {
        Some(digits_value(d) as u32)
    } else {
        None
    }
}

/// The playlist position that a line announces: item index and item count.
pub open spec fn playlist_of(s: Seq<char>) -> Option<(Option<u32>, Option<u32>)> {
    match playlist_from(s, 0) {
        Some(p) => Some((as_u32(p.0), as_u32(p.1))),
        None => None,
    }
}

/// The title that a destination line announces: the file name after the last
/// `/`, without its extension.
pub open spec fn title_of(s: Seq<char>) -> Option<Seq<char>> {
    if contains(s, "[download] Destination:"@) || contains(s, "[ExtractAudio]"@) {
        let slash = last_pos(s, '/');
        if slash >= 0 {
            let name = s.subrange(slash + 1, s.len() as int);
            let dot = last_pos(name, '.');
            if dot >= 0 {
                Some(name.subrange(0, dot))
            } else {
                None
            }
        } else {
            None
        }
    } else {
        None
    }
}

proof fn lemma_digits_end(s: Seq<char>, i: int)
    requires
        0 <= i <= s.len(),
    ensures
        i <= digits_end(s, i) <= s.len(),
        forall|k: int| i <= k < digits_end(s, i) ==> is_digit(#[trigger] s[k]),
        digits_end(s, i) == s.len() || !is_digit(s[digits_end(s, i)]),
    decreases s.len() - i,
{
    if i < s.len() && is_digit(s[i]) {
        lemma_digits_end(s, i + 1);
    }
}

/// Whether a number ends just before position `j`: a digit, or a digit
/// and a dot.
pub open spec fn number_ends_before(s: Seq<char>, j: int) -> bool {
    (j >= 1 && is_digit(s[j - 1])) || (j >= 2 && s[j - 1] == '.' && is_digit(s[j - 2]))
}

proof fn lemma_no_percent_from(s: Seq<char>, i: int)
    requires
        0 <= i <= s.len(),
        forall|j: int| 0 <= j < s.len() && s[j] == '%' ==> !number_ends_before(s, j),
    ensures
        first_percent_from(s, i) is None,
    decreases s.len() - i,
{
    if i < s.len() {
        lemma_no_percent_from(s, i + 1);
        if is_digit(s[i]) {
            lemma_digits_end(s, i);
            let e1 = digits_end(s, i);
            if e1 < s.len() && s[e1] == '%' {
                assert(number_ends_before(s, e1));
            } else if e1 < s.len() && s[e1] == '.' {
                lemma_digits_end(s, e1 + 1);
                let e2 = digits_end(s, e1 + 1);
                if e2 < s.len() && s[e2] == '%' {
                    if e2 > e1 + 1 {
                        assert(is_digit(s[e2 - 1]));
                    } else {
                        assert(is_digit(s[e1 - 1]));
                    }
                    assert(number_ends_before(s, e2));
                }
            }
        }
    }
}

/// A line in which no percent sign directly follows a number states no
/// progress.
pub proof fn lemma_percent_without_number(s: Seq<char>)
    requires
        forall|j: int| 0 <= j < s.len() && s[j] == '%' ==> !number_ends_before(s, j),
    ensures
        progress_of(s) is None,
{
    lemma_no_percent_from(s, 0);
}

proof fn lemma_no_match_in_prefix(s: Seq<char>, n: int, i: int)
    requires
        0 <= i < n <= s.len(),
        forall|k: int| 0 <= k < n ==> s[k] != '%',
        !is_digit(s[n - 1]),
        n < s.len(),
        is_digit(s[n]),
        digits_end(s, n) < s.len(),
        s[digits_end(s, n)] != '%',
    ensures
        percent_at(s, i) is None,
{
    if is_digit(s[i]) {
        lemma_digits_end(s, i);
        let e1 = digits_end(s, i);
        assert(e1 < n);
        if s[e1] == '.' {
            lemma_digits_end(s, e1 + 1);
            let e2 = digits_end(s, e1 + 1);
            if e1 + 1 < n {
                assert(e2 < n);
            } else {
                assert(e1 + 1 == n);
                lemma_digits_end(s, n);
                if e2 < s.len() && s[e2] == '%' {
                    assert(e2 == digits_end(s, n));
                }
            }
        }
    }
}

proof fn lemma_first_percent_skips(s: Seq<char>, n: int, i: int)
    requires
        0 <= i <= n < s.len(),
        forall|k: int| i <= k < n ==> percent_at(s, k) is None,
    ensures
        first_percent_from(s, i) == first_percent_from(s, n),
    decreases n - i,
{
    if i < n {
        lemma_first_percent_skips(s, n, i + 1);
    }
}

/// A line `pre + whole + "." + frac + "%" + post`, where `pre` holds no
/// percent sign and does not end with a digit, states the percent that the
/// token gives, when it lies in [0, 100].
pub proof fn lemma_percent_token_read(
    pre: Seq<char>,
    whole: Seq<char>,
    frac: Seq<char>,
    post: Seq<char>,
)
    requires
        whole.len() > 0,
        frac.len() > 0,
        all_digits(whole),
        all_digits(frac),
        forall|k: int| 0 <= k < pre.len() ==> pre[k] != '%',
        pre.len() == 0 || !is_digit(pre.last()),
        percent_in_range(whole, frac),
    ensures
        progress_of(pre + whole + seq!['.'] + frac + seq!['%'] + post) is Some,
        (progress_of(pre + whole + seq!['.'] + frac + seq!['%'] + post)->0).0 == percent_micros(
            whole,
            frac,
        ),
{
    let s = pre + whole + seq!['.'] + frac + seq!['%'] + post;
    let n = pre.len() as int;
    let e1 = n + whole.len();
    let e2 = e1 + 1 + frac.len();
    assert(forall|k: int| 0 <= k < n ==> s[k] == pre[k]);
    assert(forall|k: int| n <= k < e1 ==> s[k] == whole[k - n]);
    assert(s[e1] == '.');
    assert(forall|k: int| e1 + 1 <= k < e2 ==> s[k] == frac[k - e1 - 1]);
    assert(s[e2] == '%');
    lemma_digits_end(s, n);
    assert(digits_end(s, n) == e1) by {
        let d = digits_end(s, n);
        if d < e1 {
            assert(is_digit(s[d]));
        } else if d > e1 {
            assert(is_digit(s[e1]));
        }
    }
    lemma_digits_end(s, e1 + 1);
    assert(digits_end(s, e1 + 1) == e2) by {
        let d = digits_end(s, e1 + 1);
        if d < e2 {
            assert(is_digit(s[d]));
        } else if d > e2 {
            assert(is_digit(s[e2]));
        }
    }
    assert(is_digit(s[n]));
    assert(percent_at(s, n) == Some((e1, e1 + 1, e2)));
    assert forall|i: int| 0 <= i < n implies percent_at(s, i) is None by {
        lemma_no_match_in_prefix(s, n, i);
    }
    lemma_first_percent_skips(s, n, 0);
    assert(first_percent(s) == Some((n, e1, e1 + 1, e2)));
    assert(s.subrange(n, e1) =~= whole);
    assert(s.subrange(e1 + 1, e2) =~= frac);
}

/// A progress marker: percent in millionths, transfer rate and time left.
pub struct ProgressInfo {
    pub percent_micros: u64,
    pub speed: String,
    pub eta: String,
}

/// A playlist position marker; a number too large for `u32` is absent.
#[derive(Clone, Copy, PartialEq, Eq, Structural, Debug)]
pub struct PlaylistPosition {
    pub index: Option<u32>,
    pub count: Option<u32>,
}

/// A progress line with the playlist position that the same line gives.
pub struct ProgressLine {
    pub percent_micros: u64,
    pub speed: String,
    pub eta: String,
    pub playlist_index: Option<u32>,
    pub playlist_count: Option<u32>,
}

/// All that one line states. A line may state several things at once.
pub struct LineUpdate {
    pub playlist: Option<PlaylistPosition>,
    pub progress: Option<ProgressInfo>,
    pub title: Option<String>,
}

impl LineUpdate {
    pub open spec fn is_empty(&self) -> bool {
        self.playlist is None && self.progress is None && self.title is None
    }

    /// Whether this is what `line` states.
    pub open spec fn describes(&self, line: Seq<char>) -> bool {
        &&& match playlist_of(line) {
            Some(p) => self.playlist == Some(PlaylistPosition { index: p.0, count: p.1 }),
            None => self.playlist is None,
        }
        &&& match progress_of(line) {
            Some(p) => self.progress is Some && self.progress->0.percent_micros == p.0
                && self.progress->0.speed@ == p.1 && self.progress->0.eta@ == p.2,
            None => self.progress is None,
        }
        &&& match title_of(line) {
            Some(t) => self.title is Some && self.title->0@ == t,
            None => self.title is None,
        }
    }

    pub fn has_data(&self) -> (r: bool)
        ensures
            r == !self.is_empty(),
    {
        self.playlist.is_some() || self.progress.is_some() || self.title.is_some()
    }
}

fn percent_at_exec(v: &[char], i: usize) -> (r: Option<(usize, usize, usize)>)
    requires
        i <= v@.len(),
    ensures
        match percent_at(v@, i as int) {
            Some(m) => r is Some && (r->0).0 as int == m.0 && (r->0).1 as int == m.1 && (r->0).2 as int
                == m.2,
            None => r is None,
        },
        r is Some ==> i <= (r->0).0 <= (r->0).1 <= (r->0).2 < v@.len(),
{
    if i < v.len() && is_ascii_digit(v[i]) {
        let e1 = digits_end_exec(v, i);
        if e1 < v.len() && v[e1] == '%' {
            Some((e1, e1, e1))
        } else if e1 < v.len() && v[e1] == '.' {
            let e2 = digits_end_exec(v, e1 + 1);
            if e2 < v.len() && v[e2] == '%' {
                Some((e1, e1 + 1, e2))
            } else {
                None
            }
        } else {
            None
        }
    } else {
        None
    }
}

fn first_percent_exec(v: &[char]) -> (r: Option<(usize, usize, usize, usize)>)
    ensures
        match first_percent(v@) {
            Some(m) => r is Some && (r->0).0 as int == m.0 && (r->0).1 as int == m.1 && (r->0).2 as int
                == m.2 && (r->0).3 as int == m.3,
            None => r is None,
        },
        r is Some ==> (r->0).0 <= (r->0).1 <= (r->0).2 <= (r->0).3 < v@.len(),
        v@.len() <= usize::MAX,
{
    let mut i: usize = 0;
    while i < v.len()
        invariant
            i <= v@.len(),
            first_percent(v@) == first_percent_from(v@, i as int),
        decreases v.len() - i,
    {
        match percent_at_exec(v, i) {
            Some(m) => {
                return Some((i, m.0, m.1, m.2));
            },
            None => {},
        }
        i = i + 1;
    }
    None
}

fn word_after_at_exec(v: &[char], kw: &[char], i: usize) -> (r: Option<(usize, usize)>)
    requires
        i <= v@.len(),
    ensures
        match word_after_at(v@, kw@, i as int) {
            Some(w) => r is Some && (r->0).0 <= (r->0).1 <= v@.len() && v@.subrange(
                (r->0).0 as int,
                (r->0).1 as int,
            ) == w,
            None => r is None,
        },
{
    if occurs_at_exec(v, kw, i) && (i == 0 || is_whitespace(v[i - 1])) {
        let a = i + kw.len();
        let b = ws_end_exec(v, a);
        if b > a && b < v.len() {
            let e = word_end_exec(v, b);
            Some((b, e))
        } else {
            None
        }
    } else {
        None
    }
}

/// The word after `kw` (see `word_after`).
fn word_after_exec(v: &[char], kw: &[char]) -> (r: String)
    ensures
        r@ == word_after(v@, kw@),
{
    let n = v.len();
    let mut i: usize = 0;
    while i < n
        invariant
            i <= n == v@.len(),
            word_after_from(v@, kw@, 0) == word_after_from(v@, kw@, i as int),
        decreases n - i,
    {
        match word_after_at_exec(v, kw, i) {
            Some((b, e)) => {
                return string_of(v, b, e);
            },
            None => {},
        }
        i = i + 1;
    }
    proof {
        reveal_with_fuel(word_after_from, 2);
    }
    match word_after_at_exec(v, kw, n) {
        Some((b, e)) => string_of(v, b, e),
        None => String::new(),
    }
}

proof fn lemma_prefix_value_bound(s: Seq<char>, n: nat)
    ensures
        prefix_value(s, n) < pow10(n),
    decreases n,
{
    if n > 0 {
        lemma_prefix_value_bound(s, (n - 1) as nat);
    }
}

pub open spec fn pow10(n: nat) -> nat
    decreases n,
{
    if n == 0 {
        1
    } else {
        10 * pow10((n - 1) as nat)
    }
}

/// The fraction digits `v[from..to]` in millionths, cut after six digits.
fn fraction_micros(v: &[char], from: usize, to: usize) -> (r: u64)
    requires
        from <= to <= v@.len(),
    ensures
        r == prefix_value(v@.subrange(from as int, to as int), 6),
        r < 1_000_000,
{
    let ghost f = v@.subrange(from as int, to as int);
    let mut acc: u64 = 0;
    let mut k: usize = 0;
    while k < 6
        invariant
            k <= 6,
            from <= to <= v@.len(),
            f == v@.subrange(from as int, to as int),
            acc == prefix_value(f, k as nat),
        decreases 6 - k,
    {
        proof {
            lemma_prefix_value_bound(f, k as nat);
            assert(pow10(k as nat) <= 100000) by {
                reveal_with_fuel(pow10, 6);
            }
        }
        let dv: u64 = if k < to - from && is_ascii_digit(v[from + k]) {
            (v[from + k] as u32 - '0' as u32) as u64
        } else {
            0
        };
        acc = acc * 10 + dv;
        k = k + 1;
    }
    proof {
        lemma_prefix_value_bound(f, 6);
        reveal_with_fuel(pow10, 7);
    }
    acc
}

fn all_zeros(v: &[char], from: usize, to: usize) -> (r: bool)
    requires
        from <= to <= v@.len(),
    ensures
        r == forall|k: int|
            0 <= k < to - from ==> #[trigger] v@.subrange(from as int, to as int)[k] == '0',
{
    let mut i = from;
    while i < to
        invariant
            from <= i <= to <= v@.len(),
            forall|k: int| from <= k < i ==> v@[k] == '0',
        decreases to - i,
    {
        if v[i] != '0' {
            assert(v@.subrange(from as int, to as int)[i - from] != '0');
            return false;
        }
        i = i + 1;
    }
    true
}

proof fn lemma_zero_prefix(s: Seq<char>, n: nat)
    requires
        forall|k: int| 0 <= k < s.len() ==> #[trigger] s[k] == '0',
    ensures
        prefix_value(s, n) == 0,
    decreases n,
{
    if n > 0 {
        lemma_zero_prefix(s, (n - 1) as nat);
    }
}

/// A percent in range is at most 100, that is 100 000 000 millionths.
pub proof fn lemma_percent_at_most_full(whole: Seq<char>, frac: Seq<char>)
    requires
        percent_in_range(whole, frac),
    ensures
        percent_micros(whole, frac) <= 100_000_000,
{
    lemma_prefix_value_bound(frac, 6);
    reveal_with_fuel(pow10, 7);
    if digits_value(whole) == 100 {
        lemma_zero_prefix(frac, 6);
    }
}

/// The progress marker of a line, if it has one: the leftmost number directly
/// before a `%`, when it lies in [0, 100], then the words after `at` and `ETA`.
pub fn parse_progress_marker(v: &[char]) -> (r: Option<ProgressInfo>)
    ensures
        match progress_of(v@) {
            Some(p) => r is Some && r->0.percent_micros == p.0 && r->0.speed@ == p.1
                && r->0.eta@ == p.2,
            None => r is None,
        },
        r is Some ==> (r->0).percent_micros <= 100_000_000,
{
    match first_percent_exec(v) {
        Some((start, whole_end, frac_start, sign)) => {
            let ghost whole = v@.subrange(start as int, whole_end as int);
            let ghost frac = v@.subrange(frac_start as int, sign as int);
            let w = capped_value(v, start, whole_end, 100);
            let in_range = w < 100 || (w == 100 && all_zeros(v, frac_start, sign));
            assert(in_range == percent_in_range(whole, frac));
            if !in_range {
                assert(progress_of(v@) is None);
                return None;
            }
            proof {
                lemma_percent_at_most_full(whole, frac);
            }
            let micros = w * MICROS_PER_PERCENT + fraction_micros(v, frac_start, sign);
            let rest = slice_of(v, sign + 1, v.len());
            let at_kw = chars_of("at");
            let eta_kw = chars_of("ETA");
            let speed = word_after_exec(&rest, &at_kw);
            let eta = word_after_exec(&rest, &eta_kw);
            Some(ProgressInfo { percent_micros: micros, speed, eta })
        },
        None => None,
    }
}

fn playlist_at_exec(v: &[char], k: &[char], of: &[char], i: usize) -> (r: Option<
    (usize, usize, usize, usize),
>)
    requires
        i <= v@.len(),
        k@ == "Downloading item "@,
        of@ == " of "@,
    ensures
        match playlist_at(v@, i as int) {
            Some(p) => r is Some && (r->0).0 <= (r->0).1 <= (r->0).2 <= (r->0).3 <= v@.len()
                && v@.subrange((r->0).0 as int, (r->0).1 as int) == p.0 && v@.subrange(
                (r->0).2 as int,
                (r->0).3 as int,
            ) == p.1,
            None => r is None,
        },
{
    if occurs_at_exec(v, k, i) {
        let a = i + k.len();
        let e1 = digits_end_exec(v, a);
        if e1 > a && occurs_at_exec(v, of, e1) {
            let b = e1 + of.len();
            let e2 = digits_end_exec(v, b);
            if e2 > b {
                Some((a, e1, b, e2))
            } else {
                None
            }
        } else {
            None
        }
    } else {
        None
    }
}

fn u32_of_digits(v: &[char], from: usize, to: usize) -> (r: Option<u32>)
    requires
        from <= to <= v@.len(),
    ensures
        r == as_u32(v@.subrange(from as int, to as int)),
{
    let x = capped_value(v, from, to, u32::MAX as u64);
    if x <= u32::MAX as u64 {
        Some(x as u32)
    } else {
        None
    }
}

/// The playlist position marker of a line, if it has one.
pub fn parse_playlist_marker(v: &[char]) -> (r: Option<PlaylistPosition>)
    ensures
        match playlist_of(v@) {
            Some(p) => r == Some(PlaylistPosition { index: p.0, count: p.1 }),
            None => r is None,
        },
{
    let k = chars_of("Downloading item ");
    let of = chars_of(" of ");
    let n = v.len();
    let mut i: usize = 0;
    while i < n
        invariant
            i <= n == v@.len(),
            k@ == "Downloading item "@,
            of@ == " of "@,
            playlist_from(v@, 0) == playlist_from(v@, i as int),
        decreases n - i,
    {
        match playlist_at_exec(v, &k, &of, i) {
            Some((a, e1, b, e2)) => {
                let index = u32_of_digits(v, a, e1);
                let count = u32_of_digits(v, b, e2);
                return Some(PlaylistPosition { index, count });
            },
            None => {},
        }
        i = i + 1;
    }
    proof {
        reveal_with_fuel(playlist_from, 2);
    }
    match playlist_at_exec(v, &k, &of, n) {
        Some((a, e1, b, e2)) => {
            let index = u32_of_digits(v, a, e1);
            let count = u32_of_digits(v, b, e2);
            Some(PlaylistPosition { index, count })
        },
        None => None,
    }
}

/// The title that a destination line announces, if it is one.
pub fn parse_destination(v: &[char]) -> (r: Option<String>)
    ensures
        match title_of(v@) {
            Some(t) => r is Some && r->0@ == t,
            None => r is None,
        },
{
    let dest = chars_of("[download] Destination:");
    let audio = chars_of("[ExtractAudio]");
    if contains_exec(v, &dest) || contains_exec(v, &audio) {
        match rfind_char(v, '/') {
            Some(slash) => {
                let name = slice_of(v, slash + 1, v.len());
                match rfind_char(&name, '.') {
                    Some(dot) => Some(string_of(&name, 0, dot)),
                    None => None,
                }
            },
            None => None,
        }
    } else {
        None
    }
}

/// Everything that one output line of the downloader states.
pub fn classify_line(line: &str) -> (r: LineUpdate)
    ensures
        r.describes(line@),
        r.progress is Some ==> (r.progress->0).percent_micros <= 100_000_000,
{
    let v = chars_of(line);
    LineUpdate {
        playlist: parse_playlist_marker(&v),
        progress: parse_progress_marker(&v),
        title: parse_destination(&v),
    }
}

/// The progress marker of a line with the playlist position on the same line.
pub fn parse_progress(line: &str) -> (r: Option<ProgressLine>)
    ensures
        match progress_of(line@) {
            Some(p) => r is Some && r->0.percent_micros == p.0 && r->0.speed@ == p.1
                && r->0.eta@ == p.2 && match playlist_of(line@) {
                Some(q) => r->0.playlist_index == q.0 && r->0.playlist_count == q.1,
                None => r->0.playlist_index is None && r->0.playlist_count is None,
            },
            None => r is None,
        },
{
    let v = chars_of(line);
    match parse_progress_marker(&v) {
        Some(p) => {
            let (playlist_index, playlist_count) = match parse_playlist_marker(&v) {
                Some(q) => (q.index, q.count),
                None => (None, None),
            };
            Some(
                ProgressLine {
                    percent_micros: p.percent_micros,
                    speed: p.speed,
                    eta: p.eta,
                    playlist_index,
                    playlist_count,
                },
            )
        },
        None => None,
    }
}

} // verus!
