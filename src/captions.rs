//! Caption files (both time-range dialects) reduced to plain spoken text.
use vstd::prelude::*;
use crate::text::{
    all_digits, all_digits_exec, chars_of, contains, contains_exec, is_ws, lines, lines_of, split_lf,
    strip_cr, trim_end, trim_start, push_char, push_range, same_chars,
    starts_with, starts_with_exec, trim, trimmed,
};

verus! {

/// The first position at or after `i` that holds `c`, or -1.
pub open spec fn first_pos_from(s: Seq<char>, c: char, i: int) -> int
    decreases s.len() - i,
{
    if i < 0 || i >= s.len() {
        -1
    } else if s[i] == c {
        i
    } else {
        first_pos_from(s, c, i + 1)
    }
}

/// `s` with every `<...>` tag (at least one character between the brackets)
/// removed, tags taken from the left and not overlapping.
pub open spec fn strip_tags(s: Seq<char>) -> Seq<char>
    decreases s.len(),
{
    if s.len() == 0 {
        Seq::empty()
    } else {
        let j = first_pos_from(s, '>', 1);
        if s[0] == '<' && 2 <= j < s.len() {
            strip_tags(s.subrange(j + 1, s.len() as int))
        } else {
            seq![s[0]] + strip_tags(s.drop_first())
        }
    }
}

/// A trimmed line that carries no spoken text: a header or note, a time
/// range, a cue number, or a styling or position directive.
pub open spec fn is_directive(t: Seq<char>) -> bool {
    ||| starts_with(t, "WEBVTT"@)
    ||| starts_with(t, "NOTE"@)
    ||| contains(t, "-->"@)
    ||| all_digits(t)
    ||| starts_with(t, "align:"@)
    ||| starts_with(t, "position:"@)
    ||| contains(t, "::"@)
}

/// The spoken text of one line, if it has any.
pub open spec fn spoken(line: Seq<char>) -> Seq<char> {
    let t = trim(line);
    if t.len() == 0 || is_directive(t) {
        Seq::empty()
    } else {
        trim(strip_tags(t))
    }
}

/// The texts kept from `ls`: empty ones dropped, and a text equal to the
/// one kept just before it dropped.
pub open spec fn kept_texts(ls: Seq<Seq<char>>) -> Seq<Seq<char>>
    decreases ls.len(),
{
    if ls.len() == 0 {
        Seq::empty()
    } else {
        let prev = kept_texts(ls.drop_last());
        let c = spoken(ls.last());
        if c.len() == 0 || (prev.len() > 0 && prev.last() == c) {
            prev
        } else {
            prev.push(c)
        }
    }
}

/// The texts joined with single spaces.
pub open spec fn join_spaced(ts: Seq<Seq<char>>) -> Seq<char>
    decreases ts.len(),
{
    if ts.len() == 0 {
        Seq::empty()
    } else if ts.len() == 1 {
        ts[0]
    } else {
        join_spaced(ts.drop_last()) + seq![' '] + ts.last()
    }
}

/// The plain text of a caption file.
pub open spec fn caption_text(content: Seq<char>) -> Seq<char> {
    join_spaced(kept_texts(lines(content)))
}

/// No line feed in `s`.
pub open spec fn single_line(s: Seq<char>) -> bool {
    forall|k: int| 0 <= k < s.len() ==> s[k] != '\n'
}

/// A nonempty single line without whitespace at either end.
pub open spec fn is_clean(t: Seq<char>) -> bool {
    t.len() > 0 && single_line(t) && !is_ws(t[0]) && !is_ws(t.last())
}

proof fn lemma_split_lf_single(s: Seq<char>)
    ensures
        split_lf(s).len() >= 1,
        forall|k: int| 0 <= k < split_lf(s).len() ==> single_line(#[trigger] split_lf(s)[k]),
        single_line(s) ==> split_lf(s) == seq![s],
    decreases s.len(),
{
    if s.len() == 0 {
        assert(s =~= Seq::<char>::empty());
    } else {
        lemma_split_lf_single(s.drop_last());
        let rest = split_lf(s.drop_last());
        if s.last() != '\n' {
            let l = rest.last().push(s.last());
            assert(single_line(l)) by {
                assert forall|k: int| 0 <= k < l.len() implies l[k] != '\n' by {
                    if k < l.len() - 1 {
                        assert(single_line(rest[rest.len() - 1]));
                    }
                }
            }
            assert forall|k: int| 0 <= k < split_lf(s).len() implies single_line(
                #[trigger] split_lf(s)[k],
            ) by {
                if k < rest.len() - 1 {
                    assert(split_lf(s)[k] == rest[k]);
                }
            }
            if single_line(s) {
                assert(single_line(s.drop_last()));
                assert(rest == seq![s.drop_last()]);
                assert(s.drop_last().push(s.last()) =~= s);
                assert(split_lf(s) =~= seq![s]);
            }
        } else {
            assert forall|k: int| 0 <= k < split_lf(s).len() implies single_line(
                #[trigger] split_lf(s)[k],
            ) by {
                if k < rest.len() {
                    assert(split_lf(s)[k] == rest[k]);
                }
            }
        }
    }
}

proof fn lemma_lines_single(s: Seq<char>)
    ensures
        forall|k: int| 0 <= k < lines(s).len() ==> single_line(#[trigger] lines(s)[k]),
{
    lemma_split_lf_single(s);
    let p = split_lf(s);
    let q = if p.last().len() == 0 {
        p.drop_last()
    } else {
        p
    };
    assert forall|k: int| 0 <= k < lines(s).len() implies single_line(#[trigger] lines(s)[k]) by {
        assert(single_line(q[k]));
        assert(lines(s)[k] == strip_cr(q[k]));
    }
}

proof fn lemma_trim_start_shape(s: Seq<char>)
    ensures
        trim_start(s).len() == 0 || !is_ws(trim_start(s)[0]),
        single_line(s) ==> single_line(trim_start(s)),
    decreases s.len(),
{
    if s.len() > 0 && is_ws(s[0]) {
        lemma_trim_start_shape(s.drop_first());
    }
}

proof fn lemma_trim_end_shape(s: Seq<char>)
    ensures
        trim_end(s).len() <= s.len(),
        trim_end(s) == s.subrange(0, trim_end(s).len() as int),
        trim_end(s).len() == 0 || !is_ws(trim_end(s).last()),
    decreases s.len(),
{
    if s.len() > 0 && is_ws(s.last()) {
        lemma_trim_end_shape(s.drop_last());
        assert(trim_end(s) =~= s.subrange(0, trim_end(s).len() as int));
    } else {
        assert(s =~= s.subrange(0, s.len() as int));
    }
}

proof fn lemma_trim_clean(x: Seq<char>)
    requires
        single_line(x),
    ensures
        single_line(trim(x)),
        trim(x).len() == 0 || is_clean(trim(x)),
{
    lemma_trim_start_shape(x);
    let t = trim_start(x);
    lemma_trim_end_shape(t);
    let u = trim_end(t);
    assert(single_line(u)) by {
        assert forall|k: int| 0 <= k < u.len() implies u[k] != '\n' by {
            assert(u[k] == t[k]);
        }
    }
    if u.len() > 0 {
        assert(u[0] == t[0]);
    }
}

proof fn lemma_strip_tags_single(s: Seq<char>)
    requires
        single_line(s),
    ensures
        single_line(strip_tags(s)),
    decreases s.len(),
{
    if s.len() > 0 {
        let j = first_pos_from(s, '>', 1);
        if s[0] == '<' && 2 <= j < s.len() {
            let r = s.subrange(j + 1, s.len() as int);
            assert(single_line(r));
            lemma_strip_tags_single(r);
        } else {
            let r = s.drop_first();
            assert(single_line(r));
            lemma_strip_tags_single(r);
            let o = seq![s[0]] + strip_tags(r);
            assert forall|k: int| 0 <= k < o.len() implies o[k] != '\n' by {
                if k > 0 {
                    assert(o[k] == strip_tags(r)[k - 1]);
                }
            }
        }
    }
}

proof fn lemma_spoken_clean(line: Seq<char>)
    requires
        single_line(line),
    ensures
        spoken(line).len() == 0 || is_clean(spoken(line)),
{
    lemma_trim_clean(line);
    let t = trim(line);
    if t.len() > 0 && !is_directive(t) {
        lemma_strip_tags_single(t);
        lemma_trim_clean(strip_tags(t));
    }
}

proof fn lemma_kept_clean(ls: Seq<Seq<char>>)
    requires
        forall|k: int| 0 <= k < ls.len() ==> single_line(#[trigger] ls[k]),
    ensures
        forall|j: int| 0 <= j < kept_texts(ls).len() ==> is_clean(#[trigger] kept_texts(ls)[j]),
    decreases ls.len(),
{
    if ls.len() > 0 {
        let init = ls.drop_last();
        assert forall|k: int| 0 <= k < init.len() implies single_line(#[trigger] init[k]) by {
            assert(init[k] == ls[k]);
        }
        lemma_kept_clean(init);
        assert(single_line(ls[ls.len() - 1]));
        lemma_spoken_clean(ls.last());
        let prev = kept_texts(init);
        assert forall|j: int| 0 <= j < kept_texts(ls).len() implies is_clean(
            #[trigger] kept_texts(ls)[j],
        ) by {
            if j < prev.len() {
                assert(kept_texts(ls)[j] == prev[j]);
            }
        }
    }
}

proof fn lemma_join_clean(ts: Seq<Seq<char>>)
    requires
        ts.len() > 0,
        forall|j: int| 0 <= j < ts.len() ==> is_clean(#[trigger] ts[j]),
    ensures
        is_clean(join_spaced(ts)),
    decreases ts.len(),
{
    if ts.len() > 1 {
        let init = ts.drop_last();
        assert forall|j: int| 0 <= j < init.len() implies is_clean(#[trigger] init[j]) by {
            assert(init[j] == ts[j]);
        }
        lemma_join_clean(init);
        let a = join_spaced(init);
        let l = ts.last();
        assert(is_clean(ts[ts.len() - 1]));
        let o = a + seq![' '] + l;
        assert(o == join_spaced(ts));
        assert(o[0] == a[0]);
        assert(o.last() == l.last());
        assert forall|k: int| 0 <= k < o.len() implies o[k] != '\n' by {
            if k < a.len() {
                assert(o[k] == a[k]);
            } else if k > a.len() {
                assert(o[k] == l[k - a.len() - 1]);
            }
        }
    } else {
        assert(is_clean(ts[0]));
    }
}

/// Reading the text of a caption file again as a caption file gives that
/// text back, and reading is a function of the content alone. The one
/// exception is a text that itself reads as a directive line or holds a
/// tag (as `<b>123</b>` becomes `123`, a cue number).
pub proof fn lemma_caption_text_idempotent(content: Seq<char>)
    requires
        caption_text(content).len() == 0 || (!is_directive(caption_text(content)) && strip_tags(
            caption_text(content),
        ) == caption_text(content)),
    ensures
        caption_text(caption_text(content)) == caption_text(content),
{
    let out = caption_text(content);
    if out.len() == 0 {
        reveal_with_fuel(split_lf, 1);
        assert(lines(out) =~= Seq::<Seq<char>>::empty());
    } else {
        lemma_lines_single(content);
        lemma_kept_clean(lines(content));
        lemma_join_clean(kept_texts(lines(content)));
        lemma_split_lf_single(out);
        assert(lines(out) =~= seq![out]);
        assert(trim_start(out) == out);
        assert(trim_end(out) == out);
        assert(spoken(out) == out);
        let one = seq![out];
        assert(one.drop_last() =~= Seq::<Seq<char>>::empty());
        assert(kept_texts(one.drop_last()) == Seq::<Seq<char>>::empty());
        assert(one.last() == out);
        assert(kept_texts(one) =~= seq![out]);
    }
}

proof fn lemma_first_pos(s: Seq<char>, c: char, i: int, j: int)
    requires
        0 <= i <= j <= s.len(),
        forall|k: int| i <= k < j ==> s[k] != c,
        j == s.len() || s[j] == c,
    ensures
        first_pos_from(s, c, i) == if j == s.len() {
            -1
        } else {
            j
        },
    decreases j - i,
{
    if i < j {
        lemma_first_pos(s, c, i + 1, j);
    }
}

fn find_char_from(v: &[char], c: char, from: usize) -> (r: usize)
    requires
        from <= v@.len(),
    ensures
        from <= r <= v@.len(),
        forall|k: int| from <= k < r ==> v@[k] != c,
        r == v@.len() || v@[r as int] == c,
{
    let mut j = from;
    while j < v.len() && v[j] != c
        invariant
            from <= j <= v@.len(),
            forall|k: int| from <= k < j ==> v@[k] != c,
        decreases v.len() - j,
    {
        j = j + 1;
    }
    j
}

/// `v` with its tags removed (see `strip_tags`).
pub fn strip_tags_exec(v: &[char]) -> (r: Vec<char>)
    ensures
        r@ == strip_tags(v@),
{
    let n = v.len();
    let mut out: Vec<char> = Vec::new();
    let mut i: usize = 0;
    assert(v@.subrange(0, n as int) =~= v@);
    while i < n
        invariant
            i <= n == v@.len(),
            out@ + strip_tags(v@.subrange(i as int, n as int)) == strip_tags(v@),
        decreases n - i,
    {
        let ghost t = v@.subrange(i as int, n as int);
        let j = if i + 1 < n {
            find_char_from(v, '>', i + 1)
        } else {
            n
        };
        proof {
            if i + 1 < n {
                assert forall|k: int| 1 <= k < j - i implies t[k] != '>' by {
                    assert(t[k] == v@[i + k]);
                }
                lemma_first_pos(t, '>', 1, (j - i) as int);
            }
        }
        if v[i] == '<' && i + 1 < j && j < n {
            assert(t.subrange(j - i + 1, t.len() as int) =~= v@.subrange(j + 1, n as int));
            i = j + 1;
        } else {
            assert(t.drop_first() =~= v@.subrange(i + 1, n as int));
            out.push(v[i]);
            assert(out@ + strip_tags(v@.subrange(i + 1, n as int)) =~= out@.drop_last() + (seq![
                t[0],
            ] + strip_tags(t.drop_first())));
            i = i + 1;
        }
    }
    assert(strip_tags(v@.subrange(n as int, n as int)) =~= Seq::<char>::empty());
    assert(out@ + Seq::<char>::empty() =~= out@);
    out
}

/// Whether a trimmed line is a directive (see `is_directive`).
pub fn is_directive_exec(t: &[char]) -> (r: bool)
    ensures
        r == is_directive(t@),
{
    starts_with_exec(t, &chars_of("WEBVTT")) || starts_with_exec(t, &chars_of("NOTE"))
        || contains_exec(t, &chars_of("-->")) || all_digits_exec(t) || starts_with_exec(
        t,
        &chars_of("align:"),
    ) || starts_with_exec(t, &chars_of("position:")) || contains_exec(t, &chars_of("::"))
}

/// The spoken text of one line (see `spoken`).
pub fn spoken_exec(line: &[char]) -> (r: Vec<char>)
    ensures
        r@ == spoken(line@),
{
    let t = trimmed(line);
    if t.len() == 0 || is_directive_exec(&t) {
        Vec::new()
    } else {
        trimmed(&strip_tags_exec(&t))
    }
}

/// The plain spoken text of a caption file in either time-range dialect:
/// header, note, time-range, cue-number and directive lines dropped, tags
/// removed, a line equal to the one kept before it dropped, the rest joined
/// with single spaces. Any input gives a result, the empty text at worst.
pub fn parse_subtitle_file(content: &str) -> (r: String)
    ensures
        r@ == caption_text(content@),
{
    let v = chars_of(content);
    let ls = lines_of(&v);
    let ghost lsv = lines(v@);
    let mut out = String::new();
    let mut last: Vec<char> = Vec::new();
    let mut has_last = false;
    let mut k: usize = 0;
    while k < ls.len()
        invariant
            k <= ls@.len() == lsv.len(),
            lsv == lines(content@),
            forall|j: int| 0 <= j < ls@.len() ==> (#[trigger] ls@[j])@ == lsv[j],
            out@ == join_spaced(kept_texts(lsv.take(k as int))),
            has_last <==> kept_texts(lsv.take(k as int)).len() > 0,
            has_last ==> last@ == kept_texts(lsv.take(k as int)).last(),
        decreases ls.len() - k,
    {
        let ghost prev = kept_texts(lsv.take(k as int));
        assert(lsv.take(k + 1).drop_last() =~= lsv.take(k as int));
        assert(lsv.take(k + 1).last() == lsv[k as int]);
        let c = spoken_exec(&ls[k]);
        if c.len() == 0 || (has_last && same_chars(&c, &last)) {
        } else {
            if has_last {
                push_char(&mut out, ' ');
            }
            let cl = c.len();
            push_range(&mut out, &c, 0, cl);
            proof {
                let now = prev.push(c@);
                assert(now.drop_last() =~= prev);
                assert(c@.subrange(0, cl as int) =~= c@);
                if prev.len() == 0 {
                    assert(out@ =~= join_spaced(now));
                } else {
                    assert(out@ =~= join_spaced(now));
                }
            }
            last = c;
            has_last = true;
        }
        k = k + 1;
    }
    assert(lsv.take(lsv.len() as int) =~= lsv);
    out
}

} // verus!
