//! Turning free text into a kebab-case slug: trimmed, lower-cased, every
//! character other than an ASCII letter or digit, `-`, `_` or a space made a
//! space, and the words that are left joined with `-`.

use crate::text::{chars_of, is_white_space, is_whitespace, push_char, trim, trim_end, trim_start, trim_str};
use vstd::prelude::*;

verus! {

/// What `str::to_lowercase` gives for `s`. Lower-casing follows the
/// Unicode `Lowercase` mapping, which can change the length of the text, and
/// is not written out here.
pub uninterp spec fn lowercase_of(s: Seq<char>) -> Seq<char>;

/// `'A'` to `'Z'`.
pub open spec fn is_ascii_upper(c: char) -> bool {
    0x41 <= (c as u32) <= 0x5a
}

/// Whether every character of `s` is ASCII.
pub open spec fn all_ascii(s: Seq<char>) -> bool {
    forall|i: int| 0 <= i < s.len() ==> (#[trigger] s[i] as u32) < 0x80
}

/// `c` with an ASCII upper-case letter made lower-case.
pub open spec fn ascii_lower_char(c: char) -> char {
    if is_ascii_upper(c) {
        ((c as u32) + 0x20) as char
    } else {
        c
    }
}

/// `s` with its ASCII upper-case letters made lower-case.
pub open spec fn ascii_lower(s: Seq<char>) -> Seq<char> {
    s.map_values(|c: char| ascii_lower_char(c))
}

/// `str::to_lowercase`. Claimed: the result is `lowercase_of` the input,
/// that is, a function of the input alone; it holds no ASCII upper-case
/// letter (each of `'A'` to `'Z'` has a lower-case mapping, and no
/// character maps to one of them); and on ASCII text it lower-cases the
/// letters `'A'` to `'Z'` and keeps every other character (the ASCII
/// mappings of the Unicode case tables, which `str::to_ascii_lowercase`
/// also applies).
#[verifier::external_body]
fn to_lowercase(s: &str) -> (r: String)
    ensures
        r@ == lowercase_of(s@),
        forall|i: int| 0 <= i < r@.len() ==> !is_ascii_upper(#[trigger] r@[i]),
        all_ascii(s@) ==> r@ == ascii_lower(s@),
{
    s.to_lowercase()
}

pub open spec fn is_ascii_alnum(c: char) -> bool {
    let n = c as u32;
    ||| 0x30 <= n <= 0x39
    ||| 0x41 <= n <= 0x5a
    ||| 0x61 <= n <= 0x7a
}

/// The characters a slug keeps as they are.
pub open spec fn slug_keeps(c: char) -> bool {
    is_ascii_alnum(c) || c == '-' || c == '_' || c == ' '
}

/// A character as the slug sees it: kept, or made a space.
pub open spec fn slug_char(c: char) -> char {
    if slug_keeps(c) {
        c
    } else {
        ' '
    }
}

/// The maximal runs of characters that are not white space, in order
/// (what `str::split_whitespace` yields).
pub open spec fn words(s: Seq<char>) -> Seq<Seq<char>>
    decreases s.len(),
{
    if s.len() == 0 {
        seq![]
    } else {
        let w = words(s.drop_last());
        let c = s.last();
        if is_white_space(c) {
            w
        } else if s.len() > 1 && !is_white_space(s[s.len() - 2]) {
            w.update(w.len() - 1, w.last().push(c))
        } else {
            w.push(seq![c])
        }
    }
}

/// The words joined with `-` between them.
pub open spec fn join_dash(ws: Seq<Seq<char>>) -> Seq<char>
    decreases ws.len(),
{
    if ws.len() == 0 {
        seq![]
    } else if ws.len() == 1 {
        ws[0]
    } else {
        join_dash(ws.drop_last()) + seq!['-'] + ws.last()
    }
}

/// The slug of an already lower-cased text.
pub open spec fn slug_of(lower: Seq<char>) -> Seq<char> {
    join_dash(words(lower.map_values(|c: char| slug_char(c))))
}

/// The slug of a text: trimmed, lower-cased, then `slug_of`.
pub open spec fn kebab_slug(input: Seq<char>) -> Seq<char> {
    slug_of(lowercase_of(trim(input)))
}

/// The characters a slug is made of.
pub open spec fn slug_clean(c: char) -> bool {
    is_ascii_alnum(c) || c == '-' || c == '_'
}

proof fn lemma_words_clean(s: Seq<char>, ok: spec_fn(char) -> bool)
    requires
        forall|i: int| 0 <= i < s.len() && !is_white_space(s[i]) ==> ok(#[trigger] s[i]),
    ensures
        forall|k: int, j: int|
            0 <= k < words(s).len() && 0 <= j < words(s)[k].len() ==> ok(
                #[trigger] words(s)[k][j],
            ),
    decreases s.len(),
{
    if s.len() > 0 {
        let p = s.drop_last();
        assert forall|i: int| 0 <= i < p.len() && !is_white_space(p[i]) implies ok(
            #[trigger] p[i],
        ) by {
            assert(p[i] == s[i]);
        }
        lemma_words_clean(p, ok);
        let w = words(p);
        let c = s.last();
        assert(s[s.len() - 1] == c);
        if !is_white_space(c) && s.len() > 1 && !is_white_space(s[s.len() - 2]) {
            assert(p.last() == s[s.len() - 2]);
            lemma_words_nonempty(p);
            let w2 = w.update(w.len() - 1, w.last().push(c));
            assert forall|k: int, j: int| 0 <= k < w2.len() && 0 <= j < w2[k].len() implies ok(
                #[trigger] w2[k][j],
            ) by {
                if k == w.len() - 1 && j == w.last().len() {
                } else if k == w.len() - 1 {
                    assert(w2[k][j] == w[k][j]);
                } else {
                    assert(w2[k] == w[k]);
                }
            }
        } else if !is_white_space(c) {
            let w2 = w.push(seq![c]);
            assert forall|k: int, j: int| 0 <= k < w2.len() && 0 <= j < w2[k].len() implies ok(
                #[trigger] w2[k][j],
            ) by {
                if k < w.len() {
                    assert(w2[k] == w[k]);
                }
            }
        }
    }
}

proof fn lemma_join_clean(ws: Seq<Seq<char>>, ok: spec_fn(char) -> bool)
    requires
        ok('-'),
        forall|k: int, j: int| 0 <= k < ws.len() && 0 <= j < ws[k].len() ==> ok(#[trigger] ws[k][j]),
    ensures
        forall|i: int| 0 <= i < join_dash(ws).len() ==> ok(#[trigger] join_dash(ws)[i]),
    decreases ws.len(),
{
    if ws.len() > 1 {
        let p = ws.drop_last();
        assert forall|k: int, j: int| 0 <= k < p.len() && 0 <= j < p[k].len() implies ok(
            #[trigger] p[k][j],
        ) by {
            assert(p[k] == ws[k]);
        }
        lemma_join_clean(p, ok);
        let a = join_dash(p);
        let b = ws.last();
        assert forall|i: int| 0 <= i < join_dash(ws).len() implies ok(#[trigger] join_dash(ws)[i]) by {
            if i < a.len() {
                assert(join_dash(ws)[i] == a[i]);
            } else if i == a.len() {
            } else {
                assert(join_dash(ws)[i] == b[i - a.len() - 1]);
                assert(ws[ws.len() - 1] == b);
            }
        }
    } else if ws.len() == 1 {
        assert forall|i: int| 0 <= i < join_dash(ws).len() implies ok(#[trigger] join_dash(ws)[i]) by {
            assert(join_dash(ws)[i] == ws[0][i]);
        }
    }
}

/// A slug is made of ASCII letters and digits, `-` and `_` only: no white
/// space and nothing else survives.
pub proof fn law_slug_is_clean(lower: Seq<char>)
    ensures
        forall|i: int| 0 <= i < slug_of(lower).len() ==> slug_clean(#[trigger] slug_of(lower)[i]),
{
    let m = lower.map_values(|c: char| slug_char(c));
    assert forall|i: int| 0 <= i < m.len() && !is_white_space(m[i]) implies slug_clean(#[trigger] m[i]) by {
        assert(m[i] == slug_char(lower[i]));
    }
    lemma_words_clean(m, |c: char| slug_clean(c));
    lemma_join_clean(words(m), |c: char| slug_clean(c));
}

proof fn lemma_words_of_one_word(t: Seq<char>)
    requires
        t.len() > 0,
        forall|i: int| 0 <= i < t.len() ==> !is_white_space(#[trigger] t[i]),
    ensures
        words(t) == seq![t],
    decreases t.len(),
{
    assert(!is_white_space(t[t.len() - 1]));
    if t.len() > 1 {
        let p = t.drop_last();
        assert forall|i: int| 0 <= i < p.len() implies !is_white_space(#[trigger] p[i]) by {
            assert(p[i] == t[i]);
        }
        lemma_words_of_one_word(p);
        assert(!is_white_space(t[t.len() - 2]));
        assert(p.push(t.last()) =~= t);
        assert(words(t) =~= seq![t]);
    } else {
        assert(words(t.drop_last()) =~= Seq::<Seq<char>>::empty());
        assert(seq![t.last()] =~= t);
        assert(words(t) =~= seq![t]);
    }
}

/// Making a slug of a slug changes nothing.
pub proof fn law_slug_idempotent(lower: Seq<char>)
    ensures
        slug_of(slug_of(lower)) == slug_of(lower),
{
    let t = slug_of(lower);
    law_slug_is_clean(lower);
    let m = t.map_values(|c: char| slug_char(c));
    assert(m =~= t);
    if t.len() > 0 {
        lemma_words_of_one_word(t);
    } else {
        assert(words(t) =~= Seq::<Seq<char>>::empty());
    }
}

/// A character a slug of lower-case text is made of: an ASCII digit, a
/// lower-case ASCII letter, `-` or `_`.
pub open spec fn slug_lower_clean(c: char) -> bool {
    slug_clean(c) && !is_ascii_upper(c)
}

/// The slug of a text whose lower-casing is taken on ASCII letters only:
/// what `to_kebab_slug` gives for ASCII text.
pub open spec fn ascii_kebab(input: Seq<char>) -> Seq<char> {
    slug_of(ascii_lower(trim(input)))
}

/// The slug of text without ASCII upper-case letters has none either.
pub proof fn law_slug_of_lower_is_lower(lower: Seq<char>)
    requires
        forall|i: int| 0 <= i < lower.len() ==> !is_ascii_upper(#[trigger] lower[i]),
    ensures
        forall|i: int| 0 <= i < slug_of(lower).len() ==> slug_lower_clean(
            #[trigger] slug_of(lower)[i],
        ),
{
    let m = lower.map_values(|c: char| slug_char(c));
    assert forall|i: int| 0 <= i < m.len() && !is_white_space(m[i]) implies slug_lower_clean(
        #[trigger] m[i],
    ) by {
        assert(m[i] == slug_char(lower[i]));
    }
    lemma_words_clean(m, |c: char| slug_lower_clean(c));
    lemma_join_clean(words(m), |c: char| slug_lower_clean(c));
}

proof fn lemma_words_empty_iff(s: Seq<char>)
    ensures
        words(s).len() == 0 <==> forall|i: int| 0 <= i < s.len() ==> is_white_space(#[trigger] s[i]),
        forall|k: int| 0 <= k < words(s).len() ==> #[trigger] words(s)[k].len() > 0,
    decreases s.len(),
{
    if s.len() > 0 {
        let p = s.drop_last();
        lemma_words_empty_iff(p);
        let w = words(p);
        let c = s.last();
        assert(s[s.len() - 1] == c);
        assert forall|i: int| 0 <= i < p.len() implies p[i] == s[i] by {}
        if is_white_space(c) {
            if forall|i: int| 0 <= i < p.len() ==> is_white_space(#[trigger] p[i]) {
                assert forall|i: int| 0 <= i < s.len() implies is_white_space(#[trigger] s[i]) by {
                    if i < p.len() {
                        assert(p[i] == s[i]);
                    }
                }
            } else {
                let i = choose|i: int| 0 <= i < p.len() && !is_white_space(#[trigger] p[i]);
                assert(s[i] == p[i]);
            }
        } else if s.len() > 1 && !is_white_space(s[s.len() - 2]) {
            assert(p[p.len() - 1] == s[s.len() - 2]);
            let w2 = w.update(w.len() - 1, w.last().push(c));
            assert forall|k: int| 0 <= k < w2.len() implies #[trigger] w2[k].len() > 0 by {
                if k < w.len() - 1 {
                    assert(w2[k] == w[k]);
                }
            }
        } else {
            let w2 = w.push(seq![c]);
            assert forall|k: int| 0 <= k < w2.len() implies #[trigger] w2[k].len() > 0 by {
                if k < w.len() {
                    assert(w2[k] == w[k]);
                }
            }
        }
    }
}

proof fn lemma_join_empty_iff(ws: Seq<Seq<char>>)
    requires
        forall|k: int| 0 <= k < ws.len() ==> #[trigger] ws[k].len() > 0,
    ensures
        join_dash(ws).len() == 0 <==> ws.len() == 0,
    decreases ws.len(),
{
    if ws.len() > 0 {
        assert(ws[ws.len() - 1] == ws.last());
        assert(ws.last().len() > 0);
        if ws.len() == 1 {
            assert(ws[0].len() > 0);
        }
    }
}

/// A slug is empty exactly when the lower-cased text has no ASCII letter or
/// digit, `-` or `_`.
pub proof fn law_slug_empty_iff(lower: Seq<char>)
    ensures
        slug_of(lower).len() == 0 <==> forall|i: int| 0 <= i < lower.len() ==> !slug_clean(
            #[trigger] lower[i],
        ),
{
    let m = lower.map_values(|c: char| slug_char(c));
    lemma_words_empty_iff(m);
    lemma_join_empty_iff(words(m));
    if forall|i: int| 0 <= i < lower.len() ==> !slug_clean(#[trigger] lower[i]) {
        assert forall|i: int| 0 <= i < m.len() implies is_white_space(#[trigger] m[i]) by {
            assert(m[i] == slug_char(lower[i]));
            assert(!slug_clean(lower[i]));
        }
    } else {
        let i = choose|i: int| 0 <= i < lower.len() && slug_clean(#[trigger] lower[i]);
        assert(m[i] == slug_char(lower[i]));
        assert(!is_white_space(m[i]));
    }
}

proof fn lemma_trim_of_no_white(t: Seq<char>)
    requires
        forall|i: int| 0 <= i < t.len() ==> !is_white_space(#[trigger] t[i]),
    ensures
        trim(t) == t,
{
    if t.len() > 0 {
        assert(!is_white_space(t[0]));
        assert(!is_white_space(t[t.len() - 1]));
    }
}

/// A slug of text without ASCII upper-case letters is its own slug: trimming
/// it, lower-casing its ASCII letters and making a slug of it again changes
/// nothing.
pub proof fn law_slug_is_fixed(lower: Seq<char>)
    requires
        forall|i: int| 0 <= i < lower.len() ==> !is_ascii_upper(#[trigger] lower[i]),
    ensures
        ascii_kebab(slug_of(lower)) == slug_of(lower),
{
    let t = slug_of(lower);
    law_slug_of_lower_is_lower(lower);
    assert forall|i: int| 0 <= i < t.len() implies !is_white_space(#[trigger] t[i]) by {
        assert(slug_lower_clean(t[i]));
    }
    lemma_trim_of_no_white(t);
    assert(ascii_lower(t) =~= t) by {
        assert forall|i: int| 0 <= i < t.len() implies #[trigger] ascii_lower(t)[i] == t[i] by {
            assert(slug_lower_clean(t[i]));
        }
    }
    law_slug_idempotent(lower);
}

/// Taking the slug of the slug of a text gives the slug again, for the
/// slugs of ASCII text.
pub proof fn law_ascii_kebab_idempotent(input: Seq<char>)
    ensures
        ascii_kebab(ascii_kebab(input)) == ascii_kebab(input),
{
    let l = ascii_lower(trim(input));
    assert forall|i: int| 0 <= i < l.len() implies !is_ascii_upper(#[trigger] l[i]) by {
        let c = trim(input)[i];
        assert(l[i] == ascii_lower_char(c));
    }
    law_slug_is_fixed(l);
}

proof fn lemma_trim_start_ascii(s: Seq<char>)
    requires
        all_ascii(s),
    ensures
        all_ascii(trim_start(s)),
    decreases s.len(),
{
    if s.len() > 0 && is_white_space(s.first()) {
        let t = s.drop_first();
        assert forall|i: int| 0 <= i < t.len() implies (#[trigger] t[i] as u32) < 0x80 by {
            assert(t[i] == s[i + 1]);
        }
        lemma_trim_start_ascii(t);
    }
}

proof fn lemma_trim_end_ascii(s: Seq<char>)
    requires
        all_ascii(s),
    ensures
        all_ascii(trim_end(s)),
    decreases s.len(),
{
    if s.len() > 0 && is_white_space(s.last()) {
        let t = s.drop_last();
        assert forall|i: int| 0 <= i < t.len() implies (#[trigger] t[i] as u32) < 0x80 by {
            assert(t[i] == s[i]);
        }
        lemma_trim_end_ascii(t);
    }
}

/// An ASCII digit, an ASCII letter of either case, `-` or `_`, by code
/// point.
pub open spec fn kept_by_slug(c: char) -> bool {
    let n = c as u32;
    ||| 0x30 <= n <= 0x39
    ||| 0x61 <= n <= 0x7a
    ||| 0x41 <= n <= 0x5a
    ||| c == '-'
    ||| c == '_'
}

/// What a slug does with each character: digits `0` to `9`, letters `a` to
/// `z` and `A` to `Z`, `-` and `_` stay as they are (and so does a space);
/// every other character becomes a space and so separates words.
pub proof fn law_slug_char_keeps_letters_and_digits(c: char)
    ensures
        kept_by_slug(c) ==> slug_char(c) == c,
        !kept_by_slug(c) ==> slug_char(c) == ' ',
        '0' <= c <= '9' ==> slug_char(c) == c,
{
}

/// A text made only of digits, lower-case ASCII letters, `-` and `_` is its
/// own slug, and `to_kebab_slug` gives it back unchanged.
pub proof fn law_clean_text_is_its_own_slug(s: Seq<char>)
    requires
        forall|i: int|
            0 <= i < s.len() ==> {
                let n = #[trigger] s[i] as u32;
                0x30 <= n <= 0x39 || 0x61 <= n <= 0x7a || s[i] == '-' || s[i] == '_'
            },
    ensures
        slug_of(s) == s,
        ascii_kebab(s) == s,
        all_ascii(s),
{
    let m = s.map_values(|c: char| slug_char(c));
    assert(m =~= s) by {
        assert forall|i: int| 0 <= i < s.len() implies #[trigger] m[i] == s[i] by {
            law_slug_char_keeps_letters_and_digits(s[i]);
        }
    }
    assert forall|i: int| 0 <= i < s.len() implies !is_white_space(#[trigger] s[i]) by {}
    if s.len() > 0 {
        lemma_words_of_one_word(s);
    } else {
        assert(words(s) =~= Seq::<Seq<char>>::empty());
    }
    lemma_trim_of_no_white(s);
    assert(ascii_lower(s) =~= s);
}

fn to_ascii_lower_char(c: char) -> (d: char)
    ensures
        d == ascii_lower_char(c),
{
    if 'A' <= c && c <= 'Z' {
        let b = c as u8;
        (b + 0x20) as char
    } else {
        c
    }
}

/// `s` with its ASCII upper-case letters made lower-case, every other
/// character kept.
pub fn ascii_lowercase(s: &str) -> (r: String)
    ensures
        r@ == ascii_lower(s@),
{
    let v = chars_of(s);
    let mut r = String::new();
    let mut i: usize = 0;
    while i < v.len()
        invariant
            v@ == s@,
            i <= v@.len(),
            r@ == ascii_lower(s@.take(i as int)),
        decreases v@.len() - i,
    {
        let d = to_ascii_lower_char(v[i]);
        push_char(&mut r, d);
        proof {
            assert(ascii_lower(s@.take(i + 1)) =~= ascii_lower(s@.take(i as int)).push(d));
        }
        i = i + 1;
    }
    proof {
        assert(s@.take(v@.len() as int) =~= s@);
    }
    r
}

fn ascii_alnum(c: char) -> (b: bool)
    ensures
        b == is_ascii_alnum(c),
{
    let n = c as u32;
    (0x30 <= n && n <= 0x39) || (0x41 <= n && n <= 0x5a) || (0x61 <= n && n <= 0x7a)
}

fn to_slug_char(c: char) -> (d: char)
    ensures
        d == slug_char(c),
{
    if ascii_alnum(c) || c == '-' || c == '_' || c == ' ' {
        c
    } else {
        ' '
    }
}

proof fn lemma_words_nonempty(s: Seq<char>)
    requires
        s.len() > 0,
        !is_white_space(s.last()),
    ensures
        words(s).len() > 0,
    decreases s.len(),
{
    if s.len() > 1 && !is_white_space(s[s.len() - 2]) {
        assert(s.drop_last().last() == s[s.len() - 2]);
        lemma_words_nonempty(s.drop_last());
    }
}

proof fn lemma_join_extend_last(ws: Seq<Seq<char>>, c: char)
    requires
        ws.len() > 0,
    ensures
        join_dash(ws.update(ws.len() - 1, ws.last().push(c))) == join_dash(ws).push(c),
{
    let ws2 = ws.update(ws.len() - 1, ws.last().push(c));
    if ws.len() > 1 {
        assert(ws2.drop_last() =~= ws.drop_last());
        assert(join_dash(ws2) =~= join_dash(ws).push(c));
    }
}

proof fn lemma_join_new_word(ws: Seq<Seq<char>>, c: char)
    ensures
        join_dash(ws.push(seq![c])) == if ws.len() == 0 {
            seq![c]
        } else {
            join_dash(ws) + seq!['-', c]
        },
{
    let ws2 = ws.push(seq![c]);
    assert(ws2.drop_last() =~= ws);
    if ws.len() > 0 {
        assert(join_dash(ws2) =~= join_dash(ws) + seq!['-', c]);
    }
}

/// The slug of an already lower-cased text: each character other than an
/// ASCII letter or digit, `-`, `_` or a space becomes a space, and the words
/// that are left are joined with `-`.
pub fn slug_from_lowercase(lower: &str) -> (r: String)
    ensures
        r@ == slug_of(lower@),
{
    let v = chars_of(lower);
    let ghost m = lower@.map_values(|c: char| slug_char(c));
    let mut out = String::new();
    let mut any_word = false;
    let mut i: usize = 0;
    while i < v.len()
        invariant
            v@ == lower@,
            m == lower@.map_values(|c: char| slug_char(c)),
            i <= v@.len(),
            out@ == join_dash(words(m.take(i as int))),
            any_word == (words(m.take(i as int)).len() > 0),
        decreases v@.len() - i,
    {
        let c = to_slug_char(v[i]);
        let ghost pre = m.take(i as int);
        let ghost post = m.take(i + 1);
        proof {
            assert(post.drop_last() =~= pre);
            assert(post.last() == c);
        }
        if !is_whitespace(c) {
            let extends = i > 0 && !is_whitespace(to_slug_char(v[i - 1]));
            if extends {
                proof {
                    assert(post[post.len() - 2] == m[i - 1]);
                    assert(pre.last() == m[i - 1]);
                    lemma_words_nonempty(pre);
                    lemma_join_extend_last(words(pre), c);
                }
                push_char(&mut out, c);
            } else {
                proof {
                    if i > 0 {
                        assert(post[post.len() - 2] == m[i - 1]);
                    }
                    lemma_join_new_word(words(pre), c);
                }
                if any_word {
                    push_char(&mut out, '-');
                }
                push_char(&mut out, c);
                any_word = true;
            }
        }
        i = i + 1;
    }
    proof {
        assert(m.take(v@.len() as int) =~= m);
    }
    out
}

/// The kebab-case slug of `input`: trimmed, lower-cased, each character
/// other than an ASCII letter or digit, `-`, `_` or a space made a space, and
/// the remaining words joined with `-`.
///
/// The slug is made of ASCII digits, lower-case ASCII letters, `-` and `_`;
/// it is empty exactly when the lower-cased text has none of those; for
/// ASCII text it is `ascii_kebab`; and it is its own slug, so that taking
/// the slug of a slug gives it back.
pub fn to_kebab_slug(input: &str) -> (r: String)
    ensures
        r@ == kebab_slug(input@),
        forall|i: int| 0 <= i < r@.len() ==> slug_lower_clean(#[trigger] r@[i]),
        r@.len() == 0 <==> forall|i: int|
            0 <= i < lowercase_of(trim(input@)).len() ==> !slug_clean(
                #[trigger] lowercase_of(trim(input@))[i],
            ),
        all_ascii(input@) ==> r@ == ascii_kebab(input@),
        ascii_kebab(r@) == r@,
{
    let trimmed = trim_str(input);
    let lower = to_lowercase(trimmed.as_str());
    proof {
        law_slug_of_lower_is_lower(lower@);
        law_slug_empty_iff(lower@);
        law_slug_is_fixed(lower@);
        if all_ascii(input@) {
            lemma_trim_start_ascii(input@);
            lemma_trim_end_ascii(trim_start(input@));
        }
    }
    slug_from_lowercase(lower.as_str())
}

} // verus!
