//! Character and string helpers built on the standard library's Unicode tables.

use vstd::prelude::*;
use vstd::string::StringExecFns;

verus! {

broadcast use vstd::string::group_string_axioms;

/// Appends one character to a string (`String::push`).
#[verifier::external_body]
pub(crate) fn push_char(s: &mut String, c: char)
    ensures
        final(s)@ == old(s)@.push(c),
{
    s.push(c);
}

/// The characters of `s`, in order.
pub fn chars_of(s: &str) -> (v: Vec<char>)
    ensures
        v@ == s@,
{
    let mut v: Vec<char> = Vec::new();
    for c in it: s.chars()
        invariant
            v@ == it.seq().take(it.index() as int),
    {
        v.push(c);
    }
    v
}


/// Whether `a` and `b` hold the same characters.
pub fn same_text(a: &str, b: &str) -> (r: bool)
    ensures
        r == (a@ == b@),
{
    let va = chars_of(a);
    let vb = chars_of(b);
    if va.len() != vb.len() {
        return false;
    }
    let mut i: usize = 0;
    while i < va.len()
        invariant
            va@ == a@,
            vb@ == b@,
            va@.len() == vb@.len(),
            i <= va@.len(),
            forall|j: int| 0 <= j < i ==> va@[j] == vb@[j],
        decreases va.len() - i,
    {
        if va[i] != vb[i] {
            return false;
        }
        i = i + 1;
    }
    assert(va@ =~= vb@);
    true
}

/// The characters from `lo` up to `hi` of `v`, as a string.
pub fn string_from(v: &Vec<char>, lo: usize, hi: usize) -> (r: String)
    requires
        lo <= hi <= v@.len(),
    ensures
        r@ == v@.subrange(lo as int, hi as int),
{
    let mut r = String::new();
    let mut i = lo;
    while i < hi
        invariant
            lo <= i <= hi <= v@.len(),
            r@ == v@.subrange(lo as int, i as int),
        decreases hi - i,
    {
        push_char(&mut r, v[i]);
        i = i + 1;
    }
    r
}

/// The number of bytes UTF-8 uses for `c`.
pub open spec fn utf8_width(c: char) -> nat {
    if (c as u32) < 0x80 { 1 } else if (c as u32) < 0x800 { 2 } else if (c as u32) < 0x10000 { 3 } else { 4 }
}

/// The number of bytes of the UTF-8 encoding of `s` (what `str::len` returns).
pub open spec fn utf8_len(s: Seq<char>) -> nat
    decreases s.len(),
{
    if s.len() == 0 { 0 } else { utf8_len(s.drop_last()) + utf8_width(s.last()) }
}

proof fn lemma_utf8_len_prefix(s: Seq<char>, i: int)
    requires
        0 <= i <= s.len(),
    ensures
        utf8_len(s.take(i)) <= utf8_len(s),
    decreases s.len(),
{
    if i < s.len() {
        assert(s.take(i) =~= s.drop_last().take(i));
        lemma_utf8_len_prefix(s.drop_last(), i);
    } else {
        assert(s.take(i) =~= s);
    }
}

/// Whether the UTF-8 encoding of `v` takes more than `limit` bytes.
pub fn utf8_len_exceeds(v: &Vec<char>, limit: usize) -> (r: bool)
    requires
        limit <= 1_000_000,
    ensures
        r == (utf8_len(v@) > limit),
{
    let mut total: usize = 0;
    let mut i: usize = 0;
    while i < v.len()
        invariant
            i <= v@.len(),
            limit <= 1_000_000,
            total == utf8_len(v@.take(i as int)),
            total <= limit,
        decreases v.len() - i,
    {
        let c = v[i];
        let w: usize = if (c as u32) < 0x80 { 1 } else if (c as u32) < 0x800 { 2 } else if (c as u32) < 0x10000 { 3 } else { 4 };
        assert(v@.take(i + 1).drop_last() =~= v@.take(i as int));
        total = total + w;
        i = i + 1;
        if total > limit {
            proof { lemma_utf8_len_prefix(v@, i as int); }
            return true;
        }
    }
    assert(v@.take(v@.len() as int) =~= v@);
    false
}

/// Whether `c` has the Unicode `White_Space` property.
pub uninterp spec fn is_unicode_whitespace(c: char) -> bool;

/// The ASCII characters that have the `White_Space` property: tab, line feed,
/// vertical tab, form feed, carriage return and space.
pub open spec fn is_ascii_whitespace_char(c: char) -> bool {
    c == '\t' || c == '\n' || c == '\x0b' || c == '\x0c' || c == '\r' || c == ' '
}

/// `char::is_whitespace`: true when `c` has the Unicode `White_Space` property,
/// which among ASCII characters holds of tab, line feed, vertical tab, form feed,
/// carriage return and space only.
#[verifier::external_body]
pub fn is_whitespace(c: char) -> (r: bool)
    ensures
        r == is_unicode_whitespace(c),
        (c as u32) < 128 ==> (r <==> is_ascii_whitespace_char(c)),
{
    c.is_whitespace()
}

/// The characters with the Unicode `White_Space` property: tab through
/// carriage return, space, U+0085, U+00A0, U+1680, U+2000 to U+200A, U+2028,
/// U+2029, U+202F, U+205F and U+3000.
pub open spec fn is_white_space(c: char) -> bool {
    let u = c as u32;
    ||| 0x09 <= u <= 0x0d
    ||| u == 0x20
    ||| u == 0x85
    ||| u == 0xa0
    ||| u == 0x1680
    ||| 0x2000 <= u <= 0x200a
    ||| u == 0x2028
    ||| u == 0x2029
    ||| u == 0x202f
    ||| u == 0x205f
    ||| u == 0x3000
}

/// `s` with every maximal run of `White_Space` characters replaced by one space.
pub open spec fn collapse_whitespace(s: Seq<char>) -> Seq<char>
    decreases s.len(),
{
    if s.len() == 0 {
        Seq::empty()
    } else {
        let init = s.drop_last();
        let c = s.last();
        if !is_white_space(c) {
            collapse_whitespace(init).push(c)
        } else if init.len() > 0 && is_white_space(init.last()) {
            collapse_whitespace(init)
        } else {
            collapse_whitespace(init).push(' ')
        }
    }
}

/// No two neighbouring characters of `s` are both whitespace, and the only
/// whitespace character in it is the plain space.
pub open spec fn single_spaced(s: Seq<char>) -> bool {
    &&& forall|i: int| 0 <= i < s.len() - 1 ==> !(is_white_space(#[trigger] s[i]) && is_white_space(s[i + 1]))
    &&& forall|i: int| 0 <= i < s.len() && is_white_space(#[trigger] s[i]) ==> s[i] == ' '
}

proof fn lemma_collapse_last(s: Seq<char>)
    requires
        s.len() > 0,
    ensures
        collapse_whitespace(s).len() > 0,
        is_white_space(collapse_whitespace(s).last()) <==> is_white_space(s.last()),
    decreases s.len(),
{
    let init = s.drop_last();
    if is_white_space(s.last()) && init.len() > 0 && is_white_space(init.last()) {
        lemma_collapse_last(init);
    }
    assert(is_white_space(' '));
}

/// Collapsing leaves text single-spaced: no two whitespace characters in a
/// row, and every whitespace character a plain space.
pub proof fn law_collapsed_text_is_single_spaced(s: Seq<char>)
    ensures
        single_spaced(collapse_whitespace(s)),
    decreases s.len(),
{
    if s.len() > 0 {
        let init = s.drop_last();
        law_collapsed_text_is_single_spaced(init);
        let ci = collapse_whitespace(init);
        let c = collapse_whitespace(s);
        assert(is_white_space(' '));
        if init.len() > 0 {
            lemma_collapse_last(init);
        }
        if !is_white_space(s.last()) || !(init.len() > 0 && is_white_space(init.last())) {
            let x = c.last();
            assert(c == ci.push(x));
            assert forall|i: int| 0 <= i < c.len() - 1 implies !(is_white_space(#[trigger] c[i]) && is_white_space(c[i + 1])) by {
                if i < ci.len() - 1 {
                    assert(c[i] == ci[i] && c[i + 1] == ci[i + 1]);
                } else {
                    assert(c[i] == ci.last());
                }
            }
            assert forall|i: int| 0 <= i < c.len() && is_white_space(#[trigger] c[i]) implies c[i] == ' ' by {
                if i < ci.len() {
                    assert(c[i] == ci[i]);
                }
            }
        }
    }
}

/// The characters of `s` that are not whitespace, in order.
pub open spec fn non_white_space(s: Seq<char>) -> Seq<char> {
    s.filter(|c: char| !is_white_space(c))
}

/// Collapsing keeps every character that is not whitespace, in order.
pub proof fn law_collapse_keeps_other_characters(s: Seq<char>)
    ensures
        non_white_space(collapse_whitespace(s)) == non_white_space(s),
    decreases s.len(),
{
    reveal(Seq::filter);
    if s.len() > 0 {
        let init = s.drop_last();
        law_collapse_keeps_other_characters(init);
        let ci = collapse_whitespace(init);
        let c = collapse_whitespace(s);
        assert(is_white_space(' '));
        assert(s.filter(|c: char| !is_white_space(c)) == (if !is_white_space(s.last()) {
            init.filter(|c: char| !is_white_space(c)).push(s.last())
        } else {
            init.filter(|c: char| !is_white_space(c))
        }));
        if !is_white_space(s.last()) || !(init.len() > 0 && is_white_space(init.last())) {
            let x = c.last();
            assert(c.drop_last() =~= ci);
            assert(c.filter(|c: char| !is_white_space(c)) == (if !is_white_space(x) {
                ci.filter(|c: char| !is_white_space(c)).push(x)
            } else {
                ci.filter(|c: char| !is_white_space(c))
            }));
        }
    }
}

/// How long a run of whitespace is makes no difference: one more whitespace
/// character right after a whitespace character leaves the collapsed text as it was.
pub proof fn law_longer_whitespace_runs_collapse_alike(s: Seq<char>, i: int, w: char)
    requires
        0 <= i < s.len(),
        is_white_space(s[i]),
        is_white_space(w),
    ensures
        collapse_whitespace(s.insert(i + 1, w)) == collapse_whitespace(s),
    decreases s.len(),
{
    let y = s.insert(i + 1, w);
    if i == s.len() - 1 {
        assert(y.drop_last() =~= s);
        assert(y.last() == w);
    } else {
        let init = s.drop_last();
        law_longer_whitespace_runs_collapse_alike(init, i, w);
        assert(y.drop_last() =~= init.insert(i + 1, w));
        assert(y.last() == s.last());
        assert(y.drop_last().len() > 0 && init.len() > 0);
        if i + 1 == s.len() - 1 {
            assert(y.drop_last().last() == w);
            assert(init.last() == s[i]);
        } else {
            assert(y.drop_last().last() == init.last());
        }
    }
}

/// `s` without its leading and trailing whitespace.
pub open spec fn spec_trim(s: Seq<char>) -> Seq<char>
    decreases s.len(),
{
    if s.len() == 0 {
        s
    } else if is_unicode_whitespace(s[0]) {
        spec_trim(s.drop_first())
    } else if is_unicode_whitespace(s.last()) {
        spec_trim(s.drop_last())
    } else {
        s
    }
}

/// Trimming keeps a stretch of the text: `spec_trim(s)` is `s[lo..hi]` for the
/// returned bounds, and it neither starts nor ends with whitespace.
pub proof fn trim_range(s: Seq<char>) -> (r: (int, int))
    ensures
        0 <= r.0 <= r.1 <= s.len(),
        spec_trim(s) == s.subrange(r.0, r.1),
        spec_trim(s).len() > 0 ==> !is_unicode_whitespace(spec_trim(s)[0])
            && !is_unicode_whitespace(spec_trim(s).last()),
    decreases s.len(),
{
    if s.len() == 0 {
        assert(s.subrange(0, 0) =~= s);
        (0, 0)
    } else if is_unicode_whitespace(s[0]) {
        let (lo, hi) = trim_range(s.drop_first());
        assert(s.drop_first().subrange(lo, hi) =~= s.subrange(lo + 1, hi + 1));
        (lo + 1, hi + 1)
    } else if is_unicode_whitespace(s.last()) {
        let (lo, hi) = trim_range(s.drop_last());
        assert(s.drop_last().subrange(lo, hi) =~= s.subrange(lo, hi));
        (lo, hi)
    } else {
        assert(s.subrange(0, s.len() as int) =~= s);
        (0, s.len() as int)
    }
}

/// A stretch of single-spaced text is single-spaced.
pub proof fn lemma_single_spaced_subrange(s: Seq<char>, lo: int, hi: int)
    requires
        single_spaced(s),
        0 <= lo <= hi <= s.len(),
    ensures
        single_spaced(s.subrange(lo, hi)),
{
    let t = s.subrange(lo, hi);
    assert forall|i: int| 0 <= i < t.len() - 1 implies !(is_white_space(#[trigger] t[i]) && is_white_space(t[i + 1])) by {
        assert(t[i] == s[lo + i] && t[i + 1] == s[lo + i + 1]);
    }
    assert forall|i: int| 0 <= i < t.len() && is_white_space(#[trigger] t[i]) implies t[i] == ' ' by {
        assert(t[i] == s[lo + i]);
    }
}

/// The bounds `(lo, hi)` such that `v[lo..hi]` is `v` without leading and
/// trailing whitespace.
pub fn trim_bounds(v: &Vec<char>) -> (r: (usize, usize))
    ensures
        r.0 <= r.1 <= v@.len(),
        v@.subrange(r.0 as int, r.1 as int) == spec_trim(v@),
{
    let mut lo: usize = 0;
    let mut hi: usize = v.len();
    assert(v@.subrange(0, v@.len() as int) =~= v@);
    while lo < hi && is_whitespace(v[lo])
        invariant
            lo <= hi == v@.len(),
            spec_trim(v@.subrange(lo as int, hi as int)) == spec_trim(v@),
        decreases hi - lo,
    {
        assert(v@.subrange(lo as int, hi as int).drop_first() =~= v@.subrange(lo + 1, hi as int));
        lo = lo + 1;
    }
    while lo < hi && is_whitespace(v[hi - 1])
        invariant
            lo <= hi <= v@.len(),
            lo < hi ==> !is_unicode_whitespace(v@[lo as int]),
            spec_trim(v@.subrange(lo as int, hi as int)) == spec_trim(v@),
        decreases hi - lo,
    {
        assert(v@.subrange(lo as int, hi as int).drop_last() =~= v@.subrange(lo as int, hi - 1));
        hi = hi - 1;
    }
    (lo, hi)
}

/// `str::trim`: `s` without leading and trailing whitespace.
pub fn trim(s: &str) -> (r: String)
    ensures
        r@ == spec_trim(s@),
{
    let v = chars_of(s);
    let (lo, hi) = trim_bounds(&v);
    string_from(&v, lo, hi)
}


/// What `char::to_uppercase` yields for `c`.
pub uninterp spec fn char_uppercase(c: char) -> Seq<char>;

/// What `str::to_lowercase` returns for `s`.
pub uninterp spec fn str_lowercase(s: Seq<char>) -> Seq<char>;

/// What `str::to_uppercase` returns for `s`.
pub uninterp spec fn str_uppercase(s: Seq<char>) -> Seq<char>;

/// The ASCII upper-case letter for an ASCII lower-case letter; any other character unchanged.
pub open spec fn ascii_upper(c: char) -> char {
    if 'a' <= c && c <= 'z' { ((c as u32) - 32) as char } else { c }
}

/// The ASCII lower-case letter for an ASCII upper-case letter; any other character unchanged.
pub open spec fn ascii_lower(c: char) -> char {
    if 'A' <= c && c <= 'Z' { ((c as u32) + 32) as char } else { c }
}

pub open spec fn all_ascii(s: Seq<char>) -> bool {
    forall|i: int| 0 <= i < s.len() ==> (#[trigger] s[i] as u32) < 128
}

/// `char::to_uppercase`, collected into a string: the Unicode upper-case mapping
/// of `c`, which for an ASCII character is the one character `ascii_upper(c)`.
#[verifier::external_body]
pub fn uppercase_char(c: char) -> (r: String)
    ensures
        r@ == char_uppercase(c),
        (c as u32) < 128 ==> r@ == seq![ascii_upper(c)],
{
    c.to_uppercase().collect::<String>()
}

/// `str::to_lowercase`: the Unicode lower-case mapping of `s`, which for an
/// all-ASCII string lowers each ASCII letter and keeps every other character.
#[verifier::external_body]
pub fn lowercase(s: &str) -> (r: String)
    ensures
        r@ == str_lowercase(s@),
        all_ascii(s@) ==> r@ == s@.map_values(|c: char| ascii_lower(c)),
{
    s.to_lowercase()
}

/// `str::to_uppercase`: the Unicode upper-case mapping of `s`, which for an
/// all-ASCII string raises each ASCII letter and keeps every other character.
#[verifier::external_body]
pub fn uppercase(s: &str) -> (r: String)
    ensures
        r@ == str_uppercase(s@),
        all_ascii(s@) ==> r@ == s@.map_values(|c: char| ascii_upper(c)),
{
    s.to_uppercase()
}

/// The words of `s`: its maximal runs of non-whitespace characters, in order
/// (what `str::split_whitespace` yields).
pub open spec fn words(s: Seq<char>) -> Seq<Seq<char>>
    decreases s.len(),
{
    if s.len() == 0 {
        Seq::empty()
    } else {
        let init = s.drop_last();
        let c = s.last();
        let w = words(init);
        if is_unicode_whitespace(c) {
            w
        } else if init.len() == 0 || is_unicode_whitespace(init.last()) {
            w.push(seq![c])
        } else {
            w.update(w.len() - 1, w.last().push(c))
        }
    }
}

/// The words of `ws` joined by single spaces.
pub open spec fn join_words(ws: Seq<Seq<char>>) -> Seq<char>
    decreases ws.len(),
{
    if ws.len() == 0 {
        Seq::empty()
    } else if ws.len() == 1 {
        ws[0]
    } else {
        join_words(ws.drop_last()) + seq![' '] + ws.last()
    }
}

/// A word with its first character upper-cased and the rest lower-cased.
pub open spec fn title_word(w: Seq<char>) -> Seq<char> {
    if w.len() == 0 {
        Seq::empty()
    } else {
        char_uppercase(w[0]) + str_lowercase(w.drop_first())
    }
}

/// A word of ASCII text in title case: its first letter raised, the rest lowered.
pub open spec fn ascii_title_word(w: Seq<char>) -> Seq<char> {
    if w.len() == 0 {
        Seq::empty()
    } else {
        seq![ascii_upper(w[0])] + w.drop_first().map_values(|c: char| ascii_lower(c))
    }
}

/// Each word of `s` in title case, the words joined by single spaces.
pub open spec fn spec_title_case(s: Seq<char>) -> Seq<char> {
    join_words(words(s).map_values(|w: Seq<char>| title_word(w)))
}

proof fn lemma_words_nonempty(s: Seq<char>)
    requires
        s.len() > 0,
        !is_unicode_whitespace(s.last()),
    ensures
        words(s).len() > 0,
    decreases s.len(),
{
    let init = s.drop_last();
    if !(init.len() == 0 || is_unicode_whitespace(init.last())) {
        lemma_words_nonempty(init);
    }
}

proof fn lemma_join_push(ws: Seq<Seq<char>>, w: Seq<char>)
    ensures
        join_words(ws.push(w)) == (if ws.len() == 0 { w } else { join_words(ws) + seq![' '] + w }),
{
    assert(ws.push(w).drop_last() =~= ws);
}

/// `title_case` of one word `v[lo..hi]`, appended to `out`.
fn push_title_word(out: &mut String, v: &Vec<char>, lo: usize, hi: usize)
    requires
        lo < hi <= v@.len(),
    ensures
        final(out)@ == old(out)@ + title_word(v@.subrange(lo as int, hi as int)),
        all_ascii(v@.subrange(lo as int, hi as int))
            ==> title_word(v@.subrange(lo as int, hi as int)) == ascii_title_word(v@.subrange(lo as int, hi as int)),
{
    let ghost w = v@.subrange(lo as int, hi as int);
    let first = uppercase_char(v[lo]);
    let rest = string_from(v, lo + 1, hi);
    let lower = lowercase(rest.as_str());
    out.append(first.as_str());
    out.append(lower.as_str());
    assert(w.drop_first() =~= v@.subrange(lo + 1, hi as int));
    proof {
        if all_ascii(w) {
            assert(w[0] == v@[lo as int]);
            assert((w[0] as u32) < 128);
            assert forall|j: int| 0 <= j < rest@.len() implies (#[trigger] rest@[j] as u32) < 128 by {
                assert(rest@[j] == w[j + 1]);
            }
            assert(title_word(w) =~= ascii_title_word(w));
        }
    }
}

/// Title-cases every whitespace-separated word of `s` and joins them with single
/// spaces: `"hELLO wORLD"` becomes `"Hello World"`. On ASCII text each word
/// gets its first letter raised and the rest lowered.
pub fn title_case(s: &str) -> (r: String)
    ensures
        r@ == spec_title_case(s@),
        all_ascii(s@) ==> r@ == join_words(words(s@).map_values(|w: Seq<char>| ascii_title_word(w))),
{
    let v = chars_of(s);
    let n = v.len();
    let mut out = String::new();
    let mut in_word = false;
    let mut start: usize = 0;
    let mut flushed: usize = 0;
    let ghost f = |w: Seq<char>| title_word(w);
    let ghost g = |w: Seq<char>| ascii_title_word(w);
    let mut i: usize = 0;
    while i < n
        invariant
            n == v@.len(),
            i <= n,
            start <= i,
            in_word ==> flushed < i,
            flushed <= i,
            in_word ==> start < i && words(v@.take(i as int)).len() == flushed + 1
                && words(v@.take(i as int)).last() == v@.subrange(start as int, i as int)
                && !is_unicode_whitespace(v@[i - 1]),
            !in_word ==> words(v@.take(i as int)).len() == flushed
                && (i == 0 || is_unicode_whitespace(v@[i - 1])),
            out@ == join_words(words(v@.take(i as int)).take(flushed as int).map_values(f)),
            all_ascii(v@) ==> words(v@.take(i as int)).take(flushed as int).map_values(f)
                == words(v@.take(i as int)).take(flushed as int).map_values(g),
            f == (|w: Seq<char>| title_word(w)),
            g == (|w: Seq<char>| ascii_title_word(w)),
        decreases n - i,
    {
        let c = v[i];
        let ghost t = v@.take(i as int);
        assert(v@.take(i + 1).drop_last() =~= t);
        if is_whitespace(c) {
            if in_word {
                let ghost ws = words(t);
                proof {
                    lemma_join_push(ws.take(flushed as int).map_values(f), title_word(ws.last()));
                    assert(ws.take(flushed as int).map_values(f).push(title_word(ws.last()))
                        =~= ws.take(flushed + 1).map_values(f));
                    assert(ws.take(flushed as int).map_values(g).push(ascii_title_word(ws.last()))
                        =~= ws.take(flushed + 1).map_values(g));
                    assert(words(v@.take(i + 1)) == ws);
                }
                if flushed > 0 {
                    push_char(&mut out, ' ');
                }
                push_title_word(&mut out, &v, start, i);
                proof {
                    if all_ascii(v@) {
                        assert(all_ascii(v@.subrange(start as int, i as int)));
                    }
                }
                flushed = flushed + 1;
                in_word = false;
            }
        } else {
            if !in_word {
                start = i;
                in_word = true;
                proof {
                    let ws = words(t);
                    assert(words(v@.take(i + 1)) == ws.push(seq![c]));
                    assert(ws.push(seq![c]).take(flushed as int) =~= ws.take(flushed as int));
                    assert(v@.subrange(i as int, i + 1) =~= seq![c]);
                }
            } else {
                proof {
                    let ws = words(t);
                    assert(t.last() == v@[i - 1]);
                    assert(words(v@.take(i + 1)) == ws.update(ws.len() - 1, ws.last().push(c)));
                    assert(ws.update(ws.len() - 1, ws.last().push(c)).take(flushed as int)
                        =~= ws.take(flushed as int));
                    assert(v@.subrange(start as int, i + 1) =~= v@.subrange(start as int, i as int).push(c));
                }
            }
        }
        i = i + 1;
    }
    assert(v@.take(n as int) =~= v@);
    if in_word {
        let ghost ws = words(v@);
        proof {
            lemma_join_push(ws.take(flushed as int).map_values(f), title_word(ws.last()));
            assert(ws.take(flushed as int).map_values(f).push(title_word(ws.last()))
                =~= ws.map_values(f));
            assert(ws.take(flushed as int).map_values(g).push(ascii_title_word(ws.last()))
                =~= ws.map_values(g));
        }
        if flushed > 0 {
            push_char(&mut out, ' ');
        }
        push_title_word(&mut out, &v, start, n);
        proof {
            if all_ascii(v@) {
                assert(all_ascii(v@.subrange(start as int, n as int)));
            }
        }
    } else {
        assert(words(v@).take(flushed as int) =~= words(v@));
    }
    out
}

} // verus!
