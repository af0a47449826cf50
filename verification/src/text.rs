//! Character-level text operations with their meaning stated over `Seq<char>`.

use vstd::prelude::*;

verus! {

/// `String::push` appends one character.
pub assume_specification[ String::push ](s: &mut String, ch: char)
    ensures
        final(s)@ == old(s)@.push(ch),
;

/// The Unicode `White_Space` property, which `char::is_whitespace` implements.
pub open spec fn is_ws(c: char) -> bool {
    ||| ('\u{9}' <= c && c <= '\u{d}')
    ||| c == ' '
    ||| c == '\u{85}'
    ||| c == '\u{a0}'
    ||| c == '\u{1680}'
    ||| ('\u{2000}' <= c && c <= '\u{200a}')
    ||| c == '\u{2028}'
    ||| c == '\u{2029}'
    ||| c == '\u{202f}'
    ||| c == '\u{205f}'
    ||| c == '\u{3000}'
}

/// ASCII punctuation as `char::is_ascii_punctuation` defines it.
pub open spec fn is_ascii_punct(c: char) -> bool {
    ||| ('!' <= c && c <= '/')
    ||| (':' <= c && c <= '@')
    ||| ('[' <= c && c <= '`')
    ||| ('{' <= c && c <= '~')
}

/// ASCII hexadecimal digits as `char::is_ascii_hexdigit` defines them.
pub open spec fn is_hex_digit(c: char) -> bool {
    ||| ('0' <= c && c <= '9')
    ||| ('a' <= c && c <= 'f')
    ||| ('A' <= c && c <= 'F')
}

pub fn is_whitespace(c: char) -> (b: bool)
    ensures
        b == is_ws(c),
{
    ('\u{9}' <= c && c <= '\u{d}') || c == ' ' || c == '\u{85}' || c == '\u{a0}' || c
        == '\u{1680}' || ('\u{2000}' <= c && c <= '\u{200a}') || c == '\u{2028}' || c
        == '\u{2029}' || c == '\u{202f}' || c == '\u{205f}' || c == '\u{3000}'
}

pub fn is_ascii_punctuation(c: char) -> (b: bool)
    ensures
        b == is_ascii_punct(c),
{
    ('!' <= c && c <= '/') || (':' <= c && c <= '@') || ('[' <= c && c <= '`') || ('{' <= c
        && c <= '~')
}

/// `s` with leading whitespace removed.
pub open spec fn trim_start(s: Seq<char>) -> Seq<char>
    decreases s.len(),
{
    if s.len() > 0 && is_ws(s[0]) {
        trim_start(s.drop_first())
    } else {
        s
    }
}

/// `s` with trailing whitespace removed.
pub open spec fn trim_end(s: Seq<char>) -> Seq<char>
    decreases s.len(),
{
    if s.len() > 0 && is_ws(s.last()) {
        trim_end(s.drop_last())
    } else {
        s
    }
}

/// `str::trim`: `s` without leading and trailing whitespace.
pub open spec fn trim(s: Seq<char>) -> Seq<char> {
    trim_end(trim_start(s))
}

/// The longest prefix of `s` without whitespace.
pub open spec fn word_prefix(s: Seq<char>) -> Seq<char>
    decreases s.len(),
{
    if s.len() == 0 || is_ws(s[0]) {
        Seq::empty()
    } else {
        seq![s[0]] + word_prefix(s.drop_first())
    }
}

/// `str::split_whitespace`: the maximal runs of non-whitespace characters, in order.
pub open spec fn words(s: Seq<char>) -> Seq<Seq<char>>
    decreases s.len(),
{
    let t = trim_start(s);
    if t.len() == 0 {
        Seq::empty()
    } else {
        let w = word_prefix(t);
        proof {
            lemma_trim_start_is_suffix(s);
        }
        if 0 < w.len() <= t.len() {
            seq![w] + words(t.skip(w.len() as int))
        } else {
            Seq::empty()
        }
    }
}

/// The pieces of `parts` separated by `sep` (`join`).
pub open spec fn join(parts: Seq<Seq<char>>, sep: Seq<char>) -> Seq<char>
    decreases parts.len(),
{
    if parts.len() == 0 {
        Seq::empty()
    } else if parts.len() == 1 {
        parts[0]
    } else {
        parts[0] + sep + join(parts.drop_first(), sep)
    }
}

/// `pat` occurs in `s` at position `i`.
pub open spec fn occurs_at(s: Seq<char>, pat: Seq<char>, i: int) -> bool {
    0 <= i && i + pat.len() <= s.len() && s.subrange(i, i + pat.len()) == pat
}

/// `str::contains` with a string pattern.
pub open spec fn contains(s: Seq<char>, pat: Seq<char>) -> bool {
    exists|i: int| occurs_at(s, pat, i)
}

/// `str::replace` with a non-empty pattern: every leftmost, non-overlapping
/// occurrence of `from` is replaced by `to`.
pub open spec fn replace(s: Seq<char>, from: Seq<char>, to: Seq<char>) -> Seq<char>
    decreases s.len(),
{
    if from.len() == 0 || s.len() < from.len() {
        s
    } else if s.take(from.len() as int) == from {
        to + replace(s.skip(from.len() as int), from, to)
    } else {
        seq![s[0]] + replace(s.drop_first(), from, to)
    }
}

/// Number of occurrences of `c` in `s`.
pub open spec fn count_char(s: Seq<char>, c: char) -> nat
    decreases s.len(),
{
    if s.len() == 0 {
        0
    } else {
        count_char(s.drop_last(), c) + if s.last() == c {
            1nat
        } else {
            0nat
        }
    }
}

/// Number of characters of `s` that are neither whitespace nor ASCII punctuation.
pub open spec fn count_voiced(s: Seq<char>) -> nat
    decreases s.len(),
{
    if s.len() == 0 {
        0
    } else {
        count_voiced(s.drop_last()) + if !is_ws(s.last()) && !is_ascii_punct(s.last()) {
            1nat
        } else {
            0nat
        }
    }
}

/// The characters of `s`, in order.
pub fn chars_of(s: &str) -> (out: Vec<char>)
    ensures
        out@ == s@,
{
    broadcast use vstd::string::group_string_axioms;

    let mut out: Vec<char> = Vec::new();
    for c in it: s.chars()
        invariant
            it.seq() == s@,
            out@ == it.seq().take(it.index() as int),
    {
        out.push(c);
    }
    assert(out@ == s@.take(s@.len() as int));
    out
}

/// A `String` holding the characters of `v`.
pub fn string_of(v: &Vec<char>) -> (out: String)
    ensures
        out@ == v@,
{
    let mut out = String::new();
    let mut i: usize = 0;
    while i < v.len()
        invariant
            i <= v.len(),
            out@ == v@.take(i as int),
        decreases v.len() - i,
    {
        out.push(v[i]);
        i += 1;
        assert(out@ == v@.take(i as int));
    }
    assert(v@.take(v.len() as int) == v@);
    out
}

/// Appends the characters of `from` to `out`.
pub fn push_all(out: &mut Vec<char>, from: &Vec<char>)
    ensures
        final(out)@ == old(out)@ + from@,
{
    let mut i: usize = 0;
    while i < from.len()
        invariant
            i <= from.len(),
            out@ == old(out)@ + from@.take(i as int),
        decreases from.len() - i,
    {
        out.push(from[i]);
        i += 1;
        assert(out@ == old(out)@ + from@.take(i as int));
    }
    assert(from@.take(from.len() as int) == from@);
}

pub proof fn lemma_trim_start_is_suffix(s: Seq<char>)
    ensures
        trim_start(s).len() <= s.len(),
        trim_start(s) == s.skip(s.len() - trim_start(s).len()),
        trim_start(s).len() > 0 ==> !is_ws(trim_start(s)[0]),
        forall|k: int| 0 <= k < s.len() - trim_start(s).len() ==> is_ws(#[trigger] s[k]),
    decreases s.len(),
{
    if s.len() > 0 && is_ws(s[0]) {
        lemma_trim_start_is_suffix(s.drop_first());
        assert(s.drop_first().skip(s.drop_first().len() - trim_start(s.drop_first()).len())
            == s.skip(s.len() - trim_start(s).len()));
        assert forall|k: int| 0 <= k < s.len() - trim_start(s).len() implies is_ws(
            #[trigger] s[k],
        ) by {
            if k > 0 {
                assert(s[k] == s.drop_first()[k - 1]);
            }
        }
    } else {
        assert(s.skip(0) == s);
    }
}

pub proof fn lemma_trim_end_is_prefix(s: Seq<char>)
    ensures
        trim_end(s).len() <= s.len(),
        trim_end(s) == s.take(trim_end(s).len() as int),
        trim_end(s).len() > 0 ==> !is_ws(trim_end(s).last()),
        forall|k: int| trim_end(s).len() <= k < s.len() ==> is_ws(#[trigger] s[k]),
    decreases s.len(),
{
    if s.len() > 0 && is_ws(s.last()) {
        lemma_trim_end_is_prefix(s.drop_last());
        assert(s.drop_last().take(trim_end(s.drop_last()).len() as int) == s.take(
            trim_end(s).len() as int,
        ));
        assert forall|k: int| trim_end(s).len() <= k < s.len() implies is_ws(#[trigger] s[k]) by {
            if k < s.len() - 1 {
                assert(s[k] == s.drop_last()[k]);
            }
        }
    } else {
        assert(s.take(s.len() as int) == s);
    }
}

/// Replacing a pattern that does not occur leaves the text as it is.
pub proof fn lemma_replace_absent(s: Seq<char>, from: Seq<char>, to: Seq<char>)
    requires
        !contains(s, from),
    ensures
        replace(s, from, to) == s,
    decreases s.len(),
{
    if from.len() == 0 || s.len() < from.len() {
    } else {
        let n = from.len() as int;
        if s.take(n) == from {
            assert(s.subrange(0, n) == s.take(n));
            assert(occurs_at(s, from, 0));
        }
        let rest = s.drop_first();
        if contains(rest, from) {
            let i = choose|i: int| occurs_at(rest, from, i);
            assert(rest.subrange(i, i + n) == s.subrange(i + 1, i + 1 + n));
            assert(occurs_at(s, from, i + 1));
        }
        lemma_replace_absent(rest, from, to);
        assert(s == seq![s[0]] + rest);
    }
}

/// Replacing with text that starts with a non-whitespace character keeps a
/// non-whitespace first character.
pub proof fn lemma_replace_first_visible(s: Seq<char>, from: Seq<char>, to: Seq<char>)
    requires
        to.len() > 0,
        !is_ws(to[0]),
        s.len() > 0 ==> !is_ws(s[0]),
    ensures
        replace(s, from, to).len() > 0 ==> !is_ws(replace(s, from, to)[0]),
{
}

/// Replacing with non-empty text that ends with a non-whitespace character
/// keeps a non-whitespace last character.
pub proof fn lemma_replace_last_visible(s: Seq<char>, from: Seq<char>, to: Seq<char>)
    requires
        to.len() > 0,
        !is_ws(to.last()),
        s.len() > 0 ==> !is_ws(s.last()),
    ensures
        replace(s, from, to).len() > 0 ==> !is_ws(replace(s, from, to).last()),
    decreases s.len(),
{
    if from.len() == 0 || s.len() < from.len() {
    } else if s.take(from.len() as int) == from {
        let rest = s.skip(from.len() as int);
        lemma_replace_last_visible(rest, from, to);
        if rest.len() > 0 {
            assert(rest.last() == s.last());
        }
    } else {
        let rest = s.drop_first();
        lemma_replace_last_visible(rest, from, to);
        if rest.len() > 0 {
            assert(rest.last() == s.last());
        }
    }
}

/// Text whose ends are not whitespace is its own trim.
pub proof fn lemma_trim_visible_ends(s: Seq<char>)
    requires
        s.len() > 0 ==> !is_ws(s[0]) && !is_ws(s.last()),
    ensures
        trim(s) == s,
{
}

/// The trim of any text has no whitespace at either end.
pub proof fn lemma_trim_ends(s: Seq<char>)
    ensures
        trim(s).len() > 0 ==> !is_ws(trim(s)[0]) && !is_ws(trim(s).last()),
{
    lemma_trim_start_is_suffix(s);
    lemma_trim_end_is_prefix(trim_start(s));
    let t = trim(s);
    if t.len() > 0 {
        assert(t[0] == trim_start(s)[0]);
    }
}

/// Index of the first non-whitespace character of `v` at or after `from`, or `v.len()`.
fn skip_whitespace(v: &Vec<char>, from: usize) -> (i: usize)
    requires
        from <= v.len(),
    ensures
        from <= i <= v.len(),
        trim_start(v@.skip(from as int)) == v@.skip(i as int),
{
    let mut i = from;
    while i < v.len() && is_whitespace(v[i])
        invariant
            from <= i <= v.len(),
            trim_start(v@.skip(from as int)) == trim_start(v@.skip(i as int)),
        decreases v.len() - i,
    {
        assert(v@.skip(i as int).drop_first() == v@.skip(i + 1));
        i += 1;
    }
    assert(i < v.len() ==> v@.skip(i as int)[0] == v@[i as int]);
    i
}

/// `str::trim` over characters: the index range `[start, end)` of the trimmed text.
pub fn trim_bounds(v: &Vec<char>) -> (r: (usize, usize))
    ensures
        r.0 <= r.1 <= v.len(),
        v@.subrange(r.0 as int, r.1 as int) == trim(v@),
{
    let start = skip_whitespace(v, 0);
    let mut end = v.len();
    assert(v@.skip(0) == v@);
    assert(v@.skip(start as int) == v@.subrange(start as int, end as int));
    while end > start && is_whitespace(v[end - 1])
        invariant
            start <= end <= v.len(),
            trim(v@) == trim_end(v@.subrange(start as int, end as int)),
        decreases end,
    {
        assert(v@.subrange(start as int, end as int).drop_last() == v@.subrange(
            start as int,
            end - 1,
        ));
        end -= 1;
    }
    (start, end)
}

/// `str::trim`.
pub fn trim_chars(v: &Vec<char>) -> (out: Vec<char>)
    ensures
        out@ == trim(v@),
{
    let (start, end) = trim_bounds(v);
    let mut out: Vec<char> = Vec::new();
    let mut i = start;
    while i < end
        invariant
            start <= i <= end <= v.len(),
            out@ == v@.subrange(start as int, i as int),
        decreases end - i,
    {
        out.push(v[i]);
        i += 1;
        assert(out@ == v@.subrange(start as int, i as int));
    }
    out
}

/// Whether `pat` occurs in `v` at position `i`.
pub fn matches_at(v: &Vec<char>, pat: &Vec<char>, i: usize) -> (b: bool)
    ensures
        b == occurs_at(v@, pat@, i as int),
{
    if i > v.len() || pat.len() > v.len() - i {
        return false;
    }
    let mut k: usize = 0;
    while k < pat.len()
        invariant
            i + pat.len() <= v.len(),
            k <= pat.len(),
            forall|j: int| 0 <= j < k ==> v@[i + j] == pat@[j],
        decreases pat.len() - k,
    {
        if v[i + k] != pat[k] {
            assert(v@.subrange(i as int, i + pat.len())[k as int] != pat@[k as int]);
            return false;
        }
        k += 1;
    }
    assert(v@.subrange(i as int, i + pat.len()) == pat@);
    true
}

/// `str::contains`.
pub fn contains_chars(v: &Vec<char>, pat: &Vec<char>) -> (b: bool)
    ensures
        b == contains(v@, pat@),
{
    let mut i: usize = 0;
    while i < v.len()
        invariant
            i <= v.len(),
            forall|j: int| 0 <= j < i ==> !occurs_at(v@, pat@, j),
        decreases v.len() - i,
    {
        if matches_at(v, pat, i) {
            return true;
        }
        i += 1;
    }
    if matches_at(v, pat, i) {
        return true;
    }
    assert forall|j: int| !occurs_at(v@, pat@, j) by {
        if 0 <= j <= i {
        }
    }
    false
}

/// `str::replace` with a non-empty pattern.
#[verifier::rlimit(30)]
pub fn replace_chars(v: &Vec<char>, from: &Vec<char>, to: &Vec<char>) -> (out: Vec<char>)
    requires
        from.len() > 0,
    ensures
        out@ == replace(v@, from@, to@),
{
    let mut out: Vec<char> = Vec::new();
    let mut i: usize = 0;
    assert(v@.skip(0) == v@);
    while i < v.len()
        invariant
            from@.len() > 0,
            i <= v.len(),
            out@ + replace(v@.skip(i as int), from@, to@) == replace(v@, from@, to@),
        decreases v.len() - i,
    {
        let ghost rest = v@.skip(i as int);
        if matches_at(v, from, i) {
            assert(rest.take(from@.len() as int) == v@.subrange(i as int, i + from@.len()));
            assert(rest.skip(from@.len() as int) == v@.skip(i + from@.len()));
            push_all(&mut out, to);
            i += from.len();
        } else {
            proof {
                if rest.len() >= from@.len() {
                    assert(rest.take(from@.len() as int) == v@.subrange(i as int, i + from@.len()));
                } else {
                    assert(replace(rest, from@, to@) == rest);
                    assert(rest == seq![rest[0]] + rest.drop_first());
                    assert(replace(rest.drop_first(), from@, to@) == rest.drop_first());
                }
            }
            assert(rest.drop_first() == v@.skip(i + 1));
            out.push(v[i]);
            i += 1;
            assert(out@ + replace(v@.skip(i as int), from@, to@) == replace(v@, from@, to@));
        }
    }
    assert(v@.skip(i as int).len() == 0);
    out
}

/// Number of occurrences of `c` in `v`.
pub fn count_char_in(v: &Vec<char>, c: char) -> (n: usize)
    ensures
        n == count_char(v@, c),
{
    let mut n: usize = 0;
    let mut i: usize = 0;
    while i < v.len()
        invariant
            i <= v.len(),
            n == count_char(v@.take(i as int), c),
            n <= i,
        decreases v.len() - i,
    {
        assert(v@.take(i + 1).drop_last() == v@.take(i as int));
        if v[i] == c {
            n += 1;
        }
        i += 1;
    }
    assert(v@.take(v.len() as int) == v@);
    n
}

/// Number of characters of `v` that are neither whitespace nor ASCII punctuation.
pub fn count_voiced_in(v: &Vec<char>) -> (n: usize)
    ensures
        n == count_voiced(v@),
{
    let mut n: usize = 0;
    let mut i: usize = 0;
    while i < v.len()
        invariant
            i <= v.len(),
            n == count_voiced(v@.take(i as int)),
            n <= i,
        decreases v.len() - i,
    {
        assert(v@.take(i + 1).drop_last() == v@.take(i as int));
        if !is_whitespace(v[i]) && !is_ascii_punctuation(v[i]) {
            n += 1;
        }
        i += 1;
    }
    assert(v@.take(v.len() as int) == v@);
    n
}

/// Index of the first `\n` of `s`, or its length when there is none.
pub open spec fn newline_index(s: Seq<char>) -> int
    decreases s.len(),
{
    if s.len() == 0 || s[0] == '\n' {
        0
    } else {
        1 + newline_index(s.drop_first())
    }
}

/// `l` without one trailing carriage return.
pub open spec fn strip_cr(l: Seq<char>) -> Seq<char> {
    if l.len() > 0 && l.last() == '\r' {
        l.drop_last()
    } else {
        l
    }
}

/// `str::lines`: the text cut at each `\n`, a `\r` before the `\n` dropped, with
/// no empty line after a final `\n`.
pub open spec fn lines(s: Seq<char>) -> Seq<Seq<char>>
    decreases s.len(),
{
    if s.len() == 0 {
        Seq::empty()
    } else {
        let k = newline_index(s);
        if 0 <= k < s.len() {
            seq![strip_cr(s.take(k))] + lines(s.skip(k + 1))
        } else {
            seq![s]
        }
    }
}

proof fn lemma_newline_index(s: Seq<char>)
    ensures
        0 <= newline_index(s) <= s.len(),
        newline_index(s) < s.len() ==> s[newline_index(s)] == '\n',
        forall|j: int| 0 <= j < newline_index(s) ==> #[trigger] s[j] != '\n',
    decreases s.len(),
{
    if s.len() > 0 && s[0] != '\n' {
        lemma_newline_index(s.drop_first());
        assert forall|j: int| 0 <= j < newline_index(s) implies #[trigger] s[j] != '\n' by {
            if j > 0 {
                assert(s[j] == s.drop_first()[j - 1]);
            }
        }
    }
}

/// `str::lines`, collected.
#[verifier::rlimit(30)]
pub fn split_lines(v: &Vec<char>) -> (out: Vec<Vec<char>>)
    ensures
        out@.map_values(|x: Vec<char>| x@) == lines(v@),
{
    let mut out: Vec<Vec<char>> = Vec::new();
    let mut i: usize = 0;
    assert(v@.skip(0) == v@);
    assert(out@.map_values(|x: Vec<char>| x@) + lines(v@) == lines(v@));
    while i < v.len()
        invariant
            i <= v.len(),
            out@.map_values(|x: Vec<char>| x@) + lines(v@.skip(i as int)) == lines(v@),
        decreases v.len() - i,
    {
        let ghost rest = v@.skip(i as int);
        let ghost before = out@.map_values(|x: Vec<char>| x@);
        let mut j = i;
        while j < v.len() && v[j] != '\n'
            invariant
                i <= j <= v.len(),
                rest == v@.skip(i as int),
                forall|p: int| i <= p < j ==> v@[p] != '\n',
            decreases v.len() - j,
        {
            j += 1;
        }
        proof {
            lemma_newline_index(rest);
            let k = newline_index(rest);
            if k < j - i {
                assert(rest[k] == v@[i + k]);
            }
            if j < v.len() {
                assert(rest[j - i] == v@[j as int]);
                if j - i < k {
                    assert(rest[j - i] != '\n');
                }
            }
            assert(k == j - i);
        }
        let mut end = j;
        if j < v.len() && end > i && v[end - 1] == '\r' {
            end -= 1;
        }
        let mut line: Vec<char> = Vec::new();
        let mut p = i;
        while p < end
            invariant
                i <= p <= end <= v.len(),
                line@ == v@.subrange(i as int, p as int),
            decreases end - p,
        {
            line.push(v[p]);
            p += 1;
            assert(line@ == v@.subrange(i as int, p as int));
        }
        out.push(line);
        assert(out@.map_values(|x: Vec<char>| x@) == before.push(line@));
        if j < v.len() {
            assert(rest.take(j - i) == v@.subrange(i as int, j as int));
            assert(strip_cr(rest.take(j - i)) == line@);
            assert(rest.skip(j - i + 1) == v@.skip(j + 1));
            assert(lines(rest) == seq![line@] + lines(v@.skip(j + 1)));
            i = j + 1;
        } else {
            assert(line@ == rest);
            assert(lines(rest) == seq![line@]);
            assert(v@.skip(j as int).len() == 0);
            assert(lines(v@.skip(j as int)) == Seq::<Seq<char>>::empty());
            i = j;
        }
    }
    assert(v@.skip(i as int).len() == 0);
    assert(lines(v@.skip(i as int)) == Seq::<Seq<char>>::empty());
    out
}

/// Whether two strings hold the same characters.
pub fn same_text(a: &str, b: &str) -> (r: bool)
    ensures
        r == (a@ == b@),
{
    let x = chars_of(a);
    let y = chars_of(b);
    if x.len() != y.len() {
        return false;
    }
    let mut i: usize = 0;
    while i < x.len()
        invariant
            x@ == a@,
            y@ == b@,
            x.len() == y.len(),
            i <= x.len(),
            forall|j: int| 0 <= j < i ==> x@[j] == y@[j],
        decreases x.len() - i,
    {
        if x[i] != y[i] {
            return false;
        }
        i += 1;
    }
    assert(x@ == y@);
    true
}

/// Whether two character vectors are equal.
pub fn chars_eq(x: &Vec<char>, y: &Vec<char>) -> (r: bool)
    ensures
        r == (x@ == y@),
{
    if x.len() != y.len() {
        return false;
    }
    let mut i: usize = 0;
    while i < x.len()
        invariant
            x.len() == y.len(),
            i <= x.len(),
            forall|j: int| 0 <= j < i ==> x@[j] == y@[j],
        decreases x.len() - i,
    {
        if x[i] != y[i] {
            return false;
        }
        i += 1;
    }
    assert(x@ == y@);
    true
}

/// `str::trim`, as a new `String`.
pub fn trim_text(s: &str) -> (out: String)
    ensures
        out@ == trim(s@),
{
    let chars = chars_of(s);
    let t = trim_chars(&chars);
    string_of(&t)
}

} // verus!
