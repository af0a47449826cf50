//! Splitting text into speech segments of at most two sentences and
//! `MAX_SEGMENT_CHARS` characters.

use vstd::prelude::*;
use crate::text::{chars_of, lemma_trim_end_is_prefix, push_all, string_of, trim_chars, trim_end, is_whitespace, is_ws, join, lemma_trim_start_is_suffix, trim, trim_start, word_prefix, words};

verus! {

/// The most characters a speech segment holds.
pub const MAX_SEGMENT_CHARS: usize = 220;

/// The characters that end a sentence.
pub open spec fn is_sentence_end(c: char) -> bool {
    c == '.' || c == '?' || c == '!' || c == '。' || c == '？' || c == '！' || c == '\n'
}

/// The views of a sequence of character vectors.
pub open spec fn views(v: Seq<Vec<char>>) -> Seq<Seq<char>> {
    v.map_values(|x: Vec<char>| x@)
}

/// The words of `text` joined by single spaces.
pub open spec fn normalize_spaces(text: Seq<char>) -> Seq<char> {
    join(words(text), seq![' '])
}

/// `w` cut into consecutive pieces of `MAX_SEGMENT_CHARS` characters; the last
/// piece holds the rest.
pub open spec fn chunks(w: Seq<char>) -> Seq<Seq<char>>
    decreases w.len(),
{
    if w.len() == 0 {
        Seq::empty()
    } else if w.len() <= MAX_SEGMENT_CHARS {
        seq![w]
    } else {
        seq![w.take(MAX_SEGMENT_CHARS as int)] + chunks(w.skip(MAX_SEGMENT_CHARS as int))
    }
}

/// `current` as a one-element list when it is non-empty.
pub open spec fn flush(current: Seq<char>) -> Seq<Seq<char>> {
    if current.len() > 0 {
        seq![current]
    } else {
        Seq::empty()
    }
}

/// Greedy packing of the words of an over-long sentence into pieces that fit
/// `MAX_SEGMENT_CHARS`, with `current` the piece being filled; an over-long
/// word is cut with `chunks`.
pub open spec fn pack_words(ws: Seq<Seq<char>>, current: Seq<char>) -> Seq<Seq<char>>
    decreases ws.len(),
{
    if ws.len() == 0 {
        flush(current)
    } else {
        let w = ws[0];
        let rest = ws.drop_first();
        if w.len() > MAX_SEGMENT_CHARS {
            flush(current) + chunks(w) + pack_words(rest, Seq::empty())
        } else if current.len() > 0 && current.len() + w.len() + 1 > MAX_SEGMENT_CHARS {
            seq![current] + pack_words(rest, w)
        } else if current.len() > 0 {
            pack_words(rest, current + seq![' '] + w)
        } else {
            pack_words(rest, w)
        }
    }
}

/// The pieces that one (trimmed) sentence contributes.
pub open spec fn sentence_pieces(s: Seq<char>) -> Seq<Seq<char>> {
    if s.len() == 0 {
        Seq::empty()
    } else if s.len() <= MAX_SEGMENT_CHARS {
        seq![s]
    } else {
        pack_words(words(s), Seq::empty())
    }
}

/// The sentence pieces of `chars`, where `current` holds the characters read
/// since the last sentence end.
pub open spec fn sentences_from(chars: Seq<char>, current: Seq<char>) -> Seq<Seq<char>>
    decreases chars.len(),
{
    if chars.len() == 0 {
        sentence_pieces(trim(current))
    } else {
        let cur = current.push(chars[0]);
        if is_sentence_end(chars[0]) {
            sentence_pieces(trim(cur)) + sentences_from(chars.drop_first(), Seq::empty())
        } else {
            sentences_from(chars.drop_first(), cur)
        }
    }
}

/// Packing of sentence pieces into segments: a segment takes a further piece
/// while it holds fewer than two and the result fits `MAX_SEGMENT_CHARS`.
pub open spec fn pack_sentences(ss: Seq<Seq<char>>, buffer: Seq<char>, count: nat) -> Seq<
    Seq<char>,
>
    decreases ss.len(),
{
    if ss.len() == 0 {
        flush(buffer)
    } else {
        let s = ss[0];
        let rest = ss.drop_first();
        if buffer.len() > 0 && (count >= 2 || buffer.len() + s.len() + 1 > MAX_SEGMENT_CHARS) {
            seq![buffer] + pack_sentences(rest, s, 1)
        } else if buffer.len() > 0 {
            pack_sentences(rest, buffer + seq![' '] + s, count + 1)
        } else {
            pack_sentences(rest, s, count + 1)
        }
    }
}

/// The speech segments of `text`.
pub open spec fn spec_split_text(text: Seq<char>) -> Seq<Seq<char>> {
    pack_sentences(sentences_from(normalize_spaces(text), Seq::empty()), Seq::empty(), 0)
}

/// Every piece has between 1 and `MAX_SEGMENT_CHARS` characters.
pub open spec fn all_fit(ps: Seq<Seq<char>>) -> bool {
    forall|i: int| 0 <= i < ps.len() ==> 0 < #[trigger] ps[i].len() <= MAX_SEGMENT_CHARS
}

/// Every element is non-empty.
pub open spec fn all_nonempty(ps: Seq<Seq<char>>) -> bool {
    forall|i: int| 0 <= i < ps.len() ==> #[trigger] ps[i].len() > 0
}

proof fn lemma_all_fit_concat(a: Seq<Seq<char>>, b: Seq<Seq<char>>)
    requires
        all_fit(a),
        all_fit(b),
    ensures
        all_fit(a + b),
{
    assert forall|i: int| 0 <= i < (a + b).len() implies 0 < #[trigger] (a + b)[i].len()
        <= MAX_SEGMENT_CHARS by {
        if i < a.len() {
            assert((a + b)[i] == a[i]);
        } else {
            assert((a + b)[i] == b[i - a.len()]);
        }
    }
}

proof fn lemma_chunks_fit(w: Seq<char>)
    ensures
        all_fit(chunks(w)),
    decreases w.len(),
{
    if w.len() > MAX_SEGMENT_CHARS {
        lemma_chunks_fit(w.skip(MAX_SEGMENT_CHARS as int));
        lemma_all_fit_concat(
            seq![w.take(MAX_SEGMENT_CHARS as int)],
            chunks(w.skip(MAX_SEGMENT_CHARS as int)),
        );
    }
}

proof fn lemma_words_nonempty(s: Seq<char>)
    ensures
        all_nonempty(words(s)),
    decreases s.len(),
{
    let t = trim_start(s);
    lemma_trim_start_is_suffix(s);
    if t.len() > 0 {
        let w = word_prefix(t);
        if 0 < w.len() <= t.len() {
            lemma_words_nonempty(t.skip(w.len() as int));
            let r = words(t.skip(w.len() as int));
            assert forall|i: int| 0 <= i < words(s).len() implies #[trigger] words(s)[i].len()
                > 0 by {
                if i > 0 {
                    assert(words(s)[i] == r[i - 1]);
                }
            }
        }
    }
}

proof fn lemma_pack_words_fit(ws: Seq<Seq<char>>, current: Seq<char>)
    requires
        current.len() <= MAX_SEGMENT_CHARS,
        all_nonempty(ws),
    ensures
        all_fit(pack_words(ws, current)),
    decreases ws.len(),
{
    if ws.len() > 0 {
        let w = ws[0];
        let rest = ws.drop_first();
        assert(all_nonempty(rest)) by {
            assert forall|i: int| 0 <= i < rest.len() implies #[trigger] rest[i].len() > 0 by {
                assert(rest[i] == ws[i + 1]);
            }
        }
        if w.len() > MAX_SEGMENT_CHARS {
            lemma_chunks_fit(w);
            lemma_pack_words_fit(rest, Seq::empty());
            lemma_all_fit_concat(flush(current), chunks(w));
            lemma_all_fit_concat(flush(current) + chunks(w), pack_words(rest, Seq::empty()));
        } else if current.len() > 0 && current.len() + w.len() + 1 > MAX_SEGMENT_CHARS {
            lemma_pack_words_fit(rest, w);
            lemma_all_fit_concat(seq![current], pack_words(rest, w));
        } else if current.len() > 0 {
            lemma_pack_words_fit(rest, current + seq![' '] + w);
        } else {
            lemma_pack_words_fit(rest, w);
        }
    }
}

proof fn lemma_sentence_pieces_fit(s: Seq<char>)
    ensures
        all_fit(sentence_pieces(s)),
{
    if s.len() > MAX_SEGMENT_CHARS {
        lemma_words_nonempty(s);
        lemma_pack_words_fit(words(s), Seq::empty());
    }
}

proof fn lemma_sentences_fit(chars: Seq<char>, current: Seq<char>)
    ensures
        all_fit(sentences_from(chars, current)),
    decreases chars.len(),
{
    if chars.len() == 0 {
        lemma_sentence_pieces_fit(trim(current));
    } else {
        let cur = current.push(chars[0]);
        if is_sentence_end(chars[0]) {
            lemma_sentence_pieces_fit(trim(cur));
            lemma_sentences_fit(chars.drop_first(), Seq::empty());
            lemma_all_fit_concat(
                sentence_pieces(trim(cur)),
                sentences_from(chars.drop_first(), Seq::empty()),
            );
        } else {
            lemma_sentences_fit(chars.drop_first(), cur);
        }
    }
}

proof fn lemma_pack_sentences_fit(ss: Seq<Seq<char>>, buffer: Seq<char>, count: nat)
    requires
        buffer.len() <= MAX_SEGMENT_CHARS,
        all_fit(ss),
    ensures
        all_fit(pack_sentences(ss, buffer, count)),
    decreases ss.len(),
{
    if ss.len() > 0 {
        let s = ss[0];
        let rest = ss.drop_first();
        assert(all_fit(rest)) by {
            assert forall|i: int| 0 <= i < rest.len() implies 0 < #[trigger] rest[i].len()
                <= MAX_SEGMENT_CHARS by {
                assert(rest[i] == ss[i + 1]);
            }
        }
        assert(0 < s.len() <= MAX_SEGMENT_CHARS);
        if buffer.len() > 0 && (count >= 2 || buffer.len() + s.len() + 1 > MAX_SEGMENT_CHARS) {
            lemma_pack_sentences_fit(rest, s, 1);
            lemma_all_fit_concat(seq![buffer], pack_sentences(rest, s, 1));
        } else if buffer.len() > 0 {
            lemma_pack_sentences_fit(rest, buffer + seq![' '] + s, count + 1);
        } else {
            lemma_pack_sentences_fit(rest, s, count + 1);
        }
    }
}

/// Law: every segment of `split_text` is non-empty and holds at most
/// `MAX_SEGMENT_CHARS` characters.
pub proof fn law_segments_fit(text: Seq<char>)
    ensures
        all_fit(spec_split_text(text)),
{
    lemma_sentences_fit(normalize_spaces(text), Seq::empty());
    lemma_pack_sentences_fit(sentences_from(normalize_spaces(text), Seq::empty()), Seq::empty(), 0);
}

/// Whether `ch` ends a sentence.
pub fn is_sentence_boundary(ch: char) -> (b: bool)
    ensures
        b == is_sentence_end(ch),
{
    ch == '.' || ch == '?' || ch == '!' || ch == '。' || ch == '？' || ch == '！' || ch == '\n'
}

/// The number of characters of `text`.
pub fn char_count(text: &str) -> (n: usize)
    ensures
        n == text@.len(),
{
    chars_of(text).len()
}

/// Index of the end of the word that starts at `from`.
fn word_end(v: &Vec<char>, from: usize) -> (j: usize)
    requires
        from <= v.len(),
    ensures
        from <= j <= v.len(),
        word_prefix(v@.skip(from as int)) == v@.subrange(from as int, j as int),
{
    let mut j = from;
    while j < v.len() && !is_whitespace(v[j])
        invariant
            from <= j <= v.len(),
            word_prefix(v@.skip(from as int)) == v@.subrange(from as int, j as int)
                + word_prefix(v@.skip(j as int)),
        decreases v.len() - j,
    {
        assert(v@.skip(j as int)[0] == v@[j as int]);
        assert(v@.skip(j as int).drop_first() == v@.skip(j + 1));
        assert(v@.subrange(from as int, j + 1) == v@.subrange(from as int, j as int) + seq![
            v@[j as int],
        ]);
        j += 1;
    }
    if j < v.len() {
        assert(v@.skip(j as int)[0] == v@[j as int]);
    }
    j
}

/// `str::split_whitespace`, collected.
#[verifier::rlimit(30)]
pub fn split_words(v: &Vec<char>) -> (out: Vec<Vec<char>>)
    ensures
        views(out@) == words(v@),
{
    let mut out: Vec<Vec<char>> = Vec::new();
    let mut i: usize = 0;
    assert(v@.skip(0) == v@);
    while i < v.len()
        invariant
            i <= v.len(),
            views(out@) + words(v@.skip(i as int)) == words(v@),
        decreases v.len() - i,
    {
        let k = skip_ws_from(v, i);
        if k == v.len() {
            assert(trim_start(v@.skip(i as int)).len() == 0);
            i = k;
        } else {
            let j = word_end(v, k);
            let ghost t = v@.skip(k as int);
            assert(t[0] == v@[k as int]);
            assert(word_prefix(t).len() > 0);
            assert(t.skip(j - k) == v@.skip(j as int));
            let mut w: Vec<char> = Vec::new();
            let mut p = k;
            while p < j
                invariant
                    k <= p <= j <= v.len(),
                    w@ == v@.subrange(k as int, p as int),
                decreases j - p,
            {
                w.push(v[p]);
                p += 1;
                assert(w@ == v@.subrange(k as int, p as int));
            }
            let ghost before = views(out@);
            out.push(w);
            assert(views(out@) == before.push(w@));
            assert(words(v@.skip(i as int)) == seq![w@] + words(v@.skip(j as int)));
            assert(views(out@) + words(v@.skip(j as int)) == before + words(v@.skip(i as int)));
            i = j;
        }
    }
    assert(v@.skip(i as int).len() == 0);
    assert(words(v@.skip(i as int)) == Seq::<Seq<char>>::empty());
    assert(views(out@) + Seq::<Seq<char>>::empty() == views(out@));
    out
}

fn skip_ws_from(v: &Vec<char>, from: usize) -> (i: usize)
    requires
        from <= v.len(),
    ensures
        from <= i <= v.len(),
        trim_start(v@.skip(from as int)) == v@.skip(i as int),
        i < v.len() ==> !is_ws(v@[i as int]),
{
    let mut i = from;
    while i < v.len() && is_whitespace(v[i])
        invariant
            from <= i <= v.len(),
            trim_start(v@.skip(from as int)) == trim_start(v@.skip(i as int)),
        decreases v.len() - i,
    {
        assert(v@.skip(i as int).drop_first() == v@.skip(i + 1));
        i += 1;
    }
    if i < v.len() {
        assert(v@.skip(i as int)[0] == v@[i as int]);
    }
    i
}

/// The join of `parts` preceded by `sep`, or nothing when `parts` is empty.
pub open spec fn join_tail(parts: Seq<Seq<char>>, sep: Seq<char>) -> Seq<char> {
    if parts.len() == 0 {
        Seq::empty()
    } else {
        sep + join(parts, sep)
    }
}

/// The words in `ws` joined by single spaces.
pub fn join_with_spaces(ws: &Vec<Vec<char>>) -> (out: Vec<char>)
    ensures
        out@ == join(views(ws@), seq![' ']),
{
    let ghost p = views(ws@);
    let mut out: Vec<char> = Vec::new();
    if ws.len() == 0 {
        return out;
    }
    push_all(&mut out, &ws[0]);
    assert(p.skip(1) == p.drop_first());
    let mut k: usize = 1;
    while k < ws.len()
        invariant
            p == views(ws@),
            1 <= k <= ws.len(),
            out@ + join_tail(p.skip(k as int), seq![' ']) == join(p, seq![' ']),
        decreases ws.len() - k,
    {
        let ghost q = p.skip(k as int);
        assert(q[0] == ws@[k as int]@);
        assert(q.drop_first() == p.skip(k + 1));
        assert(join(q, seq![' ']) == q[0] + join_tail(q.drop_first(), seq![' ']));
        let ghost before = out@;
        out.push(' ');
        push_all(&mut out, &ws[k]);
        assert(out@ == before + seq![' '] + q[0]);
        k += 1;
    }
    assert(p.skip(k as int).len() == 0);
    out
}

proof fn lemma_chunks_small(c: Seq<char>)
    requires
        c.len() <= MAX_SEGMENT_CHARS,
    ensures
        chunks(c) == flush(c),
{
}

/// Appends to `out` the pieces that the trimmed sentence `sentence` contributes:
/// the sentence itself when it fits, else its words packed greedily, with
/// over-long words cut into `MAX_SEGMENT_CHARS`-character chunks.
#[verifier::rlimit(30)]
pub fn push_split_sentence(out: &mut Vec<Vec<char>>, sentence: &Vec<char>)
    ensures
        views(final(out)@) == views(old(out)@) + sentence_pieces(sentence@),
{
    if sentence.len() == 0 {
        assert(views(out@) + Seq::<Seq<char>>::empty() == views(out@));
        return;
    }
    if sentence.len() <= MAX_SEGMENT_CHARS {
        let ghost before = views(out@);
        out.push(sentence.clone());
        assert(views(out@) == before.push(sentence@));
        return;
    }
    let ws = split_words(sentence);
    let ghost all = views(ws@);
    proof {
        lemma_words_nonempty(sentence@);
    }
    let mut current: Vec<char> = Vec::new();
    let mut k: usize = 0;
    assert(all.skip(0) == all);
    while k < ws.len()
        invariant
            all == views(ws@),
            all == words(sentence@),
            all_nonempty(all),
            k <= ws.len(),
            current.len() <= MAX_SEGMENT_CHARS,
            views(out@) + pack_words(all.skip(k as int), current@) == views(old(out)@)
                + pack_words(all, Seq::empty()),
        decreases ws.len() - k,
    {
        let ghost q = all.skip(k as int);
        let ghost cur0 = current@;
        let ghost out0 = views(out@);
        assert(q[0] == ws@[k as int]@);
        assert(q.drop_first() == all.skip(k + 1));
        let word = &ws[k];
        assert(word@.len() > 0) by {
            assert(all[k as int] == word@);
        }
        if word.len() > MAX_SEGMENT_CHARS {
            let ghost start = views(out@);
            if current.len() > 0 {
                out.push(current);
                assert(views(out@) == start.push(current@));
                current = Vec::new();
            }
            let ghost base = views(out@);
            assert(base == start + flush(cur0)) by {
                assert(start + Seq::<Seq<char>>::empty() == start);
            }
            let ghost ow = word@;
            let mut chunk: Vec<char> = Vec::new();
            let mut p: usize = 0;
            assert(ow.skip(0) == ow);
            assert(chunk@ + ow.skip(0) == ow);
            while p < word.len()
                invariant
                    ow == word@,
                    p <= word.len(),
                    chunk.len() <= MAX_SEGMENT_CHARS,
                    p > 0 ==> chunk.len() > 0,
                    views(out@) + chunks(chunk@ + ow.skip(p as int)) == base + chunks(ow),
                decreases word.len() - p,
            {
                let ghost rest = ow.skip(p as int);
                assert(rest[0] == ow[p as int]);
                assert(rest.drop_first() == ow.skip(p + 1));
                if chunk.len() >= MAX_SEGMENT_CHARS {
                    let ghost c = chunk@;
                    assert((c + rest).take(MAX_SEGMENT_CHARS as int) == c);
                    assert((c + rest).skip(MAX_SEGMENT_CHARS as int) == rest);
                    let ghost b2 = views(out@);
                    out.push(chunk);
                    assert(views(out@) == b2.push(c));
                    chunk = Vec::new();
                    chunk.push(word[p]);
                    assert(chunk@ + ow.skip(p + 1) == rest);
                } else {
                    let ghost c = chunk@;
                    chunk.push(word[p]);
                    assert(chunk@ + ow.skip(p + 1) == c + rest);
                }
                p += 1;
            }
            assert(chunk@ + ow.skip(p as int) == chunk@);
            proof {
                lemma_chunks_small(chunk@);
            }
            if chunk.len() > 0 {
                let ghost b3 = views(out@);
                out.push(chunk);
                assert(views(out@) == b3.push(chunk@));
            } else {
                assert(views(out@) + Seq::<Seq<char>>::empty() == views(out@));
            }
            current = Vec::new();
            assert(views(out@) == out0 + flush(cur0) + chunks(word@));
            assert(pack_words(q, cur0) == flush(cur0) + chunks(word@) + pack_words(
                q.drop_first(),
                Seq::empty(),
            ));
            assert(views(out@) + pack_words(q.drop_first(), current@) == out0 + pack_words(
                q,
                cur0,
            ));
        } else {
            if current.len() > 0 && current.len() + word.len() + 1 > MAX_SEGMENT_CHARS {
                out.push(current);
                assert(views(out@) == out0.push(cur0));
                current = Vec::new();
                push_all(&mut current, word);
                assert(current@ == word@);
                assert(pack_words(q, cur0) == seq![cur0] + pack_words(q.drop_first(), word@));
                assert(views(out@) + pack_words(q.drop_first(), current@) == out0 + pack_words(
                    q,
                    cur0,
                ));
            } else if current.len() > 0 {
                current.push(' ');
                push_all(&mut current, word);
                assert(current@ == cur0 + seq![' '] + word@);
            } else {
                push_all(&mut current, word);
                assert(current@ == word@);
            }
        }
        k += 1;
    }
    assert(all.skip(k as int).len() == 0);
    if current.len() > 0 {
        let ghost b5 = views(out@);
        out.push(current);
        assert(views(out@) == b5.push(current@));
    } else {
        assert(views(out@) + Seq::<Seq<char>>::empty() == views(out@));
    }
}

/// The views of a sequence of strings.
pub open spec fn string_views(v: Seq<String>) -> Seq<Seq<char>> {
    v.map_values(|x: String| x@)
}

/// The sentence pieces of `normalized`, in order.
#[verifier::rlimit(30)]
fn split_sentences(normalized: &Vec<char>) -> (out: Vec<Vec<char>>)
    ensures
        views(out@) == sentences_from(normalized@, Seq::empty()),
{
    let mut sentences: Vec<Vec<char>> = Vec::new();
    let mut current: Vec<char> = Vec::new();
    let mut i: usize = 0;
    assert(normalized@.skip(0) == normalized@);
    assert(views(sentences@) + sentences_from(normalized@, Seq::empty()) == sentences_from(
        normalized@,
        Seq::empty(),
    ));
    while i < normalized.len()
        invariant
            i <= normalized.len(),
            views(sentences@) + sentences_from(normalized@.skip(i as int), current@)
                == sentences_from(normalized@, Seq::empty()),
        decreases normalized.len() - i,
    {
        let ghost rest = normalized@.skip(i as int);
        let ghost s0 = views(sentences@);
        assert(rest[0] == normalized@[i as int]);
        assert(rest.drop_first() == normalized@.skip(i + 1));
        let ch = normalized[i];
        current.push(ch);
        if is_sentence_boundary(ch) {
            let trimmed = trim_chars(&current);
            push_split_sentence(&mut sentences, &trimmed);
            current = Vec::new();
            assert(views(sentences@) == s0 + sentence_pieces(trimmed@));
        }
        i += 1;
    }
    let trimmed = trim_chars(&current);
    assert(normalized@.skip(i as int).len() == 0);
    push_split_sentence(&mut sentences, &trimmed);
    sentences
}

/// Splits `text` into speech segments: whitespace runs become single spaces,
/// the text is cut after each sentence end, over-long sentences are cut at
/// word boundaries (over-long words by character count), and consecutive
/// sentences are packed in twos as long as a segment fits `MAX_SEGMENT_CHARS`.
#[verifier::rlimit(30)]
pub fn split_text(text: &str) -> (segments: Vec<String>)
    ensures
        string_views(segments@) == spec_split_text(text@),
{
    let chars = chars_of(text);
    let ws = split_words(&chars);
    let normalized = join_with_spaces(&ws);
    let sentences = split_sentences(&normalized);
    let ghost ss = views(sentences@);
    proof {
        lemma_sentences_fit(normalized@, Seq::empty());
    }
    let mut packed: Vec<Vec<char>> = Vec::new();
    let mut buffer: Vec<char> = Vec::new();
    let mut sentence_count: usize = 0;
    let mut k: usize = 0;
    assert(ss.skip(0) == ss);
    assert(views(packed@) + pack_sentences(ss, Seq::empty(), 0) == pack_sentences(
        ss,
        Seq::empty(),
        0,
    ));
    while k < sentences.len()
        invariant
            ss == views(sentences@),
            all_fit(ss),
            k <= sentences.len(),
            buffer.len() <= MAX_SEGMENT_CHARS,
            sentence_count <= 2,
            buffer.len() == 0 ==> sentence_count == 0,
            views(packed@) + pack_sentences(ss.skip(k as int), buffer@, sentence_count as nat)
                == pack_sentences(ss, Seq::empty(), 0),
        decreases sentences.len() - k,
    {
        let ghost q = ss.skip(k as int);
        let ghost b0 = buffer@;
        let ghost p0 = views(packed@);
        let ghost c0 = sentence_count as nat;
        assert(q[0] == sentences@[k as int]@);
        assert(q.drop_first() == ss.skip(k + 1));
        let sentence = &sentences[k];
        assert(0 < sentence@.len() <= MAX_SEGMENT_CHARS) by {
            assert(ss[k as int] == sentence@);
        }
        let combined = buffer.len() + sentence.len() + if buffer.len() > 0 {
            1usize
        } else {
            0usize
        };
        if buffer.len() > 0 && (sentence_count >= 2 || combined > MAX_SEGMENT_CHARS) {
            packed.push(buffer);
            assert(views(packed@) == p0.push(b0));
            buffer = sentence.clone();
            sentence_count = 1;
            assert(pack_sentences(q, b0, c0) == seq![b0] + pack_sentences(
                q.drop_first(),
                sentence@,
                1,
            ));
            assert(views(packed@) + pack_sentences(q.drop_first(), buffer@, 1) == p0
                + pack_sentences(q, b0, c0));
        } else {
            if buffer.len() > 0 {
                buffer.push(' ');
                push_all(&mut buffer, sentence);
                assert(buffer@ == b0 + seq![' '] + sentence@);
            } else {
                push_all(&mut buffer, sentence);
                assert(buffer@ == sentence@);
            }
            sentence_count += 1;
            assert(pack_sentences(q, b0, c0) == pack_sentences(
                q.drop_first(),
                buffer@,
                sentence_count as nat,
            ));
        }
        k += 1;
    }
    assert(ss.skip(k as int).len() == 0);
    if buffer.len() > 0 {
        let ghost p1 = views(packed@);
        packed.push(buffer);
        assert(views(packed@) == p1.push(buffer@));
    } else {
        assert(views(packed@) + Seq::<Seq<char>>::empty() == views(packed@));
    }
    let mut segments: Vec<String> = Vec::new();
    let mut j: usize = 0;
    while j < packed.len()
        invariant
            j <= packed.len(),
            string_views(segments@) == views(packed@).take(j as int),
        decreases packed.len() - j,
    {
        let piece = string_of(&packed[j]);
        let ghost sv = string_views(segments@);
        segments.push(piece);
        assert(string_views(segments@) == sv.push(packed@[j as int]@));
        j += 1;
        assert(string_views(segments@) == views(packed@).take(j as int));
    }
    assert(views(packed@).take(j as int) == views(packed@));
    segments
}

/// The non-whitespace characters of `s`, in order.
pub open spec fn visible(s: Seq<char>) -> Seq<char>
    decreases s.len(),
{
    if s.len() == 0 {
        Seq::empty()
    } else if is_ws(s[0]) {
        visible(s.drop_first())
    } else {
        seq![s[0]] + visible(s.drop_first())
    }
}

/// The non-whitespace characters of all of `ps`, in order.
pub open spec fn visible_all(ps: Seq<Seq<char>>) -> Seq<char>
    decreases ps.len(),
{
    if ps.len() == 0 {
        Seq::empty()
    } else {
        visible(ps[0]) + visible_all(ps.drop_first())
    }
}

proof fn lemma_visible_concat(a: Seq<char>, b: Seq<char>)
    ensures
        visible(a + b) == visible(a) + visible(b),
    decreases a.len(),
{
    if a.len() == 0 {
        assert(a + b == b);
    } else {
        assert((a + b).drop_first() == a.drop_first() + b);
        assert((a + b)[0] == a[0]);
        lemma_visible_concat(a.drop_first(), b);
    }
}

proof fn lemma_visible_all_concat(a: Seq<Seq<char>>, b: Seq<Seq<char>>)
    ensures
        visible_all(a + b) == visible_all(a) + visible_all(b),
    decreases a.len(),
{
    if a.len() == 0 {
        assert(a + b == b);
    } else {
        assert((a + b).drop_first() == a.drop_first() + b);
        assert((a + b)[0] == a[0]);
        lemma_visible_all_concat(a.drop_first(), b);
    }
}

proof fn lemma_visible_single(s: Seq<char>)
    ensures
        visible_all(seq![s]) == visible(s),
{
    assert(seq![s].drop_first() == Seq::<Seq<char>>::empty());
    assert(visible_all(Seq::<Seq<char>>::empty()) == Seq::<char>::empty());
    assert(seq![s][0] == s);
    assert(visible(s) + Seq::<char>::empty() == visible(s));
}

proof fn lemma_visible_space()
    ensures
        visible(seq![' ']) == Seq::<char>::empty(),
{
    assert(is_ws(seq![' '][0]));
    assert(seq![' '].drop_first() == Seq::<char>::empty());
    assert(visible(Seq::<char>::empty()) == Seq::<char>::empty());
}

proof fn lemma_visible_all_ws(s: Seq<char>)
    requires
        forall|k: int| 0 <= k < s.len() ==> is_ws(#[trigger] s[k]),
    ensures
        visible(s) == Seq::<char>::empty(),
    decreases s.len(),
{
    if s.len() > 0 {
        assert forall|k: int| 0 <= k < s.drop_first().len() implies is_ws(
            #[trigger] s.drop_first()[k],
        ) by {
            assert(s.drop_first()[k] == s[k + 1]);
        }
        lemma_visible_all_ws(s.drop_first());
    }
}

proof fn lemma_visible_trim(s: Seq<char>)
    ensures
        visible(trim(s)) == visible(s),
{
    let t = trim_start(s);
    lemma_trim_start_is_suffix(s);
    let n = s.len() - t.len();
    assert(s == s.take(n) + t);
    assert forall|k: int| 0 <= k < s.take(n).len() implies is_ws(#[trigger] s.take(n)[k]) by {
        assert(s.take(n)[k] == s[k]);
    }
    lemma_visible_all_ws(s.take(n));
    lemma_visible_concat(s.take(n), t);
    let e = trim_end(t);
    lemma_trim_end_is_prefix(t);
    assert(t == e + t.skip(e.len() as int));
    assert forall|k: int| 0 <= k < t.skip(e.len() as int).len() implies is_ws(
        #[trigger] t.skip(e.len() as int)[k],
    ) by {
        assert(t.skip(e.len() as int)[k] == t[k + e.len()]);
    }
    lemma_visible_all_ws(t.skip(e.len() as int));
    lemma_visible_concat(e, t.skip(e.len() as int));
}

proof fn lemma_word_prefix_is_prefix(s: Seq<char>)
    ensures
        word_prefix(s).len() <= s.len(),
        word_prefix(s) == s.take(word_prefix(s).len() as int),
    decreases s.len(),
{
    if s.len() > 0 && !is_ws(s[0]) {
        lemma_word_prefix_is_prefix(s.drop_first());
        assert(seq![s[0]] + s.drop_first().take(word_prefix(s.drop_first()).len() as int)
            == s.take(word_prefix(s).len() as int));
    }
}

proof fn lemma_visible_words(s: Seq<char>)
    ensures
        visible_all(words(s)) == visible(s),
    decreases s.len(),
{
    let t = trim_start(s);
    lemma_trim_start_is_suffix(s);
    let n = s.len() - t.len();
    assert(s == s.take(n) + t);
    assert forall|k: int| 0 <= k < s.take(n).len() implies is_ws(#[trigger] s.take(n)[k]) by {
        assert(s.take(n)[k] == s[k]);
    }
    lemma_visible_all_ws(s.take(n));
    lemma_visible_concat(s.take(n), t);
    if t.len() > 0 {
        let w = word_prefix(t);
        lemma_word_prefix_is_prefix(t);
        assert(w.len() > 0);
        lemma_visible_words(t.skip(w.len() as int));
        assert(t == w + t.skip(w.len() as int));
        lemma_visible_concat(w, t.skip(w.len() as int));
        assert(words(s).drop_first() == words(t.skip(w.len() as int)));
    }
}

proof fn lemma_visible_join(ps: Seq<Seq<char>>)
    ensures
        visible(join(ps, seq![' '])) == visible_all(ps),
    decreases ps.len(),
{
    if ps.len() == 1 {
        assert(ps == seq![ps[0]]);
        lemma_visible_single(ps[0]);
    } else if ps.len() > 1 {
        lemma_visible_join(ps.drop_first());
        lemma_visible_concat(ps[0] + seq![' '], join(ps.drop_first(), seq![' ']));
        lemma_visible_concat(ps[0], seq![' ']);
        lemma_visible_space();
        assert(visible(ps[0]) + Seq::<char>::empty() == visible(ps[0]));
    }
}

proof fn lemma_visible_chunks(w: Seq<char>)
    ensures
        visible_all(chunks(w)) == visible(w),
    decreases w.len(),
{
    if w.len() == 0 {
    } else if w.len() <= MAX_SEGMENT_CHARS {
        lemma_visible_single(w);
    } else {
        let a = w.take(MAX_SEGMENT_CHARS as int);
        let b = w.skip(MAX_SEGMENT_CHARS as int);
        lemma_visible_chunks(b);
        assert(w == a + b);
        lemma_visible_concat(a, b);
        lemma_visible_all_concat(seq![a], chunks(b));
        lemma_visible_single(a);
    }
}

proof fn lemma_visible_flush(c: Seq<char>)
    ensures
        visible_all(flush(c)) == visible(c),
{
    if c.len() > 0 {
        lemma_visible_single(c);
    }
}

proof fn lemma_visible_space_join(a: Seq<char>, b: Seq<char>)
    ensures
        visible(a + seq![' '] + b) == visible(a) + visible(b),
{
    lemma_visible_concat(a + seq![' '], b);
    lemma_visible_concat(a, seq![' ']);
    lemma_visible_space();
    assert(visible(a) + Seq::<char>::empty() == visible(a));
}

proof fn lemma_visible_pack_words(ws: Seq<Seq<char>>, current: Seq<char>)
    ensures
        visible_all(pack_words(ws, current)) == visible(current) + visible_all(ws),
    decreases ws.len(),
{
    if ws.len() == 0 {
        lemma_visible_flush(current);
        assert(visible(current) + Seq::<char>::empty() == visible(current));
    } else {
        let w = ws[0];
        let rest = ws.drop_first();
        if w.len() > MAX_SEGMENT_CHARS {
            lemma_visible_pack_words(rest, Seq::empty());
            lemma_visible_all_concat(flush(current) + chunks(w), pack_words(rest, Seq::empty()));
            lemma_visible_all_concat(flush(current), chunks(w));
            lemma_visible_flush(current);
            lemma_visible_chunks(w);
        } else if current.len() > 0 && current.len() + w.len() + 1 > MAX_SEGMENT_CHARS {
            lemma_visible_pack_words(rest, w);
            lemma_visible_all_concat(seq![current], pack_words(rest, w));
            lemma_visible_single(current);
        } else if current.len() > 0 {
            lemma_visible_pack_words(rest, current + seq![' '] + w);
            lemma_visible_space_join(current, w);
        } else {
            lemma_visible_pack_words(rest, w);
            assert(visible(current) == Seq::<char>::empty());
        }
    }
}

proof fn lemma_visible_pieces(s: Seq<char>)
    ensures
        visible_all(sentence_pieces(s)) == visible(s),
{
    if s.len() == 0 {
    } else if s.len() <= MAX_SEGMENT_CHARS {
        lemma_visible_single(s);
    } else {
        lemma_visible_pack_words(words(s), Seq::empty());
        lemma_visible_words(s);
    }
}

proof fn lemma_visible_sentences(chars: Seq<char>, current: Seq<char>)
    ensures
        visible_all(sentences_from(chars, current)) == visible(current) + visible(chars),
    decreases chars.len(),
{
    if chars.len() == 0 {
        lemma_visible_pieces(trim(current));
        lemma_visible_trim(current);
        assert(visible(current) + Seq::<char>::empty() == visible(current));
    } else {
        let cur = current.push(chars[0]);
        assert(chars == seq![chars[0]] + chars.drop_first());
        lemma_visible_concat(seq![chars[0]], chars.drop_first());
        lemma_visible_concat(current, seq![chars[0]]);
        assert(cur == current + seq![chars[0]]);
        if is_sentence_end(chars[0]) {
            lemma_visible_pieces(trim(cur));
            lemma_visible_trim(cur);
            lemma_visible_sentences(chars.drop_first(), Seq::empty());
            lemma_visible_all_concat(
                sentence_pieces(trim(cur)),
                sentences_from(chars.drop_first(), Seq::empty()),
            );
        } else {
            lemma_visible_sentences(chars.drop_first(), cur);
        }
    }
}

proof fn lemma_visible_pack_sentences(ss: Seq<Seq<char>>, buffer: Seq<char>, count: nat)
    ensures
        visible_all(pack_sentences(ss, buffer, count)) == visible(buffer) + visible_all(ss),
    decreases ss.len(),
{
    if ss.len() == 0 {
        lemma_visible_flush(buffer);
        assert(visible(buffer) + Seq::<char>::empty() == visible(buffer));
    } else {
        let s = ss[0];
        let rest = ss.drop_first();
        if buffer.len() > 0 && (count >= 2 || buffer.len() + s.len() + 1 > MAX_SEGMENT_CHARS) {
            lemma_visible_pack_sentences(rest, s, 1);
            lemma_visible_all_concat(seq![buffer], pack_sentences(rest, s, 1));
            lemma_visible_single(buffer);
        } else if buffer.len() > 0 {
            lemma_visible_pack_sentences(rest, buffer + seq![' '] + s, count + 1);
            lemma_visible_space_join(buffer, s);
        } else {
            lemma_visible_pack_sentences(rest, s, count + 1);
            assert(visible(buffer) == Seq::<char>::empty());
        }
    }
}

/// The characters that end a sentence in written text: `.`, `?`, `!` and
/// their full-width forms.
pub open spec fn is_stop(c: char) -> bool {
    c == '.' || c == '?' || c == '!' || c == '。' || c == '？' || c == '！'
}

/// The number of sentence-ending characters in `s`.
pub open spec fn stops(s: Seq<char>) -> nat
    decreases s.len(),
{
    if s.len() == 0 {
        0
    } else {
        (if is_stop(s[0]) {
            1nat
        } else {
            0nat
        }) + stops(s.drop_first())
    }
}

/// The number of sentence-ending characters in all of `ps`.
pub open spec fn stops_all(ps: Seq<Seq<char>>) -> nat
    decreases ps.len(),
{
    if ps.len() == 0 {
        0
    } else {
        stops(ps[0]) + stops_all(ps.drop_first())
    }
}

/// Every element of `ps` holds at most `k` sentence-ending characters.
pub open spec fn stops_at_most(ps: Seq<Seq<char>>, k: nat) -> bool {
    forall|i: int| 0 <= i < ps.len() ==> stops(#[trigger] ps[i]) <= k
}

proof fn lemma_stops_concat(a: Seq<char>, b: Seq<char>)
    ensures
        stops(a + b) == stops(a) + stops(b),
    decreases a.len(),
{
    if a.len() == 0 {
        assert(a + b == b);
    } else {
        assert((a + b).drop_first() == a.drop_first() + b);
        assert((a + b)[0] == a[0]);
        lemma_stops_concat(a.drop_first(), b);
    }
}

proof fn lemma_stops_visible(s: Seq<char>)
    ensures
        stops(visible(s)) == stops(s),
    decreases s.len(),
{
    if s.len() > 0 {
        lemma_stops_visible(s.drop_first());
        if !is_ws(s[0]) {
            let v = seq![s[0]] + visible(s.drop_first());
            assert(v[0] == s[0]);
            assert(v.drop_first() == visible(s.drop_first()));
        }
    }
}

proof fn lemma_stops_visible_all(ps: Seq<Seq<char>>)
    ensures
        stops(visible_all(ps)) == stops_all(ps),
    decreases ps.len(),
{
    if ps.len() > 0 {
        lemma_stops_visible_all(ps.drop_first());
        lemma_stops_concat(visible(ps[0]), visible_all(ps.drop_first()));
        lemma_stops_visible(ps[0]);
    }
}

proof fn lemma_stops_all_bounds(ps: Seq<Seq<char>>)
    ensures
        stops_at_most(ps, stops_all(ps)),
    decreases ps.len(),
{
    if ps.len() > 0 {
        lemma_stops_all_bounds(ps.drop_first());
        assert forall|i: int| 0 <= i < ps.len() implies stops(#[trigger] ps[i]) <= stops_all(ps) by {
            if i > 0 {
                assert(ps[i] == ps.drop_first()[i - 1]);
            }
        }
    }
}

/// Each piece of a sentence holds no more sentence-ending characters than the
/// sentence.
proof fn lemma_stops_pieces(s: Seq<char>)
    ensures
        stops_at_most(sentence_pieces(s), stops(s)),
{
    lemma_visible_pieces(s);
    lemma_stops_visible_all(sentence_pieces(s));
    lemma_stops_visible(s);
    lemma_stops_all_bounds(sentence_pieces(s));
}

proof fn lemma_stops_trim(s: Seq<char>)
    ensures
        stops(trim(s)) == stops(s),
{
    lemma_visible_trim(s);
    lemma_stops_visible(trim(s));
    lemma_stops_visible(s);
}

proof fn lemma_stops_at_most_concat(a: Seq<Seq<char>>, b: Seq<Seq<char>>, k: nat)
    requires
        stops_at_most(a, k),
        stops_at_most(b, k),
    ensures
        stops_at_most(a + b, k),
{
    assert forall|i: int| 0 <= i < (a + b).len() implies stops(#[trigger] (a + b)[i]) <= k by {
        if i < a.len() {
            assert((a + b)[i] == a[i]);
        } else {
            assert((a + b)[i] == b[i - a.len()]);
        }
    }
}

/// Every sentence piece holds at most one sentence-ending character, when the
/// characters read since the last sentence end hold none.
proof fn lemma_stops_sentences(chars: Seq<char>, current: Seq<char>)
    requires
        stops(current) == 0,
    ensures
        stops_at_most(sentences_from(chars, current), 1),
    decreases chars.len(),
{
    if chars.len() == 0 {
        lemma_stops_trim(current);
        lemma_stops_pieces(trim(current));
    } else {
        let c = chars[0];
        let cur = current.push(c);
        assert(cur == current + seq![c]);
        lemma_stops_concat(current, seq![c]);
        assert(seq![c].drop_first() == Seq::<char>::empty());
        assert(seq![c][0] == c);
        if is_sentence_end(c) {
            lemma_stops_trim(cur);
            lemma_stops_pieces(trim(cur));
            lemma_stops_sentences(chars.drop_first(), Seq::empty());
            lemma_stops_at_most_concat(
                sentence_pieces(trim(cur)),
                sentences_from(chars.drop_first(), Seq::empty()),
                1,
            );
        } else {
            lemma_stops_sentences(chars.drop_first(), cur);
        }
    }
}

/// Packing pieces of at most one sentence each gives segments of at most two
/// sentences: the buffer holds at most as many as the pieces it took.
proof fn lemma_stops_pack_sentences(ss: Seq<Seq<char>>, buffer: Seq<char>, count: nat)
    requires
        stops_at_most(ss, 1),
        stops(buffer) <= 2,
        count < 2 ==> stops(buffer) <= count,
    ensures
        stops_at_most(pack_sentences(ss, buffer, count), 2),
    decreases ss.len(),
{
    if ss.len() == 0 {
    } else {
        let s = ss[0];
        let rest = ss.drop_first();
        assert(stops(s) <= 1);
        assert forall|i: int| 0 <= i < rest.len() implies stops(#[trigger] rest[i]) <= 1 by {
            assert(rest[i] == ss[i + 1]);
        }
        if buffer.len() > 0 && (count >= 2 || buffer.len() + s.len() + 1 > MAX_SEGMENT_CHARS) {
            lemma_stops_pack_sentences(rest, s, 1);
            lemma_stops_at_most_concat(seq![buffer], pack_sentences(rest, s, 1), 2);
        } else if buffer.len() > 0 {
            lemma_stops_concat(buffer + seq![' '], s);
            lemma_stops_concat(buffer, seq![' ']);
            assert(seq![' '].drop_first() == Seq::<char>::empty());
            assert(seq![' '][0] == ' ');
            assert(stops(Seq::<char>::empty()) == 0);
            assert(stops(seq![' ']) == 0);
            assert(count < 2);
            assert(stops(buffer + seq![' '] + s) <= count + 1);
            lemma_stops_pack_sentences(rest, buffer + seq![' '] + s, count + 1);
        } else {
            lemma_stops_pack_sentences(rest, s, count + 1);
        }
    }
}

/// Law: every segment holds at most two sentences: at most two of the
/// characters `.`, `?`, `!`, `。`, `？`, `！`.
pub proof fn law_segments_hold_at_most_two_sentences(text: Seq<char>)
    ensures
        forall|i: int|
            0 <= i < spec_split_text(text).len() ==> stops(#[trigger] spec_split_text(text)[i])
                <= 2,
{
    let n = normalize_spaces(text);
    assert(stops(Seq::<char>::empty()) == 0);
    lemma_stops_sentences(n, Seq::empty());
    lemma_stops_pack_sentences(sentences_from(n, Seq::empty()), Seq::empty(), 0);
}

/// Law: splitting keeps the text: the non-whitespace characters of the
/// segments, read in order, are exactly those of the input.
pub proof fn law_segments_keep_text(text: Seq<char>)
    ensures
        visible_all(spec_split_text(text)) == visible(text),
{
    let n = normalize_spaces(text);
    lemma_visible_join(words(text));
    lemma_visible_words(text);
    lemma_visible_sentences(n, Seq::empty());
    lemma_visible_pack_sentences(sentences_from(n, Seq::empty()), Seq::empty(), 0);
    assert(visible(Seq::<char>::empty()) == Seq::<char>::empty());
}

} // verus!
