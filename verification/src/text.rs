//! Text helpers: comparison, and the words of a whitespace-separated list.

use vstd::prelude::*;
use vstd::string::StrSliceExecFns;
use vstd::string::StringExecFns;

verus! {

/// Whether two string slices hold the same characters. They are compared as
/// owned strings, of which the equality is specified.
pub(crate) fn same(a: &str, b: &str) -> (r: bool)
    ensures
        r == (a@ == b@),
{
    String::from_str(a) == String::from_str(b)
}

/// The view of an optional string.
pub open spec fn optional(o: Option<String>) -> Option<Seq<char>> {
    match o {
        Some(s) => Some(s@),
        None => None,
    }
}

/// The views of a sequence of strings.
pub open spec fn texts(s: Seq<String>) -> Seq<Seq<char>> {
    s.map_values(|t: String| t@)
}

/// The characters that separate words: those with the Unicode property
/// `White_Space`.
pub open spec fn is_space(c: char) -> bool {
    ||| '\u{9}' <= c <= '\u{d}'
    ||| c == ' '
    ||| c == '\u{85}'
    ||| c == '\u{a0}'
    ||| c == '\u{1680}'
    ||| '\u{2000}' <= c <= '\u{200a}'
    ||| c == '\u{2028}'
    ||| c == '\u{2029}'
    ||| c == '\u{202f}'
    ||| c == '\u{205f}'
    ||| c == '\u{3000}'
}

/// A word: at least one character, none of them a separator.
pub open spec fn is_word(w: Seq<char>) -> bool {
    w.len() > 0 && forall|i: int| 0 <= i < w.len() ==> !is_space(#[trigger] w[i])
}

/// Where the run of non-separators that starts at `from` ends: the index of
/// the first separator at or after `from`, or the length of `s`.
pub open spec fn word_end(s: Seq<char>, from: int) -> int
    decreases s.len() - from,
{
    if 0 <= from < s.len() && !is_space(s[from]) {
        word_end(s, from + 1)
    } else {
        from
    }
}

/// The words of `s` that start at or after `from`, in order.
pub open spec fn words_from(s: Seq<char>, from: int) -> Seq<Seq<char>>
    decreases s.len() - from,
{
    if 0 <= from < s.len() {
        let end = word_end(s, from);
        if from < end <= s.len() {
            seq![s.subrange(from, end)] + words_from(s, end)
        } else {
            words_from(s, from + 1)
        }
    } else {
        Seq::empty()
    }
}

/// The words of `s`: its maximal runs of non-separators, in order. Runs of
/// separators of any length, leading and trailing ones too, yield nothing.
pub open spec fn words(s: Seq<char>) -> Seq<Seq<char>> {
    words_from(s, 0)
}

/// The words of `ws`, each parted from the next by a single blank.
pub open spec fn joined(ws: Seq<Seq<char>>) -> Seq<char>
    decreases ws.len(),
{
    if ws.len() == 0 {
        Seq::empty()
    } else if ws.len() == 1 {
        ws[0]
    } else {
        joined(ws.drop_last()) + seq![' '] + ws.last()
    }
}

/// A run without separators that ends at a separator, or at the end of the
/// text, is where `word_end` stops.
pub proof fn lemma_word_end(s: Seq<char>, from: int, to: int)
    requires
        0 <= from <= to <= s.len(),
        forall|k: int| from <= k < to ==> !is_space(#[trigger] s[k]),
        to == s.len() || is_space(s[to]),
    ensures
        word_end(s, from) == to,
    decreases to - from,
{
    if from < to {
        lemma_word_end(s, from + 1, to);
    }
}

/// `word_end` stays within the text and stops at a separator or at the end.
pub proof fn lemma_word_end_bounds(s: Seq<char>, from: int)
    requires
        0 <= from <= s.len(),
    ensures
        from <= word_end(s, from) <= s.len(),
        forall|k: int| from <= k < word_end(s, from) ==> !is_space(#[trigger] s[k]),
        word_end(s, from) == s.len() || is_space(s[word_end(s, from)]),
    decreases s.len() - from,
{
    if from < s.len() && !is_space(s[from]) {
        lemma_word_end_bounds(s, from + 1);
    }
}

/// Every item of `words_from` is a word.
pub proof fn lemma_words_are_words(s: Seq<char>, from: int)
    requires
        0 <= from,
    ensures
        forall|i: int|
            0 <= i < words_from(s, from).len() ==> is_word(#[trigger] words_from(s, from)[i]),
    decreases s.len() - from,
{
    if from < s.len() {
        let end = word_end(s, from);
        lemma_word_end_bounds(s, from);
        if from < end {
            lemma_words_are_words(s, end);
            let w = s.subrange(from, end);
            assert(is_word(w)) by {
                assert forall|i: int| 0 <= i < w.len() implies !is_space(#[trigger] w[i]) by {
                    assert(w[i] == s[from + i]);
                }
            }
            let rest = words_from(s, end);
            assert forall|i: int| 0 <= i < words_from(s, from).len() implies is_word(
                #[trigger] words_from(s, from)[i],
            ) by {
                if i > 0 {
                    assert(words_from(s, from)[i] == rest[i - 1]);
                }
            }
        } else {
            lemma_words_are_words(s, from + 1);
            assert(words_from(s, from) == words_from(s, from + 1));
        }
    } else {
        assert(words_from(s, from).len() == 0);
    }
}

/// Splitting distributes over a separator: the words of `a`, a separator and
/// `b` are the words of `a` followed by the words of `b`.
pub proof fn lemma_words_concat(a: Seq<char>, sep: char, b: Seq<char>)
    requires
        is_space(sep),
    ensures
        words(a + seq![sep] + b) == words(a) + words(b),
{
    lemma_words_concat_from(a, sep, b, 0);
}

proof fn lemma_word_end_prefix(a: Seq<char>, sep: char, b: Seq<char>, from: int)
    requires
        is_space(sep),
        0 <= from <= a.len(),
    ensures
        word_end(a + seq![sep] + b, from) == word_end(a, from),
    decreases a.len() - from,
{
    let s = a + seq![sep] + b;
    if from < a.len() {
        assert(s[from] == a[from]);
        if !is_space(a[from]) {
            lemma_word_end_prefix(a, sep, b, from + 1);
        }
    } else {
        assert(s[from] == sep);
    }
}

proof fn lemma_word_end_suffix(p: Seq<char>, b: Seq<char>, from: int)
    requires
        0 <= from <= b.len(),
    ensures
        word_end(p + b, p.len() + from) == p.len() + word_end(b, from),
    decreases b.len() - from,
{
    let s = p + b;
    if from < b.len() {
        assert(s[p.len() + from] == b[from]);
        if !is_space(b[from]) {
            lemma_word_end_suffix(p, b, from + 1);
        }
    }
}

proof fn lemma_words_suffix(p: Seq<char>, b: Seq<char>, from: int)
    requires
        0 <= from <= b.len(),
    ensures
        words_from(p + b, p.len() + from) == words_from(b, from),
    decreases b.len() - from,
{
    let s = p + b;
    if from < b.len() {
        lemma_word_end_suffix(p, b, from);
        lemma_word_end_bounds(b, from);
        let end = word_end(b, from);
        if from < end {
            lemma_words_suffix(p, b, end);
            assert(s.subrange(p.len() + from, p.len() + end) =~= b.subrange(from, end));
        } else {
            lemma_words_suffix(p, b, from + 1);
        }
    }
}

proof fn lemma_words_concat_from(a: Seq<char>, sep: char, b: Seq<char>, from: int)
    requires
        is_space(sep),
        0 <= from <= a.len(),
    ensures
        words_from(a + seq![sep] + b, from) == words_from(a, from) + words(b),
    decreases a.len() - from,
{
    let s = a + seq![sep] + b;
    if from < a.len() {
        lemma_word_end_prefix(a, sep, b, from);
        lemma_word_end_bounds(a, from);
        let end = word_end(a, from);
        if from < end {
            lemma_words_concat_from(a, sep, b, end);
            assert(s.subrange(from, end) =~= a.subrange(from, end));
            assert(words_from(s, from) =~= words_from(a, from) + words(b));
        } else {
            lemma_words_concat_from(a, sep, b, from + 1);
        }
    } else {
        assert(s[from] == sep);
        assert(word_end(s, from) == from);
        assert(s =~= (a + seq![sep]) + b);
        lemma_words_suffix(a + seq![sep], b, 0);
        assert(words_from(a, from) =~= Seq::<Seq<char>>::empty());
    }
}

/// A word is its own only word.
pub proof fn lemma_words_of_word(w: Seq<char>)
    requires
        is_word(w),
    ensures
        words(w) == seq![w],
{
    lemma_word_end(w, 0, w.len() as int);
    assert(w.subrange(0, w.len() as int) =~= w);
    assert(words_from(w, w.len() as int) =~= Seq::<Seq<char>>::empty());
}

/// Joining words and splitting the result gives the words back.
pub proof fn lemma_words_of_joined(ws: Seq<Seq<char>>)
    requires
        forall|i: int| 0 <= i < ws.len() ==> is_word(#[trigger] ws[i]),
    ensures
        words(joined(ws)) == ws,
    decreases ws.len(),
{
    if ws.len() == 0 {
        assert(words(joined(ws)) =~= ws);
    } else if ws.len() == 1 {
        lemma_words_of_word(ws[0]);
        assert(seq![ws[0]] =~= ws);
    } else {
        let init = ws.drop_last();
        lemma_words_of_joined(init);
        lemma_words_concat(joined(init), ' ', ws.last());
        lemma_words_of_word(ws.last());
        assert(init + seq![ws.last()] =~= ws);
    }
}

/// Whether `c` separates words.
pub fn separates(c: char) -> (r: bool)
    ensures
        r == is_space(c),
{
    ('\u{9}' <= c && c <= '\u{d}') || c == ' ' || c == '\u{85}' || c == '\u{a0}' || c
        == '\u{1680}' || ('\u{2000}' <= c && c <= '\u{200a}') || c == '\u{2028}' || c
        == '\u{2029}' || c == '\u{202f}' || c == '\u{205f}' || c == '\u{3000}'
}

/// Appends the words of `s` to `out`.
pub fn split_into(s: &str, out: &mut Vec<String>)
    ensures
        texts(final(out)@) == texts(old(out)@) + words(s@),
{
    let len = s.unicode_len();
    let ghost before = texts(out@);
    let mut start: usize = 0;
    let mut i: usize = 0;
    for c in it: s.chars()
        invariant
            it.seq() == s@,
            i == it.index(),
            start <= i <= len,
            len == s@.len(),
            forall|k: int| start <= k < i ==> !is_space(#[trigger] s@[k]),
            texts(out@) + words_from(s@, start as int) == before + words(s@),
    {
        if separates(c) {
            if start < i {
                let word = String::from_str(s.substring_char(start, i));
                proof {
                    lemma_word_end(s@, start as int, i as int);
                    assert(texts(out@.push(word)) =~= texts(out@).push(word@));
                    assert(words_from(s@, i as int) == words_from(s@, i + 1));
                }
                out.push(word);
            } else {
                assert(words_from(s@, i as int) == words_from(s@, i + 1));
            }
            start = i + 1;
        }
        i = i + 1;
    }
    if start < i {
        let word = String::from_str(s.substring_char(start, i));
        proof {
            lemma_word_end(s@, start as int, i as int);
            assert(texts(out@.push(word)) =~= texts(out@).push(word@));
            assert(words_from(s@, i as int) =~= Seq::<Seq<char>>::empty());
        }
        out.push(word);
    }
}

/// The words of `ws`, each parted from the next by a single blank.
pub fn join(ws: &Vec<String>) -> (r: String)
    ensures
        r@ == joined(texts(ws@)),
{
    let mut out = String::new();
    let mut i: usize = 0;
    while i < ws.len()
        invariant
            i <= ws.len(),
            out@ == joined(texts(ws@).take(i as int)),
        decreases ws.len() - i,
    {
        proof {
            reveal_strlit(" ");
            let t = texts(ws@);
            assert(t.take(i + 1).drop_last() =~= t.take(i as int));
            assert(t.take(i + 1).last() == ws@[i as int]@);
            assert(" "@ =~= seq![' ']);
        }
        if i > 0 {
            out.append(" ");
        }
        out.append(ws[i].as_str());
        i = i + 1;
    }
    proof {
        assert(texts(ws@).take(ws.len() as int) =~= texts(ws@));
    }
    out
}

} // verus!
