//! Text utilities: whitespace-separated words, joining, equality and
//! decimal rendering of numbers.
use vstd::prelude::*;

verus! {

/// The Unicode `White_Space` property.
pub open spec fn is_white_space(c: char) -> bool {
    let v = c as u32;
    ||| 0x09 <= v <= 0x0d
    ||| v == 0x20
    ||| v == 0x85
    ||| v == 0xa0
    ||| v == 0x1680
    ||| 0x2000 <= v <= 0x200a
    ||| v == 0x2028
    ||| v == 0x2029
    ||| v == 0x202f
    ||| v == 0x205f
    ||| v == 0x3000
}

/// Scanning `s` from the left: the words completed so far, and the word
/// that is still open at the end of `s`.
pub open spec fn word_scan(s: Seq<char>) -> (Seq<Seq<char>>, Seq<char>)
    decreases s.len(),
{
    if s.len() == 0 {
        (seq![], seq![])
    } else {
        let (done, open) = word_scan(s.drop_last());
        let c = s.last();
        if is_white_space(c) {
            if open.len() == 0 {
                (done, open)
            } else {
                (done.push(open), seq![])
            }
        } else {
            (done, open.push(c))
        }
    }
}

/// The maximal runs of non-whitespace characters of `s`, in order.
pub open spec fn split_words(s: Seq<char>) -> Seq<Seq<char>> {
    let (done, open) = word_scan(s);
    if open.len() == 0 {
        done
    } else {
        done.push(open)
    }
}

/// The words of a command line, as the terminal hands them over: the
/// whitespace-separated words, or a single empty word where there is none.
pub open spec fn command_words(line: Seq<char>) -> Seq<Seq<char>> {
    if split_words(line).len() == 0 {
        seq![Seq::<char>::empty()]
    } else {
        split_words(line)
    }
}

/// `parts` joined with `sep` between consecutive elements.
pub open spec fn join(parts: Seq<Seq<char>>, sep: Seq<char>) -> Seq<char>
    decreases parts.len(),
{
    if parts.len() == 0 {
        seq![]
    } else if parts.len() == 1 {
        parts[0]
    } else {
        join(parts.drop_last(), sep) + sep + parts.last()
    }
}

/// A word: at least one character, none of them whitespace.
pub open spec fn is_word(w: Seq<char>) -> bool {
    w.len() > 0 && forall|i: int| 0 <= i < w.len() ==> !is_white_space(#[trigger] w[i])
}

/// Appending whitespace-free characters extends the open word.
proof fn lemma_scan_extend_word(s: Seq<char>, w: Seq<char>)
    requires
        forall|i: int| 0 <= i < w.len() ==> !is_white_space(#[trigger] w[i]),
    ensures
        word_scan(s + w) == (word_scan(s).0, word_scan(s).1 + w),
    decreases w.len(),
{
    if w.len() == 0 {
        assert(s + w =~= s);
        assert(word_scan(s).1 + w =~= word_scan(s).1);
    } else {
        let wi = w.drop_last();
        lemma_scan_extend_word(s, wi);
        assert((s + w).drop_last() =~= s + wi);
        assert((s + w).last() == w.last());
        assert(word_scan(s).1 + wi.push(w.last()) =~= word_scan(s).1 + w);
        assert(wi.push(w.last()) =~= w);
    }
}

/// Scanning words joined by single spaces finds every word but the last
/// completed, and the last one open.
proof fn lemma_scan_join(ws: Seq<Seq<char>>)
    requires
        ws.len() >= 1,
        forall|i: int| 0 <= i < ws.len() ==> is_word(#[trigger] ws[i]),
    ensures
        word_scan(join(ws, seq![' '])) == (ws.drop_last(), ws.last()),
    decreases ws.len(),
{
    let sp = seq![' '];
    assert(is_word(ws.last()));
    if ws.len() == 1 {
        lemma_scan_extend_word(Seq::<char>::empty(), ws[0]);
        assert(Seq::<char>::empty() + ws[0] =~= ws[0]);
        assert(Seq::<char>::empty() + ws[0] =~= ws[0]);
        assert(word_scan(Seq::<char>::empty()).1 + ws[0] =~= ws[0]);
        assert(ws.drop_last() =~= Seq::<Seq<char>>::empty());
    } else {
        let init = ws.drop_last();
        assert forall|i: int| 0 <= i < init.len() implies is_word(#[trigger] init[i]) by {
            assert(init[i] == ws[i]);
        }
        lemma_scan_join(init);
        let a = join(init, sp);
        assert((a + sp).drop_last() =~= a);
        assert((a + sp).last() == ' ');
        assert(is_white_space(' '));
        assert(is_word(init.last()));
        assert(word_scan(a + sp) == (init, Seq::<char>::empty())) by {
            assert(init.drop_last().push(init.last()) =~= init);
        }
        lemma_scan_extend_word(a + sp, ws.last());
        assert(Seq::<char>::empty() + ws.last() =~= ws.last());
    }
}

/// Law: splitting words joined by single spaces gives the words back.
pub proof fn law_split_join(ws: Seq<Seq<char>>)
    requires
        forall|i: int| 0 <= i < ws.len() ==> is_word(#[trigger] ws[i]),
    ensures
        split_words(join(ws, seq![' '])) == ws,
{
    if ws.len() == 0 {
        assert(split_words(join(ws, seq![' '])) =~= ws);
    } else {
        lemma_scan_join(ws);
        assert(ws.drop_last().push(ws.last()) =~= ws);
    }
}

/// Every word that scanning completes or holds open is free of whitespace,
/// and every completed one is non-empty.
proof fn lemma_scan_words(s: Seq<char>)
    ensures
        forall|i: int| 0 <= i < word_scan(s).0.len() ==> is_word(#[trigger] word_scan(s).0[i]),
        forall|i: int| 0 <= i < word_scan(s).1.len() ==> !is_white_space(#[trigger] word_scan(s).1[i]),
    decreases s.len(),
{
    if s.len() > 0 {
        let prev = word_scan(s.drop_last());
        lemma_scan_words(s.drop_last());
        let c = s.last();
        let (done, open) = prev;
        if is_white_space(c) {
            if open.len() > 0 {
                assert(is_word(open));
                assert forall|i: int| 0 <= i < done.push(open).len() implies is_word(
                    #[trigger] done.push(open)[i],
                ) by {
                    if i < done.len() {
                        assert(done.push(open)[i] == done[i]);
                    }
                }
            }
        } else {
            assert forall|i: int| 0 <= i < open.push(c).len() implies !is_white_space(
                #[trigger] open.push(c)[i],
            ) by {
                if i < open.len() {
                    assert(open.push(c)[i] == open[i]);
                }
            }
        }
    }
}

/// Words completed while scanning a prefix stay completed, unchanged.
proof fn lemma_scan_keeps_done(a: Seq<char>, b: Seq<char>)
    ensures
        word_scan(a).0.len() <= word_scan(a + b).0.len(),
        forall|i: int| 0 <= i < word_scan(a).0.len() ==> #[trigger] word_scan(a + b).0[i] == word_scan(a).0[i],
    decreases b.len(),
{
    if b.len() == 0 {
        assert(a + b =~= a);
    } else {
        lemma_scan_keeps_done(a, b.drop_last());
        assert((a + b).drop_last() =~= a + b.drop_last());
        let prev = word_scan(a + b.drop_last());
        assert forall|i: int| 0 <= i < prev.0.len() implies #[trigger] word_scan(a + b).0[i] == prev.0[i] by {
            if is_white_space((a + b).last()) && prev.1.len() > 0 {
                assert(prev.0.push(prev.1)[i] == prev.0[i]);
            }
        }
    }
}

/// Law: a line that starts with a word followed by a space has that word as
/// its first word, whatever follows.
pub proof fn law_first_word(w: Seq<char>, rest: Seq<char>)
    requires
        is_word(w),
    ensures
        split_words(w + seq![' '] + rest).len() >= 1,
        split_words(w + seq![' '] + rest)[0] == w,
{
    let e = Seq::<char>::empty();
    lemma_scan_extend_word(e, w);
    assert(e + w =~= w);
    assert(word_scan(e).1 + w =~= w);
    let ws = w + seq![' '];
    assert(ws.drop_last() =~= w);
    assert(ws.last() == ' ');
    assert(word_scan(ws).0 =~= seq![w]);
    lemma_scan_keeps_done(ws, rest);
    assert(word_scan(ws + rest).0[0] == w);
}

/// Law: every word that splitting finds is non-empty and free of whitespace.
pub proof fn law_split_gives_words(s: Seq<char>)
    ensures
        forall|i: int| 0 <= i < split_words(s).len() ==> is_word(#[trigger] split_words(s)[i]),
{
    lemma_scan_words(s);
}

/// Splits a command line into words (`workflow_terminal::parse`).
///
/// The crate trims the line, collapses every run of `\s` (the Unicode
/// `White_Space` class of the `regex` crate, the same class that
/// `str::trim` removes) into one space and splits at the spaces. The
/// contract states that result as `command_words`.
#[verifier::external_body]
pub(crate) fn parse_command_line(line: &str) -> (argv: Vec<String>)
    ensures
        argv.deep_view() == command_words(line@),
{
    workflow_terminal::parse(line)
}

/// Whether two strings hold the same characters.
pub fn text_equals(a: &str, b: &str) -> (r: bool)
    ensures
        r == (a@ == b@),
{
    let n = a.unicode_len();
    if n != b.unicode_len() {
        return false;
    }
    let mut i: usize = 0;
    while i < n
        invariant
            n == a@.len(),
            n == b@.len(),
            i <= n,
            forall|j: int| 0 <= j < i ==> a@[j] == b@[j],
        decreases n - i,
    {
        if a.get_char(i) != b.get_char(i) {
            return false;
        }
        i = i + 1;
    }
    assert(a@ =~= b@);
    true
}

/// The elements of `words` from index `start` on, joined with `sep`.
pub fn join_words(words: &Vec<String>, start: usize, sep: &str) -> (r: String)
    requires
        start <= words.len(),
    ensures
        r@ == join(words.deep_view().skip(start as int), sep@),
{
    let ghost parts = words.deep_view().skip(start as int);
    let mut out = String::new();
    let mut i: usize = start;
    assert(parts.take(0) =~= Seq::<Seq<char>>::empty());
    while i < words.len()
        invariant
            start <= i <= words.len(),
            parts == words.deep_view().skip(start as int),
            out@ == join(parts.take(i - start), sep@),
        decreases words.len() - i,
    {
        let ghost k = i - start;
        assert(parts.take(k + 1).drop_last() =~= parts.take(k));
        assert(parts.take(k + 1).last() == words[i as int]@);
        if i > start {
            out.append(sep);
        } else {
            assert(parts.take(k + 1) =~= seq![words[i as int]@]);
        }
        out.append(words[i].as_str());
        i = i + 1;
    }
    assert(parts.take(words.len() - start) =~= parts);
    out
}

} // verus!
