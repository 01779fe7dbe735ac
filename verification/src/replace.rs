//! Replacing every occurrence of a word in a text, and what that keeps, hides and lets be undone.
//!
//! A text is scanned from left to right. Where the word begins, the replacement is written in its
//! place and the scan goes on behind it; every other character is copied.

use vstd::prelude::*;

use crate::text::chars_of;

verus! {

/// Whether `word` stands in `text` from position `at` on.
pub open spec fn occurs_at(text: Seq<char>, word: Seq<char>, at: int) -> bool {
    &&& 0 <= at
    &&& at + word.len() <= text.len()
    &&& forall|i: int| 0 <= i < word.len() ==> #[trigger] text[at + i] == word[i]
}

/// Whether `word` stands somewhere in `text`.
pub open spec fn contains_word(text: Seq<char>, word: Seq<char>) -> bool {
    exists|at: int| occurs_at(text, word, at)
}

/// `text` with every occurrence of `from`, taken from left to right and without overlap, written
/// as `to`. An empty `from` occurs nowhere.
pub open spec fn replaced(text: Seq<char>, from: Seq<char>, to: Seq<char>) -> Seq<char>
    decreases text.len(),
{
    if text.len() == 0 {
        Seq::empty()
    } else if from.len() > 0 && occurs_at(text, from, 0) {
        to + replaced(text.skip(from.len() as int), from, to)
    } else {
        seq![text[0]] + replaced(text.skip(1), from, to)
    }
}

/// For each character of `replaced(text, from, to)`, whether it was written by a replacement
/// (and not copied from `text`).
pub open spec fn written(text: Seq<char>, from: Seq<char>, to: Seq<char>) -> Seq<bool>
    decreases text.len(),
{
    if text.len() == 0 {
        Seq::empty()
    } else if from.len() > 0 && occurs_at(text, from, 0) {
        Seq::new(to.len(), |i: int| true) + written(text.skip(from.len() as int), from, to)
    } else {
        seq![false] + written(text.skip(1), from, to)
    }
}

/// Whether writing `from` as `to` in `text` brings `to` about only where it was written on
/// purpose: wherever the scan copies a character, the text from there on does not begin with `to`
/// once the replacements are made.
pub open spec fn restorable(text: Seq<char>, from: Seq<char>, to: Seq<char>) -> bool
    decreases text.len(),
{
    if text.len() == 0 {
        true
    } else if from.len() > 0 && occurs_at(text, from, 0) {
        restorable(text.skip(from.len() as int), from, to)
    } else {
        &&& !occurs_at(replaced(text, from, to), to, 0)
        &&& restorable(text.skip(1), from, to)
    }
}

/// Whether `a` and `b` cannot share a character of any text: laid over each other at any offset
/// at which they meet, they differ somewhere.
pub open spec fn clash(a: Seq<char>, b: Seq<char>) -> bool {
    forall|offset: int| -a.len() < offset < b.len() ==> #[trigger] differ_at(a, b, offset)
}

/// Whether `a`, laid over `b` with its first character at `offset`, differs from `b` somewhere.
pub open spec fn differ_at(a: Seq<char>, b: Seq<char>, offset: int) -> bool {
    exists|i: int| 0 <= i < a.len() && 0 <= i + offset < b.len() && #[trigger] a[i] != b[i + offset]
}

/// Whether two occurrences of `word` in a text can never overlap.
pub open spec fn self_avoiding(word: Seq<char>) -> bool {
    forall|offset: int| 0 < offset < word.len() ==> #[trigger] differ_at(word, word, offset)
}

/// Whether `word` stands in `text` from position `at` on.
fn begins_at(text: &[char], word: &[char], at: usize) -> (found: bool)
    requires
        at <= text.len(),
    ensures
        found == occurs_at(text@, word@, at as int),
{
    if text.len() - at < word.len() {
        return false;
    }
    let mut i: usize = 0;
    while i < word.len()
        invariant
            i <= word.len(),
            at + word.len() <= text.len(),
            forall|k: int| 0 <= k < i ==> #[trigger] text@[at + k] == word@[k],
        decreases word.len() - i,
    {
        if text[at + i] != word[i] {
            assert(text@[at + i as int] != word@[i as int]);
            return false;
        }
        i += 1;
    }
    true
}

/// `text` with every occurrence of `from` written as `to`.
pub fn replace_all(text: &str, from: &str, to: &str) -> (result: String)
    requires
        from@.len() > 0,
    ensures
        result@ == replaced(text@, from@, to@),
{
    let source = chars_of(text);
    let word = chars_of(from);
    let mut result = String::new();
    let mut i: usize = 0;
    assert(source@.skip(0) =~= text@);
    assert(result@ + replaced(source@.skip(0), from@, to@) =~= replaced(text@, from@, to@));
    while i < source.len()
        invariant
            i <= source.len(),
            word@ == from@,
            from@.len() > 0,
            replaced(text@, from@, to@) == result@ + replaced(source@.skip(i as int), from@, to@),
        decreases source.len() - i,
    {
        let ghost rest = source@.skip(i as int);
        let ghost before = result@;
        if begins_at(&source, &word, i) {
            assert(occurs_at(rest, from@, 0)) by {
                assert forall|k: int| 0 <= k < from@.len() implies #[trigger] rest[0 + k] == from@[k] by {
                    assert(source@[i + k] == word@[k]);
                }
            }
            assert(rest.skip(from@.len() as int) =~= source@.skip(i + from@.len()));
            result.append(to);
            assert(result@ + replaced(source@.skip(i + from@.len()), from@, to@) =~= before + (to@
                + replaced(source@.skip(i + from@.len()), from@, to@)));
            i += word.len();
        } else {
            assert(!occurs_at(rest, from@, 0)) by {
                if occurs_at(rest, from@, 0) {
                    assert forall|k: int| 0 <= k < word@.len() implies #[trigger] source@[i + k] == word@[k] by {
                        assert(rest[0 + k] == from@[k]);
                    }
                }
            }
            assert(rest.skip(1) =~= source@.skip(i + 1));
            result.push(source[i]);
            assert(result@ + replaced(source@.skip(i + 1), from@, to@) =~= before + (seq![rest[0]]
                + replaced(source@.skip(i + 1), from@, to@)));
            i += 1;
        }
    }
    assert(source@.skip(i as int) =~= Seq::empty());
    assert(result@ + Seq::<char>::empty() =~= result@);
    result
}

/// The mask `written` marks each character of the replaced text.
proof fn lemma_written_len(text: Seq<char>, from: Seq<char>, to: Seq<char>)
    ensures
        written(text, from, to).len() == replaced(text, from, to).len(),
    decreases text.len(),
{
    if text.len() == 0 {
    } else if from.len() > 0 && occurs_at(text, from, 0) {
        lemma_written_len(text.skip(from.len() as int), from, to);
    } else {
        lemma_written_len(text.skip(1), from, to);
    }
}

/// A written character belongs to a whole replacement, which is written from its first character.
proof fn lemma_written_block(text: Seq<char>, from: Seq<char>, to: Seq<char>, at: int) -> (start: int)
    requires
        to.len() > 0,
        0 <= at < written(text, from, to).len(),
        written(text, from, to)[at],
    ensures
        start <= at < start + to.len(),
        occurs_at(replaced(text, from, to), to, start),
        written(text, from, to)[start],
    decreases text.len(),
{
    lemma_written_len(text, from, to);
    let whole = replaced(text, from, to);
    let mask = written(text, from, to);
    if from.len() > 0 && occurs_at(text, from, 0) {
        let rest = text.skip(from.len() as int);
        let tail = replaced(rest, from, to);
        lemma_written_len(rest, from, to);
        if at < to.len() {
            assert forall|i: int| 0 <= i < to.len() implies #[trigger] whole[0 + i] == to[i] by {}
            assert(mask[0]);
            0
        } else {
            let start = lemma_written_block(rest, from, to, at - to.len());
            assert forall|i: int| 0 <= i < to.len() implies #[trigger] whole[start + to.len() + i]
                == to[i] by {
                assert(tail[start + i] == to[i]);
            }
            assert(mask[start + to.len()] == written(rest, from, to)[start]);
            start + to.len()
        }
    } else {
        let rest = text.skip(1);
        let tail = replaced(rest, from, to);
        lemma_written_len(rest, from, to);
        assert(at > 0);
        assert(mask[at] == written(rest, from, to)[at - 1]);
        let start = lemma_written_block(rest, from, to, at - 1);
        assert forall|i: int| 0 <= i < to.len() implies #[trigger] whole[start + 1 + i] == to[i] by {
            assert(tail[start + i] == to[i]);
        }
        assert(mask[start + 1] == written(rest, from, to)[start]);
        start + 1
    }
}

/// As far as nothing is written, the replaced text begins as the text does.
proof fn lemma_copied_prefix(text: Seq<char>, from: Seq<char>, to: Seq<char>, n: int)
    requires
        to.len() > 0,
        0 <= n <= written(text, from, to).len(),
        forall|q: int| 0 <= q < n ==> !#[trigger] written(text, from, to)[q],
    ensures
        n <= text.len(),
        forall|q: int| 0 <= q < n ==> #[trigger] replaced(text, from, to)[q] == text[q],
    decreases text.len(),
{
    lemma_written_len(text, from, to);
    if n > 0 {
        let mask = written(text, from, to);
        assert(!mask[0]);
        if from.len() > 0 && occurs_at(text, from, 0) {
            assert(mask[0]);
        } else {
            let rest = text.skip(1);
            lemma_written_len(rest, from, to);
            assert forall|q: int| 0 <= q < n - 1 implies !#[trigger] written(rest, from, to)[q] by {
                assert(mask[q + 1] == written(rest, from, to)[q]);
            }
            lemma_copied_prefix(rest, from, to, n - 1);
            assert forall|q: int| 0 <= q < n implies #[trigger] replaced(text, from, to)[q]
                == text[q] by {
                if q > 0 {
                    assert(replaced(rest, from, to)[q - 1] == rest[q - 1]);
                }
            }
        }
    }
}

/// A word that stands in the replaced text without touching a replacement stands in the text
/// too, and is not the word that is replaced.
pub proof fn law_untouched_word_was_there(
    text: Seq<char>,
    from: Seq<char>,
    to: Seq<char>,
    word: Seq<char>,
    at: int,
)
    requires
        from.len() > 0,
        to.len() > 0,
        word.len() > 0,
        occurs_at(replaced(text, from, to), word, at),
        forall|q: int| at <= q < at + word.len() ==> !#[trigger] written(text, from, to)[q],
    ensures
        contains_word(text, word),
        word != from,
    decreases text.len(),
{
    lemma_written_len(text, from, to);
    let whole = replaced(text, from, to);
    let mask = written(text, from, to);
    if text.len() == 0 {
        assert(false);
    } else if occurs_at(text, from, 0) {
        let rest = text.skip(from.len() as int);
        lemma_written_len(rest, from, to);
        assert(!mask[at]);
        assert(at >= to.len());
        let tail = replaced(rest, from, to);
        assert forall|i: int| 0 <= i < word.len() implies #[trigger] tail[at - to.len() + i]
            == word[i] by {
            assert(whole[at + i] == word[i]);
        }
        assert forall|q: int| at - to.len() <= q < at - to.len() + word.len() implies !#[trigger] written(
            rest,
            from,
            to,
        )[q] by {
            assert(mask[q + to.len()] == written(rest, from, to)[q]);
        }
        law_untouched_word_was_there(rest, from, to, word, at - to.len());
        let inner = choose|p: int| occurs_at(rest, word, p);
        assert forall|i: int| 0 <= i < word.len() implies #[trigger] text[inner + from.len() + i]
            == word[i] by {
            assert(rest[inner + i] == word[i]);
        }
        assert(occurs_at(text, word, inner + from.len()));
    } else if at == 0 {
        lemma_copied_prefix(text, from, to, word.len() as int);
        assert forall|i: int| 0 <= i < word.len() implies #[trigger] text[0 + i] == word[i] by {
            assert(whole[0 + i] == word[i]);
        }
        assert(occurs_at(text, word, 0));
    } else {
        let rest = text.skip(1);
        lemma_written_len(rest, from, to);
        let tail = replaced(rest, from, to);
        assert forall|i: int| 0 <= i < word.len() implies #[trigger] tail[at - 1 + i] == word[i] by {
            assert(whole[at + i] == word[i]);
        }
        assert forall|q: int| at - 1 <= q < at - 1 + word.len() implies !#[trigger] written(
            rest,
            from,
            to,
        )[q] by {
            assert(mask[q + 1] == written(rest, from, to)[q]);
        }
        law_untouched_word_was_there(rest, from, to, word, at - 1);
        let inner = choose|p: int| occurs_at(rest, word, p);
        assert forall|i: int| 0 <= i < word.len() implies #[trigger] text[inner + 1 + i] == word[i] by {
            assert(rest[inner + i] == word[i]);
        }
        assert(occurs_at(text, word, inner + 1));
    }
}

/// The replaced word stays only where a replacement is involved: every occurrence of `from` in
/// the replaced text has at least one character that a replacement wrote.
pub proof fn law_word_is_replaced(text: Seq<char>, from: Seq<char>, to: Seq<char>, at: int)
    requires
        from.len() > 0,
        to.len() > 0,
        occurs_at(replaced(text, from, to), from, at),
    ensures
        exists|q: int| at <= q < at + from.len() && #[trigger] written(text, from, to)[q],
{
    if forall|q: int| at <= q < at + from.len() ==> !#[trigger] written(text, from, to)[q] {
        law_untouched_word_was_there(text, from, to, from, at);
    }
}

/// Replacing brings no new word about, as long as the word clashes with the replacement: it is
/// absent afterwards if it was absent before, or if it is the word that was replaced.
pub proof fn law_clashing_word_stays_absent(
    text: Seq<char>,
    from: Seq<char>,
    to: Seq<char>,
    word: Seq<char>,
)
    requires
        from.len() > 0,
        to.len() > 0,
        word.len() > 0,
        clash(word, to),
        word == from || !contains_word(text, word),
    ensures
        !contains_word(replaced(text, from, to), word),
{
    if contains_word(replaced(text, from, to), word) {
        let whole = replaced(text, from, to);
        let at = choose|at: int| occurs_at(whole, word, at);
        lemma_written_len(text, from, to);
        if forall|q: int| at <= q < at + word.len() ==> !#[trigger] written(text, from, to)[q] {
            law_untouched_word_was_there(text, from, to, word, at);
        } else {
            let q = choose|q: int| at <= q < at + word.len() && #[trigger] written(text, from, to)[q];
            let start = lemma_written_block(text, from, to, q);
            assert(differ_at(word, to, at - start));
            let i = choose|i: int|
                0 <= i < word.len() && 0 <= i + (at - start) < to.len() && #[trigger] word[i] != to[i
                    + (at - start)];
            assert(whole[at + i] == word[i]);
            assert(whole[start + (i + (at - start))] == to[i + (at - start)]);
        }
    }
}

/// A text without the word is left as it is.
pub proof fn law_absent_word_changes_nothing(text: Seq<char>, from: Seq<char>, to: Seq<char>)
    requires
        !contains_word(text, from),
    ensures
        replaced(text, from, to) == text,
    decreases text.len(),
{
    if text.len() > 0 {
        assert(!occurs_at(text, from, 0));
        let rest = text.skip(1);
        assert(!contains_word(rest, from)) by {
            if contains_word(rest, from) {
                let at = choose|at: int| occurs_at(rest, from, at);
                assert forall|i: int| 0 <= i < from.len() implies #[trigger] text[at + 1 + i]
                    == from[i] by {
                    assert(rest[at + i] == from[i]);
                }
                assert(occurs_at(text, from, at + 1));
            }
        }
        law_absent_word_changes_nothing(rest, from, to);
        assert(seq![text[0]] + rest =~= text);
    } else {
        assert(text =~= Seq::empty());
    }
}

/// Writing `from` as `to` and then `to` as `from` gives the text back exactly when the text is
/// restorable.
pub proof fn law_undone_iff_restorable(text: Seq<char>, from: Seq<char>, to: Seq<char>)
    requires
        from.len() > 0,
        to.len() > 0,
    ensures
        replaced(replaced(text, from, to), to, from) == text <==> restorable(text, from, to),
    decreases text.len(),
{
    let whole = replaced(text, from, to);
    let back = replaced(whole, to, from);
    if text.len() == 0 {
        assert(text =~= Seq::empty());
    } else if occurs_at(text, from, 0) {
        let rest = text.skip(from.len() as int);
        let tail = replaced(rest, from, to);
        law_undone_iff_restorable(rest, from, to);
        assert(occurs_at(whole, to, 0)) by {
            assert forall|i: int| 0 <= i < to.len() implies #[trigger] whole[0 + i] == to[i] by {}
        }
        assert(whole.skip(to.len() as int) =~= tail);
        assert(back == from + replaced(tail, to, from));
        assert(text =~= from + rest) by {
            assert forall|i: int| 0 <= i < from.len() implies text[i] == from[i] by {
                assert(text[0 + i] == from[i]);
            }
        }
        assert(back.skip(from.len() as int) =~= replaced(tail, to, from));
    } else {
        let rest = text.skip(1);
        let tail = replaced(rest, from, to);
        law_undone_iff_restorable(rest, from, to);
        assert(whole.skip(1) =~= tail);
        if occurs_at(whole, to, 0) {
            assert(occurs_at(back, from, 0)) by {
                assert forall|i: int| 0 <= i < from.len() implies #[trigger] back[0 + i] == from[i] by {}
            }
        } else {
            assert(back == seq![text[0]] + replaced(tail, to, from));
            assert(text =~= seq![text[0]] + rest);
            assert(back.skip(1) =~= replaced(tail, to, from));
        }
    }
}

/// A text that does not hold the replacement is restorable, if occurrences of the replacement
/// never overlap.
pub proof fn law_fresh_replacement_is_restorable(text: Seq<char>, from: Seq<char>, to: Seq<char>)
    requires
        from.len() > 0,
        to.len() > 0,
        self_avoiding(to),
        !contains_word(text, to),
    ensures
        restorable(text, from, to),
    decreases text.len(),
{
    if text.len() > 0 {
        let step: int = if occurs_at(text, from, 0) {
            from.len() as int
        } else {
            1
        };
        let rest = text.skip(step);
        assert(!contains_word(rest, to)) by {
            if contains_word(rest, to) {
                let at = choose|at: int| occurs_at(rest, to, at);
                assert forall|i: int| 0 <= i < to.len() implies #[trigger] text[at + step + i]
                    == to[i] by {
                    assert(rest[at + i] == to[i]);
                }
                assert(occurs_at(text, to, at + step));
            }
        }
        law_fresh_replacement_is_restorable(rest, from, to);
        if !occurs_at(text, from, 0) {
            let whole = replaced(text, from, to);
            let mask = written(text, from, to);
            lemma_written_len(text, from, to);
            if occurs_at(whole, to, 0) {
                if forall|q: int| 0 <= q < to.len() ==> !#[trigger] mask[q] {
                    law_untouched_word_was_there(text, from, to, to, 0);
                } else {
                    let q = choose|q: int| 0 <= q < to.len() && #[trigger] mask[q];
                    let start = lemma_written_block(text, from, to, q);
                    assert(!mask[0]);
                    assert(differ_at(to, to, start));
                    let i = choose|i: int|
                        0 <= i < to.len() && 0 <= i + start < to.len() && #[trigger] to[i] != to[i
                            + start];
                    assert(whole[start + i] == to[i]);
                    assert(whole[0 + (i + start)] == to[i + start]);
                }
            }
        }
    }
}

/// Where a word stands, the text has the word as its stretch of that length; and a text contains
/// a word exactly when it is something, then the word, then something.
pub proof fn law_words_are_stretches(text: Seq<char>, word: Seq<char>)
    ensures
        forall|at: int| #[trigger]
            occurs_at(text, word, at) <==> 0 <= at && at + word.len() <= text.len()
                && text.subrange(at, at + word.len()) == word,
        contains_word(text, word) <==> exists|a: Seq<char>, b: Seq<char>|
            text == #[trigger] (a + word + b),
{
    assert forall|at: int| #[trigger]
        occurs_at(text, word, at) <==> 0 <= at && at + word.len() <= text.len() && text.subrange(
            at,
            at + word.len(),
        ) == word by {
        if occurs_at(text, word, at) {
            assert forall|i: int| 0 <= i < word.len() implies text.subrange(at, at + word.len())[i]
                == word[i] by {
                assert(text[at + i] == word[i]);
            }
            assert(text.subrange(at, at + word.len()) =~= word);
        }
        if 0 <= at && at + word.len() <= text.len() && text.subrange(at, at + word.len()) == word {
            assert forall|i: int| 0 <= i < word.len() implies #[trigger] text[at + i] == word[i] by {
                assert(text.subrange(at, at + word.len())[i] == word[i]);
            }
        }
    }
    if contains_word(text, word) {
        let at = choose|at: int| occurs_at(text, word, at);
        assert(text.subrange(at, at + word.len()) == word);
        let a = text.take(at);
        let b = text.skip(at + word.len());
        assert(text =~= a + word + b) by {
            assert forall|i: int| 0 <= i < text.len() implies text[i] == (a + word + b)[i] by {
                if at <= i < at + word.len() {
                    assert(text.subrange(at, at + word.len())[i - at] == word[i - at]);
                }
            }
        }
    }
    if exists|a: Seq<char>, b: Seq<char>| text == #[trigger] (a + word + b) {
        let (a, b) = choose|a: Seq<char>, b: Seq<char>| text == #[trigger] (a + word + b);
        assert(text.subrange(a.len() as int, a.len() as int + word.len()) =~= word);
        assert(occurs_at(text, word, a.len() as int));
    }
}

/// What stands before the first occurrence of the word stays, the word becomes its replacement,
/// and what stands behind it is replaced in turn.
pub proof fn law_first_occurrence_is_replaced(
    a: Seq<char>,
    from: Seq<char>,
    b: Seq<char>,
    to: Seq<char>,
)
    requires
        from.len() > 0,
        forall|at: int| 0 <= at < a.len() ==> !#[trigger] occurs_at(a + from + b, from, at),
    ensures
        replaced(a + from + b, from, to) == a + to + replaced(b, from, to),
    decreases a.len(),
{
    let text = a + from + b;
    if a.len() == 0 {
        assert forall|i: int| 0 <= i < from.len() implies #[trigger] text[0 + i] == from[i] by {}
        assert(occurs_at(text, from, 0));
        assert(text.skip(from.len() as int) =~= b);
        assert(a + to =~= to);
    } else {
        let rest = a.skip(1) + from + b;
        assert(!occurs_at(text, from, 0));
        assert(text.skip(1) =~= rest);
        assert forall|at: int| 0 <= at < a.skip(1).len() implies !#[trigger] occurs_at(
            rest,
            from,
            at,
        ) by {
            if occurs_at(rest, from, at) {
                assert forall|i: int| 0 <= i < from.len() implies #[trigger] text[at + 1 + i]
                    == from[i] by {
                    assert(rest[at + i] == from[i]);
                }
                assert(occurs_at(text, from, at + 1));
            }
        }
        law_first_occurrence_is_replaced(a.skip(1), from, b, to);
        assert(replaced(text, from, to) =~= a + to + replaced(b, from, to));
    }
}

} // verus!
