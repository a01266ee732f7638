//! Narrowing a candidate list with accumulated feedback.
//!
//! A candidate word survives a hint when it does not contradict it: a
//! green hint pins the letter at its position, a yellow hint demands the
//! letter somewhere else, and a black hint bans the letter from the word.
//! Narrowing keeps exactly the candidates that survive every hint, in
//! their original order.

use vstd::prelude::*;

use crate::feedback::Hint;
use crate::feedback::str_contains_char;

verus! {

broadcast use vstd::seq_lib::group_filter_ensures;

/// Whether the word does not contradict a single hint.
pub open spec fn satisfies_hint(w: Seq<char>, h: Hint) -> bool {
    &&& h.kind == 'g' ==> w[h.position as int] == h.letter
    &&& h.kind == 'y' ==> w[h.position as int] != h.letter && w.contains(h.letter)
    &&& h.kind == 'b' ==> !w.contains(h.letter)
}

/// Whether the word does not contradict any of the hints.
pub open spec fn word_ok(w: Seq<char>, hints: Seq<Hint>) -> bool {
    forall|j: int| 0 <= j < hints.len() ==> satisfies_hint(w, #[trigger] hints[j])
}

/// The candidates that survive every hint, in their original order.
pub open spec fn narrow_model(words: Seq<String>, hints: Seq<Hint>) -> Seq<String> {
    words.filter(|w: String| word_ok(w@, hints))
}

/// Whether `word` survives every hint in `hints`.
fn word_matches_hints(word: &String, hints: &Vec<Hint>) -> (ok: bool)
    requires
        forall|j: int| 0 <= j < hints@.len() ==> (#[trigger] hints@[j]).position < word@.len(),
    ensures
        ok == word_ok(word@, hints@),
{
    let n = hints.len();
    let mut j: usize = 0;
    while j < n
        invariant
            0 <= j <= n,
            n == hints@.len(),
            forall|k: int| 0 <= k < hints@.len() ==> (#[trigger] hints@[k]).position
                < word@.len(),
            forall|k: int| 0 <= k < j ==> satisfies_hint(word@, #[trigger] hints@[k]),
        decreases n - j,
    {
        let h = hints[j];
        if h.kind == 'g' {
            if word.as_str().get_char(h.position) != h.letter {
                assert(!satisfies_hint(word@, hints@[j as int]));
                return false;
            }
        } else if h.kind == 'y' {
            if word.as_str().get_char(h.position) == h.letter || !str_contains_char(
                word.as_str(),
                h.letter,
            ) {
                assert(!satisfies_hint(word@, hints@[j as int]));
                return false;
            }
        } else if h.kind == 'b' {
            if str_contains_char(word.as_str(), h.letter) {
                assert(!satisfies_hint(word@, hints@[j as int]));
                return false;
            }
        }
        assert(satisfies_hint(word@, hints@[j as int]));
        j += 1;
    }
    true
}

/// Narrows the candidate list to the words consistent with all the given
/// hints; the surviving words keep their order, and the list never grows.
pub fn narrow_guesses(words: Vec<String>, hints: Vec<Hint>) -> (guesses: Vec<String>)
    requires
        forall|i: int| 0 <= i < words@.len() ==> (#[trigger] words@[i])@.len() == 5,
        forall|j: int| 0 <= j < hints@.len() ==> (#[trigger] hints@[j]).position < 5,
    ensures
        guesses@ == narrow_model(words@, hints@),
        guesses@.len() <= words@.len(),
{
    let n = words.len();
    let mut guesses: Vec<String> = Vec::new();
    let mut i: usize = 0;
    while i < n
        invariant
            0 <= i <= n,
            n == words@.len(),
            forall|k: int| 0 <= k < words@.len() ==> (#[trigger] words@[k])@.len() == 5,
            forall|j: int| 0 <= j < hints@.len() ==> (#[trigger] hints@[j]).position < 5,
            guesses@ == narrow_model(words@.take(i as int), hints@),
        decreases n - i,
    {
        let ghost prefix = words@.take(i as int);
        let word = &words[i];
        if word_matches_hints(word, &hints) {
            guesses.push(word.clone());
        }
        proof {
            reveal(Seq::filter);
            let next = words@.take(i as int + 1);
            assert(next.drop_last() =~= prefix);
            assert(next.last() == words@[i as int]);
            assert(guesses@ == narrow_model(next, hints@));
        }
        i += 1;
    }
    proof {
        assert(words@.take(n as int) =~= words@);
    }
    guesses
}

/// Every word that narrowing keeps comes from the original list.
pub proof fn lemma_narrow_members(words: Seq<String>, hints: Seq<Hint>)
    ensures
        forall|i: int|
            0 <= i < narrow_model(words, hints).len() ==> words.contains(
                #[trigger] narrow_model(words, hints)[i],
            ),
    decreases words.len(),
{
    reveal(Seq::filter);
    if words.len() > 0 {
        lemma_narrow_members(words.drop_last(), hints);
        assert forall|i: int| 0 <= i < narrow_model(words, hints).len() implies words.contains(
            #[trigger] narrow_model(words, hints)[i],
        ) by {
            let kept = narrow_model(words, hints)[i];
            if i < narrow_model(words.drop_last(), hints).len() {
                let j = choose|j: int|
                    0 <= j < words.drop_last().len() && words.drop_last()[j] == kept;
                assert(words[j] == kept);
            } else {
                assert(kept == words.last());
                assert(words[words.len() - 1] == kept);
            }
        }
    }
}

/// A list whose words all survive the hints is left unchanged by
/// narrowing.
pub proof fn lemma_narrow_all_ok_identity(words: Seq<String>, hints: Seq<Hint>)
    requires
        forall|i: int| 0 <= i < words.len() ==> word_ok((#[trigger] words[i])@, hints),
    ensures
        narrow_model(words, hints) == words,
    decreases words.len(),
{
    reveal(Seq::filter);
    if words.len() == 0 {
        assert(narrow_model(words, hints) =~= words);
    } else {
        lemma_narrow_all_ok_identity(words.drop_last(), hints);
        assert(word_ok(words.last()@, hints));
        assert(narrow_model(words, hints) =~= words);
    }
}

/// Narrowing is idempotent: applying the same hints a second time changes
/// nothing, because every surviving word already satisfies them.
pub proof fn lemma_narrow_idempotent(words: Seq<String>, hints: Seq<Hint>)
    ensures
        narrow_model(narrow_model(words, hints), hints) == narrow_model(words, hints),
{
    let once = narrow_model(words, hints);
    assert forall|i: int| 0 <= i < once.len() implies word_ok((#[trigger] once[i])@, hints) by {
        let pred = |w: String| word_ok(w@, hints);
        assert(pred(once[i]));
    }
    lemma_narrow_all_ok_identity(once, hints);
}

/// Narrowing never increases the size of the candidate list.
pub proof fn lemma_narrow_never_grows(words: Seq<String>, hints: Seq<Hint>)
    ensures
        narrow_model(words, hints).len() <= words.len(),
{
}

} // verus!
