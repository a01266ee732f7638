//! Per-letter feedback for a guess against a target word.
//!
//! For each position of the guess, the letter is classified as green
//! (right letter, right position), yellow (letter occurs in the target,
//! but not at this position) or black (letter does not occur in the
//! target at all). Classification uses simple containment, with no
//! duplicate-letter counting: a repeated guess letter can receive more
//! yellow hints than the target has occurrences of that letter.

use vstd::prelude::*;

verus! {

/// One piece of feedback: a letter of the guess, the position it stood
/// at, and its classification ('g' = green, 'y' = yellow, 'b' = black).
#[derive(Clone, Copy, Debug)]
pub struct Hint {
    pub letter: char,
    pub position: usize,
    pub kind: char,
}

/// The classification of the guess letter at position `i`: black when the
/// target does not contain the letter, green when the target has it at the
/// same position, yellow otherwise.
pub open spec fn hint_kind_at(guess: Seq<char>, target: Seq<char>, i: int) -> char {
    if !target.contains(guess[i]) {
        'b'
    } else if target[i] == guess[i] {
        'g'
    } else {
        'y'
    }
}

/// The hint issued for position `i` of the guess.
pub open spec fn hint_at(guess: Seq<char>, target: Seq<char>, i: int) -> Hint {
    Hint { letter: guess[i], position: i as usize, kind: hint_kind_at(guess, target, i) }
}

/// The full feedback for a guess against a target, one hint per guess
/// position, in guess order.
pub open spec fn hints_for(guess: Seq<char>, target: Seq<char>) -> Seq<Hint> {
    Seq::new(guess.len(), |i: int| hint_at(guess, target, i))
}

/// Every hint in the sequence is green.
pub open spec fn all_green(hints: Seq<Hint>) -> bool {
    forall|i: int| 0 <= i < hints.len() ==> (#[trigger] hints[i]).kind == 'g'
}

/// Every hint in the sequence is black.
pub open spec fn all_black(hints: Seq<Hint>) -> bool {
    forall|i: int| 0 <= i < hints.len() ==> (#[trigger] hints[i]).kind == 'b'
}

/// Whether the character sequence of `s` contains `c`.
pub(crate) fn str_contains_char(s: &str, c: char) -> (found: bool)
    ensures
        found == s@.contains(c),
{
    let n = s.unicode_len();
    let mut i: usize = 0;
    while i < n
        invariant
            0 <= i <= n,
            n == s@.len(),
            forall|k: int| 0 <= k < i ==> s@[k] != c,
        decreases n - i,
    {
        if s.get_char(i) == c {
            return true;
        }
        i += 1;
    }
    false
}

/// Computes the feedback for `guess` against `target`, one hint per guess
/// position.
pub fn get_hints(guess: &String, target: &String) -> (hints: Vec<Hint>)
    requires
        guess@.len() == target@.len(),
    ensures
        hints@ == hints_for(guess@, target@),
{
    let n = guess.as_str().unicode_len();
    let mut hints: Vec<Hint> = Vec::new();
    let mut pos: usize = 0;
    while pos < n
        invariant
            0 <= pos <= n,
            n == guess@.len(),
            guess@.len() == target@.len(),
            hints@.len() == pos,
            forall|k: int| 0 <= k < pos ==> hints@[k] == hints_for(guess@, target@)[k],
        decreases n - pos,
    {
        let c = guess.as_str().get_char(pos);
        let mut kind: char = 'b';
        if str_contains_char(target.as_str(), c) {
            if target.as_str().get_char(pos) == c {
                kind = 'g';
            } else {
                kind = 'y';
            }
        }
        hints.push(Hint { letter: c, position: pos, kind });
        pos += 1;
    }
    proof {
        assert(hints@ =~= hints_for(guess@, target@));
    }
    hints
}

/// Whether every hint is green; an empty hint list counts as a win.
pub fn is_winner(hints: &Vec<Hint>) -> (won: bool)
    ensures
        won == all_green(hints@),
{
    let n = hints.len();
    let mut i: usize = 0;
    while i < n
        invariant
            0 <= i <= n,
            n == hints@.len(),
            forall|k: int| 0 <= k < i ==> (#[trigger] hints@[k]).kind == 'g',
        decreases n - i,
    {
        if hints[i].kind != 'g' {
            return false;
        }
        i += 1;
    }
    true
}

/// A guess equal to the target receives all-green feedback.
pub proof fn lemma_equal_guess_all_green(guess: Seq<char>, target: Seq<char>)
    requires
        guess == target,
    ensures
        all_green(hints_for(guess, target)),
{
    assert forall|i: int| 0 <= i < hints_for(guess, target).len() implies (#[trigger] hints_for(
        guess,
        target,
    )[i]).kind == 'g' by {
        assert(target.contains(guess[i]));
    }
}

/// A guess that shares no letter with the target receives all-black
/// feedback.
pub proof fn lemma_disjoint_guess_all_black(guess: Seq<char>, target: Seq<char>)
    requires
        forall|i: int| 0 <= i < guess.len() ==> !target.contains(#[trigger] guess[i]),
    ensures
        all_black(hints_for(guess, target)),
{
}

/// All-green feedback arises exactly when the guess equals the target,
/// for words of equal length.
pub proof fn lemma_all_green_iff_equal(guess: Seq<char>, target: Seq<char>)
    requires
        guess.len() == target.len(),
    ensures
        all_green(hints_for(guess, target)) <==> guess == target,
{
    if all_green(hints_for(guess, target)) {
        assert forall|i: int| 0 <= i < guess.len() implies guess[i] == target[i] by {
            assert(hints_for(guess, target)[i].kind == 'g');
        }
        assert(guess =~= target);
    }
    if guess == target {
        lemma_equal_guess_all_green(guess, target);
    }
}

} // verus!
