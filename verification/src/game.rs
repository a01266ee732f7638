//! The turn state machine shared by the solver and interactive modes.
//!
//! A game holds a turn counter and the current candidate list, ordered by
//! descending source frequency. Each turn guesses the most frequent
//! remaining candidate. The solver computes feedback against a known
//! target; the interactive mode takes feedback typed by a human. A game
//! ends on a win (all-green feedback), on an empty candidate list, or
//! after six turns.

use vstd::prelude::*;

use crate::feedback::Hint;
use crate::feedback::all_green;
use crate::feedback::get_hints;
use crate::feedback::hint_at;
use crate::feedback::hints_for;
use crate::feedback::is_winner;
use crate::feedback::lemma_all_green_iff_equal;
use crate::narrow::lemma_narrow_members;
use crate::narrow::narrow_guesses;
use crate::narrow::narrow_model;

verus! {

/// The limit on the number of turns in a game.
pub const TURN_LIMIT: u32 = 6;

/// What one automatic solver turn ended in.
#[derive(Clone, Copy, Debug, PartialEq, Eq)]
pub enum TurnOutcome {
    /// The guess matched the target.
    Won,
    /// The turn limit was reached without a win.
    TurnLimitReached,
    /// No candidate is consistent with the feedback seen so far.
    Exhausted,
    /// The game goes on with the narrowed candidate list.
    Continue,
}

/// What one interactive turn ended in.
#[derive(Clone, Copy, Debug, PartialEq, Eq)]
pub enum PlayOutcome {
    /// The feedback line did not have exactly five characters; the turn
    /// was not consumed.
    InvalidInput,
    /// The user reported all-green feedback.
    Won,
    /// The turn limit was reached without a win.
    TurnLimitReached,
    /// No candidate is consistent with the feedback seen so far.
    Exhausted,
    /// The game goes on with the narrowed candidate list.
    Continue,
}

/// How a finished solver run ended.
#[derive(Debug, PartialEq, Eq)]
pub enum SolveOutcome {
    /// The target was guessed, on the given 1-based turn.
    Won { word: String, turn: u32 },
    /// Six turns passed without a win.
    TurnLimitReached,
    /// The candidate list ran empty before the target was found.
    Exhausted,
}

/// Every character of the feedback line reports green.
pub open spec fn all_green_line(line: Seq<char>) -> bool {
    forall|i: int| 0 <= i < line.len() ==> line[i] == 'g'
}

/// The hint built from position `i` of a user feedback line: the guess
/// letter at that position, classified by the line character.
pub open spec fn line_hint_at(guess: Seq<char>, line: Seq<char>, i: int) -> Hint {
    Hint { letter: guess[i], position: i as usize, kind: line[i] }
}

/// The hints built from a user feedback line against the current guess.
pub open spec fn line_hints(guess: Seq<char>, line: Seq<char>) -> Seq<Hint> {
    Seq::new(line.len(), |i: int| line_hint_at(guess, line, i))
}

/// The outcome the solver reaches from the given candidate list on the
/// given (1-based) turn: a win as soon as the first candidate matches
/// the target, the turn limit at turn six, exhaustion when narrowing
/// empties the list, and otherwise another turn on the narrowed list.
pub open spec fn solve_model(cands: Seq<String>, target: Seq<char>, turn: int) -> SolveOutcome
    decreases 6 - turn,
{
    if cands.len() == 0 {
        SolveOutcome::Exhausted
    } else {
        let hs = hints_for(cands[0]@, target);
        if all_green(hs) {
            SolveOutcome::Won { word: cands[0], turn: turn as u32 }
        } else if turn >= 6 {
            SolveOutcome::TurnLimitReached
        } else {
            let narrowed = narrow_model(cands, hs);
            if narrowed.len() == 0 {
                SolveOutcome::Exhausted
            } else {
                solve_model(narrowed, target, turn + 1)
            }
        }
    }
}

/// The turn state: the 1-based count of turns taken so far and the
/// candidates still consistent with all feedback seen.
pub struct GameState {
    pub turn: u32,
    pub candidates: Vec<String>,
}

impl GameState {
    /// A state on which a turn can be taken: turns remain, and there is
    /// at least one five-letter candidate to guess.
    pub open spec fn wf(&self) -> bool {
        &&& self.turn < TURN_LIMIT
        &&& self.candidates@.len() > 0
        &&& forall|i: int|
            0 <= i < self.candidates@.len() ==> (#[trigger] self.candidates@[i])@.len() == 5
    }

    /// Starts a game with the full loaded word list and no turns taken.
    pub fn new(words: Vec<String>) -> (state: GameState)
        requires
            words@.len() > 0,
            forall|i: int| 0 <= i < words@.len() ==> (#[trigger] words@[i])@.len() == 5,
        ensures
            state.turn == 0,
            state.candidates == words,
            state.wf(),
    {
        GameState { turn: 0, candidates: words }
    }

    /// Takes one automatic turn against a known target: guesses the
    /// first candidate, computes its feedback, and either wins, hits
    /// the turn limit, or narrows the candidate list.
    pub fn solve_turn(&mut self, target: &String) -> (r: TurnOutcome)
        requires
            old(self).wf(),
            target@.len() == 5,
        ensures
            final(self).turn == old(self).turn + 1,
            ({
                let hs = hints_for(old(self).candidates@[0]@, target@);
                let narrowed = narrow_model(old(self).candidates@, hs);
                &&& all_green(hs) ==> r == TurnOutcome::Won
                    && final(self).candidates == old(self).candidates
                    && old(self).candidates@[0]@ == target@
                &&& !all_green(hs) && old(self).turn + 1 >= 6 ==> r
                    == TurnOutcome::TurnLimitReached
                    && final(self).candidates == old(self).candidates
                &&& !all_green(hs) && old(self).turn + 1 < 6 ==> {
                    &&& final(self).candidates@ == narrowed
                    &&& (narrowed.len() == 0 <==> r == TurnOutcome::Exhausted)
                    &&& (narrowed.len() > 0 <==> r == TurnOutcome::Continue)
                    &&& (r == TurnOutcome::Continue ==> final(self).wf())
                }
            }),
    {
        self.turn = self.turn + 1;
        let guess = &self.candidates[0];
        let hints = get_hints(guess, target);
        if is_winner(&hints) {
            proof {
                lemma_all_green_iff_equal(self.candidates@[0]@, target@);
            }
            return TurnOutcome::Won;
        }
        if self.turn >= TURN_LIMIT {
            return TurnOutcome::TurnLimitReached;
        }
        proof {
            assert forall|j: int| 0 <= j < hints@.len() implies (#[trigger] hints@[j]).position
                < 5 by {
                assert(hints@[j] == hint_at(old(self).candidates@[0]@, target@, j));
            }
        }
        let mut cands: Vec<String> = Vec::new();
        core::mem::swap(&mut cands, &mut self.candidates);
        let narrowed = narrow_guesses(cands, hints);
        self.candidates = narrowed;
        if self.candidates.len() == 0 {
            TurnOutcome::Exhausted
        } else {
            proof {
                lemma_narrow_members(old(self).candidates@, hints@);
                assert forall|i: int| 0 <= i < self.candidates@.len() implies (
                #[trigger] self.candidates@[i])@.len() == 5 by {
                    let w = self.candidates@[i];
                    let j = choose|j: int|
                        0 <= j < old(self).candidates@.len() && old(self).candidates@[j] == w;
                }
            }
            TurnOutcome::Continue
        }
    }

    /// Takes one interactive turn from a user feedback line: a line of
    /// the wrong length is rejected without consuming the turn, the
    /// all-green line wins, and any other line narrows the candidate
    /// list by the hints it spells for the current guess.
    pub fn play_turn(&mut self, hint_line: &str) -> (r: PlayOutcome)
        requires
            old(self).wf(),
        ensures
            hint_line@.len() != 5 ==> r == PlayOutcome::InvalidInput && *final(self) == *old(self),
            hint_line@.len() == 5 ==> final(self).turn == old(self).turn + 1,
            hint_line@.len() == 5 && all_green_line(hint_line@) ==> r == PlayOutcome::Won
                && final(self).candidates == old(self).candidates,
            hint_line@.len() == 5 && !all_green_line(hint_line@) && old(self).turn + 1 >= 6 ==> r
                == PlayOutcome::TurnLimitReached && final(self).candidates == old(self).candidates,
            hint_line@.len() == 5 && !all_green_line(hint_line@) && old(self).turn + 1 < 6 ==> ({
                let narrowed = narrow_model(
                    old(self).candidates@,
                    line_hints(old(self).candidates@[0]@, hint_line@),
                );
                &&& final(self).candidates@ == narrowed
                &&& (narrowed.len() == 0 <==> r == PlayOutcome::Exhausted)
                &&& (narrowed.len() > 0 <==> r == PlayOutcome::Continue)
                &&& (r == PlayOutcome::Continue ==> final(self).wf())
            }),
    {
        let n = hint_line.unicode_len();
        if n != 5 {
            return PlayOutcome::InvalidInput;
        }
        self.turn = self.turn + 1;
        let mut green_count: usize = 0;
        let mut i: usize = 0;
        while i < 5
            invariant
                0 <= i <= 5,
                hint_line@.len() == 5,
                green_count <= i,
                green_count == i <==> (forall|k: int| 0 <= k < i ==> hint_line@[k] == 'g'),
            decreases 5 - i,
        {
            if hint_line.get_char(i) == 'g' {
                green_count += 1;
            } else {
                assert(hint_line@[i as int] != 'g');
            }
            i += 1;
        }
        if green_count == 5 {
            return PlayOutcome::Won;
        }
        if self.turn >= TURN_LIMIT {
            return PlayOutcome::TurnLimitReached;
        }
        let ghost guess_view = self.candidates@[0]@;
        let mut hints: Vec<Hint> = Vec::new();
        let mut pos: usize = 0;
        while pos < 5
            invariant
                0 <= pos <= 5,
                hint_line@.len() == 5,
                self.candidates@.len() > 0,
                guess_view == self.candidates@[0]@,
                guess_view.len() == 5,
                hints@.len() == pos,
                forall|k: int|
                    0 <= k < pos ==> hints@[k] == line_hint_at(guess_view, hint_line@, k),
            decreases 5 - pos,
        {
            let letter = self.candidates[0].as_str().get_char(pos);
            let kind = hint_line.get_char(pos);
            hints.push(Hint { letter, position: pos, kind });
            pos += 1;
        }
        proof {
            assert(hints@ =~= line_hints(guess_view, hint_line@));
            assert forall|j: int| 0 <= j < hints@.len() implies (#[trigger] hints@[j]).position
                < 5 by {
                assert(hints@[j] == line_hint_at(guess_view, hint_line@, j));
            }
        }
        let mut cands: Vec<String> = Vec::new();
        core::mem::swap(&mut cands, &mut self.candidates);
        let narrowed = narrow_guesses(cands, hints);
        self.candidates = narrowed;
        if self.candidates.len() == 0 {
            PlayOutcome::Exhausted
        } else {
            proof {
                lemma_narrow_members(old(self).candidates@, hints@);
                assert forall|i2: int| 0 <= i2 < self.candidates@.len() implies (
                #[trigger] self.candidates@[i2])@.len() == 5 by {
                    let w = self.candidates@[i2];
                    let j = choose|j: int|
                        0 <= j < old(self).candidates@.len() && old(self).candidates@[j] == w;
                }
            }
            PlayOutcome::Continue
        }
    }
}

/// Runs the automatic solver to completion against a known target,
/// starting from the full word list on turn one.
#[verifier::loop_isolation(false)]
pub fn solve(words: Vec<String>, target: String) -> (r: SolveOutcome)
    requires
        words@.len() > 0,
        forall|i: int| 0 <= i < words@.len() ==> (#[trigger] words@[i])@.len() == 5,
        target@.len() == 5,
    ensures
        r == solve_model(words@, target@, 1),
        r matches SolveOutcome::Won { word, turn } ==> word@ == target@ && 1 <= turn <= 6,
{
    let ghost orig = words@;
    let mut state = GameState::new(words);
    loop
        invariant
            state.wf(),
            target@.len() == 5,
            solve_model(orig, target@, 1) == solve_model(
                state.candidates@,
                target@,
                state.turn as int + 1,
            ),
        decreases 6 - state.turn,
    {
        let ghost pre = state;
        let first = &state.candidates[0];
        let guess = first.clone();
        match state.solve_turn(&target) {
            TurnOutcome::Won => {
                proof {
                    let t = pre.turn as int + 1;
                    assert(solve_model(pre.candidates@, target@, t) == SolveOutcome::Won {
                        word: pre.candidates@[0],
                        turn: t as u32,
                    });
                    assert(guess == pre.candidates@[0]);
                }
                return SolveOutcome::Won { word: guess, turn: state.turn };
            },
            TurnOutcome::TurnLimitReached => {
                proof {
                    let t = pre.turn as int + 1;
                    assert(solve_model(pre.candidates@, target@, t)
                        == SolveOutcome::TurnLimitReached);
                }
                return SolveOutcome::TurnLimitReached;
            },
            TurnOutcome::Exhausted => {
                proof {
                    let t = pre.turn as int + 1;
                    assert(solve_model(pre.candidates@, target@, t) == SolveOutcome::Exhausted);
                }
                return SolveOutcome::Exhausted;
            },
            TurnOutcome::Continue => {
                proof {
                    assert(solve_model(pre.candidates@, target@, pre.turn as int + 1)
                        == solve_model(state.candidates@, target@, state.turn as int + 1));
                }
            },
        }
    }
}

} // verus!
