use wordle::feedback::Hint;
use wordle::feedback::get_hints;
use wordle::narrow::narrow_guesses;

fn words(list: &[&str]) -> Vec<String> {
    list.iter().map(|w| w.to_string()).collect()
}

#[test]
fn green_hint_pins_the_position() {
    let candidates = words(&["crane", "grape", "stone"]);
    let hint = Hint { letter: 'c', position: 0, kind: 'g' };
    let result = narrow_guesses(candidates, vec![hint]);
    assert_eq!(result, words(&["crane"]));
}

#[test]
fn yellow_hint_wants_the_letter_elsewhere() {
    // 'e' yellow at position 0: drop words without 'e' and words with
    // 'e' right there
    let candidates = words(&["eagle", "crane", "spill"]);
    let hint = Hint { letter: 'e', position: 0, kind: 'y' };
    let result = narrow_guesses(candidates, vec![hint]);
    assert_eq!(result, words(&["crane"]));
}

#[test]
fn black_hint_bans_the_letter() {
    let candidates = words(&["crane", "stone", "light"]);
    let hint = Hint { letter: 'e', position: 4, kind: 'b' };
    let result = narrow_guesses(candidates, vec![hint]);
    assert_eq!(result, words(&["light"]));
}

#[test]
fn unknown_hint_kind_keeps_everything() {
    // a hint whose kind is none of 'g', 'y', 'b' constrains nothing
    let candidates = words(&["crane", "stone"]);
    let hint = Hint { letter: 'e', position: 0, kind: 'x' };
    let result = narrow_guesses(candidates.clone(), vec![hint]);
    assert_eq!(result, candidates);
}

#[test]
fn all_hints_must_be_satisfied() {
    // green 's' at 0 and black 'e': "stone" fails the second hint
    let candidates = words(&["stone", "still", "crane"]);
    let hints = vec![
        Hint { letter: 's', position: 0, kind: 'g' },
        Hint { letter: 'e', position: 4, kind: 'b' },
    ];
    let result = narrow_guesses(candidates, hints);
    assert_eq!(result, words(&["still"]));
}

#[test]
fn order_is_preserved() {
    let candidates = words(&["stone", "shore", "snore", "crane"]);
    let hint = Hint { letter: 's', position: 0, kind: 'g' };
    let result = narrow_guesses(candidates, vec![hint]);
    assert_eq!(result, words(&["stone", "shore", "snore"]));
}

#[test]
fn narrowing_twice_equals_narrowing_once() {
    let candidates = words(&["crane", "grape", "stone", "caney"]);
    let hints = get_hints(&"carve".to_string(), &"crane".to_string());
    let once = narrow_guesses(candidates.clone(), hints.clone());
    let twice = narrow_guesses(once.clone(), hints);
    assert_eq!(twice, once);
}

#[test]
fn narrowing_never_grows_the_list() {
    let candidates = words(&["crane", "grape", "stone"]);
    let hints = get_hints(&"grape".to_string(), &"crane".to_string());
    let result = narrow_guesses(candidates.clone(), hints);
    assert!(result.len() <= candidates.len());
}

#[test]
fn no_hints_keeps_everything() {
    let candidates = words(&["crane", "stone"]);
    let result = narrow_guesses(candidates.clone(), Vec::new());
    assert_eq!(result, candidates);
}
