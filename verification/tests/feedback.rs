use wordle::feedback::Hint;
use wordle::feedback::get_hints;
use wordle::feedback::is_winner;

fn kinds(hints: &Vec<Hint>) -> String {
    hints.iter().map(|h| h.kind).collect()
}

#[test]
fn equal_guess_is_all_green() {
    let hints = get_hints(&"crane".to_string(), &"crane".to_string());
    assert_eq!(kinds(&hints), "ggggg");
    assert!(is_winner(&hints));
}

#[test]
fn disjoint_guess_is_all_black() {
    let hints = get_hints(&"plumb".to_string(), &"crane".to_string());
    assert_eq!(kinds(&hints), "bbbbb");
    assert!(!is_winner(&hints));
}

#[test]
fn hints_carry_guess_letters_and_positions() {
    let hints = get_hints(&"nacre".to_string(), &"crane".to_string());
    assert_eq!(hints.len(), 5);
    for (i, h) in hints.iter().enumerate() {
        assert_eq!(h.position, i);
    }
    let letters: String = hints.iter().map(|h| h.letter).collect();
    assert_eq!(letters, "nacre");
}

#[test]
fn misplaced_letters_are_yellow() {
    // every letter of "ranec" occurs in "crane", none at its own position
    let hints = get_hints(&"ranec".to_string(), &"crane".to_string());
    assert_eq!(kinds(&hints), "yyyyy");
}

#[test]
fn mixed_feedback() {
    // "caney" vs "crane": c green; a, n, e yellow; y black
    let hints = get_hints(&"caney".to_string(), &"crane".to_string());
    assert_eq!(kinds(&hints), "gyyyb");
}

#[test]
fn repeated_letter_gets_repeated_hints() {
    // containment only, no duplicate-letter counting: both 'e's of
    // "eerie" score against the single 'e' of "crane"
    let hints = get_hints(&"eerie".to_string(), &"crane".to_string());
    assert_eq!(kinds(&hints), "yyybg");
}

#[test]
fn empty_hint_list_counts_as_win() {
    assert!(is_winner(&Vec::new()));
}

#[test]
fn single_non_green_hint_blocks_win() {
    let mut hints = get_hints(&"crane".to_string(), &"crane".to_string());
    hints[4] = Hint { letter: 'e', position: 4, kind: 'y' };
    assert!(!is_winner(&hints));
}
