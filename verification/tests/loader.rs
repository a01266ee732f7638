use wordle::loader::parse_words;

fn lines(list: &[&str]) -> Vec<String> {
    list.iter().map(|l| l.to_string()).collect()
}

#[test]
fn three_words_under_a_larger_count() {
    let source = lines(&["apple\t100", "crane\t50", "stone\t25"]);
    let mut words: Vec<String> = Vec::new();
    parse_words(&mut words, &source, 10);
    assert_eq!(words, vec!["apple", "crane", "stone"]);
}

#[test]
fn stops_after_count_words() {
    let source = lines(&["apple\t100", "crane\t50", "stone\t25"]);
    let mut words: Vec<String> = Vec::new();
    parse_words(&mut words, &source, 2);
    assert_eq!(words, vec!["apple", "crane"]);
}

#[test]
fn skips_words_that_are_not_five_letters() {
    let source = lines(&["the\t900", "banana\t300", "crane\t50", "a\t10"]);
    let mut words: Vec<String> = Vec::new();
    parse_words(&mut words, &source, 10);
    assert_eq!(words, vec!["crane"]);
}

#[test]
fn takes_the_field_before_the_last_tab() {
    // with several tabs the frequency is the last field and the word
    // the one just before it
    let source = lines(&["extra\tgreat\t70", "plain\t20"]);
    let mut words: Vec<String> = Vec::new();
    parse_words(&mut words, &source, 10);
    assert_eq!(words, vec!["great", "plain"]);
}

#[test]
fn appends_after_existing_words() {
    let source = lines(&["crane\t50"]);
    let mut words: Vec<String> = vec!["prior".to_string()];
    parse_words(&mut words, &source, 10);
    assert_eq!(words, vec!["prior", "crane"]);
}

#[test]
fn empty_source_yields_no_words() {
    let source: Vec<String> = Vec::new();
    let mut words: Vec<String> = Vec::new();
    parse_words(&mut words, &source, 10);
    assert!(words.is_empty());
}

#[test]
fn non_five_letter_lines_do_not_consume_the_count() {
    let source = lines(&["banana\t300", "crane\t50", "stone\t25"]);
    let mut words: Vec<String> = Vec::new();
    parse_words(&mut words, &source, 2);
    assert_eq!(words, vec!["crane", "stone"]);
}
