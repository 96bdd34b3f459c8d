use tusk::words::{to_ascii_lower, to_chars, word_bounds, word_is, word_is_lower};

fn chars(text: &str) -> Vec<char> {
    text.chars().collect()
}

fn words(text: &str) -> Vec<String> {
    let all = chars(text);
    word_bounds(&all).iter().map(|(from, to)| all[*from..*to].iter().collect()).collect()
}

#[test]
fn characters_of_a_string() {
    assert_eq!(to_chars(""), Vec::<char>::new());
    assert_eq!(to_chars("a b"), vec!['a', ' ', 'b']);
    assert_eq!(to_chars("é€"), vec!['é', '€']);
}

#[test]
fn words_are_split_at_every_space() {
    assert_eq!(words(""), vec![""]);
    assert_eq!(words("status"), vec!["status"]);
    assert_eq!(words("command 1 2"), vec!["command", "1", "2"]);
    assert_eq!(words("a  b"), vec!["a", "", "b"]);
    assert_eq!(words(" a"), vec!["", "a"]);
    assert_eq!(words("a "), vec!["a", ""]);
    assert_eq!(words(" "), vec!["", ""]);
    assert_eq!(words("a\tb c"), vec!["a\tb", "c"]);
}

#[test]
fn words_are_split_as_by_str_split() {
    for text in ["", " ", "  ", "a", "a b", " a b ", "control  x on", "é ü  €", "q "] {
        let expected: Vec<String> = text.split(' ').map(|w| w.to_string()).collect();
        assert_eq!(words(text), expected, "{:?}", text);
    }
}

#[test]
fn ascii_letters_are_lowered() {
    assert_eq!(to_ascii_lower('A'), 'a');
    assert_eq!(to_ascii_lower('Z'), 'z');
    assert_eq!(to_ascii_lower('a'), 'a');
    assert_eq!(to_ascii_lower('@'), '@');
    assert_eq!(to_ascii_lower('['), '[');
    assert_eq!(to_ascii_lower('0'), '0');
    assert_eq!(to_ascii_lower('É'), 'É');
    for c in '\0'..='\u{ff}' {
        assert_eq!(to_ascii_lower(c), c.to_ascii_lowercase());
    }
}

#[test]
fn words_compare_with_keywords() {
    assert!(word_is(&chars("on"), "on"));
    assert!(!word_is(&chars("On"), "on"));
    assert!(!word_is(&chars("o"), "on"));
    assert!(!word_is(&chars("onn"), "on"));
    assert!(word_is(&chars(""), ""));
    assert!(word_is_lower(&chars("StAtUs"), "status"));
    assert!(word_is_lower(&chars("status"), "status"));
    assert!(!word_is_lower(&chars("statu"), "status"));
    assert!(!word_is_lower(&chars("statis"), "status"));
    // only the word is lowered, not the keyword
    assert!(!word_is_lower(&chars("q"), "Q"));
}

#[test]
fn lowering_the_letters_of_the_keywords() {
    // the letters that the keywords of the command lines are written with
    let keywords = [
        "identify",
        "status",
        "command",
        "control",
        "rawstatus",
        "togglereverse",
        "togglehighbeam",
        "help",
        "exit",
        "quit",
        "q",
    ];
    let mut letters: Vec<char> = keywords.iter().flat_map(|k| k.chars()).collect();
    letters.sort();
    letters.dedup();
    // no character but the upper-case ASCII letter is lowered to one of them
    for c in '\0'..=char::MAX {
        let lowered: Vec<char> = c.to_lowercase().collect();
        for letter in &letters {
            assert_eq!(lowered == [*letter], to_ascii_lower(c) == *letter, "{:?}", c);
        }
    }
}
