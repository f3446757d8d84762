use gigabyte_kbd_backlight::text::{
    find_space, has_prefix, is_text, is_whitespace, split_words, to_chars, trim_span,
};

fn words_of(line: &str) -> Vec<String> {
    let chars = to_chars(line);
    split_words(&chars).iter().map(|&(a, b)| chars[a..b].iter().collect::<String>()).collect()
}

fn trimmed(line: &str) -> String {
    let chars = to_chars(line);
    let (a, b) = trim_span(&chars);
    chars[a..b].iter().collect()
}

#[test]
fn whitespace_is_what_std_calls_whitespace() {
    let mut code: u32 = 0;
    while code <= 0x10FFFF {
        if let Some(c) = char::from_u32(code) {
            assert_eq!(is_whitespace(c), c.is_whitespace(), "U+{:04X}", code);
        }
        code += 1;
    }
}

#[test]
fn whitespace_examples() {
    assert!(is_whitespace(' '));
    assert!(is_whitespace('\t'));
    assert!(is_whitespace('\n'));
    assert!(is_whitespace('\r'));
    assert!(is_whitespace('\u{00A0}'));
    assert!(is_whitespace('\u{3000}'));
    assert!(!is_whitespace('a'));
    assert!(!is_whitespace('0'));
    assert!(!is_whitespace('\u{200B}'));
}

#[test]
fn to_chars_keeps_every_character() {
    assert_eq!(to_chars(""), Vec::<char>::new());
    assert_eq!(to_chars("ab c"), vec!['a', 'b', ' ', 'c']);
    assert_eq!(to_chars("h\u{e9}\u{3000}!"), vec!['h', '\u{e9}', '\u{3000}', '!']);
}

#[test]
fn is_text_compares_whole_words() {
    assert!(is_text(&['O', 'N'], "ON"));
    assert!(!is_text(&['O', 'N'], "OFF"));
    assert!(!is_text(&['O', 'N'], "O"));
    assert!(!is_text(&['O'], "ON"));
    assert!(!is_text(&['o', 'n'], "ON"));
    assert!(is_text(&[], ""));
}

#[test]
fn has_prefix_examples() {
    assert!(has_prefix(&to_chars("ERR x"), "ERR"));
    assert!(has_prefix(&to_chars("ERR"), "ERR"));
    assert!(!has_prefix(&to_chars("ER"), "ERR"));
    assert!(!has_prefix(&to_chars("OK"), "OK "));
    assert!(has_prefix(&to_chars("anything"), ""));
}

#[test]
fn find_space_gives_the_first() {
    assert_eq!(find_space(&to_chars("")), None);
    assert_eq!(find_space(&to_chars("abc")), None);
    assert_eq!(find_space(&to_chars("a\tb")), None);
    assert_eq!(find_space(&to_chars(" abc")), Some(0));
    assert_eq!(find_space(&to_chars("ab c d")), Some(2));
}

#[test]
fn split_words_examples() {
    assert_eq!(words_of(""), Vec::<String>::new());
    assert_eq!(words_of("   \t\n"), Vec::<String>::new());
    assert_eq!(words_of("ON"), vec!["ON"]);
    assert_eq!(words_of("  COLOR 1\t2  3\n"), vec!["COLOR", "1", "2", "3"]);
    assert_eq!(words_of("a\u{3000}b\u{00A0}c"), vec!["a", "b", "c"]);
}

#[test]
fn split_words_gives_spans_in_order() {
    let chars = to_chars("  ab c ");
    assert_eq!(split_words(&chars), vec![(2, 4), (5, 6)]);
}

#[test]
fn split_words_is_what_std_splits() {
    let alphabet = ['a', ' ', '\t', '\n', '1', '\u{2003}', '\u{e9}'];
    let mut line: Vec<char> = Vec::new();
    let mut counter: u32 = 0;
    while counter < 7 * 7 * 7 * 7 * 7 {
        line.clear();
        let mut rest = counter;
        let length = 1 + (counter % 5) as usize;
        while line.len() < length {
            line.push(alphabet[(rest % 7) as usize]);
            rest /= 7;
        }
        let text: String = line.iter().collect();
        let expected: Vec<String> = text.split_whitespace().map(|w| w.to_string()).collect();
        assert_eq!(words_of(&text), expected, "{:?}", text);
        assert_eq!(trimmed(&text), text.trim(), "{:?}", text);
        counter += 1;
    }
}

#[test]
fn trim_span_examples() {
    assert_eq!(trimmed(""), "");
    assert_eq!(trimmed("   "), "");
    assert_eq!(trimmed("  OK done \n"), "OK done");
    assert_eq!(trimmed("x"), "x");
    assert_eq!(trim_span(&to_chars("  ab ")), (2, 4));
    assert_eq!(trim_span(&to_chars("ab")), (0, 2));
}
