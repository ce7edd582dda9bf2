use cleo::chars::{find_char, name_order, parse_u8, same_text, split_first, text_less};

#[test]
fn u8_parsing_like_str_parse() {
    let cases = ["0", "255", "256", "+7", "-1", "", "+", "007", "1a", " 1"];
    for c in cases {
        assert_eq!(parse_u8(c, 0, c.chars().count()), c.parse::<u8>().ok(), "{c}");
    }
}

#[test]
fn finding_and_splitting() {
    assert_eq!(find_char("a.b.c", 0, 5, '.'), Some(1));
    assert_eq!(find_char("a.b.c", 2, 5, '.'), Some(3));
    assert_eq!(find_char("abc", 0, 3, '.'), None);
    assert_eq!(split_first("ab-cd", 0, 5, '-'), (2, Some(3)));
    assert_eq!(split_first("abcd", 0, 4, '-'), (4, None));
}

#[test]
fn text_order_and_equality() {
    assert!(text_less("abc", "abd"));
    assert!(text_less("ab", "abc"));
    assert!(!text_less("abc", "abc"));
    assert!(!text_less("b", "abc"));
    assert!(text_less("", "a"));
    assert!(same_text("héllo", "héllo"));
    assert!(!same_text("a", "ab"));
}

#[test]
fn stable_name_order() {
    let names: Vec<String> = ["b", "a", "c", "a", "b"].iter().map(|s| s.to_string()).collect();
    assert_eq!(name_order(&names), vec![1, 3, 0, 4, 2]);
    assert_eq!(name_order(&Vec::new()), Vec::<usize>::new());
}
