use collada::text::join;
use collada::text::separates;
use collada::text::split_into;

fn split(s: &str) -> Vec<String> {
    let mut out = Vec::new();
    split_into(s, &mut out);
    out
}

#[test]
fn separators_are_the_white_space_of_unicode() {
    for code in 0..=0x10ffffu32 {
        if let Some(c) = char::from_u32(code) {
            assert_eq!(separates(c), c.is_whitespace(), "{:x}", code);
        }
    }
}

#[test]
fn split_agrees_with_split_whitespace() {
    for s in [
        "",
        " ",
        "foo",
        "foo bar baz",
        "  foo   bar  ",
        "\tfoo\nbar\r\nbaz\u{b}\u{c}",
        "a\u{a0}b\u{1680}c\u{2003}d\u{2028}e\u{2029}f\u{202f}g\u{205f}h\u{3000}i\u{85}j",
        "no\u{200b}break",
        "ünï cödé wörds",
        "x",
        " x",
        "x ",
    ] {
        let expected: Vec<String> = s.split_whitespace().map(|w| w.to_string()).collect();
        assert_eq!(split(s), expected, "{:?}", s);
    }
}

#[test]
fn split_appends_to_what_is_there() {
    let mut out = vec!["kept".to_string()];
    split_into(" a  b ", &mut out);
    assert_eq!(out, vec!["kept", "a", "b"]);
    split_into("", &mut out);
    assert_eq!(out, vec!["kept", "a", "b"]);
}

#[test]
fn join_puts_one_blank_between_words() {
    assert_eq!(join(&vec![]), "");
    assert_eq!(join(&vec!["foo".to_string()]), "foo");
    assert_eq!(join(&vec!["foo".to_string(), "bar".to_string(), "baz".to_string()]), "foo bar baz");
    assert_eq!(join(&vec!["".to_string(), "".to_string()]), " ");
}

#[test]
fn split_undoes_join() {
    let words = vec!["foo".to_string(), "b".to_string(), "ünï".to_string()];
    assert_eq!(split(&join(&words)), words);
    assert_eq!(join(&split("  foo \n bar  ")), "foo bar");
}
