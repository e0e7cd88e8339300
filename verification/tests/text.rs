use mdbook_preprocessors::span::{remove_span, span_to_string};
use mdbook_preprocessors::text::{chars_of, contains_exec, is_space_char, parse_tags, trim_range};

#[test]
fn tags_are_trimmed_and_nonempty() {
    assert_eq!(parse_tags(" computer; book; duck; ", ";"), vec!["computer", "book", "duck"]);
    assert_eq!(parse_tags("a;;b;  ;c", ";"), vec!["a", "b", "c"]);
    assert_eq!(parse_tags("   ", ";"), Vec::<String>::new());
    assert_eq!(parse_tags("one tag", ";"), vec!["one tag"]);
}

#[test]
fn multi_char_separator() {
    assert_eq!(parse_tags("a::b:::c", "::"), vec!["a", "b", ":c"]);
    assert_eq!(parse_tags("x and y and z", " and "), vec!["x", "y", "z"]);
}

#[test]
fn empty_separator_gives_characters() {
    assert_eq!(parse_tags(" ab c ", ""), vec!["a", "b", "c"]);
}

#[test]
fn unicode_whitespace() {
    assert!(is_space_char('\u{3000}'));
    assert!(is_space_char('\n'));
    assert!(!is_space_char('x'));
    assert_eq!(parse_tags("\u{3000}ä\u{a0};\tö ", ";"), vec!["ä", "ö"]);
}

#[test]
fn trim_range_bounds() {
    let v = chars_of("  hi there \n");
    assert_eq!(trim_range(&v, 0, v.len()), (2, 10));
    assert_eq!(trim_range(&v, 0, 2), (2, 2));
}

#[test]
fn contains_substring() {
    let hay = chars_of("<link href=x>");
    assert!(contains_exec(&hay, &chars_of("href")));
    assert!(contains_exec(&hay, &chars_of("")));
    assert!(!contains_exec(&hay, &chars_of("src")));
    assert!(!contains_exec(&chars_of("ab"), &chars_of("abc")));
}

#[test]
fn spans_over_multibyte_text() {
    // "é" is two bytes, "€" three
    let s = "aé€b";
    assert_eq!(span_to_string(s, 1, 6), "é€");
    let mut c = String::from(s);
    remove_span(&mut c, 1, 3);
    assert_eq!(c, "a€b");
    let mut c = String::from(s);
    remove_span(&mut c, 0, 7);
    assert_eq!(c, "");
}
