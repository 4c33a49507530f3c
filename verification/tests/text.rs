use gophe_rs::text::{check_field_text, contains_line_break, leading_fields};

#[test]
fn leading_fields_splits_on_tabs() {
    assert_eq!(leading_fields("a\tb\tc", 10), vec!["a", "b", "c"]);
    assert_eq!(leading_fields("abc", 10), vec!["abc"]);
    assert_eq!(leading_fields("", 10), vec![""]);
    assert_eq!(leading_fields("\t", 10), vec!["", ""]);
    assert_eq!(leading_fields("\t\t", 10), vec!["", "", ""]);
    assert_eq!(leading_fields("a\t", 10), vec!["a", ""]);
    assert_eq!(leading_fields("\ta", 10), vec!["", "a"]);
    assert_eq!(leading_fields("a\t\tb", 10), vec!["a", "", "b"]);
}

#[test]
fn leading_fields_agrees_with_std_split() {
    for s in ["", "x", "\t", "a\tb", "one\ttwo\tthree\tfour\tfive", "\t\t\t\t", "é\t世界\t🥙", "a b\tc\rd\te\nf"] {
        let all: Vec<&str> = s.split('\t').collect();
        assert_eq!(leading_fields(s, usize::MAX), all);
        for limit in 0..7 {
            let expected: Vec<&str> = all.iter().copied().take(limit).collect();
            assert_eq!(leading_fields(s, limit), expected);
        }
    }
}

#[test]
fn leading_fields_stops_at_the_limit() {
    assert_eq!(leading_fields("a\tb\tc", 0), Vec::<&str>::new());
    assert_eq!(leading_fields("a\tb\tc", 1), vec!["a"]);
    assert_eq!(leading_fields("a\tb\tc", 2), vec!["a", "b"]);
    assert_eq!(leading_fields("a\tb\tc", 3), vec!["a", "b", "c"]);
    assert_eq!(leading_fields("a\tb\tc", 4), vec!["a", "b", "c"]);
    assert_eq!(leading_fields("abc", 1), vec!["abc"]);
}

#[test]
fn leading_fields_counts_characters_not_bytes() {
    assert_eq!(leading_fields("äö\tü\t€\t𝄞!", 4), vec!["äö", "ü", "€", "𝄞!"]);
}

#[test]
fn line_breaks_are_found() {
    assert!(!contains_line_break(""));
    assert!(!contains_line_break("plain text\twith tab"));
    assert!(!contains_line_break("\u{b}\u{c}\u{85}\u{2028}"));
    assert!(contains_line_break("\r"));
    assert!(contains_line_break("\n"));
    assert!(contains_line_break("a\r\n"));
    assert!(contains_line_break("long text with a break at the very end\n"));
    assert!(contains_line_break("\rstart"));
}

#[test]
fn field_text_has_no_framing_character() {
    assert!(check_field_text(""));
    assert!(check_field_text("plain text"));
    assert!(check_field_text("Grüße 世界 🥙"));
    assert!(check_field_text("\u{b}\u{c}\u{85}\u{2028} \\t \\n"));
    assert!(!check_field_text("\t"));
    assert!(!check_field_text("\r"));
    assert!(!check_field_text("\n"));
    assert!(!check_field_text("a\tb"));
    assert!(!check_field_text("end\r"));
    assert!(!check_field_text("\nstart"));
}
