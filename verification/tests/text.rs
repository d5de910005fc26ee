use agerus::clip::{clip_text, exceeds, fit_chars, width_of};
use agerus::lines::{join_strings, split_lines};
use agerus::number::decimal_text;
use agerus::text::{
    chars_eq, contains_text, find_from, from_chars, is_blank, is_space_char, slice_string,
    starts_with_text, text_eq, to_chars, trim_end_string, trim_string,
};

#[test]
fn chars_round_trip() {
    let v = to_chars("héllo");
    assert_eq!(v, vec!['h', 'é', 'l', 'l', 'o']);
    assert_eq!(from_chars(&v), "héllo");
    assert_eq!(slice_string(&v, 1, 3), "él");
}

#[test]
fn equality_of_texts() {
    assert!(text_eq("abc", "abc"));
    assert!(!text_eq("abc", "abd"));
    assert!(!text_eq("abc", "ab"));
    assert!(chars_eq(&to_chars(""), &to_chars("")));
}

#[test]
fn find_first_occurrence() {
    let hay = to_chars("abcabc");
    assert_eq!(find_from(&hay, &to_chars("bc"), 0), Some(1));
    assert_eq!(find_from(&hay, &to_chars("bc"), 2), Some(4));
    assert_eq!(find_from(&hay, &to_chars("bc"), 5), None);
    assert_eq!(find_from(&hay, &to_chars("x"), 0), None);
    assert_eq!(find_from(&hay, &to_chars(""), 6), Some(6));
    assert_eq!(find_from(&hay, &to_chars("abcabcd"), 0), None);
}

#[test]
fn contains_and_starts_with() {
    assert!(contains_text("done __END_OF_CMD__", "__END_OF_CMD__"));
    assert!(!contains_text("done __END_OF_CM", "__END_OF_CMD__"));
    assert!(contains_text("anything", ""));
    assert!(starts_with_text("https://x", "http"));
    assert!(!starts_with_text("ftp://x", "http"));
    assert!(!starts_with_text("ht", "http"));
}

#[test]
fn trimming() {
    assert_eq!(trim_end_string("line \t\r\n"), "line");
    assert_eq!(trim_end_string("  keep lead  "), "  keep lead");
    assert_eq!(trim_end_string(" \n"), "");
    assert_eq!(trim_string("  both sides \u{3000}"), "both sides");
    assert_eq!(trim_string("\u{a0}x\u{2003}"), "x");
    assert_eq!(trim_string(""), "");
    assert!(is_blank(" \t\n"));
    assert!(is_blank(""));
    assert!(!is_blank(" x "));
}

#[test]
fn white_space_agrees_with_the_standard_library() {
    for u in 0..0x3100u32 {
        if let Some(c) = char::from_u32(u) {
            assert_eq!(is_space_char(c), c.is_whitespace(), "U+{:04X}", u);
        }
    }
}

#[test]
fn widths_agree_with_the_encoding() {
    for c in ['a', '\u{7f}', '\u{80}', 'é', '\u{7ff}', '\u{800}', '€', '\u{ffff}', '\u{10000}', '😀'] {
        assert_eq!(width_of(c), c.len_utf8());
    }
}

#[test]
fn fit_counts_whole_characters() {
    let v = to_chars("aé€😀");
    assert_eq!(fit_chars(&v, 0), 0);
    assert_eq!(fit_chars(&v, 1), 1);
    assert_eq!(fit_chars(&v, 2), 1);
    assert_eq!(fit_chars(&v, 3), 2);
    assert_eq!(fit_chars(&v, 5), 2);
    assert_eq!(fit_chars(&v, 6), 3);
    assert_eq!(fit_chars(&v, 9), 3);
    assert_eq!(fit_chars(&v, 10), 4);
    assert_eq!(fit_chars(&v, 100), 4);
}

#[test]
fn clip_keeps_short_text_and_marks_long_text() {
    assert_eq!(clip_text("hello", 5, "..."), "hello");
    assert_eq!(clip_text("hello!", 5, "..."), "hello...");
    assert_eq!(clip_text("ééé", 5, "[cut]"), "éé[cut]");
    assert_eq!(clip_text("", 0, "x"), "");
    assert!(exceeds("ééé", 5));
    assert!(!exceeds("ééé", 6));
}

#[test]
fn lines_follow_line_feeds() {
    assert_eq!(split_lines("a\nb\r\n\nc"), vec!["a", "b", "", "c"]);
    assert_eq!(split_lines("a\n"), vec!["a"]);
    assert_eq!(split_lines("a\n\n"), vec!["a", ""]);
    assert_eq!(split_lines(""), Vec::<String>::new());
    assert_eq!(split_lines("last\r"), vec!["last\r"]);
    assert_eq!(split_lines("\r\n"), vec![""]);
}

#[test]
fn lines_agree_with_the_standard_library() {
    for text in ["", "a", "a\n", "a\nb", "a\r\nb\r\n", "\n\n", "x\r", "\r\n\r", "a\n\rb\n"] {
        let expected: Vec<String> = text.lines().map(|l| l.to_string()).collect();
        assert_eq!(split_lines(text), expected, "{:?}", text);
    }
}

#[test]
fn joining() {
    let pieces = vec!["a".to_string(), "b".to_string(), "c".to_string()];
    assert_eq!(join_strings(&pieces, ", "), "a, b, c");
    assert_eq!(join_strings(&pieces[..1].to_vec(), ", "), "a");
    assert_eq!(join_strings(&Vec::new(), ", "), "");
    assert_eq!(join_strings(&vec![String::new(), String::new()], "-"), "-");
}

#[test]
fn decimal_numbers() {
    assert_eq!(decimal_text(0), "0");
    assert_eq!(decimal_text(7), "7");
    assert_eq!(decimal_text(10), "10");
    assert_eq!(decimal_text(5000), "5000");
    assert_eq!(decimal_text(1234567890), "1234567890");
}
