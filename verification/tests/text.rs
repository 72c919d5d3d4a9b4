use rustcast::text::{
    capitalize, chars_of, contains, expand_tilde, parse_number, same_text, starts_with, text_place,
    trim, Place,
};

const SAMPLES: [&str; 14] = [
    "", "a", "A", "ab", "aab", "b", "-a", " a", "~", "~/x~", "é", "éa", "日本", "a\u{10ffff}",
];

#[test]
fn chars_are_those_of_the_string() {
    for s in SAMPLES {
        assert_eq!(chars_of(s), s.chars().collect::<Vec<char>>());
    }
}

#[test]
fn matching_agrees_with_the_standard_library() {
    for s in SAMPLES {
        for t in SAMPLES {
            assert_eq!(starts_with(s, t), s.starts_with(t), "{s:?} {t:?}");
            assert_eq!(contains(s, t), s.contains(t), "{s:?} {t:?}");
            assert_eq!(same_text(s, t), s == t, "{s:?} {t:?}");
        }
    }
}

#[test]
fn order_agrees_with_the_standard_library() {
    for s in SAMPLES {
        for t in SAMPLES {
            let expected = if s < t {
                Place::Before
            } else if s == t {
                Place::Same
            } else {
                Place::After
            };
            assert_eq!(text_place(s, t), expected, "{s:?} {t:?}");
        }
    }
}

#[test]
fn trim_takes_white_space_off_both_ends() {
    assert_eq!(trim(""), "");
    assert_eq!(trim(" \t\n"), "");
    assert_eq!(trim("  a b \r\n"), "a b");
    assert_eq!(trim("\u{3000}日本\u{a0}"), "日本");
    assert_eq!(trim(trim("  a b ")), "a b");
}

#[test]
fn trim_agrees_with_the_standard_library_on_every_character() {
    for c in '\0'..=char::MAX {
        let s = c.to_string();
        assert_eq!(trim(&s), s.trim(), "{c:?}");
    }
}

#[test]
fn tildes_become_the_home_directory() {
    for s in SAMPLES {
        assert_eq!(expand_tilde(s, "/Users/test"), s.replace("~", "/Users/test"));
        assert_eq!(expand_tilde(s, "~~"), s.replace("~", "~~"));
    }
}

#[test]
fn capitalize_changes_the_first_letter_only() {
    assert_eq!(capitalize("work"), "Work");
    assert_eq!(capitalize("Work"), "Work");
    assert_eq!(capitalize("z"), "Z");
    assert_eq!(capitalize("1 thing"), "1 thing");
    assert_eq!(capitalize("{é"), "{é");
    for c in '\0'..='\x7f' {
        let s = c.to_string();
        assert_eq!(capitalize(&s), s.to_uppercase());
    }
}

#[test]
fn numbers_are_read_as_the_standard_library_reads_them() {
    let max = usize::MAX.to_string();
    let over = format!("{}0", usize::MAX / 10 + 1);
    let just_over = format!("{}{}", usize::MAX / 10, usize::MAX % 10 + 1);
    for s in [
        "", "+", "-", "0", "7", "+7", "-7", "-0", "++7", "7+", "007", "12a", "a12", " 7", "7 ", "٣",
        "99999999999999999999999999999999", &max, &over, &just_over,
    ] {
        assert_eq!(parse_number(s), s.parse::<usize>().ok(), "{s:?}");
    }
}
