use api_runtime::text;

#[test]
fn white_space_is_that_of_unicode() {
    for n in 0..=0x10FFFFu32 {
        if let Some(c) = char::from_u32(n) {
            assert_eq!(text::white_space(c), c.is_whitespace(), "{n:#x}");
        }
    }
}

#[test]
fn trimming_agrees_with_std() {
    for s in ["", " ", "a", "  a b\t", "\u{3000}x\u{a0}", "\n\r\n", "é \u{2028}"] {
        assert_eq!(text::trim(s), s.trim());
        assert_eq!(text::trim(text::trim(s)), text::trim(s));
        assert_eq!(text::trim(s).is_empty(), s.chars().all(|c| c.is_whitespace()));
    }
    assert_eq!(text::trim("  a b\t"), "a b");
    assert_eq!(text::trim(" \n  a b\t \u{3000}"), "a b");
}

#[test]
fn trimming_one_character_agrees_with_std() {
    for s in ["", "/", "//a//", "a/b", "é/"] {
        assert_eq!(text::trim_start_matches(s, '/'), s.trim_start_matches('/'));
        assert_eq!(text::trim_end_matches(s, '/'), s.trim_end_matches('/'));
    }
}

#[test]
fn replacing_agrees_with_std() {
    for (s, pat, with) in [
        ("aaa", "aa", "b"),
        ("abcabc", "bc", ""),
        ("abc", "", "-"),
        ("", "", "-"),
        ("", "x", "-"),
        ("héllo é", "é", "attached image"),
        ("abc", "abcd", "x"),
        ("ab", "ab", "abab"),
    ] {
        assert_eq!(text::replace(s, pat, with), s.replace(pat, with), "{s:?} {pat:?}");
    }
    assert_eq!(text::replace("aaa", "aa", "b"), "ba");
    assert_eq!(text::replace("no path here", "assets/a.png", "attached image"), "no path here");
}

#[test]
fn finding_gives_character_positions() {
    let s = text::chars_of("é-é-x");
    assert_eq!(text::find_from(&s, &text::chars_of("-"), 0), Some(1));
    assert_eq!(text::find_from(&s, &text::chars_of("-"), 2), Some(3));
    assert_eq!(text::find_from(&s, &text::chars_of("-"), 4), None);
    assert_eq!(text::find_from(&s, &text::chars_of(""), 5), Some(5));
    assert_eq!(text::find_from(&s, &text::chars_of(""), 6), None);
    assert!(text::contains(&s, &text::chars_of("-é-")));
    assert!(!text::contains(&s, &text::chars_of("--")));
}

#[test]
fn ends_of_texts() {
    assert!(text::starts_with("abc", "ab"));
    assert!(text::starts_with("abc", ""));
    assert!(!text::starts_with("ab", "abc"));
    assert!(text::ends_with("abc", "bc"));
    assert!(!text::ends_with("c", "bc"));
    assert!(text::same_text("é", "é"));
    assert!(!text::same_text("a", "A"));
}

#[test]
fn lower_case_touches_ascii_letters_only() {
    let lowered: String = text::lower_ascii("GPT-ÄZ[@").into_iter().collect();
    assert_eq!(lowered, "gpt-Äz[@");
    assert_eq!(lowered, "GPT-ÄZ[@".to_ascii_lowercase());
}

#[test]
fn taking_characters_and_bytes() {
    assert_eq!(text::take_chars("héllo", 2), "hé");
    assert_eq!(text::take_chars("hi", 2), "hi");
    assert_eq!(text::byte_len("hé"), 3);
    assert!(text::splits_at("hé", 1));
    assert!(!text::splits_at("hé", 2));
    assert!(text::splits_at("hé", 3));
    assert!(!text::splits_at("hé", 4));
    assert_eq!(text::byte_prefix("hé!", 3), "hé");
}
