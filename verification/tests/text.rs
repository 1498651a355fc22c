use github_handler::text::{chars_of, contains, is_white_space, same_text, split_non_empty, trim};

#[test]
fn white_space_agrees_with_std_on_every_character() {
    for n in 0..=0x10ffff_u32 {
        if let Some(c) = char::from_u32(n) {
            assert_eq!(is_white_space(c), c.is_whitespace(), "U+{:04X}", n);
        }
    }
}

#[test]
fn trim_agrees_with_std() {
    for s in [
        "",
        " ",
        "a",
        "  a b \n",
        "\u{3000}é\u{2003}",
        "\u{200b}x\u{200b}",
        "\r\ntrue\r\n",
    ] {
        assert_eq!(trim(s), s.trim());
    }
}

#[test]
fn splitting_leaves_out_empty_pieces() {
    assert_eq!(split_non_empty("", '\n'), Vec::<String>::new());
    assert_eq!(split_non_empty("\n\n", '\n'), Vec::<String>::new());
    assert_eq!(split_non_empty("a\n\nbé\n c", '\n'), vec!["a", "bé", " c"]);
    assert_eq!(split_non_empty("one", '\n'), vec!["one"]);
    assert_eq!(split_non_empty("\r\n\r", '\n'), vec!["\r", "\r"]);
}

#[test]
fn contains_agrees_with_std() {
    let texts = ["", "a", "ab", "aab", "+08:00", "x+08:00y", "日本語"];
    for hay in texts {
        for needle in texts {
            assert_eq!(contains(hay, needle), hay.contains(needle));
        }
    }
}

#[test]
fn characters_come_in_order() {
    assert_eq!(chars_of("aé日"), vec!['a', 'é', '日']);
    assert!(chars_of("").is_empty());
}

#[test]
fn texts_are_compared_by_their_characters() {
    assert!(same_text("", ""));
    assert!(same_text("true", "true"));
    assert!(!same_text("true", "True"));
    assert!(!same_text("true", "true "));
}
