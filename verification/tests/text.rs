use gnome_mcp_bridge::text::{cuts_whole, decimal_text, short_form, split_lines, trim, trim_end_slashes};

#[test]
fn trim_drops_white_space_at_both_ends() {
    assert_eq!(trim("  a b\t\r\n"), "a b");
    assert_eq!(trim(""), "");
    assert_eq!(trim(" \n\t "), "");
    assert_eq!(trim("plain"), "plain");
    assert_eq!(trim("\u{3000}x\u{a0}"), "x");
}

#[test]
fn trim_agrees_with_std_on_every_character() {
    for code in 0u32..=0x10ffff {
        if let Some(c) = char::from_u32(code) {
            let text = c.to_string();
            assert_eq!(trim(&text).is_empty(), text.trim().is_empty(), "{:x}", code);
        }
    }
}

#[test]
fn trimming_twice_changes_nothing() {
    for text in ["", " a ", "\n\n", "x y ", "\u{2003}é\u{2003}"] {
        let once = trim(text);
        assert_eq!(trim(&once), once);
    }
}

#[test]
fn slashes_are_dropped_at_the_end_only() {
    assert_eq!(trim_end_slashes("http://a/b//"), "http://a/b");
    assert_eq!(trim_end_slashes("http://a"), "http://a");
    assert_eq!(trim_end_slashes("///"), "");
    assert_eq!(trim_end_slashes(""), "");
}

#[test]
fn lines_agree_with_std() {
    let texts = [
        "",
        "\n",
        "a",
        "a\n",
        "a\nb",
        "a\r\nb\r\n",
        "a\r",
        "a\r\r\nb",
        "\n\nx\n",
        "\r\n",
        "é\u{2028}x\ny",
    ];
    for text in texts {
        let expected: Vec<String> = text.lines().map(|l| l.to_string()).collect();
        assert_eq!(split_lines(text), expected, "{:?}", text);
    }
}

#[test]
fn appended_text_adds_its_lines() {
    let log = "one\ntwo\n";
    let more = "three\r\nfour";
    let mut lines = split_lines(log);
    lines.append(&mut split_lines(more));
    assert_eq!(split_lines(&format!("{}{}", log, more)), lines);
}

#[test]
fn decimal_numbers() {
    assert_eq!(decimal_text(0), "0");
    assert_eq!(decimal_text(7), "7");
    assert_eq!(decimal_text(10), "10");
    assert_eq!(decimal_text(300), "300");
    assert_eq!(decimal_text(u64::MAX), "18446744073709551615");
}

#[test]
fn short_forms() {
    assert_eq!(short_form("0123456789abcdef0123", 16), "0123456789abcdef");
    assert_eq!(short_form("abc", 16), "abc");
    assert_eq!(short_form("", 8), "");
    assert_eq!(short_form("éé", 2), "é");
    assert_eq!(short_form("éé", 9), "éé");
}

#[test]
fn a_cut_inside_a_character_is_noticed() {
    assert!(cuts_whole("abc", 2));
    assert!(cuts_whole("éé", 2));
    assert!(cuts_whole("éé", 4));
    assert!(cuts_whole("éé", 100));
    assert!(!cuts_whole("éé", 1));
    assert!(!cuts_whole("1234567é", 8));
}

#[test]
fn ascii_can_be_cut_anywhere() {
    let text = "deadbeefcafe";
    for limit in 0..20 {
        assert!(cuts_whole(text, limit));
        let short = short_form(text, limit);
        assert!(text.starts_with(&short));
        assert_eq!(short.len(), limit.min(text.len()));
    }
}
