use ircservserv::report::{closing, heading, read_record, scan, CharClass};

fn chars(text: &str) -> Vec<char> {
    text.chars().collect()
}

fn record(text: &str) -> Option<(String, String)> {
    read_record(&chars(text))
}

fn pair(account: &str, letters: &str) -> Option<(String, String)> {
    Some((account.to_string(), letters.to_string()))
}

#[test]
fn record_line_gives_account_and_letters() {
    assert_eq!(
        record("2        addshore               +Aiotv               [modified 30m 34s ago]"),
        pair("addshore", "Aiotv")
    );
    assert_eq!(record("1 a +b"), pair("a", "b"));
    assert_eq!(record("999\t\tada\u{a0}+Vv"), pair("ada", "Vv"));
}

#[test]
fn record_line_may_name_a_host_mask() {
    assert_eq!(
        record("12   *!*@libera/staff/*   +o   (staff)"),
        pair("*!*@libera/staff/*", "o")
    );
    assert_eq!(record("3 a+b +c"), pair("a+b", "c"));
}

#[test]
fn record_line_starts_with_one_to_three_digits() {
    assert_eq!(record("1234 ada +o"), None);
    assert_eq!(record("ada +o"), None);
    assert_eq!(record(" 1 ada +o"), None);
    assert_eq!(record("1a ada +o"), None);
    assert_eq!(record("123 ada +o"), pair("ada", "o"));
}

#[test]
fn record_line_needs_blanks_a_plus_and_letters() {
    assert_eq!(record(""), None);
    assert_eq!(record("1"), None);
    assert_eq!(record("1 "), None);
    assert_eq!(record("1 ada"), None);
    assert_eq!(record("1 ada "), None);
    assert_eq!(record("1 ada o"), None);
    assert_eq!(record("1 ada -o"), None);
    assert_eq!(record("1 ada +"), None);
    assert_eq!(record("1 ada +1"), None);
    assert_eq!(record("1 ada + o"), None);
}

#[test]
fn letters_end_at_the_first_other_character() {
    assert_eq!(record("1 ada +AF_x"), pair("ada", "AF"));
    assert_eq!(record("1 ada +ot(FOUNDER)"), pair("ada", "ot"));
    assert_eq!(record("1 ada +zZaA[x"), pair("ada", "zZaA"));
}

#[test]
fn runs_end_where_the_class_ends() {
    let line = chars("12  ab");
    assert_eq!(scan(&line, 0, CharClass::Digit), 2);
    assert_eq!(scan(&line, 2, CharClass::Blank), 4);
    assert_eq!(scan(&line, 4, CharClass::Solid), 6);
    assert_eq!(scan(&line, 4, CharClass::Letter), 6);
    assert_eq!(scan(&line, 4, CharClass::Digit), 4);
    assert_eq!(scan(&line, 6, CharClass::Solid), 6);
}

#[test]
fn classes_tell_characters_apart() {
    for c in ['0', '5', '9'] {
        assert!(CharClass::Digit.holds(c));
    }
    for c in ['/', ':', 'a', '٣'] {
        assert!(!CharClass::Digit.holds(c));
    }
    for c in ['A', 'Z', 'a', 'z', 'm'] {
        assert!(CharClass::Letter.holds(c));
    }
    for c in ['@', '[', '`', '{', '_', '1', 'é'] {
        assert!(!CharClass::Letter.holds(c));
    }
    for c in 0u32..0x3100 {
        if let Some(c) = char::from_u32(c) {
            assert_eq!(CharClass::Blank.holds(c), c.is_whitespace());
            assert_eq!(CharClass::Solid.holds(c), !c.is_whitespace());
        }
    }
}

#[test]
fn headings_and_closing_lines_are_known_by_their_start() {
    assert!(heading(&chars("Entry    Nickname/Host          Flags")));
    assert!(heading(&chars("--------------")));
    assert!(heading(&chars("---------------------------------")));
    assert!(!heading(&chars("-------------")));
    assert!(!heading(&chars("Entry Nickname/Host")));
    assert!(!heading(&chars(" Entry    Nickname/Host")));
    assert!(closing(&chars("End of #wikimedia-ops FLAGS listing.")));
    assert!(closing(&chars("End of")));
    assert!(!closing(&chars("end of list")));
    assert!(!closing(&chars("The End of")));
}
