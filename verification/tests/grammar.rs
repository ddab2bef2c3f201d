use ahndn_client::parse::{
    command, number, parse_input, parse_line, route, Command, Input, LineError, SyntaxError,
    SyntaxErrorKind,
};
use ahndn_client::text::{
    decimal, digit, read_number, route_char, same_text, scan, space, starts_with, to_lower, trim,
    CharClass,
};

fn from(text: &str, position: usize) -> String {
    text.chars().skip(position).collect()
}

fn refused(kind: SyntaxErrorKind, position: usize) -> SyntaxError {
    SyntaxError { kind, position }
}

fn input(command: Command, pier: Option<u64>, face: Option<u64>, route: Option<&str>) -> Input {
    Input { command, pier, face, route: route.map(|r| r.to_string()) }
}

#[test]
fn test_command() {
    assert_eq!(command("status"), Ok(("", Command::Status)));
    assert_eq!(command("pier-status 0"), Ok((" 0", Command::PierStatus)));
    assert_eq!(command("stats 250"), Ok((" 250", Command::Stats)));
    assert_eq!(command("pier-stats 0 250"), Ok((" 0 250", Command::PierStats)));
    assert_eq!(command("piers"), Ok(("", Command::Piers)));
    let err = command("nothing").unwrap_err();
    assert_eq!(err.kind, SyntaxErrorKind::UnknownCommand);
    assert_eq!(from("nothing", err.position), "nothing");
}

#[test]
fn test_number() {
    assert_eq!(number("0"), Ok(("", 0)));
    assert_eq!(number("10"), Ok(("", 10)));
    assert_eq!(number("10000"), Ok(("", 10_000)));
    let err = number("nothing").unwrap_err();
    assert_eq!(err.kind, SyntaxErrorKind::ExpectedNumber);
    assert_eq!(from("nothing", err.position), "nothing");
    let err = number("-10").unwrap_err();
    assert_eq!(err.kind, SyntaxErrorKind::ExpectedNumber);
    assert_eq!(from("-10", err.position), "-10");
}

#[test]
fn test_input() {
    assert_eq!(parse_input("status"), Ok(("", input(Command::Status, Some(0), None, None))));
    assert_eq!(parse_input("piers"), Ok(("", input(Command::Piers, None, None, None))));
    assert_eq!(
        parse_input("pier-status 0"),
        Ok(("", input(Command::PierStatus, Some(0), None, None)))
    );
    assert_eq!(parse_input("stats 250"), Ok(("", input(Command::Stats, Some(0), Some(250), None))));
    assert_eq!(
        parse_input("pier-stats 0 250"),
        Ok(("", input(Command::PierStats, Some(0), Some(250), None)))
    );
    let err = parse_input("nothing").unwrap_err();
    assert_eq!(err.kind, SyntaxErrorKind::UnknownCommand);
    assert_eq!(from("nothing", err.position), "nothing");
    let err = parse_input("pier-status").unwrap_err();
    assert_eq!(err.kind, SyntaxErrorKind::ExpectedNumber);
    assert_eq!(from("pier-status", err.position), "");
    let err = parse_input("pier-stats 0").unwrap_err();
    assert_eq!(err.kind, SyntaxErrorKind::ExpectedNumber);
    assert_eq!(from("pier-stats 0", err.position), "");
}

#[test]
fn status_defaults_to_the_local_pier() {
    assert_eq!(parse_input("status"), Ok(("", input(Command::Status, Some(0), None, None))));
    assert_eq!(parse_input("status 7"), Ok(("", input(Command::Status, Some(7), None, None))));
    assert_eq!(parse_input("status   "), Ok(("", input(Command::Status, Some(0), None, None))));
}

#[test]
fn a_single_number_after_face_is_the_face() {
    assert_eq!(parse_input("face 7"), Ok(("", input(Command::Face, Some(0), Some(7), None))));
    assert_eq!(parse_input("face 3 7"), Ok(("", input(Command::Face, Some(3), Some(7), None))));
    assert_eq!(parse_input("stats 3 7"), Ok(("", input(Command::Stats, Some(3), Some(7), None))));
}

#[test]
fn face_needs_a_number() {
    assert_eq!(parse_input("face"), Err(refused(SyntaxErrorKind::ExpectedNumber, 4)));
    assert_eq!(parse_input("face x"), Err(refused(SyntaxErrorKind::ExpectedNumber, 5)));
    assert_eq!(parse_input("face 3 x"), Err(refused(SyntaxErrorKind::ExpectedNumber, 7)));
    assert_eq!(parse_input("face -3"), Err(refused(SyntaxErrorKind::ExpectedNumber, 5)));
    assert_eq!(parse_input("status -1"), Err(refused(SyntaxErrorKind::ExpectedNumber, 7)));
}

#[test]
fn text_after_a_command_is_handed_back() {
    assert_eq!(parse_input("piers extra"), Ok(("extra", input(Command::Piers, None, None, None))));
    assert_eq!(parse_input("help me"), Ok(("me", input(Command::Help, None, None, None))));
    assert_eq!(
        parse_input("status 7 and more"),
        Ok(("and more", input(Command::Status, Some(7), None, None)))
    );
    assert_eq!(
        parse_input("face 1 2 3"),
        Ok(("3", input(Command::Face, Some(1), Some(2), None)))
    );
    assert_eq!(
        parse_input("route a/b c"),
        Ok(("c", input(Command::QueryRoute, None, None, Some("a/b"))))
    );
}

#[test]
fn a_number_is_a_whole_token() {
    assert_eq!(parse_input("status 7.5"), Err(refused(SyntaxErrorKind::ExpectedNumber, 8)));
    assert_eq!(parse_input("status 7x"), Err(refused(SyntaxErrorKind::ExpectedNumber, 8)));
    assert_eq!(parse_input("face 3 7-"), Err(refused(SyntaxErrorKind::ExpectedNumber, 8)));
    assert_eq!(parse_input("face 3/7"), Err(refused(SyntaxErrorKind::ExpectedNumber, 6)));
    assert_eq!(parse_input("pier-status 1e3"), Err(refused(SyntaxErrorKind::ExpectedNumber, 13)));
    assert_eq!(number("10.5"), Err(refused(SyntaxErrorKind::ExpectedNumber, 2)));
    assert_eq!(number("10abc"), Err(refused(SyntaxErrorKind::ExpectedNumber, 2)));
    assert_eq!(number("99999999999999999999x"), Err(refused(SyntaxErrorKind::ExpectedNumber, 20)));
    assert_eq!(number("10 abc"), Ok((" abc", 10)));
    assert_eq!(number("10\u{2003}"), Ok(("\u{2003}", 10)));
    assert_eq!(
        parse_input("status 7 .5"),
        Ok((".5", input(Command::Status, Some(7), None, None)))
    );
    assert_eq!(
        parse_line("status 7x"),
        Err(LineError::Syntax(refused(SyntaxErrorKind::ExpectedNumber, 8)))
    );
}

#[test]
fn a_whole_line_must_be_used() {
    assert_eq!(parse_line("piers extra"), Err(LineError::Unexpected("extra".to_string())));
    assert_eq!(parse_line("  piers  "), Ok(input(Command::Piers, None, None, None)));
    assert_eq!(parse_line("\tface 3 7\n"), Ok(input(Command::Face, Some(3), Some(7), None)));
    assert_eq!(
        parse_line("bogus"),
        Err(LineError::Syntax(refused(SyntaxErrorKind::UnknownCommand, 0)))
    );
    assert_eq!(
        parse_line("  route  "),
        Err(LineError::Syntax(refused(SyntaxErrorKind::ExpectedRoute, 5)))
    );
    assert_eq!(
        parse_line(""),
        Err(LineError::Syntax(refused(SyntaxErrorKind::UnknownCommand, 0)))
    );
}

#[test]
fn route_takes_a_name() {
    assert_eq!(
        parse_input("route my-prefix/a"),
        Ok(("", input(Command::QueryRoute, None, None, Some("my-prefix/a"))))
    );
    assert_eq!(
        parse_input("route a\\b-9/Z"),
        Ok(("", input(Command::QueryRoute, None, None, Some("a\\b-9/Z"))))
    );
    assert_eq!(parse_input("route"), Err(refused(SyntaxErrorKind::ExpectedRoute, 5)));
    assert_eq!(parse_input("route   "), Err(refused(SyntaxErrorKind::ExpectedRoute, 8)));
    assert_eq!(parse_input("route _x"), Err(refused(SyntaxErrorKind::ExpectedRoute, 6)));
    assert_eq!(route("a/b c"), Ok((" c", "a/b".to_string())));
    assert_eq!(route("\u{e9}"), Err(refused(SyntaxErrorKind::ExpectedRoute, 0)));
}

#[test]
fn keywords_in_either_case() {
    assert_eq!(parse_input("STATUS 2"), Ok(("", input(Command::Status, Some(2), None, None))));
    assert_eq!(parse_input("PiErS"), Ok(("", input(Command::Piers, None, None, None))));
    assert_eq!(parse_input("Help"), Ok(("", input(Command::Help, None, None, None))));
    assert_eq!(command("Pier-Stats"), Ok(("", Command::PierStats)));
    assert_eq!(Command::from_word("ROUTE"), Some(Command::QueryRoute));
    assert_eq!(Command::from_word("routes"), None);
    assert_eq!(Command::from_word("rout"), None);
    assert_eq!(Command::from_word("face"), Some(Command::Face));
}

#[test]
fn unknown_keywords_are_refused() {
    for text in ["", "stat", "statu", " status", "exit", "pier", "fac", "7", "\u{212a}", "statuses"] {
        assert_eq!(
            parse_input(text),
            Err(refused(SyntaxErrorKind::UnknownCommand, 0)),
            "{}",
            text
        );
    }
}

#[test]
fn a_keyword_is_a_whole_token() {
    for text in ["statusx", "status7", "routeabc", "piersx", "help!", "face-3", "stats250"] {
        assert_eq!(
            parse_input(text),
            Err(refused(SyntaxErrorKind::UnknownCommand, 0)),
            "{}",
            text
        );
        assert_eq!(command(text), Err(refused(SyntaxErrorKind::UnknownCommand, 0)), "{}", text);
    }
    assert_eq!(command("status\tx"), Ok(("\tx", Command::Status)));
    assert_eq!(command("piers "), Ok((" ", Command::Piers)));
    assert_eq!(
        parse_input("status\u{a0}\u{2003}7\u{3000}"),
        Ok(("", input(Command::Status, Some(7), None, None)))
    );
    assert_eq!(
        parse_line("piersx"),
        Err(LineError::Syntax(refused(SyntaxErrorKind::UnknownCommand, 0)))
    );
}

#[test]
fn numbers_beyond_64_bits_are_refused() {
    assert_eq!(number("18446744073709551615"), Ok(("", u64::MAX)));
    assert_eq!(number("18446744073709551616"), Err(refused(SyntaxErrorKind::ExpectedNumber, 0)));
    assert_eq!(number("99999999999999999999"), Err(refused(SyntaxErrorKind::ExpectedNumber, 0)));
    assert_eq!(
        number("99999999999999999999999 rest"),
        Err(refused(SyntaxErrorKind::ExpectedNumber, 0))
    );
    assert_eq!(number("00000000000000000000000012"), Ok(("", 12)));
    assert_eq!(
        parse_input("face 18446744073709551616 4"),
        Err(refused(SyntaxErrorKind::ExpectedNumber, 5))
    );
    assert_eq!(
        parse_input("face 4  18446744073709551616"),
        Err(refused(SyntaxErrorKind::ExpectedNumber, 8))
    );
    assert_eq!(
        parse_input("status 18446744073709551616"),
        Err(refused(SyntaxErrorKind::ExpectedNumber, 7))
    );
    assert_eq!(
        parse_input("pier-stats 1 99999999999999999999"),
        Err(refused(SyntaxErrorKind::ExpectedNumber, 13))
    );
    assert_eq!(
        parse_input("status 18446744073709551615"),
        Ok(("", input(Command::Status, Some(u64::MAX), None, None)))
    );
    assert_eq!(
        parse_line("face 18446744073709551616"),
        Err(LineError::Syntax(refused(SyntaxErrorKind::ExpectedNumber, 5)))
    );
    assert_eq!(read_number("ab123", 2, 5), Some(123));
    assert_eq!(read_number("ab123", 2, 2), Some(0));
    assert_eq!(read_number("18446744073709551615", 0, 20), Some(u64::MAX));
    assert_eq!(read_number("18446744073709551616", 0, 20), None);
    assert_eq!(read_number("184467440737095516150", 0, 21), None);
}

#[test]
fn decimal_writes_what_number_reads() {
    for n in [0u64, 1, 9, 10, 11, 99, 100, 12345, u64::MAX] {
        let text = decimal(n);
        assert_eq!(text, n.to_string());
        assert_eq!(number(&text), Ok(("", n)));
    }
}

#[test]
fn runs_and_trimming() {
    assert_eq!(scan("  ab", 4, 0, CharClass::Space), 2);
    assert_eq!(scan("  ab", 4, 2, CharClass::Space), 2);
    assert_eq!(scan("12ab", 4, 0, CharClass::Digit), 2);
    assert_eq!(scan("a/b c", 5, 0, CharClass::RouteName), 3);
    assert_eq!(scan("ab", 2, 2, CharClass::Digit), 2);
    assert_eq!(trim("  a b \t", CharClass::Space), "a b");
    assert_eq!(trim(" \n ", CharClass::Space), "");
    assert_eq!(trim("\0\0x\0y\0", CharClass::Nul), "x\0y");
    assert_eq!(trim("", CharClass::Nul), "");
    assert!(starts_with("ERROR: x", "ERROR"));
    assert!(!starts_with("ERRO", "ERROR"));
    assert!(starts_with("abc", ""));
}

#[test]
fn character_classes_over_every_character() {
    let letters = ['s', 't', 'a', 'u', 'f', 'c', 'e', 'p', 'i', 'r', 'o', 'h', 'l', '-'];
    for code in 0..=0x10ffffu32 {
        let c = match char::from_u32(code) {
            Some(c) => c,
            None => continue,
        };
        assert_eq!(space(c), c.is_whitespace(), "{:?}", c);
        assert_eq!(digit(c), c.is_ascii_digit(), "{:?}", c);
        assert_eq!(
            route_char(c),
            c.is_ascii_alphanumeric() || c == '-' || c == '/' || c == '\\',
            "{:?}",
            c
        );
        assert_eq!(CharClass::Nul.admits(c), c == '\0');
        if c.is_ascii() {
            assert_eq!(to_lower(c), c.to_ascii_lowercase());
        } else {
            assert_eq!(to_lower(c), c);
        }
        let mut lowered = c.to_lowercase();
        let first = lowered.next();
        let alone = lowered.next().is_none();
        for letter in letters {
            assert_eq!(to_lower(c) == letter, alone && first == Some(letter), "{:?}", c);
        }
    }
}

#[test]
fn texts_are_compared_by_their_characters() {
    assert!(same_text("", ""));
    assert!(same_text("a/b", "a/b"));
    assert!(!same_text("a/b", "a/B"));
    assert!(!same_text("a", "ab"));
    assert!(!same_text("ab", "a"));
    assert!(same_text("\u{e9}", "\u{e9}"));
}
