use ahndn_client::parse::{command, number, route};
use nom::bytes::complete::{tag_no_case, take_while1};
use nom::character::complete::digit1;
use nom::error::Error;
use nom::AsChar;

const SAMPLES: [&str; 32] = [
    "",
    "0",
    "10",
    "10000 rest",
    "-10",
    "10.5",
    "nothing",
    "status",
    "STATUS 7",
    "Stats 250",
    "pier-status 0",
    "pier-stats 0 250",
    "piers extra",
    "face 3 7",
    "route my-prefix/a",
    "my-prefix/a b",
    "a\\b c",
    "\u{e9}t\u{e9}",
    "\u{661}\u{662}",
    "help",
    "stat",
    " status",
    "statusx",
    "status7",
    "routeabc",
    "piers\textra",
    "Pier-Stats\u{a0}1 2",
    "18446744073709551615",
    "18446744073709551616 4",
    "99999999999999999999",
    "7x",
    "7\u{3000}x",
];

fn nom_digits(text: &str) -> Option<(&str, &str)> {
    digit1::<&str, Error<&str>>(text)
        .ok()
        .filter(|(rest, _)| rest.chars().next().map_or(true, char::is_whitespace))
}

fn nom_route(text: &str) -> Option<(&str, &str)> {
    take_while1::<_, &str, Error<&str>>(|c: char| {
        c == '-' || c == '/' || c == '\\' || c.is_alphanum()
    })(text)
    .ok()
}

fn nom_keyword(text: &str) -> Option<(&str, String)> {
    for word in ["status", "face", "piers", "route", "help", "pier-status", "stats", "pier-stats"] {
        if let Ok((rest, found)) = tag_no_case::<&str, &str, Error<&str>>(word)(text) {
            if rest.chars().next().map_or(true, char::is_whitespace) {
                return Some((rest, found.to_lowercase()));
            }
        }
    }
    None
}

#[test]
fn digits_as_nom_reads_them() {
    for text in SAMPLES {
        let ours = number(text).ok();
        let theirs =
            nom_digits(text).and_then(|(rest, digits)| Some((rest, digits.parse::<u64>().ok()?)));
        assert_eq!(ours, theirs, "{:?}", text);
    }
}

#[test]
fn route_names_as_nom_reads_them() {
    for text in SAMPLES {
        let ours = route(text).ok();
        let theirs = nom_route(text).map(|(rest, name)| (rest, name.to_string()));
        assert_eq!(ours, theirs, "{:?}", text);
    }
}

#[test]
fn keywords_as_nom_reads_them() {
    for text in SAMPLES {
        let ours = command(text).ok().map(|(rest, c)| (rest, c.word().to_string()));
        let theirs = nom_keyword(text);
        assert_eq!(ours, theirs, "{:?}", text);
    }
}
