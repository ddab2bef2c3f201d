//! What the grammar owes to command lines that are written as it asks.

use crate::dispatch::{plan_spec, status_line};
use crate::parse::{arguments_at, command_of, has_keyword, number_at, parse_spec, rest_from, token_at, Arity, Command, InputView, SyntaxError, SyntaxErrorKind};
use crate::text::{
    decimal_digits, decimal_value, is_digit, is_route_char, is_space, law_decimal_round_trip,
    lemma_run_end_bounds, lemma_run_end_unique, lower, number_value, run_end, CharClass,
};
use vstd::prelude::*;

verus! {

/// Nothing but whitespace, or nothing at all.
pub open spec fn is_blank(s: Seq<char>) -> bool {
    forall|i: int| 0 <= i < s.len() ==> is_space(#[trigger] s[i])
}

/// One or more decimal digits.
pub open spec fn is_digits(s: Seq<char>) -> bool {
    s.len() > 0 && forall|i: int| 0 <= i < s.len() ==> is_digit(#[trigger] s[i])
}

/// One or more decimal digits that write a number of at most 64 bits.
pub open spec fn is_number(s: Seq<char>) -> bool {
    is_digits(s) && decimal_value(s) <= u64::MAX
}

/// One or more characters of a route name.
pub open spec fn is_route_name(s: Seq<char>) -> bool {
    s.len() > 0 && forall|i: int| 0 <= i < s.len() ==> is_route_char(#[trigger] s[i])
}

/// Whether `word` is the keyword of `command`, letters of either case.
pub open spec fn spells(word: Seq<char>, command: Command) -> bool {
    word.len() == command.keyword().len() && has_keyword(word, command.keyword())
}

proof fn reveal_keywords()
    ensures
        "status"@ == seq!['s', 't', 'a', 't', 'u', 's'],
        "face"@ == seq!['f', 'a', 'c', 'e'],
        "piers"@ == seq!['p', 'i', 'e', 'r', 's'],
        "route"@ == seq!['r', 'o', 'u', 't', 'e'],
        "help"@ == seq!['h', 'e', 'l', 'p'],
        "pier-status"@ == seq!['p', 'i', 'e', 'r', '-', 's', 't', 'a', 't', 'u', 's'],
        "stats"@ == seq!['s', 't', 'a', 't', 's'],
        "pier-stats"@ == seq!['p', 'i', 'e', 'r', '-', 's', 't', 'a', 't', 's'],
{
    reveal_strlit("status");
    reveal_strlit("face");
    reveal_strlit("piers");
    reveal_strlit("route");
    reveal_strlit("help");
    reveal_strlit("pier-status");
    reveal_strlit("stats");
    reveal_strlit("pier-stats");
    assert("status"@ =~= seq!['s', 't', 'a', 't', 'u', 's']);
    assert("face"@ =~= seq!['f', 'a', 'c', 'e']);
    assert("piers"@ =~= seq!['p', 'i', 'e', 'r', 's']);
    assert("route"@ =~= seq!['r', 'o', 'u', 't', 'e']);
    assert("help"@ =~= seq!['h', 'e', 'l', 'p']);
    assert("pier-status"@ =~= seq!['p', 'i', 'e', 'r', '-', 's', 't', 'a', 't', 'u', 's']);
    assert("stats"@ =~= seq!['s', 't', 'a', 't', 's']);
    assert("pier-stats"@ =~= seq!['p', 'i', 'e', 'r', '-', 's', 't', 'a', 't', 's']);
}

/// No text has the keywords of two commands as its first token: the keyword
/// that stands there names its command.
pub proof fn lemma_keyword_decides(s: Seq<char>, command: Command)
    requires
        has_keyword(s, command.keyword()),
    ensures
        command_of(s) == Some(command),
{
    reveal_keywords();
    // Any two keywords part at their first, fifth or tenth character.
    let k = command.keyword();
    assert(lower(s[0]) == k[0]);
    assert(k.len() > 4 ==> lower(s[4]) == k[4]);
    assert(k.len() > 9 ==> lower(s[9]) == k[9]);
}

/// A text whose first token is no keyword is refused as an unknown command, and
/// no other text is.
pub proof fn law_unknown_command(s: Seq<char>)
    ensures
        (forall|c: Command| !has_keyword(s, #[trigger] c.keyword())) <==> parse_spec(s) == Err::<
            (Seq<char>, InputView),
            SyntaxError,
        >(SyntaxError { kind: SyntaxErrorKind::UnknownCommand, position: 0 }),
{
    if forall|c: Command| !has_keyword(s, #[trigger] c.keyword()) {
        assert(!has_keyword(s, Command::Status.keyword()));
        assert(!has_keyword(s, Command::Face.keyword()));
        assert(!has_keyword(s, Command::Piers.keyword()));
        assert(!has_keyword(s, Command::QueryRoute.keyword()));
        assert(!has_keyword(s, Command::Help.keyword()));
        assert(!has_keyword(s, Command::PierStatus.keyword()));
        assert(!has_keyword(s, Command::Stats.keyword()));
        assert(!has_keyword(s, Command::PierStats.keyword()));
        assert(command_of(s).is_none());
    } else {
        let c = choose|c: Command| has_keyword(s, #[trigger] c.keyword());
        lemma_keyword_decides(s, c);
        lemma_refusals_of_arguments(s, c, c.keyword().len() as int);
    }
}

/// The arguments of a command are never refused as an unknown command.
proof fn lemma_refusals_of_arguments(s: Seq<char>, command: Command, at: int)
    ensures
        arguments_at(s, command, at) matches Err(e) ==> e.kind
            != SyntaxErrorKind::UnknownCommand,
{
}

proof fn lemma_blank_gap(t: Seq<char>, at: int, gap: Seq<char>)
    requires
        is_blank(gap),
        0 <= at,
        at + gap.len() <= t.len(),
        t.subrange(at, at + gap.len()) == gap,
        at + gap.len() < t.len() ==> !is_space(t[at + gap.len()]),
    ensures
        run_end(t, at, CharClass::Space) == at + gap.len(),
{
    assert forall|i: int| at <= i < at + gap.len() implies CharClass::Space.holds(
        #[trigger] t[i],
    ) by {
        assert(t[i] == gap[i - at]);
    }
    lemma_run_end_unique(t, at, at + gap.len(), CharClass::Space);
}

/// Digits that stand in `t` after the gap at `at`, and are followed by a
/// blank or by the end, are read whole: as their number where 64 bits hold
/// it, and as a refusal where the digits begin where they do not.
proof fn lemma_number_read(t: Seq<char>, at: int, gap: Seq<char>, digits: Seq<char>)
    requires
        is_blank(gap),
        is_digits(digits),
        0 <= at,
        at + gap.len() + digits.len() <= t.len(),
        t.subrange(at, at + gap.len()) == gap,
        t.subrange(at + gap.len(), at + gap.len() + digits.len()) == digits,
        at + gap.len() + digits.len() < t.len() ==> is_space(t[at + gap.len() + digits.len()]),
    ensures
        number_at(t, at) == (match number_value(digits) {
            Some(value) => Ok::<(int, u64), SyntaxError>((at + gap.len() + digits.len(), value)),
            None => Err(
                SyntaxError {
                    kind: SyntaxErrorKind::ExpectedNumber,
                    position: (at + gap.len()) as usize,
                },
            ),
        }),
        !is_space(t[at + gap.len()]),
{
    let start = at + gap.len();
    let end = start + digits.len();
    assert(t[start] == digits[0]);
    lemma_blank_gap(t, at, gap);
    assert forall|i: int| start <= i < end implies CharClass::Digit.holds(#[trigger] t[i]) by {
        assert(t[i] == digits[i - start]);
    }
    lemma_run_end_unique(t, start, end, CharClass::Digit);
}

/// A keyword alone, or followed by blanks, is the whole command where the
/// command takes no argument.
pub proof fn law_bare_command(word: Seq<char>, command: Command, tail: Seq<char>)
    requires
        spells(word, command),
        command.arity() == Arity::Nothing,
        is_blank(tail),
    ensures
        parse_spec(word + tail) == Ok::<(Seq<char>, InputView), SyntaxError>(
            (Seq::empty(), InputView { command, pier: None, face: None, route: None }),
        ),
{
    let t = word + tail;
    assert forall|i: int| 0 <= i < word.len() implies lower(#[trigger] t[i])
        == command.keyword()[i] by {
        assert(t[i] == word[i]);
    }
    if tail.len() > 0 {
        assert(t[word.len() as int] == tail[0]);
    }
    lemma_keyword_decides(t, command);
    assert(t.subrange(word.len() as int, t.len() as int) =~= tail);
    lemma_blank_gap(t, word.len() as int, tail);
    assert(rest_from(t, word.len() as int) =~= Seq::<char>::empty());
}

/// A keyword that may stand without a pier, alone or followed by blanks,
/// asks for the local pier, which is pier 0.
pub proof fn law_local_pier(word: Seq<char>, command: Command, tail: Seq<char>)
    requires
        spells(word, command),
        command.arity() == Arity::OptionalPier,
        is_blank(tail),
    ensures
        parse_spec(word + tail) == Ok::<(Seq<char>, InputView), SyntaxError>(
            (Seq::empty(), InputView { command, pier: Some(0), face: None, route: None }),
        ),
{
    let t = word + tail;
    assert forall|i: int| 0 <= i < word.len() implies lower(#[trigger] t[i])
        == command.keyword()[i] by {
        assert(t[i] == word[i]);
    }
    if tail.len() > 0 {
        assert(t[word.len() as int] == tail[0]);
    }
    lemma_keyword_decides(t, command);
    assert(t.subrange(word.len() as int, t.len() as int) =~= tail);
    lemma_blank_gap(t, word.len() as int, tail);
    assert(rest_from(t, word.len() as int) =~= Seq::<char>::empty());
}

/// A keyword that takes a pier, then whitespace and a number, is the whole
/// command, and the number is the pier.
pub proof fn law_pier_given(
    word: Seq<char>,
    command: Command,
    gap: Seq<char>,
    digits: Seq<char>,
    tail: Seq<char>,
)
    requires
        spells(word, command),
        command.arity() == Arity::OptionalPier || command.arity() == Arity::Pier,
        is_blank(gap),
        gap.len() > 0,
        is_number(digits),
        is_blank(tail),
    ensures
        parse_spec(word + gap + digits + tail) == Ok::<(Seq<char>, InputView), SyntaxError>(
            (
                Seq::empty(),
                InputView {
                    command,
                    pier: Some(decimal_value(digits) as u64),
                    face: None,
                    route: None,
                },
            ),
        ),
{
    let t = word + gap + digits + tail;
    let a = word.len() as int;
    let b = a + gap.len();
    let c = b + digits.len();
    assert forall|i: int| 0 <= i < word.len() implies lower(#[trigger] t[i])
        == command.keyword()[i] by {
        assert(t[i] == word[i]);
    }
    assert(t[a] == gap[0]);
    lemma_keyword_decides(t, command);
    assert(t.subrange(a, b) =~= gap);
    assert(t.subrange(b, c) =~= digits);
    assert(t.subrange(c, c + tail.len()) =~= tail);
    if c < t.len() {
        assert(t[c] == tail[0]);
    }
    lemma_number_read(t, a, gap, digits);
    lemma_blank_gap(t, c, tail);
    assert(rest_from(t, c) =~= Seq::<char>::empty());
}

/// Digits that write more than 64 bits hold are no number: after a keyword
/// that takes a number, they are refused where they begin.
pub proof fn law_number_too_large(
    word: Seq<char>,
    command: Command,
    gap: Seq<char>,
    digits: Seq<char>,
    tail: Seq<char>,
)
    requires
        spells(word, command),
        command.arity() != Arity::Nothing,
        command.arity() != Arity::RouteName,
        is_blank(gap),
        gap.len() > 0,
        is_digits(digits),
        decimal_value(digits) > u64::MAX,
        is_blank(tail),
    ensures
        parse_spec(word + gap + digits + tail) == Err::<(Seq<char>, InputView), SyntaxError>(
            SyntaxError {
                kind: SyntaxErrorKind::ExpectedNumber,
                position: (word.len() + gap.len()) as usize,
            },
        ),
{
    let t = word + gap + digits + tail;
    let a = word.len() as int;
    let b = a + gap.len();
    let c = b + digits.len();
    assert forall|i: int| 0 <= i < word.len() implies lower(#[trigger] t[i])
        == command.keyword()[i] by {
        assert(t[i] == word[i]);
    }
    assert(t[a] == gap[0]);
    lemma_keyword_decides(t, command);
    assert(t.subrange(a, b) =~= gap);
    assert(t.subrange(b, c) =~= digits);
    if c < t.len() {
        assert(t[c] == tail[0]);
    }
    lemma_number_read(t, a, gap, digits);
    lemma_blank_gap(t, a, gap);
}

/// A number is a token of digits alone: digits that something other than
/// whitespace follows are refused at what follows them.
pub proof fn law_number_is_a_token(
    word: Seq<char>,
    command: Command,
    gap: Seq<char>,
    digits: Seq<char>,
    tail: Seq<char>,
)
    requires
        spells(word, command),
        command.arity() != Arity::Nothing,
        command.arity() != Arity::RouteName,
        is_blank(gap),
        gap.len() > 0,
        is_digits(digits),
        tail.len() > 0,
        !is_digit(tail[0]),
        !is_space(tail[0]),
    ensures
        parse_spec(word + gap + digits + tail) == Err::<(Seq<char>, InputView), SyntaxError>(
            SyntaxError {
                kind: SyntaxErrorKind::ExpectedNumber,
                position: (word.len() + gap.len() + digits.len()) as usize,
            },
        ),
{
    let t = word + gap + digits + tail;
    let a = word.len() as int;
    let b = a + gap.len();
    let c = b + digits.len();
    assert forall|i: int| 0 <= i < word.len() implies lower(#[trigger] t[i])
        == command.keyword()[i] by {
        assert(t[i] == word[i]);
    }
    assert(t[a] == gap[0]);
    lemma_keyword_decides(t, command);
    assert(t.subrange(a, b) =~= gap);
    assert(t[b] == digits[0]);
    assert(t[c] == tail[0]);
    lemma_blank_gap(t, a, gap);
    assert forall|i: int| b <= i < c implies CharClass::Digit.holds(#[trigger] t[i]) by {
        assert(t[i] == digits[i - b]);
    }
    lemma_run_end_unique(t, b, c, CharClass::Digit);
}

/// After a keyword that takes a face and whitespace, one number alone is
/// the face, and the pier is the local one.
pub proof fn law_face_alone(
    word: Seq<char>,
    command: Command,
    gap: Seq<char>,
    digits: Seq<char>,
    tail: Seq<char>,
)
    requires
        spells(word, command),
        command.arity() == Arity::OptionalPierThenFace,
        is_blank(gap),
        gap.len() > 0,
        is_number(digits),
        is_blank(tail),
    ensures
        parse_spec(word + gap + digits + tail) == Ok::<(Seq<char>, InputView), SyntaxError>(
            (
                Seq::empty(),
                InputView {
                    command,
                    pier: Some(0),
                    face: Some(decimal_value(digits) as u64),
                    route: None,
                },
            ),
        ),
{
    let t = word + gap + digits + tail;
    let a = word.len() as int;
    let b = a + gap.len();
    let c = b + digits.len();
    assert forall|i: int| 0 <= i < word.len() implies lower(#[trigger] t[i])
        == command.keyword()[i] by {
        assert(t[i] == word[i]);
    }
    assert(t[a] == gap[0]);
    lemma_keyword_decides(t, command);
    assert(t.subrange(a, b) =~= gap);
    assert(t.subrange(b, c) =~= digits);
    assert(t.subrange(c, c + tail.len()) =~= tail);
    if c < t.len() {
        assert(t[c] == tail[0]);
    }
    lemma_number_read(t, a, gap, digits);
    lemma_blank_gap(t, c, tail);
    assert(rest_from(t, c) =~= Seq::<char>::empty());
}

/// After a keyword that takes a face and whitespace, two numbers set apart
/// by whitespace are the pier and then the face.
pub proof fn law_pier_then_face(
    word: Seq<char>,
    command: Command,
    gap: Seq<char>,
    pier: Seq<char>,
    between: Seq<char>,
    face: Seq<char>,
    tail: Seq<char>,
)
    requires
        spells(word, command),
        command.arity() == Arity::OptionalPierThenFace || command.arity() == Arity::PierThenFace,
        is_blank(gap),
        gap.len() > 0,
        is_number(pier),
        is_blank(between),
        between.len() > 0,
        is_number(face),
        is_blank(tail),
    ensures
        parse_spec(word + gap + pier + between + face + tail) == Ok::<
            (Seq<char>, InputView),
            SyntaxError,
        >(
            (
                Seq::empty(),
                InputView {
                    command,
                    pier: Some(decimal_value(pier) as u64),
                    face: Some(decimal_value(face) as u64),
                    route: None,
                },
            ),
        ),
{
    let t = word + gap + pier + between + face + tail;
    let a = word.len() as int;
    let b = a + gap.len();
    let c = b + pier.len();
    let d = c + between.len();
    let e = d + face.len();
    assert forall|i: int| 0 <= i < word.len() implies lower(#[trigger] t[i])
        == command.keyword()[i] by {
        assert(t[i] == word[i]);
    }
    assert(t[a] == gap[0]);
    lemma_keyword_decides(t, command);
    assert(t.subrange(a, b) =~= gap);
    assert(t.subrange(b, c) =~= pier);
    assert(t.subrange(c, d) =~= between);
    assert(t.subrange(d, e) =~= face);
    assert(t.subrange(e, e + tail.len()) =~= tail);
    assert(t[c] == between[0]);
    if e < t.len() {
        assert(t[e] == tail[0]);
    }
    lemma_number_read(t, a, gap, pier);
    lemma_number_read(t, c, between, face);
    lemma_blank_gap(t, c, between);
    lemma_blank_gap(t, e, tail);
    assert(rest_from(t, e) =~= Seq::<char>::empty());
}

/// After the keyword that takes a route and whitespace, a route name is the
/// whole command.
pub proof fn law_route_given(
    word: Seq<char>,
    command: Command,
    gap: Seq<char>,
    name: Seq<char>,
    tail: Seq<char>,
)
    requires
        spells(word, command),
        command.arity() == Arity::RouteName,
        is_blank(gap),
        gap.len() > 0,
        is_route_name(name),
        is_blank(tail),
    ensures
        parse_spec(word + gap + name + tail) == Ok::<(Seq<char>, InputView), SyntaxError>(
            (Seq::empty(), InputView { command, pier: None, face: None, route: Some(name) }),
        ),
{
    let t = word + gap + name + tail;
    let a = word.len() as int;
    let b = a + gap.len();
    let c = b + name.len();
    assert forall|i: int| 0 <= i < word.len() implies lower(#[trigger] t[i])
        == command.keyword()[i] by {
        assert(t[i] == word[i]);
    }
    assert(t[a] == gap[0]);
    lemma_keyword_decides(t, command);
    assert(t.subrange(a, b) =~= gap);
    assert(t.subrange(b, c) =~= name);
    assert(t.subrange(c, c + tail.len()) =~= tail);
    assert(t[b] == name[0]);
    if c < t.len() {
        assert(t[c] == tail[0]);
    }
    lemma_blank_gap(t, a, gap);
    assert forall|i: int| b <= i < c implies CharClass::RouteName.holds(#[trigger] t[i]) by {
        assert(t[i] == name[i - b]);
    }
    lemma_run_end_unique(t, b, c, CharClass::RouteName);
    lemma_blank_gap(t, c, tail);
    assert(rest_from(t, c) =~= Seq::<char>::empty());
}

/// What the grammar accepts can be answered: a parsed command lacks no
/// argument that its plan needs.
pub proof fn law_parsed_is_planned(s: Seq<char>)
    ensures
        parse_spec(s) matches Ok((_, input)) ==> plan_spec(input).is_ok(),
{
}

/// The line that asks the agent for the faces of a pier is a command of the
/// grammar, and means that pier.
pub proof fn law_status_line_parses(pier: u64)
    ensures
        parse_spec(status_line(pier)) == Ok::<(Seq<char>, InputView), SyntaxError>(
            (
                Seq::empty(),
                InputView { command: Command::Status, pier: Some(pier), face: None, route: None },
            ),
        ),
{
    reveal_keywords();
    reveal_strlit("status ");
    let word = Command::Status.keyword();
    let gap = seq![' '];
    let digits = decimal_digits(pier as nat);
    let tail = Seq::<char>::empty();
    law_decimal_round_trip(pier as nat);
    assert(spells(word, Command::Status));
    assert("status "@ =~= word + gap);
    assert(status_line(pier) =~= word + gap + digits + tail);
    law_pier_given(word, Command::Status, gap, digits, tail);
}

proof fn lemma_number_at(s: Seq<char>, at: int)
    requires
        0 <= at <= s.len() <= usize::MAX,
    ensures
        match number_at(s, at) {
            Ok((end, _)) => at <= end <= s.len(),
            Err(e) => {
                &&& e.kind == SyntaxErrorKind::ExpectedNumber
                &&& at <= e.position <= s.len()
                &&& e.position < s.len() ==> !is_space(s[e.position as int])
                &&& e.position < s.len() && is_digit(s[e.position as int]) ==> too_large_at(
                    s,
                    e.position as int,
                )
            },
        },
{
    lemma_run_end_bounds(s, at, CharClass::Space);
    lemma_run_end_bounds(s, run_end(s, at, CharClass::Space), CharClass::Digit);
}

/// Whether the digits that begin at `at` write more than 64 bits hold.
pub open spec fn too_large_at(s: Seq<char>, at: int) -> bool {
    number_value(s.subrange(at, run_end(s, at, CharClass::Digit))).is_none()
}

/// What is handed back beside a command is the end of the text, and is
/// empty or begins with a character that is no whitespace.
pub proof fn law_remainder(s: Seq<char>)
    requires
        s.len() <= usize::MAX,
    ensures
        parse_spec(s) matches Ok((rest, _)) ==> {
            &&& rest.len() <= s.len()
            &&& rest == s.subrange(s.len() - rest.len(), s.len() as int)
            &&& rest.len() > 0 ==> !is_space(rest[0])
        },
{
    if let Some(command) = command_of(s) {
        let at = command.keyword().len() as int;
        lemma_command_found(s);
        lemma_number_at(s, at);
        lemma_run_end_bounds(s, at, CharClass::Space);
        lemma_run_end_bounds(s, run_end(s, at, CharClass::Space), CharClass::RouteName);
        law_leftover(s, at);
        if let Ok((end, _)) = number_at(s, at) {
            lemma_number_at(s, end);
            law_leftover(s, end);
            if let Ok((end2, _)) = number_at(s, end) {
                law_leftover(s, end2);
            }
        }
        let start = run_end(s, at, CharClass::Space);
        if let Ok(end) = token_at(s, start, CharClass::RouteName, SyntaxErrorKind::ExpectedRoute) {
            law_leftover(s, end);
        }
    }
}

/// A refusal points into the text or at its end. Where a number or a route
/// name was due, it points past the whitespace: at the end, at a character
/// that cannot stand in one, or at digits that write more than 64 bits
/// hold.
pub proof fn law_refusal_position(s: Seq<char>)
    requires
        s.len() <= usize::MAX,
    ensures
        parse_spec(s) matches Err(e) ==> {
            &&& e.position <= s.len()
            &&& e.kind == SyntaxErrorKind::UnknownCommand ==> e.position == 0
            &&& e.kind == SyntaxErrorKind::ExpectedNumber && e.position < s.len() ==> !is_space(
                s[e.position as int],
            ) && (is_digit(s[e.position as int]) ==> too_large_at(s, e.position as int))
            &&& e.kind == SyntaxErrorKind::ExpectedRoute && e.position < s.len() ==> !is_route_char(
                s[e.position as int],
            ) && !is_space(s[e.position as int])
        },
{
    if let Some(command) = command_of(s) {
        let at = command.keyword().len() as int;
        lemma_command_found(s);
        lemma_number_at(s, at);
        lemma_run_end_bounds(s, at, CharClass::Space);
        lemma_run_end_bounds(s, run_end(s, at, CharClass::Space), CharClass::RouteName);
        if let Ok((end, _)) = number_at(s, at) {
            lemma_number_at(s, end);
        }
    }
}

/// The command of a text is one whose keyword is the first token of the
/// text.
proof fn lemma_command_found(s: Seq<char>)
    ensures
        command_of(s) matches Some(command) ==> has_keyword(s, command.keyword()),
{
}

/// Text is left over exactly where something other than whitespace follows
/// the arguments: what `rest_from` gives is the end of the text, and is
/// empty or begins with a character that is no whitespace.
pub proof fn law_leftover(s: Seq<char>, at: int)
    requires
        0 <= at <= s.len(),
    ensures
        rest_from(s, at).len() == 0 <==> is_blank(s.subrange(at, s.len() as int)),
        rest_from(s, at).len() > 0 ==> !is_space(rest_from(s, at)[0]),
        rest_from(s, at).len() <= s.len() - at,
        rest_from(s, at) == s.subrange(s.len() - rest_from(s, at).len(), s.len() as int),
{
    crate::text::lemma_run_end_bounds(s, at, CharClass::Space);
    let end = run_end(s, at, CharClass::Space);
    let tail = s.subrange(at, s.len() as int);
    if end == s.len() {
        assert forall|i: int| 0 <= i < tail.len() implies is_space(#[trigger] tail[i]) by {
            assert(CharClass::Space.holds(s[at + i]));
        }
    } else {
        assert(tail[end - at] == s[end]);
        assert(rest_from(s, at)[0] == s[end]);
    }
}

} // verus!
