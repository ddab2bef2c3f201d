//! The command grammar: a keyword as the first token, then the arguments
//! that the keyword asks for, each set off by whitespace.
//!
//! Positions are counted in characters from the start of the text.

use crate::text::{
    is_space, lemma_run_end_bounds, lower, number_value, read_number, run_end, scan, space, strip,
    to_lower, trim, CharClass,
};
use vstd::prelude::*;

verus! {

/// What the operator asks for.
#[derive(Clone, Copy, Debug, PartialEq, Eq, Structural)]
pub enum Command {
    /// The faces of a pier.
    Status,
    /// One face of a pier, with its counters.
    Face,
    /// The piers that the agent knows.
    Piers,
    /// The faces, over all piers, that carry a route.
    QueryRoute,
    /// The command reference.
    Help,
    /// `Status` as earlier agents spelled it, with the pier required.
    PierStatus,
    /// `Face` as earlier agents spelled it.
    Stats,
    /// `Face` as earlier agents spelled it, with the pier required.
    PierStats,
}

/// The arguments that a keyword asks for.
#[derive(Clone, Copy, Debug, PartialEq, Eq, Structural)]
pub enum Arity {
    /// No argument.
    Nothing,
    /// A pier, or nothing for the local pier.
    OptionalPier,
    /// A pier.
    Pier,
    /// A face, or a pier and then a face.
    OptionalPierThenFace,
    /// A pier and then a face.
    PierThenFace,
    /// A route name.
    RouteName,
}

impl Command {
    /// The keyword that selects the command, in lower case.
    pub open spec fn keyword(self) -> Seq<char> {
        match self {
            Command::Status => "status"@,
            Command::Face => "face"@,
            Command::Piers => "piers"@,
            Command::QueryRoute => "route"@,
            Command::Help => "help"@,
            Command::PierStatus => "pier-status"@,
            Command::Stats => "stats"@,
            Command::PierStats => "pier-stats"@,
        }
    }

    /// The arguments that the command takes.
    pub open spec fn arity(self) -> Arity {
        match self {
            Command::Status => Arity::OptionalPier,
            Command::Face => Arity::OptionalPierThenFace,
            Command::Piers => Arity::Nothing,
            Command::QueryRoute => Arity::RouteName,
            Command::Help => Arity::Nothing,
            Command::PierStatus => Arity::Pier,
            Command::Stats => Arity::OptionalPierThenFace,
            Command::PierStats => Arity::PierThenFace,
        }
    }

    /// The keyword that selects the command, in lower case.
    pub fn word(&self) -> (w: &'static str)
        ensures
            w@ == self.keyword(),
    {
        match self {
            Command::Status => "status",
            Command::Face => "face",
            Command::Piers => "piers",
            Command::QueryRoute => "route",
            Command::Help => "help",
            Command::PierStatus => "pier-status",
            Command::Stats => "stats",
            Command::PierStats => "pier-stats",
        }
    }

    /// The arguments that the command takes.
    pub fn arguments(&self) -> (a: Arity)
        ensures
            a == self.arity(),
    {
        match self {
            Command::Status => Arity::OptionalPier,
            Command::Face => Arity::OptionalPierThenFace,
            Command::Piers => Arity::Nothing,
            Command::QueryRoute => Arity::RouteName,
            Command::Help => Arity::Nothing,
            Command::PierStatus => Arity::Pier,
            Command::Stats => Arity::OptionalPierThenFace,
            Command::PierStats => Arity::PierThenFace,
        }
    }

    /// The command that a word names, letters of either case.
    pub fn from_word(word: &str) -> (r: Option<Command>)
        ensures
            r == (match command_of(word@) {
                Some(c) if c.keyword().len() == word@.len() => Some(c),
                _ => None,
            }),
    {
        let len: usize = word.unicode_len();
        match find_command(word, len) {
            Some(c) => {
                if c.word().unicode_len() == len {
                    Some(c)
                } else {
                    None
                }
            },
            None => None,
        }
    }
}

/// A parsed command line. A field is `None` where the command takes no such
/// argument.
#[derive(Debug, PartialEq, Eq)]
pub struct Input {
    pub command: Command,
    pub pier: Option<u64>,
    pub face: Option<u64>,
    pub route: Option<String>,
}

/// An `Input` with its route name as a sequence of characters.
pub struct InputView {
    pub command: Command,
    pub pier: Option<u64>,
    pub face: Option<u64>,
    pub route: Option<Seq<char>>,
}

impl View for Input {
    type V = InputView;

    open spec fn view(&self) -> InputView {
        InputView {
            command: self.command,
            pier: self.pier,
            face: self.face,
            route: match self.route {
                Some(name) => Some(name@),
                None => None,
            },
        }
    }
}

/// Why a command line was refused.
#[derive(Clone, Copy, Debug, PartialEq, Eq, Structural)]
pub enum SyntaxErrorKind {
    /// The first token of the text is no keyword.
    UnknownCommand,
    /// A number was due, and what stands there is no token of digits, or
    /// the digits write more than 64 bits hold.
    ExpectedNumber,
    /// A route name was due and no character of one stands there.
    ExpectedRoute,
}

/// A refusal, with the position of the character that was not accepted.
#[derive(Clone, Copy, Debug, PartialEq, Eq, Structural)]
pub struct SyntaxError {
    pub kind: SyntaxErrorKind,
    pub position: usize,
}

/// Whether the first token of `s` is the lower-case word `k`, letters of
/// either case: `s` begins with the word, and the end of `s` or whitespace
/// follows it.
pub open spec fn has_keyword(s: Seq<char>, k: Seq<char>) -> bool {
    &&& k.len() <= s.len()
    &&& forall|i: int| 0 <= i < k.len() ==> lower(#[trigger] s[i]) == k[i]
    &&& k.len() == s.len() || is_space(s[k.len() as int])
}

/// The command whose keyword is the first token of `s`.
pub open spec fn command_of(s: Seq<char>) -> Option<Command> {
    if has_keyword(s, Command::Status.keyword()) {
        Some(Command::Status)
    } else if has_keyword(s, Command::Face.keyword()) {
        Some(Command::Face)
    } else if has_keyword(s, Command::Piers.keyword()) {
        Some(Command::Piers)
    } else if has_keyword(s, Command::QueryRoute.keyword()) {
        Some(Command::QueryRoute)
    } else if has_keyword(s, Command::Help.keyword()) {
        Some(Command::Help)
    } else if has_keyword(s, Command::PierStatus.keyword()) {
        Some(Command::PierStatus)
    } else if has_keyword(s, Command::Stats.keyword()) {
        Some(Command::Stats)
    } else if has_keyword(s, Command::PierStats.keyword()) {
        Some(Command::PierStats)
    } else {
        None
    }
}

/// The text from `at` on, without the whitespace that it begins with.
pub open spec fn rest_from(s: Seq<char>, at: int) -> Seq<char> {
    s.subrange(run_end(s, at, CharClass::Space), s.len() as int)
}

/// A run of one or more `class` characters at `at`: where it ends, or the
/// refusal `kind` at `at` where no such character stands there.
pub open spec fn token_at(s: Seq<char>, at: int, class: CharClass, kind: SyntaxErrorKind) -> Result<
    int,
    SyntaxError,
> {
    let end = run_end(s, at, class);
    if end == at {
        Err(SyntaxError { kind, position: at as usize })
    } else {
        Ok(end)
    }
}

/// A number at `start`: a token of digits alone, where it ends and what it
/// means. It is refused at `start` where no digit stands there, at the
/// first character that is neither a digit nor whitespace where one follows
/// the digits, and at `start` where the digits write more than 64 bits hold.
pub open spec fn digits_at(s: Seq<char>, start: int) -> Result<(int, u64), SyntaxError> {
    match token_at(s, start, CharClass::Digit, SyntaxErrorKind::ExpectedNumber) {
        Ok(end) => if end < s.len() && !is_space(s[end]) {
            Err(SyntaxError { kind: SyntaxErrorKind::ExpectedNumber, position: end as usize })
        } else {
            match number_value(s.subrange(start, end)) {
                Some(value) => Ok((end, value)),
                None => Err(
                    SyntaxError { kind: SyntaxErrorKind::ExpectedNumber, position: start as usize },
                ),
            }
        },
        Err(e) => Err(e),
    }
}

/// A number after optional whitespace at `at`.
pub open spec fn number_at(s: Seq<char>, at: int) -> Result<(int, u64), SyntaxError> {
    digits_at(s, run_end(s, at, CharClass::Space))
}

/// Whether only whitespace, or nothing, follows `at`.
pub open spec fn blank_from(s: Seq<char>, at: int) -> bool {
    run_end(s, at, CharClass::Space) == s.len()
}

/// The arguments of `command`, read from `at`, and what is left of the text.
pub open spec fn arguments_at(s: Seq<char>, command: Command, at: int) -> Result<
    (Seq<char>, InputView),
    SyntaxError,
> {
    match command.arity() {
        Arity::Nothing => Ok(
            (rest_from(s, at), InputView { command, pier: None, face: None, route: None }),
        ),
        Arity::OptionalPier => if blank_from(s, at) {
            Ok((rest_from(s, at), InputView { command, pier: Some(0), face: None, route: None }))
        } else {
            match number_at(s, at) {
                Ok((end, pier)) => Ok(
                    (
                        rest_from(s, end),
                        InputView { command, pier: Some(pier), face: None, route: None },
                    ),
                ),
                Err(e) => Err(e),
            }
        },
        Arity::Pier => match number_at(s, at) {
            Ok((end, pier)) => Ok(
                (rest_from(s, end), InputView { command, pier: Some(pier), face: None, route: None }),
            ),
            Err(e) => Err(e),
        },
        Arity::OptionalPierThenFace => match number_at(s, at) {
            Ok((end, first)) => if blank_from(s, end) {
                Ok(
                    (
                        rest_from(s, end),
                        InputView { command, pier: Some(0), face: Some(first), route: None },
                    ),
                )
            } else {
                match number_at(s, end) {
                    Ok((end2, face)) => Ok(
                        (
                            rest_from(s, end2),
                            InputView { command, pier: Some(first), face: Some(face), route: None },
                        ),
                    ),
                    Err(e) => Err(e),
                }
            },
            Err(e) => Err(e),
        },
        Arity::PierThenFace => match number_at(s, at) {
            Ok((end, pier)) => match number_at(s, end) {
                Ok((end2, face)) => Ok(
                    (
                        rest_from(s, end2),
                        InputView { command, pier: Some(pier), face: Some(face), route: None },
                    ),
                ),
                Err(e) => Err(e),
            },
            Err(e) => Err(e),
        },
        Arity::RouteName => {
            let start = run_end(s, at, CharClass::Space);
            match token_at(s, start, CharClass::RouteName, SyntaxErrorKind::ExpectedRoute) {
                Ok(end) => Ok(
                    (
                        rest_from(s, end),
                        InputView {
                            command,
                            pier: None,
                            face: None,
                            route: Some(s.subrange(start, end)),
                        },
                    ),
                ),
                Err(e) => Err(e),
            }
        },
    }
}

/// What a command line means: the command with its arguments and the text
/// that they leave, or the first refusal.
pub open spec fn parse_spec(s: Seq<char>) -> Result<(Seq<char>, InputView), SyntaxError> {
    match command_of(s) {
        Some(command) => arguments_at(s, command, command.keyword().len() as int),
        None => Err(SyntaxError { kind: SyntaxErrorKind::UnknownCommand, position: 0 }),
    }
}

fn begins_with(s: &str, len: usize, word: &str) -> (b: bool)
    requires
        len == s@.len(),
    ensures
        b == has_keyword(s@, word@),
{
    let n: usize = word.unicode_len();
    if n > len {
        return false;
    }
    let mut i: usize = 0;
    while i < n
        invariant
            n == word@.len(),
            len == s@.len(),
            i <= n <= len,
            forall|j: int| 0 <= j < i ==> lower(#[trigger] s@[j]) == word@[j],
        decreases n - i,
    {
        if to_lower(s.get_char(i)) != word.get_char(i) {
            return false;
        }
        i += 1;
    }
    n == len || space(s.get_char(n))
}

fn find_command(s: &str, len: usize) -> (r: Option<Command>)
    requires
        len == s@.len(),
    ensures
        r == command_of(s@),
{
    if begins_with(s, len, Command::Status.word()) {
        Some(Command::Status)
    } else if begins_with(s, len, Command::Face.word()) {
        Some(Command::Face)
    } else if begins_with(s, len, Command::Piers.word()) {
        Some(Command::Piers)
    } else if begins_with(s, len, Command::QueryRoute.word()) {
        Some(Command::QueryRoute)
    } else if begins_with(s, len, Command::Help.word()) {
        Some(Command::Help)
    } else if begins_with(s, len, Command::PierStatus.word()) {
        Some(Command::PierStatus)
    } else if begins_with(s, len, Command::Stats.word()) {
        Some(Command::Stats)
    } else if begins_with(s, len, Command::PierStats.word()) {
        Some(Command::PierStats)
    } else {
        None
    }
}

fn token_from(s: &str, len: usize, at: usize, class: CharClass, kind: SyntaxErrorKind) -> (r: Result<
    usize,
    SyntaxError,
>)
    requires
        len == s@.len(),
        at <= len,
    ensures
        match r {
            Ok(end) => token_at(s@, at as int, class, kind) == Ok::<int, SyntaxError>(end as int),
            Err(e) => token_at(s@, at as int, class, kind) == Err::<int, SyntaxError>(e),
        },
        r matches Ok(end) ==> at < end <= len && forall|i: int|
            at <= i < end ==> class.holds(#[trigger] s@[i]),
{
    let end: usize = scan(s, len, at, class);
    proof {
        lemma_run_end_bounds(s@, at as int, class);
    }
    if end == at {
        Err(SyntaxError { kind, position: at })
    } else {
        Ok(end)
    }
}

fn digits_from(s: &str, len: usize, start: usize) -> (r: Result<(usize, u64), SyntaxError>)
    requires
        len == s@.len(),
        start <= len,
    ensures
        match r {
            Ok((end, v)) => digits_at(s@, start as int) == Ok::<(int, u64), SyntaxError>(
                (end as int, v),
            ),
            Err(e) => digits_at(s@, start as int) == Err::<(int, u64), SyntaxError>(e),
        },
        r matches Ok((end, _)) ==> start < end <= len,
{
    match token_from(s, len, start, CharClass::Digit, SyntaxErrorKind::ExpectedNumber) {
        Ok(end) => {
            if end < len && !space(s.get_char(end)) {
                Err(SyntaxError { kind: SyntaxErrorKind::ExpectedNumber, position: end })
            } else {
                match read_number(s, start, end) {
                    Some(value) => Ok((end, value)),
                    None => Err(
                        SyntaxError { kind: SyntaxErrorKind::ExpectedNumber, position: start },
                    ),
                }
            }
        },
        Err(e) => Err(e),
    }
}

fn number_from(s: &str, len: usize, at: usize) -> (r: Result<(usize, u64), SyntaxError>)
    requires
        len == s@.len(),
        at <= len,
    ensures
        match r {
            Ok((end, v)) => number_at(s@, at as int) == Ok::<(int, u64), SyntaxError>(
                (end as int, v),
            ),
            Err(e) => number_at(s@, at as int) == Err::<(int, u64), SyntaxError>(e),
        },
        r matches Ok((end, _)) ==> at <= end <= len,
{
    let start: usize = scan(s, len, at, CharClass::Space);
    digits_from(s, len, start)
}

fn blank(s: &str, len: usize, at: usize) -> (b: bool)
    requires
        len == s@.len(),
        at <= len,
    ensures
        b == blank_from(s@, at as int),
{
    scan(s, len, at, CharClass::Space) == len
}

fn rest<'a>(s: &'a str, len: usize, at: usize) -> (r: &'a str)
    requires
        len == s@.len(),
        at <= len,
    ensures
        r@ == rest_from(s@, at as int),
{
    let start: usize = scan(s, len, at, CharClass::Space);
    s.substring_char(start, len)
}

/// Reads the keyword that is the first token of `input` and hands back what
/// follows it, untouched. A text whose first token only begins with a
/// keyword has none.
pub fn command<'a>(input: &'a str) -> (r: Result<(&'a str, Command), SyntaxError>)
    ensures
        match r {
            Ok((rest, c)) => command_of(input@) == Some(c) && rest@ == input@.subrange(
                c.keyword().len() as int,
                input@.len() as int,
            ),
            Err(e) => command_of(input@).is_none() && e == (SyntaxError {
                kind: SyntaxErrorKind::UnknownCommand,
                position: 0,
            }),
        },
{
    let len: usize = input.unicode_len();
    match find_command(input, len) {
        Some(c) => {
            let skip: usize = c.word().unicode_len();
            Ok((input.substring_char(skip, len), c))
        },
        None => Err(SyntaxError { kind: SyntaxErrorKind::UnknownCommand, position: 0 }),
    }
}

/// Reads the number that is the first token of `input` and hands back what
/// follows it, untouched. It is refused where `input` begins with no digit,
/// where something other than whitespace follows the digits, and where the
/// digits write more than 64 bits hold.
pub fn number<'a>(input: &'a str) -> (r: Result<(&'a str, u64), SyntaxError>)
    ensures
        match r {
            Ok((rest, v)) => {
                let end = run_end(input@, 0, CharClass::Digit);
                &&& digits_at(input@, 0) == Ok::<(int, u64), SyntaxError>((end, v))
                &&& rest@ == input@.subrange(end, input@.len() as int)
            },
            Err(e) => digits_at(input@, 0) == Err::<(int, u64), SyntaxError>(e),
        },
{
    let len: usize = input.unicode_len();
    match digits_from(input, len, 0) {
        Ok((end, value)) => Ok((input.substring_char(end, len), value)),
        Err(e) => Err(e),
    }
}

/// Reads the route name that `input` begins with and hands back what follows
/// it, untouched.
pub fn route<'a>(input: &'a str) -> (r: Result<(&'a str, String), SyntaxError>)
    ensures
        match r {
            Ok((rest, name)) => {
                let end = run_end(input@, 0, CharClass::RouteName);
                &&& end > 0
                &&& name@ == input@.subrange(0, end)
                &&& rest@ == input@.subrange(end, input@.len() as int)
            },
            Err(e) => run_end(input@, 0, CharClass::RouteName) == 0 && e == (SyntaxError {
                kind: SyntaxErrorKind::ExpectedRoute,
                position: 0,
            }),
        },
{
    let len: usize = input.unicode_len();
    match token_from(input, len, 0, CharClass::RouteName, SyntaxErrorKind::ExpectedRoute) {
        Ok(end) => Ok((input.substring_char(end, len), input.substring_char(0, end).to_owned())),
        Err(e) => Err(e),
    }
}

/// Parses one command line. The first token of the text must be the
/// keyword; the arguments are set off by whitespace. What is handed back beside
/// the command is the text that the arguments leave, without the whitespace
/// before it: a caller that wants the whole line used tests it for empty.
pub fn parse_input<'a>(input: &'a str) -> (r: Result<(&'a str, Input), SyntaxError>)
    ensures
        match r {
            Ok((rest, parsed)) => parse_spec(input@) == Ok::<(Seq<char>, InputView), SyntaxError>(
                (rest@, parsed@),
            ),
            Err(e) => parse_spec(input@) == Err::<(Seq<char>, InputView), SyntaxError>(e),
        },
{
    let len: usize = input.unicode_len();
    let command = match find_command(input, len) {
        Some(c) => c,
        None => {
            return Err(SyntaxError { kind: SyntaxErrorKind::UnknownCommand, position: 0 });
        },
    };
    let at: usize = command.word().unicode_len();
    match command.arguments() {
        Arity::Nothing => Ok(
            (rest(input, len, at), Input { command, pier: None, face: None, route: None }),
        ),
        Arity::OptionalPier => {
            if blank(input, len, at) {
                Ok((rest(input, len, at), Input { command, pier: Some(0), face: None, route: None }))
            } else {
                match number_from(input, len, at) {
                    Ok((end, pier)) => Ok(
                        (
                            rest(input, len, end),
                            Input { command, pier: Some(pier), face: None, route: None },
                        ),
                    ),
                    Err(e) => Err(e),
                }
            }
        },
        Arity::Pier => match number_from(input, len, at) {
            Ok((end, pier)) => Ok(
                (rest(input, len, end), Input { command, pier: Some(pier), face: None, route: None }),
            ),
            Err(e) => Err(e),
        },
        Arity::OptionalPierThenFace => match number_from(input, len, at) {
            Ok((end, first)) => {
                if blank(input, len, end) {
                    Ok(
                        (
                            rest(input, len, end),
                            Input { command, pier: Some(0), face: Some(first), route: None },
                        ),
                    )
                } else {
                    match number_from(input, len, end) {
                        Ok((end2, face)) => Ok(
                            (
                                rest(input, len, end2),
                                Input { command, pier: Some(first), face: Some(face), route: None },
                            ),
                        ),
                        Err(e) => Err(e),
                    }
                }
            },
            Err(e) => Err(e),
        },
        Arity::PierThenFace => match number_from(input, len, at) {
            Ok((end, pier)) => match number_from(input, len, end) {
                Ok((end2, face)) => Ok(
                    (
                        rest(input, len, end2),
                        Input { command, pier: Some(pier), face: Some(face), route: None },
                    ),
                ),
                Err(e) => Err(e),
            },
            Err(e) => Err(e),
        },
        Arity::RouteName => {
            let start: usize = scan(input, len, at, CharClass::Space);
            match token_from(
                input,
                len,
                start,
                CharClass::RouteName,
                SyntaxErrorKind::ExpectedRoute,
            ) {
                Ok(end) => {
                    let name: String = input.substring_char(start, end).to_owned();
                    Ok(
                        (
                            rest(input, len, end),
                            Input { command, pier: None, face: None, route: Some(name) },
                        ),
                    )
                },
                Err(e) => Err(e),
            }
        },
    }
}

/// Why a line is no command.
#[derive(Debug, PartialEq, Eq)]
pub enum LineError {
    /// The grammar refuses the line. Positions count from the first
    /// character of the line that is no whitespace.
    Syntax(SyntaxError),
    /// A command was read, and this text follows it.
    Unexpected(String),
}

/// A `LineError` with its text as a sequence of characters.
pub enum LineErrorView {
    Syntax(SyntaxError),
    Unexpected(Seq<char>),
}

impl View for LineError {
    type V = LineErrorView;

    open spec fn view(&self) -> LineErrorView {
        match self {
            LineError::Syntax(e) => LineErrorView::Syntax(*e),
            LineError::Unexpected(text) => LineErrorView::Unexpected(text@),
        }
    }
}

/// What a whole line means: the command that the line, without the
/// whitespace around it, parses to, where nothing is left of the line.
pub open spec fn line_spec(line: Seq<char>) -> Result<InputView, LineErrorView> {
    match parse_spec(strip(line, CharClass::Space)) {
        Ok((rest, input)) => if rest.len() == 0 {
            Ok(input)
        } else {
            Err(LineErrorView::Unexpected(rest))
        },
        Err(e) => Err(LineErrorView::Syntax(e)),
    }
}

/// Reads a whole line as one command: the grammar must accept it, and
/// nothing may follow the command's arguments.
pub fn parse_line(line: &str) -> (r: Result<Input, LineError>)
    ensures
        match r {
            Ok(input) => line_spec(line@) == Ok::<InputView, LineErrorView>(input@),
            Err(e) => line_spec(line@) == Err::<InputView, LineErrorView>(e@),
        },
{
    match parse_input(trim(line, CharClass::Space)) {
        Ok((rest, input)) => {
            if rest.unicode_len() == 0 {
                Ok(input)
            } else {
                Err(LineError::Unexpected(rest.to_owned()))
            }
        },
        Err(e) => Err(LineError::Syntax(e)),
    }
}

} // verus!
