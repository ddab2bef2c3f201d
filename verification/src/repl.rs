//! What an interactive session does with what its operator types.

use crate::dispatch::exit_request;
use crate::parse::{line_spec, parse_line, Input, InputView};
use crate::render::{complaint, complaint_text};
use vstd::prelude::*;

verus! {

/// What came from the operator.
#[derive(Debug, PartialEq, Eq)]
pub enum LineEvent {
    /// A line.
    Line(String),
    /// The end of the input.
    EndOfInput,
    /// An interrupt.
    Interrupted,
}

/// What the session does next.
#[derive(Debug, PartialEq, Eq)]
pub enum ReplAction {
    /// Answer the command and read on.
    Answer(Input),
    /// Tell the operator why the line is no command and read on.
    Complain(String),
    /// Tell the operator `notice`, send `request` to the agent and end.
    Leave { notice: String, request: String },
}

/// A `ReplAction` with its texts as sequences of characters.
pub enum ReplActionView {
    Answer(InputView),
    Complain(Seq<char>),
    Leave { notice: Seq<char>, request: Seq<char> },
}

impl View for ReplAction {
    type V = ReplActionView;

    open spec fn view(&self) -> ReplActionView {
        match self {
            ReplAction::Answer(input) => ReplActionView::Answer(input@),
            ReplAction::Complain(shown) => ReplActionView::Complain(shown@),
            ReplAction::Leave { notice, request } => ReplActionView::Leave {
                notice: notice@,
                request: request@,
            },
        }
    }
}

/// What the session does on a line: it answers the command that the whole
/// line is, or says why the line is none.
pub open spec fn on_line(line: Seq<char>) -> ReplActionView {
    match line_spec(line) {
        Ok(input) => ReplActionView::Answer(input),
        Err(e) => ReplActionView::Complain(complaint_text(line, e)),
    }
}

/// Decides what the session does next. A line is answered or complained
/// of, and the session goes on; at the end of the input and on an interrupt
/// the agent is told that the session ends.
pub fn react(event: &LineEvent) -> (action: ReplAction)
    ensures
        action@ == (match event {
            LineEvent::Line(line) => on_line(line@),
            LineEvent::EndOfInput => ReplActionView::Leave {
                notice: "Exiting..."@,
                request: "exit"@,
            },
            LineEvent::Interrupted => ReplActionView::Leave {
                notice: "Interupted..."@,
                request: "exit"@,
            },
        }),
{
    match event {
        LineEvent::Line(line) => match parse_line(line.as_str()) {
            Ok(input) => ReplAction::Answer(input),
            Err(e) => ReplAction::Complain(complaint(line.as_str(), &e)),
        },
        LineEvent::EndOfInput => ReplAction::Leave {
            notice: "Exiting...".to_owned(),
            request: exit_request(),
        },
        LineEvent::Interrupted => ReplAction::Leave {
            notice: "Interupted...".to_owned(),
            request: exit_request(),
        },
    }
}

} // verus!
