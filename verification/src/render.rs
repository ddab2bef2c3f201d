//! The lines that show records to the operator.

use crate::dispatch::{faces_with_id, positions, with_id, Records, Selection};
use crate::parse::{LineError, LineErrorView, SyntaxErrorKind};
use crate::reply::DecodeError;
use crate::text::{decimal_digits, push_decimal, strip, trim, CharClass};
use crate::types::{Face, Pier, Route};
use vstd::prelude::*;

verus! {

/// The names of `routes`, each followed by a comma and a space.
pub open spec fn route_names(routes: Seq<Route>) -> Seq<char>
    decreases routes.len(),
{
    if routes.len() == 0 {
        Seq::empty()
    } else {
        route_names(routes.drop_last()) + routes.last().name@ + ", "@
    }
}

/// The line that names a face: identifier, link type, scope and the two
/// ends, set apart by tabs.
pub open spec fn face_text(face: Face) -> Seq<char> {
    decimal_digits(face.id as nat) + "\t"@ + face.link_type.wire_name() + "\t"@
        + face.face_scope.wire_name() + "\t"@ + face.local_uri@ + " to "@ + face.remote_uri@
}

/// The line that lists the routes of a face.
pub open spec fn routes_text(face: Face) -> Seq<char> {
    "\tRoutes: "@ + route_names(face.routes@)
}

/// A line that shows a counter pair under its label: what came in, a
/// slash, what went out.
pub open spec fn counter_text(label: Seq<char>, incoming: u64, outgoing: u64) -> Seq<char> {
    label + decimal_digits(incoming as nat) + "/"@ + decimal_digits(outgoing as nat)
}

/// The line that shows a pier. The local pier, pier 0, is marked as such;
/// any other is shown with the face that leads to it.
pub open spec fn pier_text(pier: Pier) -> Seq<char> {
    if pier.id == 0 {
        decimal_digits(pier.id as nat) + ": "@ + pier.prefix@ + " LOCAL "@ + pier.ip@ + ":"@
            + decimal_digits(pier.port as nat)
    } else {
        decimal_digits(pier.id as nat) + ": "@ + pier.prefix@ + " ("@ + decimal_digits(
            pier.face_id as nat,
        ) + ") "@ + pier.ip@ + ":"@ + decimal_digits(pier.port as nat)
    }
}

/// The line that heads a pier's part of a search for a route.
pub open spec fn heading_text(pier: Pier) -> Seq<char> {
    if pier.id == 0 {
        "pier: "@ + decimal_digits(pier.id as nat) + " (LOCAL): "@ + pier.prefix@ + "@"@
            + pier.ip@
    } else {
        "pier: "@ + decimal_digits(pier.id as nat) + ": "@ + pier.prefix@ + "@"@ + pier.ip@
    }
}

/// The line that names a face.
pub fn face_line(face: &Face) -> (line: String)
    ensures
        line@ == face_text(*face),
{
    let mut line = String::new();
    push_decimal(&mut line, face.id);
    assert(line@ =~= decimal_digits(face.id as nat));
    line.append("\t");
    line.append(face.link_type.name());
    line.append("\t");
    line.append(face.face_scope.name());
    line.append("\t");
    line.append(face.local_uri.as_str());
    line.append(" to ");
    line.append(face.remote_uri.as_str());
    line
}

/// The line that lists the routes of a face.
pub fn routes_line(face: &Face) -> (line: String)
    ensures
        line@ == routes_text(*face),
{
    let mut line = "\tRoutes: ".to_owned();
    let mut i: usize = 0;
    assert(face.routes@.take(0) =~= Seq::<Route>::empty());
    assert(line@ =~= "\tRoutes: "@ + route_names(face.routes@.take(0)));
    while i < face.routes.len()
        invariant
            i <= face.routes@.len(),
            line@ =~= "\tRoutes: "@ + route_names(face.routes@.take(i as int)),
        decreases face.routes@.len() - i,
    {
        let ghost upto = face.routes@.take(i + 1);
        assert(upto.drop_last() =~= face.routes@.take(i as int));
        assert(upto.last() == face.routes@[i as int]);
        line.append(face.routes[i].name.as_str());
        line.append(", ");
        i += 1;
    }
    assert(face.routes@.take(i as int) =~= face.routes@);
    line
}

/// The line that shows a counter pair under its label.
pub fn counter_line(label: &str, incoming: u64, outgoing: u64) -> (line: String)
    ensures
        line@ == counter_text(label@, incoming, outgoing),
{
    let mut line = label.to_owned();
    push_decimal(&mut line, incoming);
    line.append("/");
    push_decimal(&mut line, outgoing);
    line
}

/// The four lines that show the counters of a face: interests, bytes, data
/// and nacks.
pub fn counter_lines(face: &Face) -> (lines: Vec<String>)
    ensures
        lines@.len() == 4,
        lines@[0]@ == counter_text("    interests "@, face.in_interests, face.out_interests),
        lines@[1]@ == counter_text("    bytes     "@, face.in_bytes, face.out_bytes),
        lines@[2]@ == counter_text("    data      "@, face.in_data, face.out_data),
        lines@[3]@ == counter_text("    nacks     "@, face.in_nacks, face.out_nacks),
{
    let mut lines: Vec<String> = Vec::new();
    lines.push(counter_line("    interests ", face.in_interests, face.out_interests));
    lines.push(counter_line("    bytes     ", face.in_bytes, face.out_bytes));
    lines.push(counter_line("    data      ", face.in_data, face.out_data));
    lines.push(counter_line("    nacks     ", face.in_nacks, face.out_nacks));
    lines
}

/// The line that shows a pier.
pub fn pier_line(pier: &Pier) -> (line: String)
    ensures
        line@ == pier_text(*pier),
{
    let mut line = String::new();
    push_decimal(&mut line, pier.id);
    assert(line@ =~= decimal_digits(pier.id as nat));
    line.append(": ");
    line.append(pier.prefix.as_str());
    if pier.id == 0 {
        line.append(" LOCAL ");
    } else {
        line.append(" (");
        push_decimal(&mut line, pier.face_id);
        line.append(") ");
    }
    line.append(pier.ip.as_str());
    line.append(":");
    push_decimal(&mut line, pier.port);
    line
}

/// The line that heads a pier's part of a search for a route.
pub fn heading_line(pier: &Pier) -> (line: String)
    ensures
        line@ == heading_text(*pier),
{
    let mut line = "pier: ".to_owned();
    push_decimal(&mut line, pier.id);
    if pier.id == 0 {
        line.append(" (LOCAL): ");
    } else {
        line.append(": ");
    }
    line.append(pier.prefix.as_str());
    line.append("@");
    line.append(pier.ip.as_str());
    line
}

/// The command reference, line by line.
pub fn reference_lines() -> (lines: Vec<String>)
    ensures
        lines@.len() == 6,
        lines@[0]@ == "Available Commands"@,
        lines@[1]@ == "status [pier]      : status of pier (default to 0- i.e. local)"@,
        lines@[2]@
            == "face [pier] face_id: face info for pier's face_id (default to 0- i.e. local)"@,
        lines@[3]@ == "piers              : list known piers"@,
        lines@[4]@ == "route name         : find and print info on the route name"@,
        lines@[5]@ == "help               : this"@,
{
    let mut lines: Vec<String> = Vec::new();
    lines.push("Available Commands".to_owned());
    lines.push("status [pier]      : status of pier (default to 0- i.e. local)".to_owned());
    lines.push(
        "face [pier] face_id: face info for pier's face_id (default to 0- i.e. local)".to_owned(),
    );
    lines.push("piers              : list known piers".to_owned());
    lines.push("route name         : find and print info on the route name".to_owned());
    lines.push("help               : this".to_owned());
    lines
}

/// The texts of `lines`.
pub open spec fn texts(lines: Seq<String>) -> Seq<Seq<char>> {
    Seq::new(lines.len(), |i: int| lines[i]@)
}

/// The lines that show one face: the face, its routes and, where they are
/// asked for, its four counter pairs.
pub open spec fn face_block(face: Face, counters: bool) -> Seq<Seq<char>> {
    if counters {
        seq![
            face_text(face),
            routes_text(face),
            counter_text("    interests "@, face.in_interests, face.out_interests),
            counter_text("    bytes     "@, face.in_bytes, face.out_bytes),
            counter_text("    data      "@, face.in_data, face.out_data),
            counter_text("    nacks     "@, face.in_nacks, face.out_nacks),
        ]
    } else {
        seq![face_text(face), routes_text(face)]
    }
}

/// The lines that show the faces at the positions `picked`, in the order of
/// `picked`. A position outside `faces` shows nothing.
pub open spec fn report_text(faces: Seq<Face>, picked: Seq<usize>, counters: bool) -> Seq<
    Seq<char>,
>
    decreases picked.len(),
{
    if picked.len() == 0 {
        Seq::empty()
    } else if picked.last() < faces.len() {
        report_text(faces, picked.drop_last(), counters) + face_block(
            faces[picked.last() as int],
            counters,
        )
    } else {
        report_text(faces, picked.drop_last(), counters)
    }
}

/// The lines that show the faces at the positions `picked`.
pub fn report(faces: &Vec<Face>, picked: &Vec<usize>, counters: bool) -> (lines: Vec<String>)
    ensures
        texts(lines@) == report_text(faces@, picked@, counters),
{
    let mut lines: Vec<String> = Vec::new();
    let mut k: usize = 0;
    assert(picked@.take(0) =~= Seq::<usize>::empty());
    assert(texts(lines@) =~= report_text(faces@, picked@.take(0), counters));
    while k < picked.len()
        invariant
            k <= picked@.len(),
            texts(lines@) =~= report_text(faces@, picked@.take(k as int), counters),
        decreases picked@.len() - k,
    {
        let ghost upto = picked@.take(k + 1);
        assert(upto.drop_last() =~= picked@.take(k as int));
        assert(upto.last() == picked@[k as int]);
        let at: usize = picked[k];
        if at < faces.len() {
            let face = &faces[at];
            let ghost before = texts(lines@);
            lines.push(face_line(face));
            lines.push(routes_line(face));
            if counters {
                let mut pairs = counter_lines(face);
                lines.append(&mut pairs);
            }
            assert(texts(lines@) =~= before + face_block(*face, counters));
        }
        k += 1;
    }
    assert(picked@.take(k as int) =~= picked@);
    lines
}

/// Every position of a list of `n`, in rising order.
pub fn all_positions(n: usize) -> (all: Vec<usize>)
    ensures
        all@ == Seq::new(n as nat, |i: int| i as usize),
{
    let mut all: Vec<usize> = Vec::new();
    let mut i: usize = 0;
    while i < n
        invariant
            i <= n,
            all@.len() == i,
            forall|j: int| 0 <= j < i ==> all@[j] == j as usize,
        decreases n - i,
    {
        all.push(i);
        i += 1;
    }
    assert(all@ =~= Seq::new(n as nat, |i: int| i as usize));
    all
}

/// What a selection shows of the faces of a reply: every face, or the faces
/// with the identifier that was asked for, with their counters. A selection
/// of piers shows no face.
pub open spec fn answer_text(selection: Selection, faces: Seq<Face>) -> Seq<Seq<char>> {
    match selection {
        Selection::AllFaces => report_text(
            faces,
            Seq::new(faces.len(), |i: int| i as usize),
            false,
        ),
        Selection::FaceWithId(id) => report_text(faces, positions(with_id(faces, id)), true),
        Selection::AllPiers => Seq::empty(),
    }
}

/// The lines that answer a command with the faces of a reply.
pub fn faces_answer(selection: Selection, faces: &Vec<Face>) -> (lines: Vec<String>)
    ensures
        texts(lines@) == answer_text(selection, faces@),
{
    match selection {
        Selection::AllFaces => report(faces, &all_positions(faces.len()), false),
        Selection::FaceWithId(id) => {
            let picked = faces_with_id(faces, id);
            report(faces, &picked, true)
        },
        Selection::AllPiers => {
            let lines: Vec<String> = Vec::new();
            assert(texts(lines@) =~= Seq::<Seq<char>>::empty());
            lines
        },
    }
}

/// The lines that show the piers of a reply, one for each in their order.
pub fn piers_answer(piers: &Vec<Pier>) -> (lines: Vec<String>)
    ensures
        lines@.len() == piers@.len(),
        forall|i: int| 0 <= i < piers@.len() ==> (#[trigger] lines@[i])@ == pier_text(piers@[i]),
{
    let mut lines: Vec<String> = Vec::new();
    let mut i: usize = 0;
    while i < piers.len()
        invariant
            i <= piers@.len(),
            lines@.len() == i,
            forall|j: int| 0 <= j < i ==> (#[trigger] lines@[j])@ == pier_text(piers@[j]),
        decreases piers@.len() - i,
    {
        lines.push(pier_line(&piers[i]));
        i += 1;
    }
    lines
}

/// The lines that show the piers of a reply, one for each in their order.
pub open spec fn piers_text(piers: Seq<Pier>) -> Seq<Seq<char>> {
    Seq::new(piers.len(), |i: int| pier_text(piers[i]))
}

/// What is shown for the records of a reply to a command that asked for
/// `selection`: the selected faces, or the piers.
pub open spec fn records_text(selection: Selection, records: Records) -> Seq<Seq<char>> {
    match records {
        Records::Faces(faces) => answer_text(selection, faces@),
        Records::Piers(piers) => piers_text(piers@),
    }
}

/// The lines that answer a command with the records of its reply.
pub fn records_answer(selection: Selection, records: &Records) -> (lines: Vec<String>)
    ensures
        texts(lines@) == records_text(selection, *records),
{
    match records {
        Records::Faces(faces) => faces_answer(selection, faces),
        Records::Piers(piers) => {
            let lines = piers_answer(piers);
            assert(texts(lines@) =~= piers_text(piers@));
            lines
        },
    }
}

/// What a kind of refusal is called.
pub open spec fn kind_text(kind: SyntaxErrorKind) -> Seq<char> {
    match kind {
        SyntaxErrorKind::UnknownCommand => "unknown command"@,
        SyntaxErrorKind::ExpectedNumber => "expected a number"@,
        SyntaxErrorKind::ExpectedRoute => "expected a route name"@,
    }
}

/// The line that tells the operator why `line` is no command: the line
/// without the whitespace around it, and then what was unexpected, or what
/// was missing and where.
pub open spec fn complaint_text(line: Seq<char>, error: LineErrorView) -> Seq<char> {
    match error {
        LineErrorView::Unexpected(rest) => "Parse Error on input: "@ + strip(
            line,
            CharClass::Space,
        ) + ", unexpected "@ + rest,
        LineErrorView::Syntax(e) => "Parse Error on input: "@ + strip(line, CharClass::Space)
            + ", "@ + kind_text(e.kind) + " at "@ + decimal_digits(e.position as nat),
    }
}

/// The line that tells the operator why `line` is no command.
pub fn complaint(line: &str, error: &LineError) -> (shown: String)
    ensures
        shown@ == complaint_text(line@, error@),
{
    let mut shown = "Parse Error on input: ".to_owned();
    shown.append(trim(line, CharClass::Space));
    match error {
        LineError::Unexpected(rest) => {
            shown.append(", unexpected ");
            shown.append(rest.as_str());
        },
        LineError::Syntax(e) => {
            shown.append(", ");
            let what = match e.kind {
                SyntaxErrorKind::UnknownCommand => "unknown command",
                SyntaxErrorKind::ExpectedNumber => "expected a number",
                SyntaxErrorKind::ExpectedRoute => "expected a route name",
            };
            shown.append(what);
            shown.append(" at ");
            push_decimal(&mut shown, e.position as u64);
        },
    }
    shown
}

/// The line that tells the operator why a reply gave no records: the
/// agent's error as it came, or what the decoder said of the payload.
pub fn decode_error_line(error: &DecodeError) -> (shown: String)
    ensures
        match error {
            DecodeError::Agent(text) => shown@ == "Agent error: "@ + text@,
            DecodeError::Malformed(detail) => shown@ == "Malformed reply: "@ + detail@,
        },
{
    match error {
        DecodeError::Agent(text) => agent_error_line(text.as_str()),
        DecodeError::Malformed(detail) => {
            let mut shown = "Malformed reply: ".to_owned();
            shown.append(detail.as_str());
            shown
        },
    }
}

/// The line that shows an error that the agent reported.
pub fn agent_error_line(reply: &str) -> (shown: String)
    ensures
        shown@ == "Agent error: "@ + reply@,
{
    let mut shown = "Agent error: ".to_owned();
    shown.append(reply);
    shown
}

} // verus!
