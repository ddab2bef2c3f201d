//! What a command asks of the agent, and what of a reply answers it.

use crate::parse::{Command, Input, InputView};
use crate::reply::{decode, is_agent_error, DecodeError};
use crate::text::{decimal_digits, push_decimal, same_text};
use crate::types::{Face, Pier};
use vstd::prelude::*;

verus! {

/// The records that a reply is made of.
#[derive(Clone, Copy, Debug, PartialEq, Eq, Structural)]
pub enum ExpectedShape {
    Faces,
    Piers,
}

/// What of a reply is shown.
#[derive(Clone, Copy, Debug, PartialEq, Eq, Structural)]
pub enum Selection {
    /// Every face.
    AllFaces,
    /// The faces with this identifier, with their counters.
    FaceWithId(u64),
    /// Every pier.
    AllPiers,
}

impl Selection {
    /// The records that the reply must hold for this selection.
    pub open spec fn spec_shape(self) -> ExpectedShape {
        match self {
            Selection::AllPiers => ExpectedShape::Piers,
            _ => ExpectedShape::Faces,
        }
    }

    /// The records that the reply must hold for this selection.
    pub fn shape(&self) -> (r: ExpectedShape)
        ensures
            r == self.spec_shape(),
    {
        match self {
            Selection::AllPiers => ExpectedShape::Piers,
            _ => ExpectedShape::Faces,
        }
    }
}

/// How a command is answered.
#[derive(Debug, PartialEq, Eq)]
pub enum Plan {
    /// Without the agent: the command reference is shown.
    Reference,
    /// With one round trip: `line` is sent, and `selection` of the reply is
    /// shown.
    Ask { line: String, selection: Selection },
    /// With one round trip for the piers, sent as `line`, and then one for
    /// each pier: the faces that carry `route` are shown.
    Survey { line: String, route: String },
}

/// A `Plan` with its texts as sequences of characters.
pub enum PlanView {
    Reference,
    Ask { line: Seq<char>, selection: Selection },
    Survey { line: Seq<char>, route: Seq<char> },
}

impl View for Plan {
    type V = PlanView;

    open spec fn view(&self) -> PlanView {
        match self {
            Plan::Reference => PlanView::Reference,
            Plan::Ask { line, selection } => PlanView::Ask { line: line@, selection: *selection },
            Plan::Survey { line, route } => PlanView::Survey { line: line@, route: route@ },
        }
    }
}

/// An argument that a command cannot be answered without.
#[derive(Clone, Copy, Debug, PartialEq, Eq, Structural)]
pub enum PlanError {
    MissingFace,
    MissingRoute,
}

/// The line that asks the agent for the faces of a pier.
pub open spec fn status_line(pier: u64) -> Seq<char> {
    "status "@ + decimal_digits(pier as nat)
}

/// The line that asks the agent for its piers.
pub open spec fn piers_line() -> Seq<char> {
    "piers"@
}

/// The pier that a command is about: the local one, pier 0, where none is
/// named.
pub open spec fn pier_or_local(pier: Option<u64>) -> u64 {
    match pier {
        Some(id) => id,
        None => 0,
    }
}

/// How `input` is answered, or the argument that it lacks.
pub open spec fn plan_spec(input: InputView) -> Result<PlanView, PlanError> {
    match input.command {
        Command::Help => Ok(PlanView::Reference),
        Command::Piers => Ok(PlanView::Ask { line: piers_line(), selection: Selection::AllPiers }),
        Command::Status | Command::PierStatus => Ok(
            PlanView::Ask {
                line: status_line(pier_or_local(input.pier)),
                selection: Selection::AllFaces,
            },
        ),
        Command::Face | Command::Stats | Command::PierStats => match input.face {
            Some(face) => Ok(
                PlanView::Ask {
                    line: status_line(pier_or_local(input.pier)),
                    selection: Selection::FaceWithId(face),
                },
            ),
            None => Err(PlanError::MissingFace),
        },
        Command::QueryRoute => match input.route {
            Some(route) => Ok(PlanView::Survey { line: piers_line(), route }),
            None => Err(PlanError::MissingRoute),
        },
    }
}

/// The line that asks the agent for the faces of `pier`.
pub fn status_request(pier: u64) -> (line: String)
    ensures
        line@ == status_line(pier),
{
    let mut line = "status ".to_owned();
    push_decimal(&mut line, pier);
    line
}

/// The line that asks the agent for its piers.
pub fn piers_request() -> (line: String)
    ensures
        line@ == piers_line(),
{
    "piers".to_owned()
}

/// The line that tells the agent that the session ends.
pub fn exit_request() -> (line: String)
    ensures
        line@ == "exit"@,
{
    "exit".to_owned()
}

/// Decides how `input` is answered.
pub fn plan(input: &Input) -> (r: Result<Plan, PlanError>)
    ensures
        match r {
            Ok(p) => plan_spec(input@) == Ok::<PlanView, PlanError>(p@),
            Err(e) => plan_spec(input@) == Err::<PlanView, PlanError>(e),
        },
{
    let pier: u64 = match input.pier {
        Some(id) => id,
        None => 0,
    };
    match input.command {
        Command::Help => Ok(Plan::Reference),
        Command::Piers => Ok(Plan::Ask { line: piers_request(), selection: Selection::AllPiers }),
        Command::Status | Command::PierStatus => Ok(
            Plan::Ask { line: status_request(pier), selection: Selection::AllFaces },
        ),
        Command::Face | Command::Stats | Command::PierStats => match input.face {
            Some(face) => Ok(
                Plan::Ask { line: status_request(pier), selection: Selection::FaceWithId(face) },
            ),
            None => Err(PlanError::MissingFace),
        },
        Command::QueryRoute => match &input.route {
            Some(route) => Ok(Plan::Survey { line: piers_request(), route: route.clone() }),
            None => Err(PlanError::MissingRoute),
        },
    }
}

/// The records of a reply.
#[derive(Debug, PartialEq, Eq)]
pub enum Records {
    Faces(Vec<Face>),
    Piers(Vec<Pier>),
}

/// Decodes a reply as the records that `shape` names, with the decoder for
/// those records. An error report of the agent is handed back whole, and
/// neither decoder is asked.
pub fn decode_as<F, P>(raw: &str, shape: ExpectedShape, faces: F, piers: P) -> (r: Result<
    Records,
    DecodeError,
>) where F: FnOnce(&str) -> Result<Vec<Face>, String>, P: FnOnce(&str) -> Result<Vec<Pier>, String>
    requires
        !is_agent_error(raw@) && shape == ExpectedShape::Faces ==> faces.requires((raw,)),
        !is_agent_error(raw@) && shape == ExpectedShape::Piers ==> piers.requires((raw,)),
    ensures
        is_agent_error(raw@) ==> (r matches Err(DecodeError::Agent(text)) && text@ == raw@),
        !is_agent_error(raw@) ==> (match r {
            Ok(Records::Faces(found)) => shape == ExpectedShape::Faces && faces.ensures(
                (raw,),
                Ok(found),
            ),
            Ok(Records::Piers(found)) => shape == ExpectedShape::Piers && piers.ensures(
                (raw,),
                Ok(found),
            ),
            Err(DecodeError::Malformed(detail)) => match shape {
                ExpectedShape::Faces => faces.ensures((raw,), Err(detail)),
                ExpectedShape::Piers => piers.ensures((raw,), Err(detail)),
            },
            Err(DecodeError::Agent(_)) => false,
        }),
{
    match shape {
        ExpectedShape::Faces => match decode(raw, faces) {
            Ok(found) => Ok(Records::Faces(found)),
            Err(e) => Err(e),
        },
        ExpectedShape::Piers => match decode(raw, piers) {
            Ok(found) => Ok(Records::Piers(found)),
            Err(e) => Err(e),
        },
    }
}

/// Whether `picked` holds, in rising order and each once, the positions at
/// which `wanted` is true.
pub open spec fn selects(picked: Seq<usize>, wanted: Seq<bool>) -> bool {
    &&& forall|k: int| 0 <= k < picked.len() ==> (#[trigger] picked[k]) < wanted.len() && wanted[picked[k] as int]
    &&& forall|j: int, k: int| 0 <= j < k < picked.len() ==> picked[j] < picked[k]
    &&& forall|i: int| 0 <= i < wanted.len() && #[trigger] wanted[i] ==> picked.contains(i as usize)
}

/// `selects` leaves no choice: two lists that pick the same positions are
/// the same list.
pub proof fn law_selection_is_unique(a: Seq<usize>, b: Seq<usize>, wanted: Seq<bool>)
    requires
        selects(a, wanted),
        selects(b, wanted),
    ensures
        a == b,
    decreases a.len(),
{
    if a.len() == 0 {
        if b.len() > 0 {
            assert(wanted[b[0] as int]);
            assert(a.contains(b[0]));
        }
        assert(a =~= b);
    } else {
        let m = a.last();
        assert(wanted[m as int]);
        assert(b.contains(m));
        let j = choose|j: int| 0 <= j < b.len() && b[j] == m;
        assert(wanted[b.last() as int]);
        assert(a.contains(b.last()));
        let k = choose|k: int| 0 <= k < a.len() && a[k] == b.last();
        assert(b.last() == m);
        let shorter = wanted.take(m as int);
        lemma_selection_without_last(a, wanted);
        lemma_selection_without_last(b, wanted);
        law_selection_is_unique(a.drop_last(), b.drop_last(), shorter);
        assert(a =~= a.drop_last().push(m));
        assert(b =~= b.drop_last().push(m));
    }
}

proof fn lemma_selection_without_last(a: Seq<usize>, wanted: Seq<bool>)
    requires
        selects(a, wanted),
        a.len() > 0,
    ensures
        selects(a.drop_last(), wanted.take(a.last() as int)),
{
    let m = a.last();
    let rest = a.drop_last();
    let shorter = wanted.take(m as int);
    assert forall|i: int| 0 <= i < shorter.len() && #[trigger] shorter[i] implies rest.contains(
        i as usize,
    ) by {
        assert(wanted[i]);
        assert(a.contains(i as usize));
        let k = choose|k: int| 0 <= k < a.len() && a[k] == i as usize;
        assert(rest[k] == i as usize);
    }
    assert forall|k: int| 0 <= k < rest.len() implies (#[trigger] rest[k]) < shorter.len()
        && shorter[rest[k] as int] by {
        assert(rest[k] == a[k]);
        assert(a[k] < a[a.len() - 1]);
    }
}

/// The positions at which `wanted` is true, in rising order.
pub open spec fn positions(wanted: Seq<bool>) -> Seq<usize>
    decreases wanted.len(),
{
    if wanted.len() == 0 {
        Seq::empty()
    } else if wanted.last() {
        positions(wanted.drop_last()).push((wanted.len() - 1) as usize)
    } else {
        positions(wanted.drop_last())
    }
}

/// `positions` picks what `selects` asks for: every position at which
/// `wanted` is true, each once, the lower one first.
pub proof fn law_positions_select(wanted: Seq<bool>)
    requires
        wanted.len() <= usize::MAX,
    ensures
        selects(positions(wanted), wanted),
    decreases wanted.len(),
{
    if wanted.len() > 0 {
        let shorter = wanted.drop_last();
        let before = positions(shorter);
        let picked = positions(wanted);
        law_positions_select(shorter);
        assert forall|i: int| 0 <= i < wanted.len() && #[trigger] wanted[i] implies picked.contains(
            i as usize,
        ) by {
            if i < shorter.len() {
                assert(shorter[i]);
                let k = choose|k: int| 0 <= k < before.len() && before[k] == i as usize;
                assert(picked[k] == i as usize);
            } else {
                assert(picked[picked.len() - 1] == i as usize);
            }
        }
        assert forall|k: int| 0 <= k < picked.len() implies (#[trigger] picked[k]) < wanted.len()
            && wanted[picked[k] as int] by {
            if k < before.len() {
                assert(picked[k] == before[k]);
                assert(shorter[before[k] as int]);
            }
        }
        assert forall|j: int, k: int| 0 <= j < k < picked.len() implies picked[j] < picked[k] by {
            assert(picked[j] == before[j]);
            if k < before.len() {
                assert(picked[k] == before[k]);
            }
        }
    }
}

fn pick(wanted: &Vec<bool>) -> (picked: Vec<usize>)
    ensures
        picked@ == positions(wanted@),
{
    let mut picked: Vec<usize> = Vec::new();
    let mut i: usize = 0;
    assert(wanted@.take(0) =~= Seq::<bool>::empty());
    while i < wanted.len()
        invariant
            i <= wanted@.len(),
            picked@ == positions(wanted@.take(i as int)),
        decreases wanted@.len() - i,
    {
        let ghost upto = wanted@.take(i + 1);
        assert(upto.drop_last() =~= wanted@.take(i as int));
        assert(upto.last() == wanted@[i as int]);
        if wanted[i] {
            picked.push(i);
        }
        i += 1;
    }
    assert(wanted@.take(i as int) =~= wanted@);
    picked
}

/// For each face, whether its identifier is `id`.
pub open spec fn with_id(faces: Seq<Face>, id: u64) -> Seq<bool> {
    Seq::new(faces.len(), |i: int| faces[i].id == id)
}

/// Whether a route named `name` is attached to `face`.
pub open spec fn carries(face: Face, name: Seq<char>) -> bool {
    exists|j: int| 0 <= j < face.routes@.len() && (#[trigger] face.routes@[j]).name@ == name
}

/// For each face, whether it carries a route named `name`.
pub open spec fn with_route(faces: Seq<Face>, name: Seq<char>) -> Seq<bool> {
    Seq::new(faces.len(), |i: int| carries(faces[i], name))
}

/// Where in `faces` the faces with identifier `id` stand.
pub fn faces_with_id(faces: &Vec<Face>, id: u64) -> (picked: Vec<usize>)
    ensures
        picked@ == positions(with_id(faces@, id)),
{
    let mut wanted: Vec<bool> = Vec::new();
    let mut i: usize = 0;
    while i < faces.len()
        invariant
            i <= faces@.len(),
            wanted@.len() == i,
            forall|j: int| 0 <= j < i ==> wanted@[j] == (faces@[j].id == id),
        decreases faces@.len() - i,
    {
        wanted.push(faces[i].id == id);
        i += 1;
    }
    assert(wanted@ =~= with_id(faces@, id));
    pick(&wanted)
}

/// Whether a route named `name` is attached to `face`.
pub fn carries_route(face: &Face, name: &str) -> (b: bool)
    ensures
        b == carries(*face, name@),
{
    let mut j: usize = 0;
    while j < face.routes.len()
        invariant
            j <= face.routes@.len(),
            forall|k: int| 0 <= k < j ==> (#[trigger] face.routes@[k]).name@ != name@,
        decreases face.routes@.len() - j,
    {
        if same_text(face.routes[j].name.as_str(), name) {
            return true;
        }
        j += 1;
    }
    false
}

/// Where in `faces` the faces that carry a route named `name` stand.
pub fn faces_with_route(faces: &Vec<Face>, name: &str) -> (picked: Vec<usize>)
    ensures
        picked@ == positions(with_route(faces@, name@)),
{
    let mut wanted: Vec<bool> = Vec::new();
    let mut i: usize = 0;
    while i < faces.len()
        invariant
            i <= faces@.len(),
            wanted@.len() == i,
            forall|j: int| 0 <= j < i ==> wanted@[j] == carries(faces@[j], name@),
        decreases faces@.len() - i,
    {
        wanted.push(carries_route(&faces[i], name));
        i += 1;
    }
    assert(wanted@ =~= with_route(faces@, name@));
    pick(&wanted)
}

} // verus!
