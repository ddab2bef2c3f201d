//! The search for a route over all piers: one round trip for each pier, in
//! the order of the list of piers, the local pier where it stands in it.

use crate::dispatch::{faces_with_route, positions, status_line, status_request, with_route};
use crate::reply::DecodeError;
use crate::types::{Face, Pier};
use vstd::prelude::*;

verus! {

/// The state of a search between two round trips.
#[derive(Debug, PartialEq, Eq)]
pub struct RouteSurvey {
    /// The name of the route that is looked for.
    pub route: String,
    /// The identifiers of the piers, in the order in which they are asked.
    pub piers: Vec<u64>,
    /// How many piers have been asked and have answered.
    pub answered: usize,
    /// Whether a reply that could not be decoded has ended the search.
    pub abandoned: bool,
}

/// What the search does next.
#[derive(Debug, PartialEq, Eq)]
pub enum SurveyStep {
    /// Send `line`, which asks for the faces of `pier`, the pier at
    /// `position` in the list of piers.
    Ask { position: usize, pier: u64, line: String },
    /// Nothing: every pier has answered, or the search was abandoned.
    Finished,
}

/// What a reply adds to the search.
#[derive(Debug, PartialEq, Eq)]
pub enum SurveyOutcome {
    /// The positions, in the reply, of the faces that carry the route.
    Matches(Vec<usize>),
    /// The agent's error for this pier; the search goes on with the next.
    Reported(String),
    /// The reply could not be decoded; the search ends here.
    Abandoned(String),
    /// No reply was due: nothing has changed.
    Unasked,
}

impl RouteSurvey {
    /// No more piers have answered than there are.
    pub open spec fn well_formed(&self) -> bool {
        self.answered <= self.piers@.len()
    }

    /// Whether nothing is left to ask.
    pub open spec fn finished(&self) -> bool {
        self.abandoned || self.answered >= self.piers@.len()
    }

    /// The piers that have been asked and have answered, in the order in
    /// which they were asked.
    pub open spec fn asked(&self) -> Seq<u64> {
        self.piers@.take(self.answered as int)
    }

    /// A search that has come to its end without being abandoned has asked
    /// every pier, each once and in the order of the list.
    pub proof fn law_finished_has_asked_all(&self)
        requires
            self.well_formed(),
            self.finished(),
            !self.abandoned,
        ensures
            self.asked() == self.piers@,
    {
        assert(self.piers@.take(self.piers@.len() as int) =~= self.piers@);
    }

    /// Starts a search for `route` over `piers`.
    pub fn begin(route: &str, piers: &Vec<Pier>) -> (s: RouteSurvey)
        ensures
            s.well_formed(),
            s.route@ == route@,
            s.answered == 0,
            !s.abandoned,
            s.piers@.len() == piers@.len(),
            forall|i: int| 0 <= i < piers@.len() ==> s.piers@[i] == (#[trigger] piers@[i]).id,
    {
        let mut ids: Vec<u64> = Vec::new();
        let mut i: usize = 0;
        while i < piers.len()
            invariant
                i <= piers@.len(),
                ids@.len() == i,
                forall|j: int| 0 <= j < i ==> ids@[j] == (#[trigger] piers@[j]).id,
            decreases piers@.len() - i,
        {
            ids.push(piers[i].id);
            i += 1;
        }
        RouteSurvey { route: route.to_owned(), piers: ids, answered: 0, abandoned: false }
    }

    /// What to do next: ask the first pier that has not answered, or stop.
    pub fn step(&self) -> (r: SurveyStep)
        ensures
            match r {
                SurveyStep::Finished => self.finished(),
                SurveyStep::Ask { position, pier, line } => {
                    &&& !self.finished()
                    &&& position == self.answered
                    &&& position < self.piers@.len()
                    &&& pier == self.piers@[position as int]
                    &&& line@ == status_line(pier)
                },
            },
    {
        if self.abandoned || self.answered >= self.piers.len() {
            SurveyStep::Finished
        } else {
            let pier: u64 = self.piers[self.answered];
            SurveyStep::Ask { position: self.answered, pier, line: status_request(pier) }
        }
    }

    /// Takes the decoded reply of the pier that was asked last. Faces that
    /// carry the route are picked; an error of the agent is reported and
    /// the next pier is due; a reply that could not be decoded ends the
    /// search.
    pub fn record(&mut self, reply: &Result<Vec<Face>, DecodeError>) -> (r: SurveyOutcome)
        ensures
            old(self).well_formed() ==> final(self).well_formed(),
            final(self).route == old(self).route,
            final(self).piers == old(self).piers,
            old(self).finished() ==> r == SurveyOutcome::Unasked && *final(self) == *old(self),
            final(self).asked() == (if old(self).finished() || final(self).abandoned {
                old(self).asked()
            } else {
                old(self).asked().push(old(self).piers@[old(self).answered as int])
            }),
            !old(self).finished() ==> (match reply {
                Ok(faces) => {
                    &&& r matches SurveyOutcome::Matches(picked)
                    &&& picked@ == positions(with_route(faces@, old(self).route@))
                    &&& final(self).answered == old(self).answered + 1
                    &&& !final(self).abandoned
                },
                Err(DecodeError::Agent(text)) => {
                    &&& r matches SurveyOutcome::Reported(shown)
                    &&& shown@ == text@
                    &&& final(self).answered == old(self).answered + 1
                    &&& !final(self).abandoned
                },
                Err(DecodeError::Malformed(detail)) => {
                    &&& r matches SurveyOutcome::Abandoned(shown)
                    &&& shown@ == detail@
                    &&& final(self).answered == old(self).answered
                    &&& final(self).abandoned
                },
            }),
    {
        if self.abandoned || self.answered >= self.piers.len() {
            return SurveyOutcome::Unasked;
        }
        assert(self.piers@.take(self.answered + 1) =~= self.piers@.take(self.answered as int).push(
            self.piers@[self.answered as int],
        ));
        match reply {
            Ok(faces) => {
                self.answered = self.answered + 1;
                SurveyOutcome::Matches(faces_with_route(faces, self.route.as_str()))
            },
            Err(DecodeError::Agent(text)) => {
                self.answered = self.answered + 1;
                SurveyOutcome::Reported(text.clone())
            },
            Err(DecodeError::Malformed(detail)) => {
                self.abandoned = true;
                SurveyOutcome::Abandoned(detail.clone())
            },
        }
    }
}

} // verus!
