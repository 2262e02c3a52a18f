//! Canonical records and their wire-level input forms.

use crate::errors::{ServiceError, ServiceErrorView};
use vstd::prelude::*;
use vstd::string::StringExecFns;

verus! {

/// A team as it is kept and returned: the number is assigned by the
/// competition organizers and identifies the team.
#[derive(Debug, PartialEq, Eq)]
pub struct Team {
    /// The organizer-assigned number of the team.
    pub number: u32,
    /// The team-chosen name; empty when none was given.
    pub name: String,
    /// The organization behind the team, often a school; may be empty.
    pub affiliation: String,
}

/// Mathematical value of a [`Team`].
pub struct TeamView {
    pub number: u32,
    pub name: Seq<char>,
    pub affiliation: Seq<char>,
}

impl View for Team {
    type V = TeamView;

    open spec fn view(&self) -> TeamView {
        TeamView { number: self.number, name: self.name@, affiliation: self.affiliation@ }
    }
}

impl Clone for Team {
    fn clone(&self) -> (copy: Self)
        ensures
            copy@ == self@,
    {
        Team {
            number: self.number,
            name: self.name.clone(),
            affiliation: self.affiliation.clone(),
        }
    }
}

/// A team as a form or an API client submits it: every scalar is text.
#[derive(Debug, PartialEq, Eq)]
pub struct NewTeam {
    /// The number of the team, as text so that forms can send it.
    pub number: String,
    /// The team-chosen name.
    pub name: String,
    /// The team's affiliation, if provided.
    pub affiliation: String,
}

/// Mathematical value of a [`NewTeam`].
pub struct NewTeamView {
    pub number: Seq<char>,
    pub name: Seq<char>,
    pub affiliation: Seq<char>,
}

impl View for NewTeam {
    type V = NewTeamView;

    open spec fn view(&self) -> NewTeamView {
        NewTeamView { number: self.number@, name: self.name@, affiliation: self.affiliation@ }
    }
}

/// The text of an optional form field: empty where the field was left out.
pub open spec fn text_or_empty(text: Option<String>) -> Seq<char> {
    match text {
        Some(given) => given@,
        None => Seq::empty(),
    }
}

impl NewTeam {
    /// A submission from the fields of a form. The number and what was given
    /// of name and affiliation pass through as they came; a name or an
    /// affiliation that the form left out is empty.
    pub fn from_form(number: String, name: Option<String>, affiliation: Option<String>) -> (input:
        NewTeam)
        ensures
            input@.number == number@,
            input@.name == text_or_empty(name),
            input@.affiliation == text_or_empty(affiliation),
    {
        let name = match name {
            Some(given) => given,
            None => String::new(),
        };
        let affiliation = match affiliation {
            Some(given) => given,
            None => String::new(),
        };
        NewTeam { number, name, affiliation }
    }
}

impl Clone for NewTeam {
    fn clone(&self) -> (copy: Self)
        ensures
            copy@ == self@,
    {
        NewTeam {
            number: self.number.clone(),
            name: self.name.clone(),
            affiliation: self.affiliation.clone(),
        }
    }
}

/// A tournament as a client submits it. It carries no identifier: the
/// service assigns one.
#[derive(Debug, PartialEq, Eq)]
pub struct NewTournament {
    /// The name of the tournament, set by organizers.
    pub name: String,
    /// Numbers of the participating teams, in order; may be empty.
    pub teams: Vec<u32>,
    /// The current stage, conventionally "quals" or "playoffs".
    pub current_stage: String,
}

/// Mathematical value of a [`NewTournament`].
pub struct NewTournamentView {
    pub name: Seq<char>,
    pub teams: Seq<u32>,
    pub current_stage: Seq<char>,
}

impl View for NewTournament {
    type V = NewTournamentView;

    open spec fn view(&self) -> NewTournamentView {
        NewTournamentView {
            name: self.name@,
            teams: self.teams@,
            current_stage: self.current_stage@,
        }
    }
}

/// The error for a field that a submission must have and does not.
pub open spec fn missing_field(field: Seq<char>) -> ServiceErrorView {
    ServiceErrorView::Validation { field, reason: "missing"@ }
}

/// Mathematical value of an optional text field.
pub open spec fn text_view(text: Option<String>) -> Option<Seq<char>> {
    match text {
        Some(given) => Some(given@),
        None => None,
    }
}

/// Mathematical value of an optional list of numbers.
pub open spec fn numbers_view(numbers: Option<Vec<u32>>) -> Option<Seq<u32>> {
    match numbers {
        Some(given) => Some(given@),
        None => None,
    }
}

/// Mathematical value of a submission that was or was not accepted.
pub open spec fn submission_view(outcome: Result<NewTournament, ServiceError>) -> Result<
    NewTournamentView,
    ServiceErrorView,
> {
    match outcome {
        Ok(input) => Ok(input@),
        Err(error) => Err(error@),
    }
}

/// The submission that the fields of a form make. Every field must be
/// there: the first that is absent, in the order `name`, `teams`,
/// `current_stage`, is the error. What is there passes through unchanged.
pub open spec fn tournament_form_spec(
    name: Option<Seq<char>>,
    teams: Option<Seq<u32>>,
    current_stage: Option<Seq<char>>,
) -> Result<NewTournamentView, ServiceErrorView> {
    match (name, teams, current_stage) {
        (None, _, _) => Err(missing_field("name"@)),
        (Some(_), None, _) => Err(missing_field("teams"@)),
        (Some(_), Some(_), None) => Err(missing_field("current_stage"@)),
        (Some(name), Some(teams), Some(current_stage)) => Ok(
            NewTournamentView { name, teams, current_stage },
        ),
    }
}

impl NewTournament {
    /// A submission from the fields of a form. A field that the form left
    /// out is a validation error that names it; an empty name, an empty list
    /// of teams and an empty stage are values like any other.
    pub fn from_form(
        name: Option<String>,
        teams: Option<Vec<u32>>,
        current_stage: Option<String>,
    ) -> (outcome: Result<NewTournament, ServiceError>)
        ensures
            submission_view(outcome) == tournament_form_spec(
                text_view(name),
                numbers_view(teams),
                text_view(current_stage),
            ),
    {
        let name = match name {
            Some(given) => given,
            None => {
                return Err(missing("name"));
            },
        };
        let teams = match teams {
            Some(given) => given,
            None => {
                return Err(missing("teams"));
            },
        };
        let current_stage = match current_stage {
            Some(given) => given,
            None => {
                return Err(missing("current_stage"));
            },
        };
        Ok(NewTournament { name, teams, current_stage })
    }
}

fn missing(field: &str) -> (error: ServiceError)
    ensures
        error@ == missing_field(field@),
{
    ServiceError::Validation { field: String::from_str(field), reason: String::from_str("missing") }
}

impl Clone for NewTournament {
    fn clone(&self) -> (copy: Self)
        ensures
            copy@ == self@,
    {
        NewTournament {
            name: self.name.clone(),
            teams: self.teams.clone(),
            current_stage: self.current_stage.clone(),
        }
    }
}

/// A tournament as it is kept and returned.
#[derive(Debug, PartialEq, Eq)]
pub struct Tournament {
    /// The service-assigned identifier.
    pub id: u32,
    /// The user-defined name.
    pub name: String,
    /// Numbers of the participating teams, in order.
    pub teams: Vec<u32>,
    /// The current stage of the event.
    pub current_stage: String,
}

/// Mathematical value of a [`Tournament`].
pub struct TournamentView {
    pub id: u32,
    pub name: Seq<char>,
    pub teams: Seq<u32>,
    pub current_stage: Seq<char>,
}

impl View for Tournament {
    type V = TournamentView;

    open spec fn view(&self) -> TournamentView {
        TournamentView {
            id: self.id,
            name: self.name@,
            teams: self.teams@,
            current_stage: self.current_stage@,
        }
    }
}

impl Clone for Tournament {
    fn clone(&self) -> (copy: Self)
        ensures
            copy@ == self@,
    {
        Tournament {
            id: self.id,
            name: self.name.clone(),
            teams: self.teams.clone(),
            current_stage: self.current_stage.clone(),
        }
    }
}

} // verus!
