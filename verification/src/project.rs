use vstd::prelude::*;

verus! {

/// A team declared in the project's ownership configuration.
///
/// `github_team` is the platform-recognized handle used for enforcement and
/// mentions; `name` is the human-readable display name. `owned_globs` is the
/// ordered list of glob patterns the team declares ownership over, and
/// `avoid_ownership` records that the team wants to appear as an
/// owner-of-record while being excluded from active enforcement.
pub struct Team {
    pub name: String,
    pub github_team: String,
    pub owned_globs: Vec<String>,
    pub avoid_ownership: bool,
}

/// Mathematical model of a `Team`: each string as its sequence of characters.
pub ghost struct TeamView {
    pub name: Seq<char>,
    pub github_team: Seq<char>,
    pub owned_globs: Seq<Seq<char>>,
    pub avoid_ownership: bool,
}

/// The views of a sequence of strings, in order.
pub open spec fn string_views(strings: Seq<String>) -> Seq<Seq<char>> {
    strings.map_values(|s: String| s@)
}

impl View for Team {
    type V = TeamView;

    open spec fn view(&self) -> TeamView {
        TeamView {
            name: self.name@,
            github_team: self.github_team@,
            owned_globs: string_views(self.owned_globs@),
            avoid_ownership: self.avoid_ownership,
        }
    }
}

/// The views of a sequence of teams, in declaration order.
pub open spec fn team_views(teams: Seq<Team>) -> Seq<TeamView> {
    teams.map_values(|t: Team| t@)
}

/// A well-formed team declaration: the team is identifiable (non-empty
/// display name and platform handle) and declares no empty glob pattern.
pub open spec fn team_wf(t: TeamView) -> bool {
    &&& t.name.len() > 0
    &&& t.github_team.len() > 0
    &&& forall|i: int| 0 <= i < t.owned_globs.len() ==> #[trigger] t.owned_globs[i].len() > 0
}

/// The project configuration a mapper reads: an ordered list of teams.
///
/// Shared read-only (by `Arc`) among all mapper instances; no mapper ever
/// mutates it.
pub struct Project {
    pub teams: Vec<Team>,
}

/// Mathematical model of a `Project`.
pub ghost struct ProjectView {
    pub teams: Seq<TeamView>,
}

impl View for Project {
    type V = ProjectView;

    open spec fn view(&self) -> ProjectView {
        ProjectView { teams: team_views(self.teams@) }
    }
}

} // verus!
