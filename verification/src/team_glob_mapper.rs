use std::sync::Arc;

use vstd::prelude::*;

use crate::mapper::{entry_views, entry_wf, matcher_views, Entry, EntryView, Mapper, OwnerMatcher,
    OwnerMatcherView};
use crate::project::{team_views, team_wf, Project, Team, TeamView};

verus! {

/// The entry a team contributes for one of its owned globs: the glob as the
/// path, the team's identifiers, and `disabled` mirroring `avoid_ownership`.
pub open spec fn team_entry(team: TeamView, glob: Seq<char>) -> EntryView {
    EntryView {
        path: glob,
        github_team: team.github_team,
        team_name: team.name,
        disabled: team.avoid_ownership,
    }
}

/// The entries one team contributes: one per owned glob, in declaration order.
pub open spec fn team_entries(team: TeamView) -> Seq<EntryView> {
    team.owned_globs.map_values(|g: Seq<char>| team_entry(team, g))
}

/// The matcher a team contributes for one of its owned globs. The matcher's
/// `team_name` field carries the platform handle (`github_team`), not the
/// display name: matching is keyed on the handle downstream.
pub open spec fn team_matcher(team: TeamView, glob: Seq<char>) -> OwnerMatcherView {
    OwnerMatcherView::Glob { glob: glob, team_name: team.github_team, source: "team_glob_mapper"@ }
}

/// The matchers one team contributes: one per owned glob, in declaration
/// order, independent of `avoid_ownership`.
pub open spec fn team_matchers(team: TeamView) -> Seq<OwnerMatcherView> {
    team.owned_globs.map_values(|g: Seq<char>| team_matcher(team, g))
}

/// All entries of a project: each team's block in declaration order.
pub open spec fn project_entries(teams: Seq<TeamView>) -> Seq<EntryView>
    decreases teams.len(),
{
    if teams.len() == 0 {
        Seq::empty()
    } else {
        project_entries(teams.drop_last()) + team_entries(teams.last())
    }
}

/// All matchers of a project: each team's block in declaration order.
pub open spec fn project_matchers(teams: Seq<TeamView>) -> Seq<OwnerMatcherView>
    decreases teams.len(),
{
    if teams.len() == 0 {
        Seq::empty()
    } else {
        project_matchers(teams.drop_last()) + team_matchers(teams.last())
    }
}

/// The number of globs declared by the first `i` teams together: the index
/// in the mapper's output at which team `i`'s block begins.
pub open spec fn globs_before(teams: Seq<TeamView>, i: int) -> int
    decreases i,
{
    if i <= 0 {
        0
    } else {
        globs_before(teams, i - 1) + teams[i - 1].owned_globs.len()
    }
}

/// `globs_before` only reads the teams before `i`, so dropping the last team
/// does not change it.
proof fn lemma_globs_before_drop_last(teams: Seq<TeamView>, i: int)
    requires
        0 <= i < teams.len(),
    ensures
        globs_before(teams.drop_last(), i) == globs_before(teams, i),
    decreases i,
{
    if i > 0 {
        lemma_globs_before_drop_last(teams, i - 1);
    }
}

/// `globs_before` is nonnegative and grows with its bound.
proof fn lemma_globs_before_monotonic(teams: Seq<TeamView>, i: int, k: int)
    requires
        0 <= i <= k,
    ensures
        0 <= globs_before(teams, i) <= globs_before(teams, k),
    decreases k,
{
    if k > i {
        lemma_globs_before_monotonic(teams, i, k - 1);
    } else if i > 0 {
        lemma_globs_before_monotonic(teams, i - 1, i - 1);
    }
}

/// The mapper emits exactly one entry and one matcher per declared glob: both
/// output sequences have one element for each glob of each team.
pub proof fn lemma_output_lengths(teams: Seq<TeamView>)
    ensures
        project_entries(teams).len() == globs_before(teams, teams.len() as int),
        project_matchers(teams).len() == globs_before(teams, teams.len() as int),
    decreases teams.len(),
{
    if teams.len() > 0 {
        lemma_output_lengths(teams.drop_last());
        lemma_globs_before_drop_last(teams, teams.len() - 1);
    }
}

/// One entry per glob, in declaration order: team `i`'s glob `j` yields the
/// entry at position `globs_before(teams, i) + j`, built from that glob and
/// that team's identifiers, with `disabled` mirroring `avoid_ownership`.
pub proof fn lemma_entry_per_glob(teams: Seq<TeamView>, i: int, j: int)
    requires
        0 <= i < teams.len(),
        0 <= j < teams[i].owned_globs.len(),
    ensures
        0 <= globs_before(teams, i) + j < project_entries(teams).len(),
        project_entries(teams)[globs_before(teams, i) + j] == team_entry(
            teams[i],
            teams[i].owned_globs[j],
        ),
        project_entries(teams)[globs_before(teams, i) + j].disabled == teams[i].avoid_ownership,
    decreases teams.len(),
{
    lemma_output_lengths(teams);
    lemma_globs_before_monotonic(teams, 0, i);
    lemma_globs_before_monotonic(teams, i + 1, teams.len() as int);
    if i == teams.len() - 1 {
        lemma_output_lengths(teams.drop_last());
        lemma_globs_before_drop_last(teams, i);
    } else {
        lemma_entry_per_glob(teams.drop_last(), i, j);
        lemma_globs_before_drop_last(teams, i);
        lemma_output_lengths(teams.drop_last());
        lemma_globs_before_drop_last(teams, teams.len() - 1);
        lemma_globs_before_monotonic(teams, i + 1, teams.len() - 1);
    }
}

/// One matcher per glob, in declaration order: team `i`'s glob `j` yields the
/// matcher at position `globs_before(teams, i) + j`, carrying that glob and
/// the team's platform handle, independent of `avoid_ownership`.
pub proof fn lemma_matcher_per_glob(teams: Seq<TeamView>, i: int, j: int)
    requires
        0 <= i < teams.len(),
        0 <= j < teams[i].owned_globs.len(),
    ensures
        0 <= globs_before(teams, i) + j < project_matchers(teams).len(),
        project_matchers(teams)[globs_before(teams, i) + j] == team_matcher(
            teams[i],
            teams[i].owned_globs[j],
        ),
    decreases teams.len(),
{
    lemma_output_lengths(teams);
    lemma_globs_before_monotonic(teams, 0, i);
    lemma_globs_before_monotonic(teams, i + 1, teams.len() as int);
    if i == teams.len() - 1 {
        lemma_output_lengths(teams.drop_last());
        lemma_globs_before_drop_last(teams, i);
    } else {
        lemma_matcher_per_glob(teams.drop_last(), i, j);
        lemma_globs_before_drop_last(teams, i);
        lemma_output_lengths(teams.drop_last());
        lemma_globs_before_drop_last(teams, teams.len() - 1);
        lemma_globs_before_monotonic(teams, i + 1, teams.len() - 1);
    }
}

/// A project in which every team declares no owned globs contributes no
/// entries and no matchers.
pub proof fn lemma_no_owned_globs_yields_nothing(teams: Seq<TeamView>)
    requires
        forall|i: int| 0 <= i < teams.len() ==> #[trigger] teams[i].owned_globs.len() == 0,
    ensures
        project_entries(teams) == Seq::<EntryView>::empty(),
        project_matchers(teams) == Seq::<OwnerMatcherView>::empty(),
    decreases teams.len(),
{
    if teams.len() > 0 {
        let rest = teams.drop_last();
        assert forall|i: int| 0 <= i < rest.len() implies #[trigger] rest[i].owned_globs.len()
            == 0 by {
            assert(rest[i] == teams[i]);
        }
        lemma_no_owned_globs_yields_nothing(rest);
        assert(teams.last().owned_globs.len() == 0);
        assert(project_entries(teams) =~= Seq::<EntryView>::empty());
        assert(project_matchers(teams) =~= Seq::<OwnerMatcherView>::empty());
    }
}

/// From a project whose teams are all well-formed, every emitted entry
/// satisfies the entry invariant: a non-empty path, and non-empty team
/// identifiers wherever the entry is enforced.
pub proof fn lemma_entries_well_formed(teams: Seq<TeamView>, k: int)
    requires
        forall|i: int| 0 <= i < teams.len() ==> #[trigger] team_wf(teams[i]),
        0 <= k < project_entries(teams).len(),
    ensures
        entry_wf(project_entries(teams)[k]),
    decreases teams.len(),
{
    if teams.len() > 0 {
        let rest = teams.drop_last();
        assert forall|i: int| 0 <= i < rest.len() implies #[trigger] team_wf(rest[i]) by {
            assert(rest[i] == teams[i]);
        }
        let prefix = project_entries(rest);
        if k < prefix.len() {
            lemma_entries_well_formed(rest, k);
        } else {
            assert(team_wf(teams.last()));
            assert(project_entries(teams)[k] == team_entries(teams.last())[k - prefix.len()]);
        }
    }
}

/// Every matcher this strategy emits is a `Glob` matcher whose `source` is
/// `"team_glob_mapper"`.
pub proof fn lemma_matchers_source(teams: Seq<TeamView>, k: int)
    requires
        0 <= k < project_matchers(teams).len(),
    ensures
        project_matchers(teams)[k] matches OwnerMatcherView::Glob { source, .. } && source
            == "team_glob_mapper"@,
    decreases teams.len(),
{
    if teams.len() > 0 {
        let prefix = project_matchers(teams.drop_last());
        if k < prefix.len() {
            lemma_matchers_source(teams.drop_last(), k);
        } else {
            assert(project_matchers(teams)[k] == team_matchers(teams.last())[k - prefix.len()]);
        }
    }
}

/// The strategy that derives ownership claims purely from each team's
/// declared ownership globs.
pub struct TeamGlobMapper {
    pub project: Arc<Project>,
}

impl TeamGlobMapper {
    pub fn build(project: Arc<Project>) -> (mapper: Self)
        ensures
            mapper.project == project,
    {
        Self { project }
    }
}

/// Extending a team list by one team appends that team's entry block.
proof fn lemma_project_entries_step(teams: Seq<TeamView>, i: int)
    requires
        0 <= i < teams.len(),
    ensures
        project_entries(teams.take(i + 1)) == project_entries(teams.take(i)) + team_entries(
            teams[i],
        ),
{
    let prefix = teams.take(i + 1);
    assert(prefix.drop_last() =~= teams.take(i));
    assert(prefix.last() == teams[i]);
}

/// Extending a team list by one team appends that team's matcher block.
proof fn lemma_project_matchers_step(teams: Seq<TeamView>, i: int)
    requires
        0 <= i < teams.len(),
    ensures
        project_matchers(teams.take(i + 1)) == project_matchers(teams.take(i)) + team_matchers(
            teams[i],
        ),
{
    let prefix = teams.take(i + 1);
    assert(prefix.drop_last() =~= teams.take(i));
    assert(prefix.last() == teams[i]);
}

impl Mapper for TeamGlobMapper {
    open spec fn spec_entries(&self) -> Seq<EntryView> {
        project_entries(self.project@.teams)
    }

    open spec fn spec_owner_matchers(&self) -> Seq<OwnerMatcherView> {
        project_matchers(self.project@.teams)
    }

    open spec fn spec_name(&self) -> Seq<char> {
        "Team-specific owned globs"@
    }

    fn entries(&self) -> (result: Vec<Entry>) {
        let teams: &Vec<Team> = &self.project.teams;
        let ghost tv: Seq<TeamView> = self.project@.teams;
        let mut result: Vec<Entry> = Vec::new();
        assert(entry_views(result@) =~= project_entries(tv.take(0)));
        let n = teams.len();
        let mut i: usize = 0;
        while i < n
            invariant
                n == teams@.len(),
                i <= n,
                tv == team_views(teams@),
                entry_views(result@) == project_entries(tv.take(i as int)),
            decreases n - i,
        {
            let team: &Team = &teams[i];
            let m = team.owned_globs.len();
            let mut j: usize = 0;
            while j < m
                invariant
                    n == teams@.len(),
                    i < n,
                    tv == team_views(teams@),
                    *team == teams@[i as int],
                    m == team.owned_globs@.len(),
                    j <= m,
                    entry_views(result@) == project_entries(tv.take(i as int)) + team_entries(
                        tv[i as int],
                    ).take(j as int),
                decreases m - j,
            {
                let glob: &String = &team.owned_globs[j];
                let ghost prev = result@;
                result.push(Entry {
                    path: glob.clone(),
                    github_team: team.github_team.clone(),
                    team_name: team.name.clone(),
                    disabled: team.avoid_ownership,
                });
                proof {
                    assert(tv[i as int] == team@);
                    assert(tv[i as int].owned_globs[j as int] == glob@);
                    let e = result@.last();
                    assert(result@ == prev.push(e));
                    assert(e@ == team_entry(tv[i as int], tv[i as int].owned_globs[j as int]));
                    assert(entry_views(result@) =~= entry_views(prev).push(e@));
                    assert(team_entries(tv[i as int]).take(j + 1) =~= team_entries(
                        tv[i as int],
                    ).take(j as int).push(team_entry(tv[i as int], tv[i as int].owned_globs[j as int])));
                    assert(entry_views(result@) =~= project_entries(tv.take(i as int))
                        + team_entries(tv[i as int]).take(j + 1));
                }
                j += 1;
            }
            proof {
                assert(tv[i as int] == team@);
                assert(team_entries(tv[i as int]).take(m as int) =~= team_entries(tv[i as int]));
                lemma_project_entries_step(tv, i as int);
            }
            i += 1;
        }
        proof {
            assert(tv.take(n as int) =~= tv);
        }
        result
    }

    fn owner_matchers(&self) -> (result: Vec<OwnerMatcher>) {
        let teams: &Vec<Team> = &self.project.teams;
        let ghost tv: Seq<TeamView> = self.project@.teams;
        let mut result: Vec<OwnerMatcher> = Vec::new();
        assert(matcher_views(result@) =~= project_matchers(tv.take(0)));
        let n = teams.len();
        let mut i: usize = 0;
        while i < n
            invariant
                n == teams@.len(),
                i <= n,
                tv == team_views(teams@),
                matcher_views(result@) == project_matchers(tv.take(i as int)),
            decreases n - i,
        {
            let team: &Team = &teams[i];
            let m = team.owned_globs.len();
            let mut j: usize = 0;
            while j < m
                invariant
                    n == teams@.len(),
                    i < n,
                    tv == team_views(teams@),
                    *team == teams@[i as int],
                    m == team.owned_globs@.len(),
                    j <= m,
                    matcher_views(result@) == project_matchers(tv.take(i as int)) + team_matchers(
                        tv[i as int],
                    ).take(j as int),
                decreases m - j,
            {
                let glob: &String = &team.owned_globs[j];
                let ghost prev = result@;
                result.push(OwnerMatcher::Glob {
                    glob: glob.clone(),
                    team_name: team.github_team.clone(),
                    source: "team_glob_mapper".to_owned(),
                });
                proof {
                    assert(tv[i as int] == team@);
                    assert(tv[i as int].owned_globs[j as int] == glob@);
                    let m_new = result@.last();
                    assert(result@ == prev.push(m_new));
                    assert(m_new@ == team_matcher(tv[i as int], tv[i as int].owned_globs[j as int]));
                    assert(matcher_views(result@) =~= matcher_views(prev).push(m_new@));
                    assert(team_matchers(tv[i as int]).take(j + 1) =~= team_matchers(
                        tv[i as int],
                    ).take(j as int).push(
                        team_matcher(tv[i as int], tv[i as int].owned_globs[j as int]),
                    ));
                    assert(matcher_views(result@) =~= project_matchers(tv.take(i as int))
                        + team_matchers(tv[i as int]).take(j + 1));
                }
                j += 1;
            }
            proof {
                assert(tv[i as int] == team@);
                assert(team_matchers(tv[i as int]).take(m as int) =~= team_matchers(tv[i as int]));
                lemma_project_matchers_step(tv, i as int);
            }
            i += 1;
        }
        proof {
            assert(tv.take(n as int) =~= tv);
        }
        result
    }

    fn name(&self) -> (result: String) {
        "Team-specific owned globs".to_owned()
    }
}

} // verus!
