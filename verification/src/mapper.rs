use vstd::prelude::*;

use crate::project::string_views;

verus! {

/// One rendering-level ownership claim: a glob pattern together with
/// denormalized copies of the owning team's identifiers.
///
/// `disabled` mirrors the team's `avoid_ownership` flag: the renderer must
/// skip disabled entries when emitting enforceable output but may still
/// report them.
#[derive(Debug, Clone)]
pub struct Entry {
    pub path: String,
    pub github_team: String,
    pub team_name: String,
    pub disabled: bool,
}

/// Mathematical model of an `Entry`.
pub ghost struct EntryView {
    pub path: Seq<char>,
    pub github_team: Seq<char>,
    pub team_name: Seq<char>,
    pub disabled: bool,
}

impl View for Entry {
    type V = EntryView;

    open spec fn view(&self) -> EntryView {
        EntryView {
            path: self.path@,
            github_team: self.github_team@,
            team_name: self.team_name@,
            disabled: self.disabled,
        }
    }
}

/// The views of a sequence of entries, in order.
pub open spec fn entry_views(entries: Seq<Entry>) -> Seq<EntryView> {
    entries.map_values(|e: Entry| e@)
}

/// The invariant of an `Entry`: its path is never empty, and the owning
/// team's identifiers are non-empty whenever the entry is enforced
/// (a team must be identifiable to own anything).
pub open spec fn entry_wf(e: EntryView) -> bool {
    &&& e.path.len() > 0
    &&& !e.disabled ==> e.github_team.len() > 0 && e.team_name.len() > 0
}

/// One matching-level ownership claim, used to test a concrete file path.
///
/// `Glob` matches any path satisfying the glob; `ExactMatches` matches only
/// the listed literal paths. In both shapes `source` identifies the mapper
/// that produced the matcher, for diagnostics and for precedence when the
/// resolver breaks ties between mappers.
#[derive(Debug, Clone)]
pub enum OwnerMatcher {
    Glob { glob: String, team_name: String, source: String },
    ExactMatches(Vec<String>, String),
}

/// Mathematical model of an `OwnerMatcher`.
pub ghost enum OwnerMatcherView {
    Glob { glob: Seq<char>, team_name: Seq<char>, source: Seq<char> },
    ExactMatches(Seq<Seq<char>>, Seq<char>),
}

impl View for OwnerMatcher {
    type V = OwnerMatcherView;

    open spec fn view(&self) -> OwnerMatcherView {
        match self {
            OwnerMatcher::Glob { glob, team_name, source } => (OwnerMatcherView::Glob {
                glob: glob@,
                team_name: team_name@,
                source: source@,
            }),
            OwnerMatcher::ExactMatches(paths, source) => OwnerMatcherView::ExactMatches(
                string_views(paths@),
                source@,
            ),
        }
    }
}

/// The views of a sequence of owner matchers, in order.
pub open spec fn matcher_views(matchers: Seq<OwnerMatcher>) -> Seq<OwnerMatcherView> {
    matchers.map_values(|m: OwnerMatcher| m@)
}

/// Element-wise comparison of two lists of path strings.
fn string_vecs_equal(a: &Vec<String>, b: &Vec<String>) -> (r: bool)
    ensures
        r == (string_views(a@) == string_views(b@)),
{
    if a.len() != b.len() {
        assert(string_views(a@).len() != string_views(b@).len());
        return false;
    }
    let n = a.len();
    let mut i: usize = 0;
    while i < n
        invariant
            n == a@.len() && n == b@.len(),
            i <= n,
            forall|k: int| 0 <= k < i ==> string_views(a@)[k] == string_views(b@)[k],
        decreases n - i,
    {
        if a[i] != b[i] {
            assert(string_views(a@)[i as int] != string_views(b@)[i as int]);
            return false;
        }
        i += 1;
    }
    proof {
        assert(string_views(a@) =~= string_views(b@));
    }
    true
}

impl PartialEq for Entry {
    fn eq(&self, other: &Entry) -> (r: bool) {
        self.path == other.path && self.github_team == other.github_team
            && self.team_name == other.team_name && self.disabled == other.disabled
    }
}

impl vstd::std_specs::cmp::PartialEqSpecImpl for Entry {
    open spec fn obeys_eq_spec() -> bool {
        true
    }

    open spec fn eq_spec(&self, other: &Entry) -> bool {
        self@ == other@
    }
}

impl PartialEq for OwnerMatcher {
    fn eq(&self, other: &OwnerMatcher) -> (r: bool) {
        match (self, other) {
            (
                OwnerMatcher::Glob { glob, team_name, source },
                OwnerMatcher::Glob { glob: o_glob, team_name: o_team_name, source: o_source },
            ) => {
                *glob == *o_glob && *team_name == *o_team_name && *source == *o_source
            },
            (
                OwnerMatcher::ExactMatches(paths, source),
                OwnerMatcher::ExactMatches(o_paths, o_source),
            ) => {
                string_vecs_equal(paths, o_paths) && *source == *o_source
            },
            _ => false,
        }
    }
}

impl vstd::std_specs::cmp::PartialEqSpecImpl for OwnerMatcher {
    open spec fn obeys_eq_spec() -> bool {
        true
    }

    open spec fn eq_spec(&self, other: &OwnerMatcher) -> bool {
        self@ == other@
    }
}

/// The capability every ownership strategy offers to the resolver.
///
/// Each implementation derives its claims purely from the shared project
/// configuration: `entries` yields the rendering-level claims and
/// `owner_matchers` the matching-level claims, both in an order fixed by the
/// implementation's model, and `name` a stable human-readable identifier of
/// the strategy. The contracts pin each result to a spec-level function of
/// the mapper value alone, so repeated calls on one mapper agree exactly.
pub trait Mapper {
    /// The rendering-level claims this mapper contributes, as a model sequence.
    spec fn spec_entries(&self) -> Seq<EntryView>;

    /// The matching-level claims this mapper contributes, as a model sequence.
    spec fn spec_owner_matchers(&self) -> Seq<OwnerMatcherView>;

    /// The strategy's identifier, as a model string.
    spec fn spec_name(&self) -> Seq<char>;

    fn entries(&self) -> (result: Vec<Entry>)
        ensures
            entry_views(result@) == self.spec_entries(),
    ;

    fn owner_matchers(&self) -> (result: Vec<OwnerMatcher>)
        ensures
            matcher_views(result@) == self.spec_owner_matchers(),
    ;

    fn name(&self) -> (result: String)
        ensures
            result@ == self.spec_name(),
    ;
}

/// Calling `entries` or `owner_matchers` twice on one mapper yields equal
/// sequences, order included: each call's result is pinned to the same
/// spec-level sequence.
pub proof fn lemma_mapper_deterministic<M: Mapper>(
    m: &M,
    entries1: Seq<EntryView>,
    entries2: Seq<EntryView>,
    matchers1: Seq<OwnerMatcherView>,
    matchers2: Seq<OwnerMatcherView>,
)
    requires
        entries1 == m.spec_entries(),
        entries2 == m.spec_entries(),
        matchers1 == m.spec_owner_matchers(),
        matchers2 == m.spec_owner_matchers(),
    ensures
        entries1 == entries2,
        matchers1 == matchers2,
{
}

} // verus!
