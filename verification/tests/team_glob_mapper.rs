use std::sync::Arc;

use code_ownership::mapper::{Entry, Mapper, OwnerMatcher};
use code_ownership::project::{Project, Team};
use code_ownership::team_glob_mapper::TeamGlobMapper;

fn team(name: &str, github_team: &str, owned_globs: &[&str], avoid_ownership: bool) -> Team {
    Team {
        name: name.to_owned(),
        github_team: github_team.to_owned(),
        owned_globs: owned_globs.iter().map(|g| (*g).to_owned()).collect(),
        avoid_ownership,
    }
}

fn baz_project() -> Arc<Project> {
    Arc::new(Project { teams: vec![team("Baz", "@Baz", &["packs/bar/**"], false)] })
}

#[test]
fn test_entries() {
    let mapper = TeamGlobMapper::build(baz_project());
    let entries = mapper.entries();
    assert_eq!(
        entries,
        vec![Entry {
            path: "packs/bar/**".to_owned(),
            github_team: "@Baz".to_owned(),
            team_name: "Baz".to_owned(),
            disabled: false
        }]
    );
}

#[test]
fn test_owner_matchers() {
    let mapper = TeamGlobMapper::build(baz_project());
    let mut owner_matchers = mapper.owner_matchers();
    owner_matchers.sort_by_key(|e| match e {
        OwnerMatcher::Glob { glob, .. } => glob.clone(),
        OwnerMatcher::ExactMatches(_, source) => source.clone(),
    });
    let expected_owner_matchers = vec![OwnerMatcher::Glob {
        glob: "packs/bar/**".to_owned(),
        team_name: "@Baz".to_owned(),
        source: "team_glob_mapper".to_owned(),
    }];
    assert_eq!(owner_matchers, expected_owner_matchers);
}

#[test]
fn test_teams_without_globs_contribute_nothing() {
    let project = Arc::new(Project {
        teams: vec![team("Foo", "@Foo", &[], false), team("Bar", "@Bar", &[], true)],
    });
    let mapper = TeamGlobMapper::build(project);
    assert_eq!(mapper.entries(), vec![]);
    assert_eq!(mapper.owner_matchers(), vec![]);
}

#[test]
fn test_repeated_calls_agree() {
    let project = Arc::new(Project {
        teams: vec![
            team("Foo", "@Foo", &["packs/foo/**", "docs/foo.md"], false),
            team("Bar", "@Bar", &["packs/bar/**"], true),
        ],
    });
    let mapper = TeamGlobMapper::build(project);
    assert_eq!(mapper.entries(), mapper.entries());
    assert_eq!(mapper.owner_matchers(), mapper.owner_matchers());
}

#[test]
fn test_matcher_source_is_team_glob_mapper() {
    let project = Arc::new(Project {
        teams: vec![
            team("Foo", "@Foo", &["packs/foo/**", "docs/foo.md"], false),
            team("Bar", "@Bar", &["packs/bar/**"], true),
        ],
    });
    let mapper = TeamGlobMapper::build(project);
    let owner_matchers = mapper.owner_matchers();
    assert_eq!(owner_matchers.len(), 3);
    for matcher in &owner_matchers {
        match matcher {
            OwnerMatcher::Glob { source, .. } => assert_eq!(source.as_str(), "team_glob_mapper"),
            OwnerMatcher::ExactMatches(..) => panic!("unexpected matcher shape"),
        }
    }
}

#[test]
fn test_entries_in_declaration_order() {
    let project = Arc::new(Project {
        teams: vec![
            team("Foo", "@Foo", &["packs/foo/**", "docs/foo.md"], false),
            team("Bar", "@Bar", &["packs/bar/**"], true),
        ],
    });
    let mapper = TeamGlobMapper::build(project);
    let entries = mapper.entries();
    assert_eq!(
        entries,
        vec![
            Entry {
                path: "packs/foo/**".to_owned(),
                github_team: "@Foo".to_owned(),
                team_name: "Foo".to_owned(),
                disabled: false
            },
            Entry {
                path: "docs/foo.md".to_owned(),
                github_team: "@Foo".to_owned(),
                team_name: "Foo".to_owned(),
                disabled: false
            },
            Entry {
                path: "packs/bar/**".to_owned(),
                github_team: "@Bar".to_owned(),
                team_name: "Bar".to_owned(),
                disabled: true
            },
        ]
    );
}

#[test]
fn test_avoid_ownership_disables_entries_not_matchers() {
    let avoiding = Arc::new(Project { teams: vec![team("Baz", "@Baz", &["packs/bar/**"], true)] });
    let mapper = TeamGlobMapper::build(avoiding);
    assert_eq!(
        mapper.entries(),
        vec![Entry {
            path: "packs/bar/**".to_owned(),
            github_team: "@Baz".to_owned(),
            team_name: "Baz".to_owned(),
            disabled: true
        }]
    );
    let unaffected = TeamGlobMapper::build(baz_project());
    assert_eq!(mapper.owner_matchers(), unaffected.owner_matchers());
}

#[test]
fn test_duplicate_globs_are_not_deduplicated() {
    let project = Arc::new(Project {
        teams: vec![
            team("Foo", "@Foo", &["packs/shared/**"], false),
            team("Bar", "@Bar", &["packs/shared/**"], false),
        ],
    });
    let mapper = TeamGlobMapper::build(project);
    let entries = mapper.entries();
    assert_eq!(entries.len(), 2);
    assert_eq!(entries[0].path, "packs/shared/**");
    assert_eq!(entries[1].path, "packs/shared/**");
    assert_eq!(entries[0].team_name, "Foo");
    assert_eq!(entries[1].team_name, "Bar");
}

#[test]
fn test_name() {
    let mapper = TeamGlobMapper::build(baz_project());
    assert_eq!(mapper.name(), "Team-specific owned globs");
}

#[test]
fn test_entry_equality_is_by_fields() {
    let a = Entry {
        path: "packs/bar/**".to_owned(),
        github_team: "@Baz".to_owned(),
        team_name: "Baz".to_owned(),
        disabled: false,
    };
    let b = a.clone();
    assert_eq!(a, b);
    let mut c = a.clone();
    c.disabled = true;
    assert_ne!(a, c);
}

#[test]
fn test_owner_matcher_equality_is_by_fields() {
    let glob = OwnerMatcher::Glob {
        glob: "packs/bar/**".to_owned(),
        team_name: "@Baz".to_owned(),
        source: "team_glob_mapper".to_owned(),
    };
    assert_eq!(glob.clone(), glob.clone());
    let exact = OwnerMatcher::ExactMatches(
        vec!["packs/bar/app.rb".to_owned(), "packs/bar/lib.rb".to_owned()],
        "exact_mapper".to_owned(),
    );
    assert_eq!(exact.clone(), exact.clone());
    assert_ne!(glob, exact);
    let other_paths = OwnerMatcher::ExactMatches(
        vec!["packs/bar/app.rb".to_owned()],
        "exact_mapper".to_owned(),
    );
    assert_ne!(exact, other_paths);
}
