use style_analyzer_query::model::{Commit, Head, Language, Project, Selection};
use style_analyzer_query::reconciler::{
    generate_project_spec_form_selections, parse_selection_file, resolve_catalog,
};

fn commit(id: u64, hash: &str, ts: i64) -> Commit {
    Commit {
        id,
        hash: Some(hash.to_string()),
        author_timestamp: ts,
        committer_timestamp: ts,
    }
}

fn resolvable_project(id: u64, url: &str) -> Project {
    let mut commits = Vec::new();
    let mut i = 1;
    while i <= 10 {
        commits.push(commit(id * 100 + i, &format!("{}-hash{}", url, i), 1000 + i as i64));
        i += 1;
    }
    let head = Head {
        name: "refs/heads/main".to_string(),
        hash: Some(format!("{}-tip", url)),
        commits,
    };
    Project {
        id,
        url: url.to_string(),
        default_branch: Some("main".to_string()),
        heads: vec![head],
        languages: Some(vec![(Language::JavaScript, 90)]),
        locs: 10_000,
        age_months: 24,
        stars: 1,
        commit_count: 100,
        user_count: 2,
    }
}

fn unresolvable_project(id: u64, url: &str) -> Project {
    let mut p = resolvable_project(id, url);
    p.heads[0].commits.truncate(3);
    p
}

fn selection(name: &str, urls: &[&str]) -> Selection {
    Selection {
        name: name.to_string(),
        urls: urls.iter().map(|u| u.to_string()).collect(),
    }
}

#[test]
fn parses_selection_file() {
    let content = b"url\nu1\nu2\n".to_vec();
    let sel = parse_selection_file("A.csv", &content).unwrap();
    assert_eq!(sel.name, "A");
    assert_eq!(sel.urls, vec!["u1".to_string(), "u2".to_string()]);
}

#[test]
fn parses_quoted_url_field() {
    let content = b"url\n\"u,1\"\n".to_vec();
    let sel = parse_selection_file("quoted.csv", &content).unwrap();
    assert_eq!(sel.name, "quoted");
    assert_eq!(sel.urls, vec!["u,1".to_string()]);
}

#[test]
fn parses_empty_selection_file() {
    let content = b"url\n".to_vec();
    let sel = parse_selection_file("empty.csv", &content).unwrap();
    assert_eq!(sel.name, "empty");
    assert!(sel.urls.is_empty());
}

#[test]
fn rejects_malformed_selection_file() {
    // The header row fixes one column; a two-field record is malformed.
    let content = b"url\nu1,stray\n".to_vec();
    assert!(parse_selection_file("broken.csv", &content).is_none());
}

#[test]
fn selection_names_from_file_names() {
    let content = b"url\n".to_vec();
    assert_eq!(parse_selection_file("notes", &content).unwrap().name, "notes");
    assert_eq!(parse_selection_file("b.csv", &content).unwrap().name, "b");
    assert_eq!(parse_selection_file("csv", &content).unwrap().name, "csv");
    assert_eq!(parse_selection_file("a.csv.csv", &content).unwrap().name, "a.csv");
}

#[test]
fn resolve_catalog_drops_failures() {
    let catalog = vec![
        resolvable_project(1, "u1"),
        unresolvable_project(2, "u2"),
        resolvable_project(3, "u3"),
    ];
    let specs = resolve_catalog(&catalog, 10);
    assert_eq!(specs.len(), 2);
    assert_eq!(specs[0].url, "u1");
    assert_eq!(specs[1].url, "u3");
}

#[test]
fn join_fans_out_per_selection() {
    // Selections A = {u1, u2} and B = {u2, u3}; the catalog resolves u1 and
    // u2 only. A's table holds u1 and u2; B's table holds u2 alone.
    let catalog = vec![
        resolvable_project(1, "u1"),
        resolvable_project(2, "u2"),
        unresolvable_project(3, "u3"),
    ];
    let selections = vec![selection("A", &["u1", "u2"]), selection("B", &["u2", "u3"])];
    let tables = generate_project_spec_form_selections(&selections, &catalog, 10);
    assert_eq!(tables.len(), 2);

    assert_eq!(tables[0].name, "A");
    assert_eq!(tables[0].specs.len(), 2);
    assert_eq!(tables[0].specs[0].url, "u1");
    assert_eq!(tables[0].specs[0].head_hash, "u1-tip");
    assert_eq!(tables[0].specs[0].base_hash, "u1-hash10");
    assert_eq!(tables[0].specs[1].url, "u2");

    assert_eq!(tables[1].name, "B");
    assert_eq!(tables[1].specs.len(), 1);
    assert_eq!(tables[1].specs[0].url, "u2");
    assert_eq!(tables[1].specs[0].head_hash, "u2-tip");
}

#[test]
fn join_skips_urls_missing_from_catalog() {
    let catalog = vec![resolvable_project(1, "u1")];
    let selections = vec![selection("only", &["missing", "u1"])];
    let tables = generate_project_spec_form_selections(&selections, &catalog, 10);
    assert_eq!(tables.len(), 1);
    assert_eq!(tables[0].specs.len(), 1);
    assert_eq!(tables[0].specs[0].url, "u1");
}

#[test]
fn empty_selection_yields_empty_table() {
    let catalog = vec![resolvable_project(1, "u1")];
    let selections = vec![selection("empty", &[])];
    let tables = generate_project_spec_form_selections(&selections, &catalog, 10);
    assert_eq!(tables.len(), 1);
    assert_eq!(tables[0].name, "empty");
    assert!(tables[0].specs.is_empty());
}

#[test]
fn empty_catalog_resolves_nothing() {
    let catalog: Vec<Project> = Vec::new();
    assert!(resolve_catalog(&catalog, 10).is_empty());
    let selections = vec![selection("A", &["u1"])];
    let tables = generate_project_spec_form_selections(&selections, &catalog, 10);
    assert_eq!(tables.len(), 1);
    assert!(tables[0].specs.is_empty());
}

#[test]
fn duplicate_member_contributes_twice() {
    let catalog = vec![resolvable_project(1, "u1")];
    let selections = vec![selection("twice", &["u1", "u1"])];
    let tables = generate_project_spec_form_selections(&selections, &catalog, 10);
    assert_eq!(tables[0].specs.len(), 2);
    assert_eq!(tables[0].specs[0].url, "u1");
    assert_eq!(tables[0].specs[1].url, "u1");
}
