use style_analyzer_query::model::{Commit, Head, Language, Project, ResolveReason};
use style_analyzer_query::resolver::{
    base_commit_offset, is_project_spec, matching_head_count, project_spec, resolve_project,
};

fn commit(id: u64, hash: &str, ts: i64) -> Commit {
    Commit {
        id,
        hash: Some(hash.to_string()),
        author_timestamp: ts,
        committer_timestamp: ts,
    }
}

fn project_with_heads(id: u64, url: &str, branch: Option<&str>, heads: Vec<Head>) -> Project {
    Project {
        id,
        url: url.to_string(),
        default_branch: branch.map(|b| b.to_string()),
        heads,
        languages: Some(vec![(Language::JavaScript, 90)]),
        locs: 10_000,
        age_months: 24,
        stars: 1,
        commit_count: 100,
        user_count: 2,
    }
}

fn main_head(commits: Vec<Commit>) -> Head {
    let tip = commits
        .iter()
        .max_by_key(|c| c.committer_timestamp)
        .and_then(|c| c.hash.clone());
    Head {
        name: "refs/heads/main".to_string(),
        hash: tip,
        commits,
    }
}

fn ten_commits() -> Vec<Commit> {
    let mut commits = Vec::new();
    let mut i = 1;
    while i <= 10 {
        commits.push(commit(i, &format!("hash{}", i), 1000 + i as i64));
        i += 1;
    }
    commits
}

#[test]
fn offset_formula_values() {
    assert_eq!(base_commit_offset(10, 12), 1);
    assert_eq!(base_commit_offset(25, 12), 3);
    assert_eq!(base_commit_offset(10, 9), 0);
    assert_eq!(base_commit_offset(10, 10), 1);
    assert_eq!(base_commit_offset(100, 7), 7);
}

#[test]
fn offset_is_monotonic() {
    let mut previous = 0;
    for total in 0..40 {
        let off = base_commit_offset(10, total);
        assert!(off >= previous);
        previous = off;
    }
}

#[test]
fn fails_without_default_branch() {
    let p = project_with_heads(1, "u", None, vec![main_head(ten_commits())]);
    let failure = resolve_project(&p, 10).unwrap_err();
    assert_eq!(failure.reason, ResolveReason::NoDefaultBranch);
    assert_eq!(failure.project_id, 1);
    assert_eq!(failure.url, "u");
}

#[test]
fn fails_without_matching_head() {
    let mut head = main_head(ten_commits());
    head.name = "refs/heads/develop".to_string();
    let p = project_with_heads(2, "u2", Some("main"), vec![head]);
    let failure = resolve_project(&p, 10).unwrap_err();
    assert_eq!(failure.reason, ResolveReason::NoMatchingHead);
}

#[test]
fn fails_without_head_hash() {
    let mut head = main_head(ten_commits());
    head.hash = None;
    let p = project_with_heads(3, "u3", Some("main"), vec![head]);
    let failure = resolve_project(&p, 10).unwrap_err();
    assert_eq!(failure.reason, ResolveReason::HeadHashMissing);
}

#[test]
fn fails_on_short_history() {
    let mut commits = ten_commits();
    commits.truncate(9);
    let p = project_with_heads(4, "u4", Some("main"), vec![main_head(commits)]);
    let failure = resolve_project(&p, 10).unwrap_err();
    assert_eq!(failure.reason, ResolveReason::BaseCommitUnavailable);
}

#[test]
fn fails_without_base_hash() {
    let mut commits = Vec::new();
    for i in 1..=20 {
        commits.push(commit(i, &format!("hash{}", i), 1000 + i as i64));
    }
    // The base commit under ratio 10 is the second newest; erase its hash.
    commits[18].hash = None;
    let p = project_with_heads(5, "u5", Some("main"), vec![main_head(commits)]);
    let failure = resolve_project(&p, 10).unwrap_err();
    assert_eq!(failure.reason, ResolveReason::BaseHashMissing);
}

#[test]
fn resolves_base_two_commits_back() {
    let mut commits = Vec::new();
    for i in 1..=20 {
        commits.push(commit(i, &format!("hash{}", i), 1000 + i as i64));
    }
    // Shuffle the catalog order; sorting is the resolver's job.
    commits.reverse();
    commits.swap(3, 11);
    let p = project_with_heads(6, "u6", Some("main"), vec![main_head(commits)]);
    let spec = resolve_project(&p, 10).unwrap();
    assert_eq!(spec.url, "u6");
    assert_eq!(spec.head_hash, "hash20");
    assert_eq!(spec.base_hash, "hash19");
}

#[test]
fn offset_one_makes_base_equal_head() {
    let p = project_with_heads(7, "u7", Some("main"), vec![main_head(ten_commits())]);
    let spec = resolve_project(&p, 10).unwrap();
    assert_eq!(spec.head_hash, "hash10");
    assert_eq!(spec.base_hash, spec.head_hash);
}

#[test]
fn equal_timestamps_keep_catalog_order() {
    let mut commits = Vec::new();
    for i in 1..=10 {
        commits.push(commit(i, &format!("hash{}", i), 1000));
    }
    let mut head = main_head(commits);
    head.hash = Some("tip".to_string());
    let p = project_with_heads(8, "u8", Some("main"), vec![head]);
    let spec = resolve_project(&p, 10).unwrap();
    // All timestamps tie, so the newest-first order is the catalog order and
    // the base commit at offset one is the first encountered.
    assert_eq!(spec.base_hash, "hash1");
}

#[test]
fn duplicate_heads_counted_and_first_used() {
    let mut first = main_head(ten_commits());
    first.hash = Some("first-tip".to_string());
    let mut second = main_head(ten_commits());
    second.hash = Some("second-tip".to_string());
    let p = project_with_heads(9, "u9", Some("main"), vec![first, second]);
    assert_eq!(matching_head_count(&p), 2);
    let spec = resolve_project(&p, 10).unwrap();
    assert_eq!(spec.head_hash, "first-tip");
}

#[test]
fn project_spec_matches_resolver() {
    let good = project_with_heads(10, "u10", Some("main"), vec![main_head(ten_commits())]);
    assert!(is_project_spec(&good));
    let triple = project_spec(&good).unwrap();
    assert_eq!(triple.0, "u10");
    assert_eq!(triple.1, "hash10");
    assert_eq!(triple.2, "hash10");

    let bad = project_with_heads(11, "u11", None, vec![]);
    assert!(!is_project_spec(&bad));
    assert!(project_spec(&bad).is_none());
}
