//! Data model of the catalog snapshot as this crate reads it, and the derived
//! record types the pipeline produces.
//!
//! The catalog itself (projects, branches, commits) is owned by an external
//! store; the types here hold, as plain values, exactly the attributes the
//! selection and resolution logic reads.

use vstd::prelude::*;

verus! {

/// Language classification of a project's bytes, as reported by the catalog.
#[derive(Clone, Copy, Debug, PartialEq, Eq, Structural, Hash)]
pub enum Language {
    C,
    Cpp,
    CSharp,
    Go,
    Java,
    JavaScript,
    Python,
    Ruby,
    TypeScript,
    Other,
}

/// One commit as seen through a branch head: identifier, content hash (absent
/// for legacy or unreachable objects), and the two timestamps.
pub struct Commit {
    pub id: u64,
    pub hash: Option<String>,
    pub author_timestamp: i64,
    pub committer_timestamp: i64,
}

/// A named branch reference: its full reference name (`refs/heads/...`), the
/// hash of the commit it points at (if resolvable), and every commit
/// reachable from it, in catalog iteration order.
pub struct Head {
    pub name: String,
    pub hash: Option<String>,
    pub commits: Vec<Commit>,
}

/// One project of the catalog, read-only for this crate.
pub struct Project {
    pub id: u64,
    pub url: String,
    pub default_branch: Option<String>,
    pub heads: Vec<Head>,
    /// Language composition: percentage of bytes per language; `None` when
    /// the catalog has no classification for the project.
    pub languages: Option<Vec<(Language, u64)>>,
    /// Lines of code in the current tree.
    pub locs: u64,
    /// Months between the first and the last commit.
    pub age_months: u64,
    pub stars: u64,
    pub commit_count: u64,
    pub user_count: u64,
}

/// The derived record for one resolved project: its URL, the hash of the
/// default branch's tip ("to"), and the hash of the base commit ("from").
#[derive(Debug)]
pub struct ProjectSpec {
    pub url: String,
    pub head_hash: String,
    pub base_hash: String,
}

/// Why resolution of a project failed; one reason per skipped project.
#[derive(Clone, Copy, Debug, PartialEq, Eq, Structural)]
pub enum ResolveReason {
    NoDefaultBranch,
    NoMatchingHead,
    HeadHashMissing,
    BaseCommitUnavailable,
    BaseHashMissing,
}

/// A structured resolution warning: which project was skipped and why.
#[derive(Debug)]
pub struct ResolveFailure {
    pub project_id: u64,
    pub url: String,
    pub reason: ResolveReason,
}

/// A named set of project URLs, as produced by one sampling run or read back
/// from one selection file.
#[derive(Debug)]
pub struct Selection {
    pub name: String,
    pub urls: Vec<String>,
}

/// The reconciled output for one selection name: the specs of all its member
/// projects that resolved.
#[derive(Debug)]
pub struct SelectionSpecs {
    pub name: String,
    pub specs: Vec<ProjectSpec>,
}

/// The thresholds a project must meet to enter the quality population.
/// Numeric thresholds are inclusive on the "at least" side.
pub struct QualityCriteria {
    pub language: Language,
    pub min_language_pct: u64,
    pub min_locs: u64,
    pub min_age_months: u64,
    pub min_commits: u64,
    pub min_users: u64,
}

/// Configuration of a full selection run: the filter thresholds, how many
/// projects each selection takes, one seed per selection, and the offset
/// ratio handed to the resolver.
pub struct RunConfig {
    pub criteria: QualityCriteria,
    pub projects_per_selection: usize,
    pub seeds: Vec<u128>,
    pub offset_ratio: u64,
}

/// The base commit sits this many percent of history behind the head.
pub const BASE_COMMIT_OFFSET_RATIO: u64 = 10;

/// How many projects one selection takes.
pub const SELECTED_PROJECTS: usize = 30;

/// The ten fixed seeds, one per selection; selections made from them are
/// independently reproducible across runs.
pub fn default_seeds() -> (seeds: Vec<u128>)
    ensures
        seeds@ == seq![1u128, 2, 3, 5, 7, 11, 13, 17, 19, 23],
{
    let mut seeds: Vec<u128> = Vec::new();
    seeds.push(1);
    seeds.push(2);
    seeds.push(3);
    seeds.push(5);
    seeds.push(7);
    seeds.push(11);
    seeds.push(13);
    seeds.push(17);
    seeds.push(19);
    seeds.push(23);
    proof {
        assert(seeds@ =~= seq![1u128, 2, 3, 5, 7, 11, 13, 17, 19, 23]);
    }
    seeds
}

/// The fixed configuration the historical runs used: JavaScript-dominated
/// projects of some size and activity, thirty per selection, ten seeds,
/// a ten percent base-commit offset.
pub fn default_run_config() -> (config: RunConfig)
    ensures
        config.criteria.language == Language::JavaScript,
        config.criteria.min_language_pct == 80,
        config.criteria.min_locs == 5000,
        config.criteria.min_age_months == 12,
        config.criteria.min_commits == 100,
        config.criteria.min_users == 2,
        config.projects_per_selection == SELECTED_PROJECTS,
        config.seeds@ == seq![1u128, 2, 3, 5, 7, 11, 13, 17, 19, 23],
        config.offset_ratio == BASE_COMMIT_OFFSET_RATIO,
{
    RunConfig {
        criteria: QualityCriteria {
            language: Language::JavaScript,
            min_language_pct: 80,
            min_locs: 5000,
            min_age_months: 12,
            min_commits: 100,
            min_users: 2,
        },
        projects_per_selection: SELECTED_PROJECTS,
        seeds: default_seeds(),
        offset_ratio: BASE_COMMIT_OFFSET_RATIO,
    }
}

} // verus!
