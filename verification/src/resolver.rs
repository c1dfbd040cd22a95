//! Base-commit resolution: given one project, compute the (head hash, base
//! hash) pair for its default branch, or a single reason why the project is
//! unusable and must be skipped.
//!
//! The head whose name equals `refs/heads/<default-branch>` anchors the
//! history; where several heads match, the first in catalog order is used.
//! The history is ordered by committer timestamp, newest first, ties kept in
//! catalog order, and the base commit is the last of the first
//! `floor(ratio * total / 100)` commits of that order.

use vstd::prelude::*;
use vstd::string::StringExecFns;
use crate::model::Commit;
use crate::model::Head;
use crate::model::Project;
use crate::model::ProjectSpec;
use crate::model::ResolveFailure;
use crate::model::ResolveReason;
use crate::model::BASE_COMMIT_OFFSET_RATIO;

verus! {

/// The base-commit offset: `floor(ratio * total / 100)` commits behind the
/// head, all arithmetic on integers.
pub open spec fn spec_offset(ratio: int, total: int) -> int {
    ratio * total / 100
}

/// Computes the base-commit offset into a history of `total` commits.
pub fn base_commit_offset(ratio: u64, total: usize) -> (off: usize)
    requires
        ratio <= 100,
    ensures
        off == spec_offset(ratio as int, total as int),
        off <= total,
{
    proof {
        lemma_offset_bounds(ratio as int, total as int);
    }
    (((ratio as u128) * (total as u128)) / 100) as usize
}

/// For a ratio that is a percentage, the offset never reaches past the
/// history: `0 <= offset <= total`.
pub proof fn lemma_offset_bounds(ratio: int, total: int)
    requires
        0 <= ratio <= 100,
        0 <= total,
    ensures
        0 <= spec_offset(ratio, total) <= total,
{
    assert(0 <= ratio * total / 100 <= total) by (nonlinear_arith)
        requires
            0 <= ratio <= 100,
            0 <= total,
    ;
}

/// For a fixed ratio, the offset is non-decreasing in the length of the
/// history.
pub proof fn lemma_offset_monotonic(ratio: int, total1: int, total2: int)
    requires
        0 <= ratio,
        0 <= total1 <= total2,
    ensures
        spec_offset(ratio, total1) <= spec_offset(ratio, total2),
{
    assert(ratio * total1 / 100 <= ratio * total2 / 100) by (nonlinear_arith)
        requires
            0 <= ratio,
            0 <= total1 <= total2,
    ;
}

/// The offset is zero exactly on histories too small for the ratio: with a
/// positive ratio, `offset(total) == 0` if and only if `ratio * total < 100`,
/// that is, whenever `total` is below `ceil(100 / ratio)` (fewer than ten
/// commits under the default ratio of ten).
pub proof fn lemma_offset_zero_small_history(ratio: int, total: int)
    requires
        1 <= ratio,
        0 <= total,
    ensures
        spec_offset(ratio, total) == 0 <==> ratio * total < 100,
        total < (100 + ratio - 1) / ratio ==> spec_offset(ratio, total) == 0,
{
    assert((ratio * total / 100 == 0 <==> ratio * total < 100) && (total < (100 + ratio - 1)
        / ratio ==> ratio * total / 100 == 0)) by (nonlinear_arith)
        requires
            1 <= ratio,
            0 <= total,
    ;
}

/// Stable insertion into a newest-first sequence: the commit goes after
/// every commit whose committer timestamp is at least its own, so equal
/// timestamps keep their encounter order.
pub open spec fn spec_insert_desc(s: Seq<Commit>, c: Commit) -> Seq<Commit>
    decreases s.len(),
{
    if s.len() == 0 {
        seq![c]
    } else if s.last().committer_timestamp >= c.committer_timestamp {
        s.push(c)
    } else {
        spec_insert_desc(s.drop_last(), c).push(s.last())
    }
}

/// The history sorted by committer timestamp, newest first, ties kept in
/// their original order.
pub open spec fn spec_sort_desc(s: Seq<Commit>) -> Seq<Commit>
    decreases s.len(),
{
    if s.len() == 0 {
        Seq::empty()
    } else {
        spec_insert_desc(spec_sort_desc(s.drop_last()), s.last())
    }
}

/// Newest first: committer timestamps never increase along the sequence.
pub open spec fn spec_sorted_desc(s: Seq<Commit>) -> bool {
    forall|a: int, b: int|
        0 <= a < b < s.len() ==> s[a].committer_timestamp >= s[b].committer_timestamp
}

proof fn lemma_insert_desc_properties(s: Seq<Commit>, c: Commit)
    requires
        spec_sorted_desc(s),
    ensures
        spec_sorted_desc(spec_insert_desc(s, c)),
        spec_insert_desc(s, c).to_multiset() == s.to_multiset().insert(c),
    decreases s.len(),
{
    broadcast use vstd::seq_lib::group_to_multiset_ensures;
    broadcast use vstd::multiset::group_multiset_axioms;
    broadcast use vstd::multiset::group_multiset_properties;

    if s.len() == 0 {
        assert(seq![c] =~= Seq::<Commit>::empty().push(c));
        assert(spec_insert_desc(s, c).to_multiset() =~= s.to_multiset().insert(c));
    } else if s.last().committer_timestamp >= c.committer_timestamp {
        assert forall|a: int, b: int|
            0 <= a < b < s.push(c).len() implies s.push(c)[a].committer_timestamp >= s.push(
            c,
        )[b].committer_timestamp by {
            if b < s.len() {
            } else {
                assert(s.push(c)[b] == c);
                if a < s.len() - 1 {
                    assert(s[a].committer_timestamp >= s[s.len() - 1].committer_timestamp);
                }
            }
        }
    } else {
        lemma_insert_desc_properties(s.drop_last(), c);
        let inserted = spec_insert_desc(s.drop_last(), c);
        assert forall|m: int|
            0 <= m < inserted.len() implies inserted[m].committer_timestamp
            >= s.last().committer_timestamp by {
            assert(inserted.contains(inserted[m]));
            assert(inserted.to_multiset().count(inserted[m]) > 0);
            if inserted[m] == c {
            } else {
                assert(s.drop_last().to_multiset().count(inserted[m]) > 0);
                assert(s.drop_last().contains(inserted[m]));
                let w = choose|w: int|
                    0 <= w < s.drop_last().len() && s.drop_last()[w] == inserted[m];
                if w < s.len() - 1 {
                    assert(s[w].committer_timestamp >= s[s.len() - 1].committer_timestamp);
                }
            }
        }
        assert(spec_insert_desc(s, c) == inserted.push(s.last()));
        assert forall|a: int, b: int|
            0 <= a < b < inserted.push(s.last()).len() implies inserted.push(
            s.last(),
        )[a].committer_timestamp >= inserted.push(s.last())[b].committer_timestamp by {
            if b < inserted.len() {
            } else {
                assert(inserted.push(s.last())[b] == s.last());
            }
        }
        assert(s =~= s.drop_last().push(s.last()));
        assert(spec_insert_desc(s, c).to_multiset() =~= s.to_multiset().insert(c));
    }
}

/// Sorting reorders the history and nothing more: the sorted sequence is
/// newest first and holds exactly the commits of the input.
pub proof fn lemma_sort_desc_properties(s: Seq<Commit>)
    ensures
        spec_sorted_desc(spec_sort_desc(s)),
        spec_sort_desc(s).to_multiset() == s.to_multiset(),
    decreases s.len(),
{
    broadcast use vstd::seq_lib::group_to_multiset_ensures;
    broadcast use vstd::multiset::group_multiset_axioms;
    broadcast use vstd::multiset::group_multiset_properties;

    if s.len() == 0 {
        assert(spec_sort_desc(s).to_multiset() =~= s.to_multiset());
    } else {
        lemma_sort_desc_properties(s.drop_last());
        lemma_insert_desc_properties(spec_sort_desc(s.drop_last()), s.last());
        assert(s =~= s.drop_last().push(s.last()));
        assert(spec_sort_desc(s).to_multiset() =~= s.to_multiset());
    }
}

proof fn lemma_insert_desc_len(s: Seq<Commit>, c: Commit)
    ensures
        spec_insert_desc(s, c).len() == s.len() + 1,
    decreases s.len(),
{
    if s.len() == 0 {
    } else if s.last().committer_timestamp >= c.committer_timestamp {
    } else {
        lemma_insert_desc_len(s.drop_last(), c);
    }
}

/// Sorting keeps the length of the history.
pub proof fn lemma_sort_desc_len(s: Seq<Commit>)
    ensures
        spec_sort_desc(s).len() == s.len(),
    decreases s.len(),
{
    if s.len() == 0 {
    } else {
        lemma_sort_desc_len(s.drop_last());
        lemma_insert_desc_len(spec_sort_desc(s.drop_last()), s.last());
    }
}

proof fn lemma_insert_desc_at(s: Seq<Commit>, c: Commit, pos: int)
    requires
        0 <= pos <= s.len(),
        forall|m: int|
            pos <= m < s.len() ==> s[m].committer_timestamp < c.committer_timestamp,
        pos > 0 ==> s[pos - 1].committer_timestamp >= c.committer_timestamp,
    ensures
        spec_insert_desc(s, c) == s.insert(pos, c),
    decreases s.len(),
{
    if pos == s.len() {
        if s.len() == 0 {
            assert(spec_insert_desc(s, c) =~= s.insert(pos, c));
        } else {
            assert(s.push(c) =~= s.insert(pos, c));
        }
    } else {
        assert(s[s.len() - 1].committer_timestamp < c.committer_timestamp);
        lemma_insert_desc_at(s.drop_last(), c, pos);
        assert(s.drop_last().insert(pos, c).push(s.last()) =~= s.insert(pos, c));
    }
}

fn clone_opt_string(o: &Option<String>) -> (r: Option<String>)
    ensures
        r == *o,
{
    match o {
        Option::None => Option::None,
        Option::Some(s) => Option::Some(s.clone()),
    }
}

fn clone_commit(c: &Commit) -> (r: Commit)
    ensures
        r == *c,
{
    Commit {
        id: c.id,
        hash: clone_opt_string(&c.hash),
        author_timestamp: c.author_timestamp,
        committer_timestamp: c.committer_timestamp,
    }
}

/// Sorts a copy of the history by committer timestamp, newest first, with a
/// stable insertion sort.
pub fn sort_commits_desc(commits: &Vec<Commit>) -> (r: Vec<Commit>)
    ensures
        r@ == spec_sort_desc(commits@),
        spec_sorted_desc(r@),
        r@.to_multiset() == commits@.to_multiset(),
{
    proof {
        lemma_sort_desc_properties(commits@);
    }
    let mut out: Vec<Commit> = Vec::new();
    let mut i: usize = 0;
    while i < commits.len()
        invariant
            i <= commits@.len(),
            out@ == spec_sort_desc(commits@.subrange(0, i as int)),
        decreases commits@.len() - i,
    {
        let c = clone_commit(&commits[i]);
        let ghost prefix = commits@.subrange(0, i as int);
        let mut pos = out.len();
        while pos > 0 && out[pos - 1].committer_timestamp < c.committer_timestamp
            invariant
                pos <= out@.len(),
                forall|m: int|
                    pos <= m < out@.len() ==> out@[m].committer_timestamp
                        < c.committer_timestamp,
            decreases pos,
        {
            pos = pos - 1;
        }
        proof {
            lemma_insert_desc_at(out@, c, pos as int);
        }
        let ghost out_before = out@;
        out.insert(pos, c);
        i = i + 1;
        proof {
            assert(commits@.subrange(0, i as int).drop_last() =~= prefix);
            assert(commits@.subrange(0, i as int).last() == c);
            assert(out@ == spec_insert_desc(spec_sort_desc(prefix), c));
        }
    }
    proof {
        assert(commits@.subrange(0, commits@.len() as int) =~= commits@);
    }
    out
}

/// The full reference path of a branch: `refs/heads/<branch>`.
pub open spec fn spec_branch_path(branch: Seq<char>) -> Seq<char> {
    "refs/heads/"@ + branch
}

/// Builds the full reference path of a branch.
pub fn branch_path_of(branch: &String) -> (s: String)
    ensures
        s@ == spec_branch_path(branch@),
{
    let mut s = "refs/heads/".to_owned();
    s.append(branch.as_str());
    s
}

/// The position of the first head whose name equals the path, if any.
pub open spec fn spec_find_head(heads: Seq<Head>, path: Seq<char>) -> Option<int>
    decreases heads.len(),
{
    if heads.len() == 0 {
        Option::None
    } else if heads[0].name@ == path {
        Option::Some(0int)
    } else if spec_find_head(heads.drop_first(), path) is Some {
        Option::Some(spec_find_head(heads.drop_first(), path)->Some_0 + 1)
    } else {
        Option::None
    }
}

proof fn lemma_find_head_some(heads: Seq<Head>, path: Seq<char>, i: int)
    requires
        0 <= i < heads.len(),
        heads[i].name@ == path,
        forall|m: int| 0 <= m < i ==> heads[m].name@ != path,
    ensures
        spec_find_head(heads, path) == Option::Some(i),
    decreases i,
{
    if i == 0 {
    } else {
        assert(heads[0].name@ != path);
        lemma_find_head_some(heads.drop_first(), path, i - 1);
    }
}

proof fn lemma_find_head_none(heads: Seq<Head>, path: Seq<char>)
    requires
        forall|m: int| 0 <= m < heads.len() ==> heads[m].name@ != path,
    ensures
        spec_find_head(heads, path) is None,
    decreases heads.len(),
{
    if heads.len() == 0 {
    } else {
        assert(heads[0].name@ != path);
        lemma_find_head_none(heads.drop_first(), path);
    }
}

fn find_matching_head(heads: &Vec<Head>, path: &String) -> (r: Option<usize>)
    ensures
        match r {
            Option::Some(i) => i < heads@.len() && spec_find_head(heads@, path@)
                == Option::Some(i as int),
            Option::None => spec_find_head(heads@, path@) is None,
        },
{
    let mut i: usize = 0;
    while i < heads.len()
        invariant
            i <= heads@.len(),
            forall|m: int| 0 <= m < i ==> heads@[m].name@ != path@,
        decreases heads@.len() - i,
    {
        if heads[i].name.eq(path) {
            proof {
                lemma_find_head_some(heads@, path@, i as int);
            }
            return Option::Some(i);
        }
        i = i + 1;
    }
    proof {
        lemma_find_head_none(heads@, path@);
    }
    Option::None
}

/// How many heads of the sequence carry the given name.
pub open spec fn spec_count_matching(heads: Seq<Head>, path: Seq<char>) -> int
    decreases heads.len(),
{
    if heads.len() == 0 {
        0
    } else {
        spec_count_matching(heads.drop_last(), path) + if heads.last().name@ == path {
            1int
        } else {
            0int
        }
    }
}

/// Counts the heads matching the project's default branch path; more than
/// one is an anomaly worth a diagnostic, though resolution proceeds with
/// the first.
pub fn matching_head_count(p: &Project) -> (n: usize)
    ensures
        match p.default_branch {
            Option::Some(b) => n == spec_count_matching(p.heads@, spec_branch_path(b@)),
            Option::None => n == 0,
        },
{
    match &p.default_branch {
        Option::None => 0,
        Option::Some(branch) => {
            let path = branch_path_of(branch);
            let mut n: usize = 0;
            let mut i: usize = 0;
            while i < p.heads.len()
                invariant
                    p.default_branch == Option::Some(*branch),
                    path@ == spec_branch_path(branch@),
                    i <= p.heads@.len(),
                    n <= i,
                    n == spec_count_matching(p.heads@.subrange(0, i as int), path@),
                decreases p.heads@.len() - i,
            {
                let ghost prefix = p.heads@.subrange(0, i as int);
                if p.heads[i].name.eq(&path) {
                    n = n + 1;
                }
                i = i + 1;
                proof {
                    assert(p.heads@.subrange(0, i as int).drop_last() =~= prefix);
                }
            }
            proof {
                assert(p.heads@.subrange(0, p.heads@.len() as int) =~= p.heads@);
            }
            n
        },
    }
}

/// What resolution yields for a project: the (url, head hash, base hash)
/// views on success, or the single reason of the first failing step.
pub open spec fn spec_resolve(p: Project, ratio: u64) -> Result<
    (Seq<char>, Seq<char>, Seq<char>),
    ResolveReason,
> {
    if p.default_branch is None {
        Result::Err(ResolveReason::NoDefaultBranch)
    } else {
        let path = spec_branch_path((p.default_branch->Some_0)@);
        if spec_find_head(p.heads@, path) is None {
            Result::Err(ResolveReason::NoMatchingHead)
        } else {
            let head = p.heads@[spec_find_head(p.heads@, path)->Some_0];
            if head.hash is None {
                Result::Err(ResolveReason::HeadHashMissing)
            } else {
                let sorted = spec_sort_desc(head.commits@);
                let off = spec_offset(ratio as int, sorted.len() as int);
                if off == 0 {
                    Result::Err(ResolveReason::BaseCommitUnavailable)
                } else if sorted[off - 1].hash is None {
                    Result::Err(ResolveReason::BaseHashMissing)
                } else {
                    Result::Ok(
                        (p.url@, (head.hash->Some_0)@, (sorted[off - 1].hash->Some_0)@),
                    )
                }
            }
        }
    }
}

/// Resolves one project: on success the derived spec record, on failure a
/// structured warning carrying the project's identity and the reason.
pub fn resolve_project(p: &Project, ratio: u64) -> (r: Result<ProjectSpec, ResolveFailure>)
    requires
        ratio <= 100,
    ensures
        match r {
            Result::Ok(s) => spec_resolve(*p, ratio) == Result::<
                (Seq<char>, Seq<char>, Seq<char>),
                ResolveReason,
            >::Ok((s.url@, s.head_hash@, s.base_hash@)),
            Result::Err(f) => spec_resolve(*p, ratio) == Result::<
                (Seq<char>, Seq<char>, Seq<char>),
                ResolveReason,
            >::Err(f.reason) && f.project_id == p.id && f.url@ == p.url@,
        },
{
    let branch = match &p.default_branch {
        Option::None => {
            return Result::Err(
                ResolveFailure {
                    project_id: p.id,
                    url: p.url.clone(),
                    reason: ResolveReason::NoDefaultBranch,
                },
            );
        },
        Option::Some(branch) => branch,
    };
    let path = branch_path_of(branch);
    let head_index = match find_matching_head(&p.heads, &path) {
        Option::None => {
            return Result::Err(
                ResolveFailure {
                    project_id: p.id,
                    url: p.url.clone(),
                    reason: ResolveReason::NoMatchingHead,
                },
            );
        },
        Option::Some(i) => i,
    };
    let head = &p.heads[head_index];
    let head_hash = match &head.hash {
        Option::None => {
            return Result::Err(
                ResolveFailure {
                    project_id: p.id,
                    url: p.url.clone(),
                    reason: ResolveReason::HeadHashMissing,
                },
            );
        },
        Option::Some(h) => h,
    };
    let sorted = sort_commits_desc(&head.commits);
    proof {
        lemma_sort_desc_len(head.commits@);
    }
    let off = base_commit_offset(ratio, sorted.len());
    if off == 0 {
        return Result::Err(
            ResolveFailure {
                project_id: p.id,
                url: p.url.clone(),
                reason: ResolveReason::BaseCommitUnavailable,
            },
        );
    }
    let base = &sorted[off - 1];
    match &base.hash {
        Option::None => Result::Err(
            ResolveFailure {
                project_id: p.id,
                url: p.url.clone(),
                reason: ResolveReason::BaseHashMissing,
            },
        ),
        Option::Some(base_hash) => Result::Ok(
            ProjectSpec {
                url: p.url.clone(),
                head_hash: head_hash.clone(),
                base_hash: base_hash.clone(),
            },
        ),
    }
}

/// Resolves with the fixed default ratio and keeps only the triple, as the
/// historical queries consumed it.
pub fn project_spec(project: &Project) -> (r: Option<(String, String, String)>)
    ensures
        match r {
            Option::Some(t) => spec_resolve(*project, BASE_COMMIT_OFFSET_RATIO) == Result::<
                (Seq<char>, Seq<char>, Seq<char>),
                ResolveReason,
            >::Ok((t.0@, t.1@, t.2@)),
            Option::None => spec_resolve(*project, BASE_COMMIT_OFFSET_RATIO) is Err,
        },
{
    match resolve_project(project, BASE_COMMIT_OFFSET_RATIO) {
        Result::Ok(s) => Option::Some((s.url, s.head_hash, s.base_hash)),
        Result::Err(_) => Option::None,
    }
}

/// Resolution fails at the first step: the project names no default branch.
pub open spec fn spec_fails_no_default_branch(p: Project) -> bool {
    p.default_branch is None
}

/// Resolution fails at the second step: no head matches the default
/// branch's path.
pub open spec fn spec_fails_no_matching_head(p: Project) -> bool {
    &&& p.default_branch is Some
    &&& spec_find_head(p.heads@, spec_branch_path((p.default_branch->Some_0)@)) is None
}

/// Resolution fails at the third step: the matching head has no hash.
pub open spec fn spec_fails_head_hash_missing(p: Project) -> bool {
    &&& p.default_branch is Some
    &&& spec_find_head(p.heads@, spec_branch_path((p.default_branch->Some_0)@)) is Some
    &&& p.heads@[spec_find_head(p.heads@, spec_branch_path((p.default_branch->Some_0)@))
        ->Some_0].hash is None
}

/// Resolution fails at the fourth step: the history is too short for the
/// ratio, so the offset is zero.
pub open spec fn spec_fails_base_unavailable(p: Project, ratio: u64) -> bool {
    &&& p.default_branch is Some
    &&& spec_find_head(p.heads@, spec_branch_path((p.default_branch->Some_0)@)) is Some
    &&& {
        let head = p.heads@[spec_find_head(
            p.heads@,
            spec_branch_path((p.default_branch->Some_0)@),
        )->Some_0];
        head.hash is Some && spec_offset(ratio as int, head.commits@.len() as int) == 0
    }
}

/// Resolution fails at the fifth step: the base commit exists but has no
/// hash.
pub open spec fn spec_fails_base_hash_missing(p: Project, ratio: u64) -> bool {
    &&& p.default_branch is Some
    &&& spec_find_head(p.heads@, spec_branch_path((p.default_branch->Some_0)@)) is Some
    &&& {
        let head = p.heads@[spec_find_head(
            p.heads@,
            spec_branch_path((p.default_branch->Some_0)@),
        )->Some_0];
        let off = spec_offset(ratio as int, head.commits@.len() as int);
        head.hash is Some && off != 0 && spec_sort_desc(head.commits@)[off - 1].hash is None
    }
}

/// Resolution totality: every project yields exactly one outcome — either
/// one spec triple or one failure reason, never both and never neither —
/// and each reason comes exactly on the inputs of its failing step.
pub proof fn lemma_resolution_total(p: Project, ratio: u64)
    ensures
        spec_resolve(p, ratio) is Ok <==> !(spec_resolve(p, ratio) is Err),
        spec_resolve(p, ratio) == Result::<(Seq<char>, Seq<char>, Seq<char>), ResolveReason>::Err(
            ResolveReason::NoDefaultBranch,
        ) <==> spec_fails_no_default_branch(p),
        spec_resolve(p, ratio) == Result::<(Seq<char>, Seq<char>, Seq<char>), ResolveReason>::Err(
            ResolveReason::NoMatchingHead,
        ) <==> spec_fails_no_matching_head(p),
        spec_resolve(p, ratio) == Result::<(Seq<char>, Seq<char>, Seq<char>), ResolveReason>::Err(
            ResolveReason::HeadHashMissing,
        ) <==> spec_fails_head_hash_missing(p),
        spec_resolve(p, ratio) == Result::<(Seq<char>, Seq<char>, Seq<char>), ResolveReason>::Err(
            ResolveReason::BaseCommitUnavailable,
        ) <==> spec_fails_base_unavailable(p, ratio),
        spec_resolve(p, ratio) == Result::<(Seq<char>, Seq<char>, Seq<char>), ResolveReason>::Err(
            ResolveReason::BaseHashMissing,
        ) <==> spec_fails_base_hash_missing(p, ratio),
        spec_resolve(p, ratio) is Ok <==> !(spec_fails_no_default_branch(p)
            || spec_fails_no_matching_head(p) || spec_fails_head_hash_missing(p)
            || spec_fails_base_unavailable(p, ratio) || spec_fails_base_hash_missing(p, ratio)),
{
    if p.default_branch is Some {
        let path = spec_branch_path((p.default_branch->Some_0)@);
        if spec_find_head(p.heads@, path) is Some {
            let head = p.heads@[spec_find_head(p.heads@, path)->Some_0];
            lemma_sort_desc_len(head.commits@);
        }
    }
}

/// Whether a project resolves under the fixed default ratio.
pub fn is_project_spec(project: &Project) -> (r: bool)
    ensures
        r == (spec_resolve(*project, BASE_COMMIT_OFFSET_RATIO) is Ok),
{
    match resolve_project(project, BASE_COMMIT_OFFSET_RATIO) {
        Result::Ok(_) => true,
        Result::Err(_) => false,
    }
}

} // verus!
