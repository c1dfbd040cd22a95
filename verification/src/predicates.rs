//! Filter predicates over project attributes. Each predicate is pure;
//! thresholds are inclusive on the "at least" side, and an absent attribute
//! (an unknown language composition) does not satisfy a predicate.

use vstd::prelude::*;
use crate::model::Language;
use crate::model::Project;
use crate::model::QualityCriteria;

verus! {

/// Whether one composition entry reports at least `min_pct` percent of the
/// project's bytes in `language`.
pub open spec fn spec_entry_matches(entry: (Language, u64), language: Language, min_pct: u64) -> bool {
    entry.0 == language && entry.1 >= min_pct
}

/// Whether the project's language composition reports at least `min_pct`
/// percent of its bytes in `language`. A project without a composition does
/// not qualify.
pub open spec fn spec_has_language_share(p: Project, language: Language, min_pct: u64) -> bool {
    &&& p.languages is Some
    &&& exists|m: int|
        0 <= m < (p.languages->Some_0)@.len() && #[trigger] spec_entry_matches(
            (p.languages->Some_0)@[m],
            language,
            min_pct,
        )
}

/// Whether a project meets every quality threshold: a dominant share of the
/// target language, enough lines of code, a long enough commit span, enough
/// commits, and enough distinct users.
pub open spec fn spec_is_quality(p: Project, c: QualityCriteria) -> bool {
    &&& spec_has_language_share(p, c.language, c.min_language_pct)
    &&& p.locs >= c.min_locs
    &&& p.age_months >= c.min_age_months
    &&& p.commit_count >= c.min_commits
    &&& p.user_count >= c.min_users
}

/// Tests the language-share predicate.
pub fn has_language_share(p: &Project, language: Language, min_pct: u64) -> (r: bool)
    ensures
        r == spec_has_language_share(*p, language, min_pct),
{
    match &p.languages {
        Option::None => false,
        Option::Some(langs) => {
            let mut m: usize = 0;
            while m < langs.len()
                invariant
                    p.languages == Option::Some(*langs),
                    m <= langs@.len(),
                    forall|k: int|
                        0 <= k < m ==> !spec_entry_matches(langs@[k], language, min_pct),
                decreases langs@.len() - m,
            {
                if langs[m].0 == language && langs[m].1 >= min_pct {
                    proof {
                        assert(p.languages is Some);
                        assert((p.languages->Some_0)@ == langs@);
                        assert(spec_entry_matches((p.languages->Some_0)@[m as int], language,
                            min_pct));
                        assert(spec_has_language_share(*p, language, min_pct));
                    }
                    return true;
                }
                m = m + 1;
            }
            false
        },
    }
}

/// Tests every quality threshold.
pub fn is_quality_project(p: &Project, c: &QualityCriteria) -> (r: bool)
    ensures
        r == spec_is_quality(*p, *c),
{
    has_language_share(p, c.language, c.min_language_pct) && p.locs >= c.min_locs
        && p.age_months >= c.min_age_months && p.commit_count >= c.min_commits && p.user_count
        >= c.min_users
}

} // verus!
