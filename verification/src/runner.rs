//! The selection runner: filters the catalog by the quality criteria,
//! draws one deterministic sample per seed, and produces the named
//! selections whose URL lists the caller persists. Also the fixed
//! historical selection and the per-project lines-of-code table.

use vstd::prelude::*;
use crate::model::Project;
use crate::model::QualityCriteria;
use crate::model::RunConfig;
use crate::model::Selection;
use crate::predicates::is_quality_project;
use crate::predicates::spec_is_quality;
use crate::sampler::sample_urls;
use crate::sampler::spec_sample_urls;
use crate::text::quality_selection_name;
use crate::text::spec_dec;

verus! {

/// The URLs of the projects that meet the quality criteria, in catalog
/// order.
pub open spec fn spec_quality_urls(projects: Seq<Project>, c: QualityCriteria) -> Seq<String>
    decreases projects.len(),
{
    if projects.len() == 0 {
        Seq::empty()
    } else {
        spec_quality_urls(projects.drop_last(), c) + if spec_is_quality(projects.last(), c) {
            seq![projects.last().url]
        } else {
            Seq::empty()
        }
    }
}

/// Filters the catalog by the quality criteria and keeps the URLs.
pub fn quality_urls(projects: &Vec<Project>, c: &QualityCriteria) -> (urls: Vec<String>)
    ensures
        urls@ == spec_quality_urls(projects@, *c),
{
    let mut urls: Vec<String> = Vec::new();
    let mut i: usize = 0;
    while i < projects.len()
        invariant
            i <= projects@.len(),
            urls@ == spec_quality_urls(projects@.subrange(0, i as int), *c),
        decreases projects@.len() - i,
    {
        let ghost prefix = projects@.subrange(0, i as int);
        if is_quality_project(&projects[i], c) {
            urls.push(projects[i].url.clone());
        }
        i = i + 1;
        proof {
            assert(projects@.subrange(0, i as int).drop_last() =~= prefix);
            assert(projects@.subrange(0, i as int).last() == projects@[i - 1]);
        }
    }
    proof {
        assert(projects@.subrange(0, projects@.len() as int) =~= projects@);
    }
    urls
}

/// One quality selection: the catalog filtered by the configured criteria,
/// then sampled with the seed of the given run index.
pub fn quality_projects(projects: &Vec<Project>, config: &RunConfig, seed_index: usize) -> (urls:
    Vec<String>)
    requires
        seed_index < config.seeds@.len(),
    ensures
        urls@ == spec_sample_urls(
            spec_quality_urls(projects@, config.criteria),
            config.projects_per_selection as int,
            config.seeds@[seed_index as int],
        ),
{
    let population = quality_urls(projects, &config.criteria);
    sample_urls(&population, config.projects_per_selection, config.seeds[seed_index])
}

/// All quality selections, one per configured seed, each under its
/// deterministic name.
pub fn select_quality_projects(projects: &Vec<Project>, config: &RunConfig) -> (selections: Vec<
    Selection,
>)
    ensures
        selections@.len() == config.seeds@.len(),
        forall|i: int|
            0 <= i < selections@.len() ==> (#[trigger] selections@[i]).name@
                == "quality_projects_"@ + spec_dec(i) && selections@[i].urls@ == spec_sample_urls(
                spec_quality_urls(projects@, config.criteria),
                config.projects_per_selection as int,
                config.seeds@[i],
            ),
{
    let mut selections: Vec<Selection> = Vec::new();
    let mut i: usize = 0;
    while i < config.seeds.len()
        invariant
            i <= config.seeds@.len(),
            selections@.len() == i,
            forall|k: int|
                0 <= k < i ==> (#[trigger] selections@[k]).name@ == "quality_projects_"@
                    + spec_dec(k) && selections@[k].urls@ == spec_sample_urls(
                    spec_quality_urls(projects@, config.criteria),
                    config.projects_per_selection as int,
                    config.seeds@[k],
                ),
        decreases config.seeds@.len() - i,
    {
        let name = quality_selection_name(i as u64);
        let urls = quality_projects(projects, config, i);
        selections.push(Selection { name, urls });
        i = i + 1;
    }
    selections
}

/// The fixed selection of the style-analyzer study, under the name
/// `original`.
pub fn select_original_projects() -> (sel: Selection)
    ensures
        sel.name@ == "original"@,
        sel.urls@.len() == 15,
        sel.urls@[0]@ == "https://github.com/googlechromelabs/carlo.git"@,
        sel.urls@[1]@ == "https://github.com/facebook/react.git"@,
        sel.urls@[2]@ == "https://github.com/reduxjs/redux.git"@,
        sel.urls@[3]@ == "https://github.com/axios/axios.git"@,
        sel.urls@[4]@ == "https://github.com/hakimel/reveal.js.git"@,
        sel.urls@[5]@ == "https://github.com/storybookjs/storybook.git"@,
        sel.urls@[6]@ == "https://github.com/nodejs/node.git"@,
        sel.urls@[7]@ == "https://github.com/jquery/jquery.git"@,
        sel.urls@[8]@ == "https://github.com/laravel/telescope.git"@,
        sel.urls@[9]@ == "https://github.com/meteor/meteor.git"@,
        sel.urls@[10]@ == "https://github.com/evergreen-ci/evergreen.git"@,
        sel.urls@[11]@ == "https://github.com/facebook/create-react-app.git"@,
        sel.urls@[12]@ == "https://github.com/nodejs/citgm.git"@,
        sel.urls@[13]@ == "https://github.com/facebook/react-native.git"@,
        sel.urls@[14]@ == "https://github.com/webpack/webpack.git"@,
{
    let mut urls: Vec<String> = Vec::new();
    urls.push("https://github.com/googlechromelabs/carlo.git".to_owned());
    urls.push("https://github.com/facebook/react.git".to_owned());
    urls.push("https://github.com/reduxjs/redux.git".to_owned());
    urls.push("https://github.com/axios/axios.git".to_owned());
    urls.push("https://github.com/hakimel/reveal.js.git".to_owned());
    urls.push("https://github.com/storybookjs/storybook.git".to_owned());
    urls.push("https://github.com/nodejs/node.git".to_owned());
    urls.push("https://github.com/jquery/jquery.git".to_owned());
    urls.push("https://github.com/laravel/telescope.git".to_owned());
    urls.push("https://github.com/meteor/meteor.git".to_owned());
    urls.push("https://github.com/evergreen-ci/evergreen.git".to_owned());
    urls.push("https://github.com/facebook/create-react-app.git".to_owned());
    urls.push("https://github.com/nodejs/citgm.git".to_owned());
    urls.push("https://github.com/facebook/react-native.git".to_owned());
    urls.push("https://github.com/webpack/webpack.git".to_owned());
    Selection { name: "original".to_owned(), urls }
}

/// The (url, lines of code) table of the whole catalog, in catalog order.
pub fn project_locs(projects: &Vec<Project>) -> (r: Vec<(String, u64)>)
    ensures
        r@.len() == projects@.len(),
        forall|i: int|
            0 <= i < r@.len() ==> (#[trigger] r@[i]).0@ == projects@[i].url@ && r@[i].1
                == projects@[i].locs,
{
    let mut r: Vec<(String, u64)> = Vec::new();
    let mut i: usize = 0;
    while i < projects.len()
        invariant
            i <= projects@.len(),
            r@.len() == i,
            forall|k: int|
                0 <= k < i ==> (#[trigger] r@[k]).0@ == projects@[k].url@ && r@[k].1
                    == projects@[k].locs,
        decreases projects@.len() - i,
    {
        r.push((projects[i].url.clone(), projects[i].locs));
        i = i + 1;
    }
    r
}

} // verus!
