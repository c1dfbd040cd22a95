//! The selection reconciler: reads back every previously persisted named
//! selection, resolves a spec for every project of the catalog, and joins
//! the two on URL — one output table per selection name, holding the specs
//! of all its member projects that resolved.

use vstd::prelude::*;
use crate::model::Project;
use crate::model::ProjectSpec;
use crate::model::Selection;
use crate::model::SelectionSpecs;
use crate::resolver::resolve_project;
use crate::resolver::spec_resolve;
use crate::text::spec_selection_name_of;
use crate::text::strip_csv_suffix;

verus! {

/// What the tabular reader finds in one selection file's bytes: one URL per
/// record after the header record, or nothing when some record is
/// malformed.
pub uninterp spec fn selection_rows(content: Seq<u8>) -> Option<Seq<Seq<char>>>;

/// Relies on csv::Reader::from_reader over an in-memory byte slice: the
/// parse is a function of the bytes alone; the reader takes the first
/// record as a header and yields the remaining records, whose first field
/// is the URL. One malformed record makes the whole file unreadable.
#[verifier::external_body]
fn read_selection_urls(content: &Vec<u8>) -> (r: Option<Vec<String>>)
    ensures
        match r {
            Option::Some(urls) => selection_rows(content@) == Option::Some(urls.deep_view()),
            Option::None => selection_rows(content@) is None,
        },
{
    let mut reader = csv::Reader::from_reader(content.as_slice());
    let mut urls: Vec<String> = Vec::new();
    for record in reader.records() {
        match record {
            Ok(row) => urls.push(row.get(0).unwrap_or("").to_string()),
            Err(_) => return None,
        }
    }
    Some(urls)
}

/// Parses one persisted selection: the name is the file name with its
/// `.csv` ending stripped, the members are the file's URL records.
pub fn parse_selection_file(file_name: &str, content: &Vec<u8>) -> (r: Option<Selection>)
    ensures
        match r {
            Option::Some(sel) => selection_rows(content@) == Option::Some(sel.urls.deep_view())
                && sel.name@ == spec_selection_name_of(file_name@),
            Option::None => selection_rows(content@) is None,
        },
{
    match read_selection_urls(content) {
        Option::None => Option::None,
        Option::Some(urls) => Option::Some(
            Selection { name: strip_csv_suffix(file_name), urls },
        ),
    }
}

/// The mathematical content of a derived spec record.
pub open spec fn spec_triple(s: ProjectSpec) -> (Seq<char>, Seq<char>, Seq<char>) {
    (s.url@, s.head_hash@, s.base_hash@)
}

/// The contents of a spec table.
pub open spec fn spec_triples(specs: Seq<ProjectSpec>) -> Seq<(Seq<char>, Seq<char>, Seq<char>)> {
    specs.map_values(|s: ProjectSpec| spec_triple(s))
}

/// The specs of every project of the catalog that resolves, in catalog
/// order.
pub open spec fn spec_resolved_specs(projects: Seq<Project>, ratio: u64) -> Seq<
    (Seq<char>, Seq<char>, Seq<char>),
>
    decreases projects.len(),
{
    if projects.len() == 0 {
        Seq::empty()
    } else {
        spec_resolved_specs(projects.drop_last(), ratio) + if spec_resolve(
            projects.last(),
            ratio,
        ) is Ok {
            seq![spec_resolve(projects.last(), ratio)->Ok_0]
        } else {
            Seq::empty()
        }
    }
}

/// Resolves a spec for every project of the catalog, dropping the projects
/// that fail.
pub fn resolve_catalog(projects: &Vec<Project>, ratio: u64) -> (specs: Vec<ProjectSpec>)
    requires
        ratio <= 100,
    ensures
        spec_triples(specs@) == spec_resolved_specs(projects@, ratio),
{
    let mut specs: Vec<ProjectSpec> = Vec::new();
    let mut i: usize = 0;
    while i < projects.len()
        invariant
            ratio <= 100,
            i <= projects@.len(),
            spec_triples(specs@) == spec_resolved_specs(projects@.subrange(0, i as int), ratio),
        decreases projects@.len() - i,
    {
        let ghost prefix = projects@.subrange(0, i as int);
        let ghost specs_before = specs@;
        match resolve_project(&projects[i], ratio) {
            Result::Ok(s) => {
                specs.push(s);
                proof {
                    assert(spec_triples(specs@) =~= spec_triples(specs_before) + seq![
                        spec_triple(specs@.last()),
                    ]);
                }
            },
            Result::Err(_) => {},
        }
        i = i + 1;
        proof {
            assert(projects@.subrange(0, i as int).drop_last() =~= prefix);
            assert(projects@.subrange(0, i as int).last() == projects@[i - 1]);
            assert(spec_triples(specs@) =~= spec_resolved_specs(
                projects@.subrange(0, i as int),
                ratio,
            ));
        }
    }
    proof {
        assert(projects@.subrange(0, projects@.len() as int) =~= projects@);
    }
    specs
}

/// The first spec of the table whose URL is the given one, if any.
pub open spec fn spec_first_spec_for(
    specs: Seq<(Seq<char>, Seq<char>, Seq<char>)>,
    url: Seq<char>,
) -> Option<(Seq<char>, Seq<char>, Seq<char>)>
    decreases specs.len(),
{
    if specs.len() == 0 {
        Option::None
    } else if specs[0].0 == url {
        Option::Some(specs[0])
    } else {
        spec_first_spec_for(specs.drop_first(), url)
    }
}

proof fn lemma_first_spec_some(
    specs: Seq<(Seq<char>, Seq<char>, Seq<char>)>,
    url: Seq<char>,
    i: int,
)
    requires
        0 <= i < specs.len(),
        specs[i].0 == url,
        forall|m: int| 0 <= m < i ==> (#[trigger] specs[m]).0 != url,
    ensures
        spec_first_spec_for(specs, url) == Option::Some(specs[i]),
    decreases i,
{
    if i == 0 {
    } else {
        assert(specs[0].0 != url);
        lemma_first_spec_some(specs.drop_first(), url, i - 1);
    }
}

proof fn lemma_first_spec_none(specs: Seq<(Seq<char>, Seq<char>, Seq<char>)>, url: Seq<char>)
    requires
        forall|m: int| 0 <= m < specs.len() ==> (#[trigger] specs[m]).0 != url,
    ensures
        spec_first_spec_for(specs, url) is None,
    decreases specs.len(),
{
    if specs.len() == 0 {
    } else {
        assert(specs[0].0 != url);
        lemma_first_spec_none(specs.drop_first(), url);
    }
}

fn clone_project_spec(s: &ProjectSpec) -> (r: ProjectSpec)
    ensures
        r == *s,
{
    ProjectSpec {
        url: s.url.clone(),
        head_hash: s.head_hash.clone(),
        base_hash: s.base_hash.clone(),
    }
}

/// Looks a URL up in the spec table; the first matching row wins.
fn find_spec_for_url(specs: &Vec<ProjectSpec>, url: &String) -> (r: Option<usize>)
    ensures
        match r {
            Option::Some(i) => i < specs@.len() && spec_first_spec_for(spec_triples(specs@), url@)
                == Option::Some(spec_triple(specs@[i as int])),
            Option::None => spec_first_spec_for(spec_triples(specs@), url@) is None,
        },
{
    let mut i: usize = 0;
    while i < specs.len()
        invariant
            i <= specs@.len(),
            forall|m: int| 0 <= m < i ==> (#[trigger] spec_triples(specs@)[m]).0 != url@,
        decreases specs@.len() - i,
    {
        if specs[i].url.eq(url) {
            proof {
                assert(spec_triples(specs@)[i as int].0 == url@);
                lemma_first_spec_some(spec_triples(specs@), url@, i as int);
            }
            return Option::Some(i);
        }
        proof {
            assert(spec_triples(specs@)[i as int].0 == specs@[i as int].url@);
        }
        i = i + 1;
    }
    proof {
        lemma_first_spec_none(spec_triples(specs@), url@);
    }
    Option::None
}

/// The inner join of one selection's member URLs against the spec table:
/// for each member, in order, the first spec of its URL, where one exists.
pub open spec fn spec_specs_for_urls(
    urls: Seq<Seq<char>>,
    specs: Seq<(Seq<char>, Seq<char>, Seq<char>)>,
) -> Seq<(Seq<char>, Seq<char>, Seq<char>)>
    decreases urls.len(),
{
    if urls.len() == 0 {
        Seq::empty()
    } else {
        spec_specs_for_urls(urls.drop_last(), specs) + if spec_first_spec_for(
            specs,
            urls.last(),
        ) is Some {
            seq![spec_first_spec_for(specs, urls.last())->Some_0]
        } else {
            Seq::empty()
        }
    }
}

fn specs_for_urls(urls: &Vec<String>, specs: &Vec<ProjectSpec>) -> (r: Vec<ProjectSpec>)
    ensures
        spec_triples(r@) == spec_specs_for_urls(urls.deep_view(), spec_triples(specs@)),
{
    let mut r: Vec<ProjectSpec> = Vec::new();
    let mut i: usize = 0;
    while i < urls.len()
        invariant
            i <= urls@.len(),
            spec_triples(r@) == spec_specs_for_urls(
                urls.deep_view().subrange(0, i as int),
                spec_triples(specs@),
            ),
        decreases urls@.len() - i,
    {
        let ghost prefix = urls.deep_view().subrange(0, i as int);
        let ghost r_before = r@;
        match find_spec_for_url(specs, &urls[i]) {
            Option::Some(k) => {
                let picked = clone_project_spec(&specs[k]);
                r.push(picked);
                proof {
                    assert(spec_triples(r@) =~= spec_triples(r_before) + seq![
                        spec_triple(r@.last()),
                    ]);
                }
            },
            Option::None => {},
        }
        i = i + 1;
        proof {
            assert(urls.deep_view().subrange(0, i as int).drop_last() =~= prefix);
            assert(urls.deep_view().subrange(0, i as int).last() == urls@[i - 1].deep_view());
            assert(urls@[i - 1].deep_view() == urls@[i - 1]@);
            assert(spec_triples(r@) =~= spec_specs_for_urls(
                urls.deep_view().subrange(0, i as int),
                spec_triples(specs@),
            ));
        }
    }
    proof {
        assert(urls.deep_view().subrange(0, urls@.len() as int) =~= urls.deep_view());
    }
    r
}

/// Reconciles the persisted selections against a fresh resolution pass over
/// the whole catalog: one output table per selection, holding, in member
/// order, the spec of every member URL that resolved. Members without a
/// resolvable spec are skipped silently.
pub fn generate_project_spec_form_selections(
    selections: &Vec<Selection>,
    projects: &Vec<Project>,
    ratio: u64,
) -> (r: Vec<SelectionSpecs>)
    requires
        ratio <= 100,
    ensures
        r@.len() == selections@.len(),
        forall|i: int|
            0 <= i < r@.len() ==> (#[trigger] r@[i]).name@ == selections@[i].name@ && spec_triples(
                r@[i].specs@,
            ) == spec_specs_for_urls(
                selections@[i].urls.deep_view(),
                spec_resolved_specs(projects@, ratio),
            ),
{
    let specs = resolve_catalog(projects, ratio);
    let mut r: Vec<SelectionSpecs> = Vec::new();
    let mut i: usize = 0;
    while i < selections.len()
        invariant
            i <= selections@.len(),
            r@.len() == i,
            spec_triples(specs@) == spec_resolved_specs(projects@, ratio),
            forall|k: int|
                0 <= k < i ==> (#[trigger] r@[k]).name@ == selections@[k].name@ && spec_triples(
                    r@[k].specs@,
                ) == spec_specs_for_urls(
                    selections@[k].urls.deep_view(),
                    spec_resolved_specs(projects@, ratio),
                ),
        decreases selections@.len() - i,
    {
        let sel = &selections[i];
        let table = specs_for_urls(&sel.urls, &specs);
        r.push(SelectionSpecs { name: sel.name.clone(), specs: table });
        i = i + 1;
    }
    r
}

/// Join completeness: a member URL with a resolvable spec contributes that
/// spec to its selection's output, and the output holds nothing else — each
/// of its rows is the resolved spec of some member URL. Applied per
/// selection, a URL appears in the output of every selection it belongs to
/// and in no others.
pub proof fn lemma_join_completeness(
    urls: Seq<Seq<char>>,
    specs: Seq<(Seq<char>, Seq<char>, Seq<char>)>,
)
    ensures
        forall|j: int|
            0 <= j < urls.len() ==> ((#[trigger] spec_first_spec_for(specs, urls[j]))
                matches Option::Some(t) ==> spec_specs_for_urls(urls, specs).contains(t)),
        forall|k: int|
            0 <= k < spec_specs_for_urls(urls, specs).len() ==> exists|j: int|
                0 <= j < urls.len() && #[trigger] spec_first_spec_for(specs, urls[j])
                    == Option::Some(#[trigger] spec_specs_for_urls(urls, specs)[k]),
    decreases urls.len(),
{
    if urls.len() == 0 {
    } else {
        lemma_join_completeness(urls.drop_last(), specs);
        let shorter = spec_specs_for_urls(urls.drop_last(), specs);
        let full = spec_specs_for_urls(urls, specs);
        assert forall|j: int|
            0 <= j < urls.len() implies ((#[trigger] spec_first_spec_for(specs, urls[j]))
            matches Option::Some(t) ==> full.contains(t)) by {
            if j < urls.len() - 1 {
                assert(urls.drop_last()[j] == urls[j]);
                if spec_first_spec_for(specs, urls[j]) is Some {
                    let t = spec_first_spec_for(specs, urls[j])->Some_0;
                    assert(shorter.contains(t));
                    let w = choose|w: int| 0 <= w < shorter.len() && shorter[w] == t;
                    assert(full[w] == t);
                }
            } else {
                if spec_first_spec_for(specs, urls[j]) is Some {
                    let t = spec_first_spec_for(specs, urls[j])->Some_0;
                    assert(full[full.len() - 1] == t);
                }
            }
        }
        assert forall|k: int| #![trigger full[k]] 0 <= k < full.len() implies exists|j: int|
            0 <= j < urls.len() && #[trigger] spec_first_spec_for(specs, urls[j]) == Option::Some(
                full[k],
            ) by {
            if k < shorter.len() {
                assert(shorter[k] == full[k]);
                let j = choose|j: int|
                    0 <= j < urls.drop_last().len() && spec_first_spec_for(
                        specs,
                        urls.drop_last()[j],
                    ) == Option::Some(shorter[k]);
                assert(urls[j] == urls.drop_last()[j]);
                assert(0 <= j < urls.len() && spec_first_spec_for(specs, urls[j]) == Option::Some(
                    full[k],
                ));
            } else {
                let j = urls.len() - 1;
                assert(0 <= j < urls.len() && spec_first_spec_for(specs, urls[j]) == Option::Some(
                    full[k],
                ));
            }
        }
    }
}

} // verus!
