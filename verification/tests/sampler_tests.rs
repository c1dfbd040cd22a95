use style_analyzer_query::model::{default_run_config, default_seeds, Language, Project};
use style_analyzer_query::predicates::is_quality_project;
use style_analyzer_query::runner::{
    quality_projects, quality_urls, select_original_projects, select_quality_projects,
};
use style_analyzer_query::sampler::sample_urls;
use style_analyzer_query::text::{
    quality_selection_name, selection_file_path, spec_file_path, u64_to_dec,
};

fn urls(n: usize) -> Vec<String> {
    let mut v = Vec::new();
    let mut i = 0;
    while i < n {
        v.push(format!("https://example.com/repo{}.git", i));
        i += 1;
    }
    v
}

fn quality_project(id: u64, url: &str) -> Project {
    Project {
        id,
        url: url.to_string(),
        default_branch: Some("main".to_string()),
        heads: Vec::new(),
        languages: Some(vec![(Language::JavaScript, 85)]),
        locs: 10_000,
        age_months: 24,
        stars: 10,
        commit_count: 500,
        user_count: 4,
    }
}

#[test]
fn sample_is_deterministic() {
    let population = urls(40);
    let first = sample_urls(&population, 10, 7);
    let second = sample_urls(&population, 10, 7);
    assert_eq!(first, second);
    assert_eq!(first.len(), 10);
}

#[test]
fn seeds_do_not_collapse() {
    let population = urls(40);
    let seeds = default_seeds();
    let mut outputs = Vec::new();
    for seed in seeds {
        outputs.push(sample_urls(&population, 10, seed));
    }
    let all_same = outputs.iter().all(|o| *o == outputs[0]);
    assert!(!all_same);
    assert_ne!(
        sample_urls(&population, 10, 1),
        sample_urls(&population, 10, 2)
    );
}

#[test]
fn sample_count_capped_by_population() {
    let population = urls(4);
    let picked = sample_urls(&population, 10, 3);
    assert_eq!(picked.len(), 4);
    let mut sorted_picked = picked.clone();
    sorted_picked.sort();
    let mut sorted_population = population.clone();
    sorted_population.sort();
    assert_eq!(sorted_picked, sorted_population);
}

#[test]
fn sample_draws_from_population() {
    let population = urls(25);
    let picked = sample_urls(&population, 8, 19);
    assert_eq!(picked.len(), 8);
    for url in &picked {
        assert!(population.contains(url));
    }
    let mut deduped = picked.clone();
    deduped.sort();
    deduped.dedup();
    assert_eq!(deduped.len(), 8);
}

#[test]
fn sample_of_empty_population_is_empty() {
    let population: Vec<String> = Vec::new();
    assert!(sample_urls(&population, 5, 11).is_empty());
    assert!(sample_urls(&population, 0, 11).is_empty());
}

#[test]
fn decimal_rendering() {
    assert_eq!(u64_to_dec(0), "0");
    assert_eq!(u64_to_dec(7), "7");
    assert_eq!(u64_to_dec(10), "10");
    assert_eq!(u64_to_dec(1234567890), "1234567890");
}

#[test]
fn selection_names_and_paths() {
    assert_eq!(quality_selection_name(3), "quality_projects_3");
    let name = quality_selection_name(0);
    assert_eq!(selection_file_path(&name), "selections/quality_projects_0.csv");
    assert_eq!(spec_file_path(&"original".to_string()), "specs/original.csv");
}

#[test]
fn original_selection_is_fixed() {
    let sel = select_original_projects();
    assert_eq!(sel.name, "original");
    assert_eq!(sel.urls.len(), 15);
    assert_eq!(sel.urls[0], "https://github.com/googlechromelabs/carlo.git");
    assert_eq!(sel.urls[14], "https://github.com/webpack/webpack.git");
}

#[test]
fn quality_filter_thresholds() {
    let config = default_run_config();
    let good = quality_project(1, "https://example.com/good.git");
    assert!(is_quality_project(&good, &config.criteria));

    let mut no_composition = quality_project(2, "https://example.com/none.git");
    no_composition.languages = None;
    assert!(!is_quality_project(&no_composition, &config.criteria));

    let mut boundary = quality_project(3, "https://example.com/boundary.git");
    boundary.languages = Some(vec![(Language::TypeScript, 15), (Language::JavaScript, 80)]);
    assert!(is_quality_project(&boundary, &config.criteria));

    let mut below = quality_project(4, "https://example.com/below.git");
    below.languages = Some(vec![(Language::JavaScript, 79)]);
    assert!(!is_quality_project(&below, &config.criteria));

    let mut too_young = quality_project(5, "https://example.com/young.git");
    too_young.age_months = 11;
    assert!(!is_quality_project(&too_young, &config.criteria));
}

#[test]
fn quality_selection_takes_whole_small_population() {
    let config = default_run_config();
    let catalog = vec![
        quality_project(1, "https://example.com/a.git"),
        {
            let mut p = quality_project(2, "https://example.com/b.git");
            p.languages = Some(vec![(Language::Python, 90)]);
            p
        },
        quality_project(3, "https://example.com/c.git"),
    ];
    let population = quality_urls(&catalog, &config.criteria);
    assert_eq!(population, vec![
        "https://example.com/a.git".to_string(),
        "https://example.com/c.git".to_string(),
    ]);
    let picked = quality_projects(&catalog, &config, 0);
    assert_eq!(picked.len(), 2);
    assert!(picked.contains(&"https://example.com/a.git".to_string()));
    assert!(picked.contains(&"https://example.com/c.git".to_string()));
}

#[test]
fn one_selection_per_seed() {
    let config = default_run_config();
    let catalog = vec![
        quality_project(1, "https://example.com/a.git"),
        quality_project(2, "https://example.com/b.git"),
    ];
    let selections = select_quality_projects(&catalog, &config);
    assert_eq!(selections.len(), 10);
    assert_eq!(selections[0].name, "quality_projects_0");
    assert_eq!(selections[9].name, "quality_projects_9");
    for sel in &selections {
        assert_eq!(sel.urls.len(), 2);
    }
}
