use moonflare::build_manifest::{
    add_aggregator_dependency, add_library_dependency, manifest_declares_library_dependency,
    parse_manifest, render_manifest, ManifestError,
};
use moonflare::registry::{Category, Project};
use moonflare::wiring::{Consumer, Workspace};

const CONSUMER_MANIFEST: &str = "\
language: typescript
tasks:
  build:
    command: astro build
    deps:
      - '^:build'
    inputs:
      - src/**/*
  dev:
    command: astro dev
";

const AGGREGATOR_MANIFEST: &str = "\
tasks:
  gather:
    command: cp
    deps: []
";

fn parsed(text: &str) -> serde_yaml::Value {
    parse_manifest(text).expect("manifest parses")
}

fn strings_at(doc: &serde_yaml::Value, task: &str, field: &str) -> Vec<String> {
    doc["tasks"][task][field]
        .as_sequence()
        .map(|s| s.iter().map(|v| v.as_str().unwrap_or("").to_string()).collect())
        .unwrap_or_default()
}

fn workspace(consumers: Vec<(&str, Category)>, libraries: Vec<&str>) -> Workspace {
    Workspace {
        consumers: consumers
            .into_iter()
            .map(|(name, category)| Consumer {
                project: Project { name: name.to_string(), category },
                manifest: parsed(CONSUMER_MANIFEST),
            })
            .collect(),
        libraries: libraries.into_iter().map(|s| s.to_string()).collect(),
        aggregator: Some(parsed(AGGREGATOR_MANIFEST)),
    }
}

#[test]
fn typescript_tests_test_typescript_project_without_crates() {
    let ws = workspace(vec![("marketing", Category::StaticSite)], vec![]);
    assert!(!ws.has_native_libraries());
    assert!(!manifest_declares_library_dependency(&ws.consumers[0].manifest));
}

#[test]
fn wasm_integration_tests_test_crate_then_typescript() {
    let mut ws = workspace(vec![("marketing", Category::StaticSite)], vec![]);
    let updated = ws.on_library_added("math");
    assert_eq!(updated, vec![0]);
    assert!(ws.has_native_libraries());
    assert!(manifest_declares_library_dependency(&ws.consumers[0].manifest));
    let agg = ws.aggregator.as_ref().unwrap();
    assert_eq!(strings_at(agg, "gather", "deps"), vec!["math:build".to_string()]);
    assert_eq!(
        strings_at(&ws.consumers[0].manifest, "build", "deps"),
        vec!["^:build".to_string(), "shared-wasm:gather".to_string()]
    );
    assert_eq!(
        strings_at(&ws.consumers[0].manifest, "build", "inputs"),
        vec!["src/**/*".to_string(), "/shared-wasm/*.wasm".to_string()]
    );
}

#[test]
fn adding_a_library_twice_registers_it_once() {
    let mut ws = workspace(vec![("marketing", Category::StaticSite)], vec![]);
    ws.on_library_added("math");
    let consumers_once: Vec<serde_yaml::Value> =
        ws.consumers.iter().map(|c| c.manifest.clone()).collect();
    let aggregator_once = ws.aggregator.clone();
    let updated = ws.on_library_added("math");
    assert!(updated.is_empty());
    let agg = ws.aggregator.as_ref().unwrap();
    assert_eq!(strings_at(agg, "gather", "deps"), vec!["math:build".to_string()]);
    let consumers_twice: Vec<serde_yaml::Value> =
        ws.consumers.iter().map(|c| c.manifest.clone()).collect();
    assert_eq!(consumers_once, consumers_twice);
    assert_eq!(aggregator_once, ws.aggregator);
    assert_eq!(ws.libraries, vec!["math".to_string()]);
}

#[test]
fn test_wasm_distribution_to_multiple_typescript_projects() {
    let mut ws = workspace(
        vec![("site", Category::StaticSite), ("app", Category::WebApp), ("worker", Category::EdgeWorker)],
        vec![],
    );
    assert_eq!(ws.on_library_added("math-utils"), vec![0, 1, 2]);
    assert_eq!(ws.on_library_added("crypto-lib"), Vec::<usize>::new());
    let agg = ws.aggregator.as_ref().unwrap();
    assert_eq!(
        strings_at(agg, "gather", "deps"),
        vec!["math-utils:build".to_string(), "crypto-lib:build".to_string()]
    );
    assert_eq!(ws.libraries.len(), 2);
    assert!(ws.consumers.iter().all(|c| manifest_declares_library_dependency(&c.manifest)));
}

#[test]
fn typescript_tests_test_typescript_after_crates_exist() {
    let mut ws = workspace(vec![("dashboard", Category::WebApp)], vec!["math"]);
    ws.on_consumer_added(0);
    assert!(manifest_declares_library_dependency(&ws.consumers[0].manifest));
}

#[test]
fn consumer_added_without_libraries_is_left_alone() {
    let mut ws = workspace(vec![("dashboard", Category::WebApp)], vec![]);
    let before = ws.consumers[0].manifest.clone();
    ws.on_consumer_added(0);
    assert_eq!(ws.consumers[0].manifest, before);
}

#[test]
fn converged_workspace_declares_iff_libraries_exist() {
    let mut with_libs = workspace(
        vec![("a", Category::StaticSite), ("b", Category::WebApp), ("c", Category::EdgeWorker)],
        vec!["math"],
    );
    for i in 0..3 {
        with_libs.on_consumer_added(i);
    }
    assert!(with_libs.consumers.iter().all(|c| manifest_declares_library_dependency(&c.manifest)));
    let mut without = workspace(vec![("a", Category::StaticSite), ("b", Category::WebApp)], vec![]);
    for i in 0..2 {
        without.on_consumer_added(i);
    }
    assert!(without.consumers.iter().all(|c| !manifest_declares_library_dependency(&c.manifest)));
}

#[test]
fn existing_duplicates_are_removed_when_wiring() {
    let text = "\
tasks:
  build:
    deps: ['a', 'a', 'shared-wasm:gather', 'a']
    inputs: ['x']
";
    let doc = add_library_dependency(parsed(text));
    assert_eq!(
        strings_at(&doc, "build", "deps"),
        vec!["a".to_string(), "shared-wasm:gather".to_string()]
    );
    assert_eq!(
        strings_at(&doc, "build", "inputs"),
        vec!["x".to_string(), "/shared-wasm/*.wasm".to_string()]
    );
}

#[test]
fn only_one_of_the_two_entries_counts_as_not_declared() {
    let text = "\
tasks:
  build:
    deps: ['shared-wasm:gather']
";
    let doc = parsed(text);
    assert!(!manifest_declares_library_dependency(&doc));
    let doc = add_library_dependency(doc);
    assert!(manifest_declares_library_dependency(&doc));
    assert_eq!(strings_at(&doc, "build", "deps"), vec!["shared-wasm:gather".to_string()]);
}

#[test]
fn manifest_without_build_task_is_unchanged() {
    let text = "tasks:\n  dev:\n    command: run\n";
    let doc = parsed(text);
    assert_eq!(add_library_dependency(doc.clone()), doc);
    assert!(!manifest_declares_library_dependency(&doc));
}

#[test]
fn unrelated_sections_survive() {
    let doc = add_library_dependency(parsed(CONSUMER_MANIFEST));
    assert_eq!(doc["language"].as_str(), Some("typescript"));
    assert_eq!(doc["tasks"]["dev"]["command"].as_str(), Some("astro dev"));
    assert_eq!(doc["tasks"]["build"]["command"].as_str(), Some("astro build"));
}

#[test]
fn aggregator_dependency_is_added_once() {
    let doc = add_aggregator_dependency(parsed(AGGREGATOR_MANIFEST), "math");
    let again = add_aggregator_dependency(doc.clone(), "math");
    assert_eq!(doc, again);
    assert_eq!(strings_at(&doc, "gather", "deps"), vec!["math:build".to_string()]);
}

#[test]
fn malformed_manifest_is_a_parse_error() {
    assert!(matches!(parse_manifest("tasks: [unclosed"), Err(ManifestError::Parse(_))));
}

#[test]
fn rendered_manifest_parses_back_with_the_dependency() {
    let doc = add_library_dependency(parsed(CONSUMER_MANIFEST));
    let text = render_manifest(&doc).expect("renders");
    assert!(text.contains("shared-wasm:gather"));
    let back = parsed(&text);
    assert!(manifest_declares_library_dependency(&back));
}
