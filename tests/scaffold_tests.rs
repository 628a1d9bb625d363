use moonflare::layout::Template;
use moonflare::moon_projects::{validate_project_exists, MoonProject};
use moonflare::registry::Category;
use moonflare::scaffold::{plan_add, AddError};

fn project(id: &str, stack: Option<&str>) -> MoonProject {
    MoonProject {
        id: id.to_string(),
        source: format!("apps/{}", id),
        language: "typescript".to_string(),
        layer: None,
        stack: stack.map(|s| s.to_string()),
    }
}

#[test]
fn durable_object_plan_has_names_and_types() {
    let plan = plan_add("durable-object", "user-sessions", true).unwrap();
    assert_eq!(plan.category, Category::EdgeWorker);
    assert_eq!(plan.template, Template::DurableObject);
    assert_eq!(plan.name_upper, Some("USER-SESSIONS".to_string()));
    assert_eq!(plan.name_title, Some("User-Sessions".to_string()));
    assert!(plan.has_wasm);
    assert!(plan.generate_types);
    assert!(!plan.wire_as_library);
}

#[test]
fn astro_plan_wires_wasm_only_with_crates() {
    let with = plan_add("astro", "marketing", true).unwrap();
    assert_eq!(with.category, Category::StaticSite);
    assert!(with.has_wasm);
    assert!(!with.generate_types);
    let without = plan_add("astro", "marketing", false).unwrap();
    assert!(!without.has_wasm);
    assert_eq!(without.name_upper, None);
}

#[test]
fn crate_plan_wires_the_library() {
    let plan = plan_add("crate", "math", true).unwrap();
    assert_eq!(plan.category, Category::NativeLibrary);
    assert_eq!(plan.template, Template::Crate);
    assert!(plan.wire_as_library);
    assert!(!plan.has_wasm);
}

#[test]
fn worker_alias_is_planned_as_a_durable_object() {
    let plan = plan_add("worker", "api", true).unwrap();
    assert_eq!(plan.category, Category::EdgeWorker);
    assert_eq!(plan.template, Template::DurableObject);
    assert!(plan.has_wasm);
    assert!(plan.generate_types);
    assert_eq!(plan.name_upper, Some("API".to_string()));
    assert_eq!(plan.name_title, Some("Api".to_string()));
}

#[test]
fn unknown_project_type_is_refused() {
    assert_eq!(plan_add("vue", "x", false), Err(AddError::UnknownProjectType("vue".to_string())));
}

#[test]
fn existing_project_validates() {
    let projects = vec![project("web", Some("frontend")), project("api", Some("backend"))];
    assert_eq!(validate_project_exists(&projects, "api"), None);
}

#[test]
fn missing_project_lists_what_exists() {
    let projects = vec![
        project("web", Some("frontend")),
        project("api", Some("backend")),
        project("math", Some("systems")),
        project("docs", None),
    ];
    assert_eq!(
        validate_project_exists(&projects, "nope"),
        Some(vec![
            "web (frontend)".to_string(),
            "api (backend)".to_string(),
            "math".to_string(),
            "docs".to_string(),
        ])
    );
    assert_eq!(validate_project_exists(&[].to_vec(), "nope"), Some(vec![]));
}
