use moonflare::layout::{
    get_project_category, get_project_directory, get_template, is_moonflare_workspace, Template,
};
use moonflare::registry::{Category, DirEntry, Listing, Project, RegistryError};

fn entry(name: &str, is_dir: bool, has_build_manifest: bool) -> DirEntry {
    DirEntry { name: name.to_string(), is_dir, has_build_manifest, has_deploy_manifest: has_build_manifest }
}

#[test]
fn consumers_are_directories_with_a_build_manifest() {
    let listing = Listing {
        sites: Some(vec![entry("marketing", true, true), entry("notes.txt", false, false)]),
        apps: Some(vec![entry("draft", true, false), entry("dashboard", true, true)]),
        workers: None,
        crates: Some(vec![entry("math", true, true)]),
    };
    assert_eq!(
        listing.list_consumer_projects(),
        vec![
            Project { name: "marketing".to_string(), category: Category::StaticSite },
            Project { name: "dashboard".to_string(), category: Category::WebApp },
        ]
    );
    assert!(listing.has_native_libraries());
    assert_eq!(listing.library_names(), vec!["math".to_string()]);
}

#[test]
fn libraries_need_a_subdirectory() {
    let mut listing = Listing { sites: None, apps: None, workers: None, crates: None };
    assert!(!listing.has_native_libraries());
    listing.crates = Some(vec![entry("README.md", false, false)]);
    assert!(!listing.has_native_libraries());
    assert!(listing.library_names().is_empty());
}

#[test]
fn lookup_takes_the_first_category_in_order() {
    let listing = Listing {
        sites: None,
        apps: Some(vec![entry("core", true, true)]),
        workers: None,
        crates: Some(vec![entry("core", true, true)]),
    };
    assert_eq!(listing.find_project("core"), Ok(Category::WebApp));
    assert!(listing.project_exists("core"));
    assert_eq!(
        listing.find_project("missing"),
        Err(RegistryError::ProjectNotFound("missing".to_string()))
    );
    assert!(!listing.project_exists("missing"));
}

#[test]
fn project_directories_by_type() {
    assert_eq!(get_project_directory("astro"), "sites");
    assert_eq!(get_project_directory("react"), "apps");
    assert_eq!(get_project_directory("durable-object"), "workers");
    assert_eq!(get_project_directory("worker"), "workers");
    assert_eq!(get_project_directory("crate"), "crates");
    assert_eq!(get_project_directory("unknown"), "apps");
}

#[test]
fn templates_by_type() {
    assert_eq!(get_template("astro"), Some(Template::Astro));
    assert_eq!(get_template("worker"), Some(Template::DurableObject));
    assert_eq!(get_template("workspace"), Some(Template::Workspace));
    assert_eq!(get_template("vue"), None);
}

#[test]
fn workspace_is_recognised_by_either_file() {
    assert!(is_moonflare_workspace(true, false));
    assert!(is_moonflare_workspace(false, true));
    assert!(!is_moonflare_workspace(false, false));
}

#[test]
fn category_directories() {
    assert_eq!(Category::StaticSite.directory(), "sites");
    assert_eq!(Category::EdgeWorker.directory(), "workers");
    assert_eq!(Category::NativeLibrary.directory(), "crates");
    assert!(Category::WebApp.is_consumer());
    assert!(!Category::NativeLibrary.is_consumer());
}

#[test]
fn project_categories_by_type() {
    assert_eq!(get_project_category("astro"), Category::StaticSite);
    assert_eq!(get_project_category("react"), Category::WebApp);
    assert_eq!(get_project_category("worker"), Category::EdgeWorker);
    assert_eq!(get_project_category("crate"), Category::NativeLibrary);
    assert_eq!(get_project_category("other"), Category::WebApp);
}

#[test]
fn deploy_targets_go_workers_sites_apps() {
    let listing = Listing {
        sites: Some(vec![entry("marketing", true, true), entry("draft", true, false)]),
        apps: Some(vec![entry("dashboard", true, true)]),
        workers: Some(vec![entry("api", true, true)]),
        crates: Some(vec![entry("math", true, true)]),
    };
    assert_eq!(
        listing.deploy_targets(),
        vec!["api".to_string(), "marketing".to_string(), "dashboard".to_string()]
    );
    assert_eq!(listing.find_deployable("dashboard"), Ok(Category::WebApp));
    assert_eq!(listing.find_deployable("api"), Ok(Category::EdgeWorker));
    assert_eq!(
        listing.find_deployable("math"),
        Err(RegistryError::ProjectNotFound("math".to_string()))
    );
}
