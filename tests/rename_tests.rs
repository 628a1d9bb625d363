use moonflare::identity::{
    rename_jsonc, select_deploy_format, update_identity, DeployFormat, IdentityError,
};
use moonflare::registry::{Category, DirEntry, Listing};
use moonflare::rename::{plan_rename, stage_rename, RenameError, RenamePlan};

fn dir(name: &str) -> DirEntry {
    DirEntry { name: name.to_string(), is_dir: true, has_build_manifest: true, has_deploy_manifest: true }
}

fn listing() -> Listing {
    Listing {
        sites: Some(vec![dir("site")]),
        apps: Some(vec![dir("frontend"), dir("backend"), dir("core")]),
        workers: Some(vec![dir("api")]),
        crates: Some(vec![dir("utils")]),
    }
}

const JSONC: &str = "/**\n * Deploy settings for the web app.\n */\n{\n  \"name\": \"frontend\",\n  // main entry\n  \"main\": \"src/index.ts\"\n}\n";

#[test]
fn test_rename_react_project_updates_directory_and_wrangler_jsonc() {
    let plan = plan_rename(&listing(), "frontend", "web-app").expect("rename is allowed");
    assert_eq!(plan, RenamePlan { category: Category::WebApp, rewrite_identity: true });
    assert_eq!(plan.category.directory(), "apps");
    let steps = stage_rename(plan, Some((DeployFormat::Jsonc, JSONC)), "web-app").expect("staged");
    let (format, bytes) = steps.manifest.expect("manifest rewritten");
    assert_eq!(format, DeployFormat::Jsonc);
    let text = String::from_utf8(bytes).unwrap();
    assert!(text.contains("\"name\": \"web-app\""));
    assert!(!text.contains("\"name\": \"frontend\""));
    assert!(text.starts_with("/**\n * Deploy settings for the web app.\n */\n"));
    assert!(text.contains("// main entry"));
}

#[test]
fn test_rename_project_fails_when_target_name_exists_in_same_directory() {
    let r = plan_rename(&listing(), "frontend", "backend");
    assert_eq!(r, Err(RenameError::DestinationAlreadyExists("backend".to_string())));
}

#[test]
fn test_rename_project_fails_when_project_not_found() {
    let r = plan_rename(&listing(), "nonexistent", "newname");
    assert_eq!(r, Err(RenameError::ProjectNotFound("nonexistent".to_string())));
}

#[test]
fn test_rename_allows_same_name_across_different_project_types() {
    let plan = plan_rename(&listing(), "utils", "core").expect("crate may take an app's name");
    assert_eq!(plan, RenamePlan { category: Category::NativeLibrary, rewrite_identity: false });
    let steps = stage_rename(plan, None, "core").unwrap();
    assert_eq!(steps.manifest, None);
    assert!(!steps.manifest_missing);
}

#[test]
fn web_project_without_deploy_manifest_warns_and_continues() {
    let plan = plan_rename(&listing(), "site", "marketing").unwrap();
    let steps = stage_rename(plan, None, "marketing").unwrap();
    assert_eq!(steps.manifest, None);
    assert!(steps.manifest_missing);
}

#[test]
fn failed_identity_update_stops_the_rename() {
    let plan = plan_rename(&listing(), "api", "backend").unwrap();
    assert_eq!(plan.category, Category::EdgeWorker);
    let r = stage_rename(plan, Some((DeployFormat::Toml, "name = [broken")), "backend");
    assert!(matches!(r, Err(RenameError::Identity(IdentityError::Parse(_)))));
}

#[test]
fn test_rename_durable_object_updates_directory_and_wrangler_toml() {
    let plan = plan_rename(&listing(), "api", "backend-worker").unwrap();
    assert_eq!(plan, RenamePlan { category: Category::EdgeWorker, rewrite_identity: true });
    let text = "name = \"api\"\nmain = \"src/index.ts\"\n\n[[durable_objects.bindings]]\nname = \"COUNTER\"\nclass_name = \"Counter\"\n";
    let bytes = update_identity(DeployFormat::Toml, text, "backend").unwrap();
    let out = String::from_utf8(bytes).unwrap();
    assert!(out.contains("name = \"backend\""));
    assert!(!out.contains("name = \"api\""));
    assert!(out.contains("[[durable_objects.bindings]]"));
    assert!(out.contains("class_name = \"Counter\""));
}

#[test]
fn json_manifest_gets_new_name() {
    let text = "{\"name\": \"frontend\", \"main\": \"src/index.ts\"}";
    let bytes = update_identity(DeployFormat::Json, text, "web-client").unwrap();
    let out: serde_json::Value = serde_json::from_slice(&bytes).unwrap();
    assert_eq!(out["name"], "web-client");
    assert_eq!(out["main"], "src/index.ts");
}

#[test]
fn malformed_json_is_a_parse_error() {
    assert!(matches!(
        update_identity(DeployFormat::Json, "{\"name\": ", "x"),
        Err(IdentityError::Parse(_))
    ));
}

#[test]
fn jsonc_with_spaces_around_colon_is_rewritten() {
    let bytes = rename_jsonc("{ \"name\"  :   \"site\" }", "landing").unwrap();
    assert_eq!(String::from_utf8(bytes).unwrap(), "{ \"name\": \"landing\" }");
}

#[test]
fn jsonc_without_name_field_is_unchanged() {
    let text = "/* nothing */ {\"main\": \"x\"}";
    let bytes = rename_jsonc(text, "landing").unwrap();
    assert_eq!(bytes, text.as_bytes());
}

#[test]
fn jsonc_rewrites_only_the_first_name_field() {
    let text = "{\"name\": \"a\", \"env\": {\"name\": \"b\"}}";
    let bytes = rename_jsonc(text, "z").unwrap();
    assert_eq!(String::from_utf8(bytes).unwrap(), "{\"name\": \"z\", \"env\": {\"name\": \"b\"}}");
}

#[test]
fn test_rename_preserves_wrangler_json_format() {
    let comment = "/* keep: \u{e9}t\u{e9} */";
    let text = format!("{}\n{{\"name\": \"old\"}}", comment);
    let bytes = rename_jsonc(&text, "new").unwrap();
    assert_eq!(&bytes[..comment.len()], comment.as_bytes());
}

#[test]
fn deploy_format_precedence() {
    assert_eq!(select_deploy_format(true, true, true), Ok(DeployFormat::Toml));
    assert_eq!(select_deploy_format(false, true, true), Ok(DeployFormat::Json));
    assert_eq!(select_deploy_format(false, false, true), Ok(DeployFormat::Jsonc));
    assert_eq!(select_deploy_format(false, false, false), Err(IdentityError::UnsupportedManifestFormat));
    assert_eq!(DeployFormat::Jsonc.file_name(), "wrangler.jsonc");
}

#[test]
fn test_rename_astro_project_updates_directory_and_wrangler_jsonc() {
    let plan = plan_rename(&listing(), "site", "marketing").unwrap();
    assert_eq!(plan.category.directory(), "sites");
    let text = "{\n  // site\n  \"name\": \"site\",\n  \"compatibility_date\": \"2024-01-01\"\n}\n";
    let steps = stage_rename(plan, Some((DeployFormat::Jsonc, text)), "marketing").unwrap();
    let out = String::from_utf8(steps.manifest.unwrap().1).unwrap();
    assert!(out.contains("name\": \"marketing"));
    assert!(!out.contains("name\": \"site"));
}

#[test]
fn test_rename_crate_project_updates_directory_only() {
    let plan = plan_rename(&listing(), "utils", "wasm-utils").unwrap();
    assert_eq!(plan, RenamePlan { category: Category::NativeLibrary, rewrite_identity: false });
    assert_eq!(plan.category.directory(), "crates");
    let steps = stage_rename(plan, None, "wasm-utils").unwrap();
    assert_eq!(steps.manifest, None);
    assert!(!steps.manifest_missing);
}

#[test]
fn test_rename_all_project_types_comprehensive() {
    let l = listing();
    let cases = [
        ("frontend", "web-client", Category::WebApp, Some(DeployFormat::Jsonc)),
        ("site", "landing", Category::StaticSite, Some(DeployFormat::Jsonc)),
        ("api", "state-manager", Category::EdgeWorker, Some(DeployFormat::Toml)),
        ("utils", "wasm-utils", Category::NativeLibrary, None),
    ];
    for (old, new, category, format) in cases {
        let plan = plan_rename(&l, old, new).unwrap();
        assert_eq!(plan.category, category);
        let content = match format {
            Some(DeployFormat::Toml) => format!("name = \"{}\"\n", old),
            _ => format!("{{\"name\": \"{}\"}}", old),
        };
        let steps = stage_rename(plan, format.map(|f| (f, content.as_str())), new).unwrap();
        match format {
            Some(DeployFormat::Toml) => {
                let out = String::from_utf8(steps.manifest.unwrap().1).unwrap();
                assert!(out.contains(&format!("name = \"{}", new)));
            }
            Some(_) => {
                let out = String::from_utf8(steps.manifest.unwrap().1).unwrap();
                assert!(out.contains(&format!("name\": \"{}", new)));
            }
            None => assert_eq!(steps.manifest, None),
        }
    }
}

#[test]
fn json_manifest_that_is_no_object_is_kept() {
    let bytes = update_identity(DeployFormat::Json, "[1, 2]", "x").unwrap();
    let out: serde_json::Value = serde_json::from_slice(&bytes).unwrap();
    assert_eq!(out, serde_json::Value::Array(vec![1.into(), 2.into()]));
}
