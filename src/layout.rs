//! Where each kind of project goes, and how a workspace is recognised.
use vstd::prelude::*;
use crate::registry::{category_dir, Category};

verus! {

/// Whether two texts are equal.
pub fn same_text(a: &str, b: &str) -> (r: bool)
    ensures
        r == (a@ == b@),
{
    a.to_owned() == b.to_owned()
}

/// The directory for a project type named on the command line; unknown types
/// go with the web apps.
pub open spec fn project_directory(project_type: Seq<char>) -> Seq<char> {
    if project_type == "astro"@ {
        "sites"@
    } else if project_type == "react"@ {
        "apps"@
    } else if project_type == "durable-object"@ || project_type == "worker"@ {
        "workers"@
    } else if project_type == "crate"@ {
        "crates"@
    } else {
        "apps"@
    }
}

/// The directory that holds projects of the given type.
pub fn get_project_directory(project_type: &str) -> (r: &'static str)
    ensures
        r@ == project_directory(project_type@),
{
    if same_text(project_type, "astro") {
        "sites"
    } else if same_text(project_type, "react") {
        "apps"
    } else if same_text(project_type, "durable-object") || same_text(project_type, "worker") {
        "workers"
    } else if same_text(project_type, "crate") {
        "crates"
    } else {
        "apps"
    }
}

/// The category of projects of the given type; unknown types count as web
/// apps. Its directory is the one `get_project_directory` names.
pub fn get_project_category(project_type: &str) -> (r: Category)
    ensures
        category_dir(r) == project_directory(project_type@),
{
    if same_text(project_type, "astro") {
        Category::StaticSite
    } else if same_text(project_type, "react") {
        Category::WebApp
    } else if same_text(project_type, "durable-object") || same_text(project_type, "worker") {
        Category::EdgeWorker
    } else if same_text(project_type, "crate") {
        Category::NativeLibrary
    } else {
        Category::WebApp
    }
}

/// The scaffolding templates, one per project type and one for a workspace.
#[derive(Debug, Clone, Copy, PartialEq, Eq, Structural)]
pub enum Template {
    Astro,
    React,
    DurableObject,
    Crate,
    Workspace,
}

/// The template for a project type, where the type is known.
pub open spec fn template_for(project_type: Seq<char>) -> Option<Template> {
    if project_type == "astro"@ {
        Some(Template::Astro)
    } else if project_type == "react"@ {
        Some(Template::React)
    } else if project_type == "durable-object"@ || project_type == "worker"@ {
        Some(Template::DurableObject)
    } else if project_type == "crate"@ {
        Some(Template::Crate)
    } else if project_type == "workspace"@ {
        Some(Template::Workspace)
    } else {
        None
    }
}

/// The template to scaffold a project type with; `None` for an unknown type.
pub fn get_template(project_type: &str) -> (r: Option<Template>)
    ensures
        r == template_for(project_type@),
{
    if same_text(project_type, "astro") {
        Some(Template::Astro)
    } else if same_text(project_type, "react") {
        Some(Template::React)
    } else if same_text(project_type, "durable-object") || same_text(project_type, "worker") {
        Some(Template::DurableObject)
    } else if same_text(project_type, "crate") {
        Some(Template::Crate)
    } else if same_text(project_type, "workspace") {
        Some(Template::Workspace)
    } else {
        None
    }
}

/// A directory is a workspace when it has the build orchestrator's workspace
/// configuration (`.moon/workspace.yml`) or a `package.json`.
pub fn is_moonflare_workspace(has_workspace_config: bool, has_package_json: bool) -> (r: bool)
    ensures
        r == (has_workspace_config || has_package_json),
{
    has_workspace_config || has_package_json
}

} // verus!
