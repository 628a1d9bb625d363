//! What adding a project involves, decided before anything is written: where
//! it goes, which template it is made from, what the template is told, and
//! what must follow.
use vstd::prelude::*;
use crate::layout::{get_project_category, get_template, project_directory, same_text, template_for, Template};
use crate::registry::{category_dir, Category};
use crate::text::{upper_of, uppercase};
use crate::title::{title_prefix, to_title_case};

verus! {

/// The steps of adding one project.
#[derive(Debug, Clone, PartialEq, Eq)]
pub struct AddPlan {
    pub category: Category,
    pub template: Template,
    /// The name in capitals, for the durable-object template.
    pub name_upper: Option<String>,
    /// The name in title case, for the durable-object template.
    pub name_title: Option<String>,
    /// The template should wire in the libraries' artifacts.
    pub has_wasm: bool,
    /// The project is a library: every consumer and the aggregator must be
    /// wired to it afterwards.
    pub wire_as_library: bool,
    /// Worker type definitions should be generated afterwards.
    pub generate_types: bool,
}

/// A project type no template exists for.
#[derive(Debug, Clone, PartialEq, Eq)]
pub enum AddError {
    UnknownProjectType(String),
}

/// The durable-object template, under either of its two type names.
pub open spec fn is_durable_object(t: Seq<char>) -> bool {
    t == "durable-object"@ || t == "worker"@
}

/// The consumer project types, built from TypeScript.
pub open spec fn is_typescript(t: Seq<char>) -> bool {
    t == "astro"@ || t == "react"@ || is_durable_object(t)
}

/// Plans adding a project of `project_type` called `name`, where
/// `has_crates` tells whether native libraries exist.
pub fn plan_add(project_type: &str, name: &str, has_crates: bool) -> (r: Result<AddPlan, AddError>)
    ensures
        template_for(project_type@) is None <==> r is Err,
        r matches Err(AddError::UnknownProjectType(t)) ==> t@ == project_type@,
        r matches Ok(p) ==> {
            &&& category_dir(p.category) == project_directory(project_type@)
            &&& Some(p.template) == template_for(project_type@)
            &&& p.has_wasm == (is_typescript(project_type@) && has_crates)
            &&& p.wire_as_library == (project_type@ == "crate"@)
            &&& p.generate_types == (project_type@ == "react"@ || is_durable_object(project_type@))
            &&& if is_durable_object(project_type@) {
                &&& (p.name_upper matches Some(u) && u@ == upper_of(name@))
                &&& (p.name_title matches Some(t) && t@ == title_prefix(name@, name@.len() as int))
            } else {
                p.name_upper is None && p.name_title is None
            }
        },
{
    let template = match get_template(project_type) {
        Some(t) => t,
        None => return Err(AddError::UnknownProjectType(project_type.to_owned())),
    };
    let durable = same_text(project_type, "durable-object") || same_text(project_type, "worker");
    let (name_upper, name_title) = if durable {
        (Some(uppercase(name)), Some(to_title_case(name)))
    } else {
        (None, None)
    };
    let typescript = same_text(project_type, "astro") || same_text(project_type, "react") || durable;
    Ok(AddPlan {
        category: get_project_category(project_type),
        template,
        name_upper,
        name_title,
        has_wasm: typescript && has_crates,
        wire_as_library: same_text(project_type, "crate"),
        generate_types: same_text(project_type, "react") || durable,
    })
}

} // verus!
