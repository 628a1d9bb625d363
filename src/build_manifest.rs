//! Build manifests: the `deps` and `inputs` lists of a task, kept as sets.
//!
//! A consumer declares the library dependency when its `build` task depends on
//! the aggregator's `gather` task and takes the aggregated artifacts as input.
//! The aggregator's own `gather` task depends on `<library>:build` for each
//! native library.
use vstd::prelude::*;
use crate::entries::{has_text, lemma_settled_deduped, merge_entry, merged, settled};
use crate::yaml::{
    as_mapping, as_sequence, mapping_get, mapping_insert, mapping_value, parse_yaml, render_yaml,
    sequence_value, yaml_entry, yaml_mapping, yaml_parse, yaml_render, yaml_sequence,
};

verus! {

/// The aggregator's task that consumers' builds depend on.
pub const GATHER_TASK: &'static str = "shared-wasm:gather";

/// The glob of the aggregated artifacts that consumers' builds take as input.
pub const ARTIFACT_GLOB: &'static str = "/shared-wasm/*.wasm";

/// The consumer task that depends on the aggregator.
pub const BUILD_TASK: &'static str = "build";

/// The aggregator's task that depends on every library's build.
pub const AGGREGATE_TASK: &'static str = "gather";

pub const DEPS_FIELD: &'static str = "deps";

pub const INPUTS_FIELD: &'static str = "inputs";

/// The `tasks` mapping of a document.
pub open spec fn tasks_of(doc: serde_yaml::Value) -> Option<serde_yaml::Mapping> {
    match yaml_mapping(doc) {
        Some(root) => match yaml_entry(root, "tasks"@) {
            Some(v) => yaml_mapping(v),
            None => None,
        },
        None => None,
    }
}

/// The mapping of one task, where the document has it as a mapping.
pub open spec fn task_of(doc: serde_yaml::Value, task: Seq<char>) -> Option<serde_yaml::Mapping> {
    match tasks_of(doc) {
        Some(tasks) => match yaml_entry(tasks, task) {
            Some(v) => yaml_mapping(v),
            None => None,
        },
        None => None,
    }
}

/// The items of a task's list field; empty where it is missing or no sequence.
pub open spec fn task_list(doc: serde_yaml::Value, task: Seq<char>, field: Seq<char>) -> Seq<
    serde_yaml::Value,
> {
    match task_of(doc, task) {
        Some(m) => match yaml_entry(m, field) {
            Some(v) => match yaml_sequence(v) {
                Some(items) => items,
                None => Seq::empty(),
            },
            None => Seq::empty(),
        },
        None => Seq::empty(),
    }
}

/// `b` holds what `a` holds, but for the fields `f1` and `f2` of `task`:
/// every other top-level key, every other task and every other field of the
/// task are as they were.
pub open spec fn kept_apart_from(
    a: serde_yaml::Value,
    b: serde_yaml::Value,
    task: Seq<char>,
    f1: Seq<char>,
    f2: Seq<char>,
) -> bool {
    &&& yaml_mapping(a) is Some && yaml_mapping(b) is Some
    &&& forall|k: Seq<char>|
        k != "tasks"@ ==> yaml_entry(yaml_mapping(b)->0, k) == yaml_entry(yaml_mapping(a)->0, k)
    &&& tasks_of(a) is Some && tasks_of(b) is Some
    &&& forall|t: Seq<char>|
        t != task ==> yaml_entry(tasks_of(b)->0, t) == yaml_entry(tasks_of(a)->0, t)
    &&& task_of(a, task) is Some && task_of(b, task) is Some
    &&& forall|f: Seq<char>|
        f != f1 && f != f2 ==> yaml_entry(task_of(b, task)->0, f) == yaml_entry(
            task_of(a, task)->0,
            f,
        )
}

/// What adding `item` to the list `field` of `task` does to a document.
pub open spec fn entry_added(
    doc: serde_yaml::Value,
    r: serde_yaml::Value,
    task: Seq<char>,
    field: Seq<char>,
    item: Seq<char>,
) -> bool {
    &&& task_of(doc, task) is None ==> r == doc
    &&& settled(task_list(doc, task, field), item) ==> r == doc
    &&& task_of(doc, task) is Some ==> {
        &&& merged(task_list(doc, task, field), item, task_list(r, task, field))
        &&& r == doc || kept_apart_from(doc, r, task, field, field)
    }
}

/// Adds `item` to the list `field` of `task`, as a set: repeated strings are
/// dropped and `item` is appended where it is absent. A document without that
/// task, or whose list is settled already, comes back as it was.
pub fn add_task_entry(doc: serde_yaml::Value, task: &str, field: &str, item: &str) -> (r:
    serde_yaml::Value)
    ensures
        entry_added(doc, r, task@, field@, item@),
{
    let mut root = match as_mapping(&doc) {
        Some(m) => m,
        None => return doc,
    };
    let tasks_value = match mapping_get(&root, "tasks") {
        Some(v) => v,
        None => return doc,
    };
    let mut tasks = match as_mapping(&tasks_value) {
        Some(m) => m,
        None => return doc,
    };
    let task_value = match mapping_get(&tasks, task) {
        Some(v) => v,
        None => return doc,
    };
    let mut body = match as_mapping(&task_value) {
        Some(m) => m,
        None => return doc,
    };
    let items = match mapping_get(&body, field) {
        Some(v) => match as_sequence(&v) {
            Some(s) => s,
            None => Vec::new(),
        },
        None => Vec::new(),
    };
    assert(items@ == task_list(doc, task@, field@));
    match merge_entry(items, item) {
        None => {
            proof {
                lemma_settled_deduped(task_list(doc, task@, field@));
            }
            doc
        },
        Some(new_items) => {
            let ghost old_body = body;
            let ghost old_tasks = tasks;
            let ghost old_root = root;
            mapping_insert(&mut body, field, sequence_value(new_items));
            mapping_insert(&mut tasks, task, mapping_value(body));
            mapping_insert(&mut root, "tasks", mapping_value(tasks));
            let r = mapping_value(root);
            assert(tasks_of(doc) == Some(old_tasks));
            assert(task_of(doc, task@) == Some(old_body));
            assert(tasks_of(r) == Some(tasks));
            assert(task_of(r, task@) == Some(body));
            assert(task_list(r, task@, field@) == new_items@);
            assert(kept_apart_from(doc, r, task@, field@, field@));
            r
        },
    }
}

/// The manifest declares the library dependency: its `build` task depends on
/// the aggregator's `gather` task and takes the aggregated artifacts as input.
pub open spec fn declares_dependency(doc: serde_yaml::Value) -> bool {
    &&& has_text(task_list(doc, BUILD_TASK@, DEPS_FIELD@), GATHER_TASK@)
    &&& has_text(task_list(doc, BUILD_TASK@, INPUTS_FIELD@), ARTIFACT_GLOB@)
}

/// Whether the list holds the string `t`.
fn list_has_text(items: &Vec<serde_yaml::Value>, t: &str) -> (r: bool)
    ensures
        r == has_text(items@, t@),
{
    let mut k: usize = 0;
    while k < items.len()
        invariant
            k <= items.len(),
            forall|i: int| 0 <= i < k ==> crate::yaml::yaml_str(#[trigger] items@[i]) != Some(t@),
        decreases items.len() - k,
    {
        match crate::yaml::as_text(&items[k]) {
            Some(s) => {
                if s == t.to_owned() {
                    return true;
                }
            },
            None => {},
        }
        k = k + 1;
    }
    false
}

/// The items of a task's list field, as `task_list` describes them.
fn read_task_list(doc: &serde_yaml::Value, task: &str, field: &str) -> (r: Vec<serde_yaml::Value>)
    ensures
        r@ == task_list(*doc, task@, field@),
{
    let root = match as_mapping(doc) {
        Some(m) => m,
        None => return Vec::new(),
    };
    let tasks_value = match mapping_get(&root, "tasks") {
        Some(v) => v,
        None => return Vec::new(),
    };
    let tasks = match as_mapping(&tasks_value) {
        Some(m) => m,
        None => return Vec::new(),
    };
    let task_value = match mapping_get(&tasks, task) {
        Some(v) => v,
        None => return Vec::new(),
    };
    let body = match as_mapping(&task_value) {
        Some(m) => m,
        None => return Vec::new(),
    };
    match mapping_get(&body, field) {
        Some(v) => match as_sequence(&v) {
            Some(s) => s,
            None => Vec::new(),
        },
        None => Vec::new(),
    }
}

/// Whether a consumer's manifest declares the library dependency. Both the
/// task reference and the artifact glob must be there: one without the other
/// counts as not declared, so that it gets repaired.
pub fn manifest_declares_library_dependency(doc: &serde_yaml::Value) -> (r: bool)
    ensures
        r == declares_dependency(*doc),
{
    let deps = read_task_list(doc, BUILD_TASK, DEPS_FIELD);
    let inputs = read_task_list(doc, BUILD_TASK, INPUTS_FIELD);
    list_has_text(&deps, GATHER_TASK) && list_has_text(&inputs, ARTIFACT_GLOB)
}

/// What adding the library dependency does to a consumer's manifest.
pub open spec fn dependency_added(doc: serde_yaml::Value, r: serde_yaml::Value) -> bool {
    let deps = DEPS_FIELD@;
    let inputs = INPUTS_FIELD@;
    let build = BUILD_TASK@;
    &&& task_of(doc, build) is None ==> r == doc
    &&& settled(task_list(doc, build, deps), GATHER_TASK@) && settled(
        task_list(doc, build, inputs),
        ARTIFACT_GLOB@,
    ) ==> r == doc
    &&& task_of(doc, build) is Some ==> {
        &&& merged(task_list(doc, build, deps), GATHER_TASK@, task_list(r, build, deps))
        &&& merged(task_list(doc, build, inputs), ARTIFACT_GLOB@, task_list(r, build, inputs))
        &&& r == doc || kept_apart_from(doc, r, build, deps, inputs)
    }
}

/// Makes a consumer's `build` task depend on the aggregator and take its
/// artifacts as input, each added at most once. A manifest without a `build`
/// task mapping is left as it is.
pub fn add_library_dependency(doc: serde_yaml::Value) -> (r: serde_yaml::Value)
    ensures
        dependency_added(doc, r),
{
    proof {
        reveal_strlit("deps");
        reveal_strlit("inputs");
    }
    let mid = add_task_entry(doc, BUILD_TASK, DEPS_FIELD, GATHER_TASK);
    let r = add_task_entry(mid, BUILD_TASK, INPUTS_FIELD, ARTIFACT_GLOB);
    proof {
        let build = BUILD_TASK@;
        assert(DEPS_FIELD@.len() == 4 && INPUTS_FIELD@.len() == 6);
        assert(DEPS_FIELD@ != INPUTS_FIELD@);
        if task_of(doc, build) is Some {
            assert(task_of(mid, build) is Some);
            assert(task_list(r, build, DEPS_FIELD@) == task_list(mid, build, DEPS_FIELD@));
            assert(task_list(mid, build, INPUTS_FIELD@) == task_list(doc, build, INPUTS_FIELD@));
        }
    }
    r
}

/// The aggregator's entry for one library: `<library>:build`.
pub open spec fn library_build_ref(library: Seq<char>) -> Seq<char> {
    library + ":build"@
}

/// What registering a library does to the aggregator's manifest.
pub open spec fn aggregator_updated(doc: serde_yaml::Value, r: serde_yaml::Value, library: Seq<char>) -> bool {
    entry_added(doc, r, AGGREGATE_TASK@, DEPS_FIELD@, library_build_ref(library))
}

/// Makes the aggregator's `gather` task depend on `<library>:build`, at most once.
pub fn add_aggregator_dependency(doc: serde_yaml::Value, library: &str) -> (r: serde_yaml::Value)
    ensures
        aggregator_updated(doc, r, library@),
{
    let mut target = library.to_owned();
    target.append(":build");
    add_task_entry(doc, AGGREGATE_TASK, DEPS_FIELD, target.as_str())
}

/// Why a build or aggregator manifest could not be handled.
#[derive(Debug, Clone, PartialEq, Eq)]
pub enum ManifestError {
    /// The text is no YAML document.
    Parse(String),
    /// The document could not be written out.
    Write(String),
}

/// Parses the text of a build or aggregator manifest.
pub fn parse_manifest(text: &str) -> (r: Result<serde_yaml::Value, ManifestError>)
    ensures
        r is Ok <==> yaml_parse(text@) is Some,
        r matches Ok(doc) ==> yaml_parse(text@) == Some(doc),
        r matches Err(e) ==> e is Parse,
{
    match parse_yaml(text) {
        Ok(doc) => Ok(doc),
        Err(message) => Err(ManifestError::Parse(message)),
    }
}

/// The text of a build or aggregator manifest.
pub fn render_manifest(doc: &serde_yaml::Value) -> (r: Result<String, ManifestError>)
    ensures
        r is Ok <==> yaml_render(*doc) is Some,
        r matches Ok(text) ==> yaml_render(*doc) == Some(text@),
        r matches Err(e) ==> e is Write,
{
    match render_yaml(doc) {
        Ok(text) => Ok(text),
        Err(message) => Err(ManifestError::Write(message)),
    }
}

} // verus!
