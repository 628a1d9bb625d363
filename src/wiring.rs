//! Keeps the workspace's dependency graph consistent after a mutating command.
//!
//! The graph is never stored: it is read off a snapshot of the workspace taken
//! for each command. Every consumer manifest should declare the library
//! dependency exactly when at least one native library exists; adding a
//! library pushes the dependency into all consumers, and adding a consumer
//! pulls it in where libraries exist.
use vstd::prelude::*;
use crate::build_manifest::{
    add_aggregator_dependency, add_library_dependency, aggregator_updated, declares_dependency,
    dependency_added, library_build_ref, manifest_declares_library_dependency, task_list, task_of,
    AGGREGATE_TASK, ARTIFACT_GLOB, BUILD_TASK, DEPS_FIELD, GATHER_TASK, INPUTS_FIELD,
};
use crate::entries::{distinct_texts, lemma_merged_settled, settled};
use crate::registry::Project;

verus! {

/// A consumer project with its parsed build manifest.
pub struct Consumer {
    pub project: Project,
    pub manifest: serde_yaml::Value,
}

/// A snapshot of the workspace: its consumers, the names of its native
/// libraries, and the aggregator's manifest where there is one.
pub struct Workspace {
    pub consumers: Vec<Consumer>,
    pub libraries: Vec<String>,
    pub aggregator: Option<serde_yaml::Value>,
}

/// What wiring a library does to one consumer's manifest: a manifest that
/// declares the dependency stays as it is; any other gets it added.
pub open spec fn library_wired(before: serde_yaml::Value, after: serde_yaml::Value) -> bool {
    if declares_dependency(before) {
        after == before
    } else {
        dependency_added(before, after)
    }
}

/// What adding a consumer does to its manifest.
pub open spec fn consumer_wired(before: serde_yaml::Value, after: serde_yaml::Value, has_libraries: bool) -> bool {
    if has_libraries {
        dependency_added(before, after)
    } else {
        after == before
    }
}

/// The names of the libraries, with `library` added where it was absent.
pub open spec fn with_library(names: Seq<Seq<char>>, library: Seq<char>) -> Seq<Seq<char>> {
    if names.contains(library) {
        names
    } else {
        names.push(library)
    }
}

impl Workspace {
    pub open spec fn library_names(&self) -> Seq<Seq<char>> {
        self.libraries@.map_values(|s: String| s@)
    }

    /// The state after `library` was added to `before`, as `on_library_added`
    /// leaves it.
    pub open spec fn library_added(before: Workspace, after: Workspace, library: Seq<char>) -> bool {
        &&& after.consumers.len() == before.consumers.len()
        &&& forall|i: int|
            0 <= i < before.consumers.len() ==> (#[trigger] after.consumers[i]).project
                == before.consumers[i].project && library_wired(
                before.consumers[i].manifest,
                after.consumers[i].manifest,
            )
        &&& match (before.aggregator, after.aggregator) {
            (None, None) => true,
            (Some(a), Some(b)) => aggregator_updated(a, b, library),
            _ => false,
        }
        &&& after.library_names() == with_library(before.library_names(), library)
    }

    /// The state after the consumer at `index` was added to `before`, as
    /// `on_consumer_added` leaves it.
    pub open spec fn consumer_added(before: Workspace, after: Workspace, index: int) -> bool {
        &&& after.consumers.len() == before.consumers.len()
        &&& forall|i: int|
            0 <= i < before.consumers.len() && i != index ==> #[trigger] after.consumers[i]
                == before.consumers[i]
        &&& after.consumers[index].project == before.consumers[index].project
        &&& consumer_wired(
            before.consumers[index].manifest,
            after.consumers[index].manifest,
            before.libraries.len() > 0,
        )
        &&& after.aggregator == before.aggregator
        &&& after.libraries == before.libraries
    }

    /// Whether any native library exists.
    pub fn has_native_libraries(&self) -> (r: bool)
        ensures
            r == (self.libraries.len() > 0),
    {
        self.libraries.len() > 0
    }

    /// Wires a new library into the workspace: every consumer whose manifest
    /// does not declare the dependency gets it, the aggregator's `gather` task
    /// gets `<library>:build` once, and the library is counted among the
    /// libraries. Returns the positions of the consumers that were updated,
    /// in increasing order; their number is the count of projects changed.
    pub fn on_library_added(&mut self, library: &str) -> (updated: Vec<usize>)
        ensures
            Workspace::library_added(*old(self), *final(self), library@),
            forall|j: int|
                0 <= j < updated.len() ==> (#[trigger] updated[j]) < old(self).consumers.len()
                    && !declares_dependency(old(self).consumers[updated[j] as int].manifest),
            forall|j: int, k: int| 0 <= j < k < updated.len() ==> updated[j] < updated[k],
            forall|i: int|
                0 <= i < old(self).consumers.len() && !declares_dependency(
                    #[trigger] old(self).consumers[i].manifest,
                ) ==> updated@.contains(i as usize),
    {
        let mut rest: Vec<Consumer> = Vec::new();
        std::mem::swap(&mut self.consumers, &mut rest);
        let ghost orig = rest@;
        let n = rest.len();
        let mut updated: Vec<usize> = Vec::new();
        let mut k: usize = 0;
        while rest.len() > 0
            invariant
                n == orig.len(),
                orig == old(self).consumers@,
                self.aggregator == old(self).aggregator,
                self.libraries == old(self).libraries,
                k + rest@.len() == n,
                rest@ == orig.subrange(k as int, n as int),
                self.consumers.len() == k,
                forall|i: int|
                    0 <= i < k ==> (#[trigger] self.consumers[i]).project == orig[i].project
                        && library_wired(orig[i].manifest, self.consumers[i].manifest),
                forall|j: int|
                    0 <= j < updated.len() ==> (#[trigger] updated[j]) < k && !declares_dependency(
                        orig[updated[j] as int].manifest,
                    ),
                forall|j: int, l: int| 0 <= j < l < updated.len() ==> updated[j] < updated[l],
                forall|i: int|
                    0 <= i < k && !declares_dependency(#[trigger] orig[i].manifest)
                        ==> updated@.contains(i as usize),
            decreases rest.len(),
        {
            let c = rest.remove(0);
            assert(c == orig[k as int]);
            let declared = manifest_declares_library_dependency(&c.manifest);
            let manifest = if declared {
                c.manifest
            } else {
                add_library_dependency(c.manifest)
            };
            let ghost old_updated = updated@;
            if !declared {
                updated.push(k);
                assert(updated@[updated.len() - 1] == k);
            }
            self.consumers.push(Consumer { project: c.project, manifest });
            proof {
                assert forall|i: int|
                    0 <= i < k + 1 && !declares_dependency(#[trigger] orig[i].manifest)
                        implies updated@.contains(i as usize) by {
                    if i == k {
                        assert(updated@[updated.len() - 1] == i as usize);
                    } else {
                        let j = choose|j: int| 0 <= j < old_updated.len() && old_updated[j] == i as usize;
                        assert(updated@[j] == i as usize);
                    }
                }
            }
            k = k + 1;
        }
        assert(self.consumers.len() == orig.len());
        let mut aggregator: Option<serde_yaml::Value> = None;
        std::mem::swap(&mut self.aggregator, &mut aggregator);
        self.aggregator = match aggregator {
            Some(doc) => Some(add_aggregator_dependency(doc, library)),
            None => None,
        };
        let wanted = library.to_owned();
        let mut present = false;
        let mut j: usize = 0;
        while j < self.libraries.len()
            invariant
                j <= self.libraries.len(),
                wanted@ == library@,
                self.libraries == old(self).libraries,
                present <==> exists|i: int| 0 <= i < j && self.libraries@[i]@ == library@,
            decreases self.libraries.len() - j,
        {
            if self.libraries[j] == wanted {
                present = true;
            }
            j = j + 1;
        }
        proof {
            let names = self.library_names();
            if present {
                let i = choose|i: int| 0 <= i < self.libraries.len() && self.libraries@[i]@ == library@;
                assert(names[i] == library@);
            } else {
                assert forall|i: int| 0 <= i < names.len() implies names[i] != library@ by {
                    assert(names[i] == self.libraries@[i]@);
                }
            }
        }
        if !present {
            let ghost before = self.libraries@;
            self.libraries.push(wanted);
            assert(self.library_names() == before.map_values(|s: String| s@).push(library@));
        }
        updated
    }

    /// Wires a newly added consumer: where native libraries exist, its
    /// manifest gets the library dependency at once; otherwise nothing changes.
    pub fn on_consumer_added(&mut self, index: usize)
        requires
            index < old(self).consumers.len(),
        ensures
            Workspace::consumer_added(*old(self), *final(self), index as int),
    {
        let c = self.consumers.remove(index);
        let manifest = if self.libraries.len() > 0 {
            add_library_dependency(c.manifest)
        } else {
            c.manifest
        };
        self.consumers.insert(index, Consumer { project: c.project, manifest });
    }
}

/// Adding a library to a consumer twice leaves its manifest as once did.
proof fn lemma_wired_twice(a: serde_yaml::Value, b: serde_yaml::Value, c: serde_yaml::Value)
    requires
        library_wired(a, b),
        library_wired(b, c),
    ensures
        c == b,
        task_of(b, BUILD_TASK@) is Some ==> declares_dependency(b),
        task_of(b, BUILD_TASK@) is Some <==> task_of(a, BUILD_TASK@) is Some,
{
    if !declares_dependency(a) {
        lemma_wired_settles(a, b);
    }
}

/// After wiring, a manifest with a `build` task declares the dependency with
/// both lists free of repeated strings.
proof fn lemma_wired_settles(a: serde_yaml::Value, b: serde_yaml::Value)
    requires
        dependency_added(a, b),
    ensures
        task_of(b, BUILD_TASK@) is Some <==> task_of(a, BUILD_TASK@) is Some,
        task_of(b, BUILD_TASK@) is Some ==> declares_dependency(b) && lists_are_sets(b),
{
    if dependency_added(a, b) && task_of(a, BUILD_TASK@) is Some {
        lemma_merged_settled(
            task_list(a, BUILD_TASK@, DEPS_FIELD@),
            GATHER_TASK@,
            task_list(b, BUILD_TASK@, DEPS_FIELD@),
        );
        lemma_merged_settled(
            task_list(a, BUILD_TASK@, INPUTS_FIELD@),
            ARTIFACT_GLOB@,
            task_list(b, BUILD_TASK@, INPUTS_FIELD@),
        );
    }
}

/// Registering a library with the aggregator twice is registering it once,
/// and leaves its `gather` list free of repeated strings.
proof fn lemma_aggregated_twice(
    a: serde_yaml::Value,
    b: serde_yaml::Value,
    c: serde_yaml::Value,
    library: Seq<char>,
)
    requires
        aggregator_updated(a, b, library),
        aggregator_updated(b, c, library),
    ensures
        c == b,
{
    lemma_aggregated_set(a, b, library);
}

proof fn lemma_aggregated_set(a: serde_yaml::Value, b: serde_yaml::Value, library: Seq<char>)
    requires
        aggregator_updated(a, b, library),
    ensures
        task_of(b, AGGREGATE_TASK@) is Some ==> settled(
            task_list(b, AGGREGATE_TASK@, DEPS_FIELD@),
            library_build_ref(library),
        ),
        task_of(b, AGGREGATE_TASK@) is None ==> b == a,
{
    if task_of(a, AGGREGATE_TASK@) is Some {
        lemma_merged_settled(
            task_list(a, AGGREGATE_TASK@, DEPS_FIELD@),
            library_build_ref(library),
            task_list(b, AGGREGATE_TASK@, DEPS_FIELD@),
        );
    }
}

/// Adding the same library twice in a row leaves every consumer, the
/// aggregator's manifest and the set of libraries exactly as adding it once.
pub proof fn lemma_library_added_idempotent(
    w0: Workspace,
    w1: Workspace,
    w2: Workspace,
    library: Seq<char>,
)
    requires
        Workspace::library_added(w0, w1, library),
        Workspace::library_added(w1, w2, library),
    ensures
        w2.consumers@ == w1.consumers@,
        w2.aggregator == w1.aggregator,
        w2.library_names() == w1.library_names(),
{
    assert forall|i: int| 0 <= i < w1.consumers.len() implies w2.consumers[i] == w1.consumers[i] by {
        if declares_dependency(w0.consumers[i].manifest) {
            lemma_wired_twice(w0.consumers[i].manifest, w1.consumers[i].manifest, w2.consumers[i].manifest);
        } else {
            lemma_wired_settles(w0.consumers[i].manifest, w1.consumers[i].manifest);
            lemma_wired_twice(w0.consumers[i].manifest, w1.consumers[i].manifest, w2.consumers[i].manifest);
        }
    }
    assert(w2.consumers@ =~= w1.consumers@);
    if let (Some(a), Some(b), Some(c)) = (w0.aggregator, w1.aggregator, w2.aggregator) {
        lemma_aggregated_twice(a, b, c, library);
    }
    assert(w1.library_names().contains(library)) by {
        let n = w0.library_names();
        if !n.contains(library) {
            assert(n.push(library)[n.len() as int] == library);
        }
    }
}

/// The `deps` and `inputs` of a manifest's `build` task hold no string twice.
pub open spec fn lists_are_sets(doc: serde_yaml::Value) -> bool {
    task_of(doc, BUILD_TASK@) is Some ==> {
        &&& distinct_texts(task_list(doc, BUILD_TASK@, DEPS_FIELD@))
        &&& distinct_texts(task_list(doc, BUILD_TASK@, INPUTS_FIELD@))
    }
}

impl Workspace {
    /// No consumer's `deps` or `inputs`, and not the aggregator's `gather`
    /// list, holds a string twice.
    pub open spec fn lists_are_sets(&self) -> bool {
        &&& forall|i: int|
            0 <= i < self.consumers.len() ==> lists_are_sets(#[trigger] self.consumers[i].manifest)
        &&& match self.aggregator {
            Some(a) => task_of(a, AGGREGATE_TASK@) is Some ==> distinct_texts(
                task_list(a, AGGREGATE_TASK@, DEPS_FIELD@),
            ),
            None => true,
        }
    }
}

/// Adding a library leaves no repeated string in any consumer's `deps` or
/// `inputs`, nor in the aggregator's `gather` list. Manifests that already
/// declare the dependency are not touched, so they must hold no repeat before.
pub proof fn lemma_library_added_keeps_sets(w0: Workspace, w1: Workspace, library: Seq<char>)
    requires
        Workspace::library_added(w0, w1, library),
        forall|i: int|
            0 <= i < w0.consumers.len() && declares_dependency(#[trigger] w0.consumers[i].manifest)
                ==> lists_are_sets(w0.consumers[i].manifest),
    ensures
        w1.lists_are_sets(),
{
    assert forall|i: int| 0 <= i < w1.consumers.len() implies lists_are_sets(
        #[trigger] w1.consumers[i].manifest,
    ) by {
        if !declares_dependency(w0.consumers[i].manifest) {
            lemma_wired_settles(w0.consumers[i].manifest, w1.consumers[i].manifest);
        }
    }
    if let (Some(a), Some(b)) = (w0.aggregator, w1.aggregator) {
        lemma_aggregated_set(a, b, library);
    }
}

/// Adding a consumer keeps every list of the workspace free of repeats.
pub proof fn lemma_consumer_added_keeps_sets(w0: Workspace, w1: Workspace, index: int)
    requires
        0 <= index < w0.consumers.len(),
        Workspace::consumer_added(w0, w1, index),
        w0.lists_are_sets(),
    ensures
        w1.lists_are_sets(),
{
    assert forall|i: int| 0 <= i < w1.consumers.len() implies lists_are_sets(
        #[trigger] w1.consumers[i].manifest,
    ) by {
        if i == index && w0.libraries.len() > 0 {
            lemma_wired_settles(w0.consumers[i].manifest, w1.consumers[i].manifest);
        } else {
            assert(w1.consumers[i].manifest == w0.consumers[i].manifest);
        }
    }
}

/// After a library was added, the workspace has libraries and every consumer
/// whose manifest has a `build` task declares the dependency.
pub proof fn lemma_library_added_consistent(w0: Workspace, w1: Workspace, library: Seq<char>)
    requires
        Workspace::library_added(w0, w1, library),
    ensures
        w1.libraries.len() > 0,
        forall|i: int|
            0 <= i < w1.consumers.len() && task_of(#[trigger] w1.consumers[i].manifest, BUILD_TASK@) is Some
                ==> declares_dependency(w1.consumers[i].manifest),
{
    let n = w0.library_names();
    if !n.contains(library) {
        assert(w1.library_names().len() == n.len() + 1);
    } else {
        let j = choose|j: int| 0 <= j < n.len() && n[j] == library;
        assert(w1.library_names().len() == n.len());
    }
    assert forall|i: int|
        0 <= i < w1.consumers.len() && task_of(#[trigger] w1.consumers[i].manifest, BUILD_TASK@) is Some
            implies declares_dependency(w1.consumers[i].manifest) by {
        let a = w0.consumers[i].manifest;
        let b = w1.consumers[i].manifest;
        if !declares_dependency(a) {
            lemma_wired_settles(a, b);
        }
    }
}

/// Once every consumer has been wired, either by adding a library (with
/// libraries present) or as `on_consumer_added` does, the workspace has
/// native libraries exactly when every consumer manifest declares the
/// dependency. This needs at least one consumer, a `build` task in each
/// manifest, and, where no library exists, no manifest that declares the
/// dependency already: nothing ever removes it.
pub proof fn lemma_converged_consistent(w0: Workspace, w1: Workspace)
    requires
        w0.consumers.len() > 0,
        w1.consumers.len() == w0.consumers.len(),
        w1.libraries == w0.libraries,
        forall|i: int|
            0 <= i < w0.consumers.len() ==> consumer_wired(
                #[trigger] w0.consumers[i].manifest,
                w1.consumers[i].manifest,
                w0.libraries.len() > 0,
            ) || (w0.libraries.len() > 0 && library_wired(
                w0.consumers[i].manifest,
                w1.consumers[i].manifest,
            )),
        forall|i: int|
            0 <= i < w0.consumers.len() ==> task_of(#[trigger] w0.consumers[i].manifest, BUILD_TASK@) is Some,
        w0.libraries.len() == 0 ==> forall|i: int|
            0 <= i < w0.consumers.len() ==> !declares_dependency(#[trigger] w0.consumers[i].manifest),
    ensures
        w1.libraries.len() > 0 <==> forall|i: int|
            0 <= i < w1.consumers.len() ==> declares_dependency(#[trigger] w1.consumers[i].manifest),
{
    if w0.libraries.len() > 0 {
        assert forall|i: int| 0 <= i < w1.consumers.len() implies declares_dependency(
            #[trigger] w1.consumers[i].manifest,
        ) by {
            let a = w0.consumers[i].manifest;
            let b = w1.consumers[i].manifest;
            assert(task_of(a, BUILD_TASK@) is Some);
            if dependency_added(a, b) {
                lemma_wired_settles(a, b);
            } else {
                assert(library_wired(a, b) && declares_dependency(a) && b == a);
            }
        }
    } else {
        assert(w0.consumers[0].manifest == w1.consumers[0].manifest);
        assert(!declares_dependency(w1.consumers[0].manifest));
    }
}

} // verus!
