//! Bookkeeping for a polyglot monorepo: keeps each project's build manifest in
//! step with the set of native libraries, and renames projects together with
//! the identity field of their deploy manifest.
//!
//! Layout:
//! - `registry`: the projects a workspace holds, by category directory.
//! - `yaml`, `entries`, `build_manifest`: build manifests and their
//!   `deps` / `inputs` sets.
//! - `wiring`: keeping every consumer wired to the native libraries.
//! - `formats`, `identity`, `rename`: deploy manifests and project renames.
//! - `layout`, `names`, `scaffold`, `title`, `text`: project types, workspace
//!   names and what adding a project involves.
//! - `moon_output`, `moon_projects`: reading the build orchestrator's output.
pub mod build_manifest;
pub mod entries;
pub mod formats;
pub mod identity;
pub mod layout;
pub mod moon_output;
pub mod moon_projects;
pub mod names;
pub mod registry;
pub mod rename;
pub mod scaffold;
pub mod text;
pub mod title;
pub mod wiring;
pub mod yaml;
