//! The projects of a workspace, as its category directories list them.
//!
//! The caller reads the directories; the registry decides which entries are
//! projects, which are consumers, whether any native library exists, and where
//! a name is found.
use vstd::prelude::*;

verus! {

/// The kind of a project; each kind lives in a directory of its own.
#[derive(Debug, Clone, Copy, PartialEq, Eq, Structural)]
pub enum Category {
    StaticSite,
    WebApp,
    EdgeWorker,
    NativeLibrary,
}

/// The directory of each category, relative to the workspace root.
pub open spec fn category_dir(c: Category) -> Seq<char> {
    match c {
        Category::StaticSite => "sites"@,
        Category::WebApp => "apps"@,
        Category::EdgeWorker => "workers"@,
        Category::NativeLibrary => "crates"@,
    }
}

/// Consumer projects are the web-facing ones; they have a deploy manifest.
pub open spec fn is_consumer(c: Category) -> bool {
    c != Category::NativeLibrary
}

impl Category {
    /// The directory that holds the projects of this category.
    pub fn directory(&self) -> (r: &'static str)
        ensures
            r@ == category_dir(*self),
    {
        match self {
            Category::StaticSite => "sites",
            Category::WebApp => "apps",
            Category::EdgeWorker => "workers",
            Category::NativeLibrary => "crates",
        }
    }

    /// Whether projects of this category consume the libraries' artifacts.
    pub fn is_consumer(&self) -> (r: bool)
        ensures
            r == is_consumer(*self),
    {
        !matches!(self, Category::NativeLibrary)
    }
}

/// A project: its name is unique within its category only.
#[derive(Debug, Clone, PartialEq, Eq)]
pub struct Project {
    pub name: String,
    pub category: Category,
}

/// One entry of a category directory.
#[derive(Debug, Clone, PartialEq, Eq)]
pub struct DirEntry {
    pub name: String,
    pub is_dir: bool,
    /// The entry is a directory that holds a build manifest.
    pub has_build_manifest: bool,
    /// The entry holds a deploy manifest in one of its three formats.
    pub has_deploy_manifest: bool,
}

/// The entries of the four category directories; `None` where a directory is
/// missing. Entries come in the order the file system gave them.
#[derive(Debug, Clone, PartialEq, Eq)]
pub struct Listing {
    pub sites: Option<Vec<DirEntry>>,
    pub apps: Option<Vec<DirEntry>>,
    pub workers: Option<Vec<DirEntry>>,
    pub crates: Option<Vec<DirEntry>>,
}

/// The categories in the order in which they are searched.
pub open spec fn search_order() -> Seq<Category> {
    seq![Category::StaticSite, Category::WebApp, Category::EdgeWorker, Category::NativeLibrary]
}

impl Listing {
    /// The entries of a category's directory; none where it is missing.
    pub open spec fn entries(&self, c: Category) -> Seq<DirEntry> {
        let d = match c {
            Category::StaticSite => self.sites,
            Category::WebApp => self.apps,
            Category::EdgeWorker => self.workers,
            Category::NativeLibrary => self.crates,
        };
        match d {
            Some(v) => v@,
            None => Seq::empty(),
        }
    }

    /// Some entry of the category's directory has this name.
    pub open spec fn holds(&self, c: Category, name: Seq<char>) -> bool {
        exists|i: int| 0 <= i < self.entries(c).len() && (#[trigger] self.entries(c)[i]).name@ == name
    }

    /// The first category, in search order, whose directory holds the name.
    pub open spec fn first_holding(&self, name: Seq<char>) -> Option<Category> {
        if self.holds(Category::StaticSite, name) {
            Some(Category::StaticSite)
        } else if self.holds(Category::WebApp, name) {
            Some(Category::WebApp)
        } else if self.holds(Category::EdgeWorker, name) {
            Some(Category::EdgeWorker)
        } else if self.holds(Category::NativeLibrary, name) {
            Some(Category::NativeLibrary)
        } else {
            None
        }
    }

    /// The libraries directory holds at least one subdirectory.
    pub open spec fn has_libraries(&self) -> bool {
        exists|i: int|
            0 <= i < self.entries(Category::NativeLibrary).len() && (#[trigger] self.entries(
                Category::NativeLibrary,
            )[i]).is_dir
    }

    fn entries_of(&self, c: Category) -> (r: Option<&Vec<DirEntry>>)
        ensures
            match r {
                Some(v) => v@ == self.entries(c),
                None => self.entries(c).len() == 0,
            },
    {
        let d = match c {
            Category::StaticSite => &self.sites,
            Category::WebApp => &self.apps,
            Category::EdgeWorker => &self.workers,
            Category::NativeLibrary => &self.crates,
        };
        match d {
            Some(v) => Some(v),
            None => None,
        }
    }

    /// Whether a category's directory holds an entry of this name.
    pub fn holds_name(&self, c: Category, name: &str) -> (r: bool)
        ensures
            r == self.holds(c, name@),
    {
        let v = match self.entries_of(c) {
            Some(v) => v,
            None => return false,
        };
        let wanted = name.to_owned();
        let mut k: usize = 0;
        while k < v.len()
            invariant
                k <= v.len(),
                v@ == self.entries(c),
                wanted@ == name@,
                forall|i: int| 0 <= i < k ==> (#[trigger] v@[i]).name@ != name@,
            decreases v.len() - k,
        {
            if v[k].name == wanted {
                assert(self.entries(c)[k as int].name@ == name@);
                return true;
            }
            k = k + 1;
        }
        false
    }

    /// Whether any native library exists: the libraries directory is there
    /// and holds at least one subdirectory.
    pub fn has_native_libraries(&self) -> (r: bool)
        ensures
            r == self.has_libraries(),
    {
        let v = match self.entries_of(Category::NativeLibrary) {
            Some(v) => v,
            None => return false,
        };
        let mut k: usize = 0;
        while k < v.len()
            invariant
                k <= v.len(),
                v@ == self.entries(Category::NativeLibrary),
                forall|i: int| 0 <= i < k ==> !(#[trigger] v@[i]).is_dir,
            decreases v.len() - k,
        {
            if v[k].is_dir {
                return true;
            }
            k = k + 1;
        }
        false
    }

    /// The category of the project called `name`: the first, in the order
    /// sites, apps, workers, crates, whose directory holds it. Where two
    /// categories hold the name, only the first is reachable by name.
    pub fn find_project(&self, name: &str) -> (r: Result<Category, RegistryError>)
        ensures
            match r {
                Ok(c) => self.first_holding(name@) == Some(c),
                Err(RegistryError::ProjectNotFound(n)) => self.first_holding(name@) is None && n@
                    == name@,
            },
    {
        if self.holds_name(Category::StaticSite, name) {
            Ok(Category::StaticSite)
        } else if self.holds_name(Category::WebApp, name) {
            Ok(Category::WebApp)
        } else if self.holds_name(Category::EdgeWorker, name) {
            Ok(Category::EdgeWorker)
        } else if self.holds_name(Category::NativeLibrary, name) {
            Ok(Category::NativeLibrary)
        } else {
            Err(RegistryError::ProjectNotFound(name.to_owned()))
        }
    }

    /// Whether some category holds a project called `name`.
    pub fn project_exists(&self, name: &str) -> (r: bool)
        ensures
            r == (self.first_holding(name@) is Some),
    {
        self.find_project(name).is_ok()
    }
}

/// The projects among the entries of one category's directory: the
/// subdirectories that hold a build manifest, in the order listed.
pub open spec fn projects_among(es: Seq<DirEntry>, c: Category) -> Seq<(Category, Seq<char>)>
    decreases es.len(),
{
    if es.len() == 0 {
        Seq::empty()
    } else {
        let p = projects_among(es.drop_last(), c);
        let e = es.last();
        if e.is_dir && e.has_build_manifest {
            p.push((c, e.name@))
        } else {
            p
        }
    }
}

/// The names of the subdirectories among some entries, in the order listed.
pub open spec fn dir_names(es: Seq<DirEntry>) -> Seq<Seq<char>>
    decreases es.len(),
{
    if es.len() == 0 {
        Seq::empty()
    } else {
        let p = dir_names(es.drop_last());
        if es.last().is_dir {
            p.push(es.last().name@)
        } else {
            p
        }
    }
}

impl Listing {
    /// The consumer projects, category by category in the order sites, apps,
    /// workers.
    pub open spec fn consumers(&self) -> Seq<(Category, Seq<char>)> {
        projects_among(self.entries(Category::StaticSite), Category::StaticSite) + projects_among(
            self.entries(Category::WebApp),
            Category::WebApp,
        ) + projects_among(self.entries(Category::EdgeWorker), Category::EdgeWorker)
    }

    fn push_projects(&self, c: Category, out: &mut Vec<Project>)
        ensures
            final(out)@.map_values(|p: Project| (p.category, p.name@)) == old(out)@.map_values(
                |p: Project| (p.category, p.name@),
            ) + projects_among(self.entries(c), c),
    {
        let v = match self.entries_of(c) {
            Some(v) => v,
            None => {
                assert(projects_among(self.entries(c), c) == Seq::<(Category, Seq<char>)>::empty());
                assert(out@.map_values(|p: Project| (p.category, p.name@)) + Seq::empty()
                    == out@.map_values(|p: Project| (p.category, p.name@)));
                return;
            },
        };
        let ghost start = out@.map_values(|p: Project| (p.category, p.name@));
        let mut k: usize = 0;
        while k < v.len()
            invariant
                k <= v.len(),
                v@ == self.entries(c),
                out@.map_values(|p: Project| (p.category, p.name@)) == start + projects_among(
                    v@.subrange(0, k as int),
                    c,
                ),
            decreases v.len() - k,
        {
            assert(v@.subrange(0, k + 1).drop_last() == v@.subrange(0, k as int));
            let e = &v[k];
            if e.is_dir && e.has_build_manifest {
                let ghost before = out@;
                out.push(Project { name: e.name.clone(), category: c });
                assert(out@.map_values(|p: Project| (p.category, p.name@)) == before.map_values(
                    |p: Project| (p.category, p.name@),
                ).push((c, e.name@)));
            }
            k = k + 1;
        }
        assert(v@.subrange(0, v@.len() as int) == v@);
    }

    /// The consumer projects: in each web-facing category's directory, the
    /// subdirectories that hold a build manifest. Categories come in the fixed
    /// order sites, apps, workers; within one, the order listed.
    pub fn list_consumer_projects(&self) -> (r: Vec<Project>)
        ensures
            r@.map_values(|p: Project| (p.category, p.name@)) == self.consumers(),
    {
        let mut out: Vec<Project> = Vec::new();
        assert(out@.map_values(|p: Project| (p.category, p.name@)) == Seq::<(Category, Seq<char>)>::empty());
        self.push_projects(Category::StaticSite, &mut out);
        self.push_projects(Category::WebApp, &mut out);
        self.push_projects(Category::EdgeWorker, &mut out);
        out
    }

    /// The names of the native libraries: the subdirectories of the libraries
    /// directory, in the order listed.
    pub fn library_names(&self) -> (r: Vec<String>)
        ensures
            r@.map_values(|s: String| s@) == dir_names(self.entries(Category::NativeLibrary)),
            r.len() > 0 <==> self.has_libraries(),
    {
        let mut out: Vec<String> = Vec::new();
        let v = match self.entries_of(Category::NativeLibrary) {
            Some(v) => v,
            None => {
                assert(out@.map_values(|s: String| s@) == Seq::<Seq<char>>::empty());
                return out;
            },
        };
        let mut k: usize = 0;
        while k < v.len()
            invariant
                k <= v.len(),
                v@ == self.entries(Category::NativeLibrary),
                out@.map_values(|s: String| s@) == dir_names(v@.subrange(0, k as int)),
                out.len() > 0 <==> exists|i: int| 0 <= i < k && (#[trigger] v@[i]).is_dir,
            decreases v.len() - k,
        {
            assert(v@.subrange(0, k + 1).drop_last() == v@.subrange(0, k as int));
            if v[k].is_dir {
                let ghost before = out@;
                out.push(v[k].name.clone());
                assert(out@.map_values(|s: String| s@) == before.map_values(|s: String| s@).push(
                    v@[k as int].name@,
                ));
            }
            k = k + 1;
        }
        assert(v@.subrange(0, v@.len() as int) == v@);
        out
    }
}

/// The names of the entries with a deploy manifest, in the order listed.
pub open spec fn deployable_names(es: Seq<DirEntry>) -> Seq<Seq<char>>
    decreases es.len(),
{
    if es.len() == 0 {
        Seq::empty()
    } else {
        let p = deployable_names(es.drop_last());
        if es.last().has_deploy_manifest {
            p.push(es.last().name@)
        } else {
            p
        }
    }
}

impl Listing {
    /// What deploying everything deploys: the entries with a deploy
    /// manifest, category by category in the order workers, sites, apps.
    pub open spec fn deploy_targets_spec(&self) -> Seq<Seq<char>> {
        deployable_names(self.entries(Category::EdgeWorker)) + deployable_names(
            self.entries(Category::StaticSite),
        ) + deployable_names(self.entries(Category::WebApp))
    }

    fn push_deployable(&self, c: Category, out: &mut Vec<String>)
        ensures
            final(out)@.map_values(|s: String| s@) == old(out)@.map_values(|s: String| s@)
                + deployable_names(self.entries(c)),
    {
        let v = match self.entries_of(c) {
            Some(v) => v,
            None => {
                assert(out@.map_values(|s: String| s@) + Seq::empty() == out@.map_values(
                    |s: String| s@,
                ));
                return;
            },
        };
        let ghost start = out@.map_values(|s: String| s@);
        let mut k: usize = 0;
        while k < v.len()
            invariant
                k <= v.len(),
                v@ == self.entries(c),
                out@.map_values(|s: String| s@) == start + deployable_names(v@.subrange(0, k as int)),
            decreases v.len() - k,
        {
            assert(v@.subrange(0, k + 1).drop_last() == v@.subrange(0, k as int));
            if v[k].has_deploy_manifest {
                let ghost before = out@;
                out.push(v[k].name.clone());
                assert(out@.map_values(|s: String| s@) == before.map_values(|s: String| s@).push(
                    v@[k as int].name@,
                ));
            }
            k = k + 1;
        }
        assert(v@.subrange(0, v@.len() as int) == v@);
    }

    /// The projects that deploying everything deploys: those with a deploy
    /// manifest, workers first, then sites, then apps.
    pub fn deploy_targets(&self) -> (r: Vec<String>)
        ensures
            r@.map_values(|s: String| s@) == self.deploy_targets_spec(),
    {
        let mut out: Vec<String> = Vec::new();
        assert(out@.map_values(|s: String| s@) == Seq::<Seq<char>>::empty());
        self.push_deployable(Category::EdgeWorker, &mut out);
        self.push_deployable(Category::StaticSite, &mut out);
        self.push_deployable(Category::WebApp, &mut out);
        out
    }

    /// The project deployed by name: the first of workers, sites and apps
    /// that holds an entry of that name.
    pub fn find_deployable(&self, name: &str) -> (r: Result<Category, RegistryError>)
        ensures
            match r {
                Ok(c) => c == (if self.holds(Category::EdgeWorker, name@) {
                    Category::EdgeWorker
                } else if self.holds(Category::StaticSite, name@) {
                    Category::StaticSite
                } else {
                    Category::WebApp
                }) && self.holds(c, name@),
                Err(RegistryError::ProjectNotFound(n)) => n@ == name@ && !self.holds(
                    Category::EdgeWorker,
                    name@,
                ) && !self.holds(Category::StaticSite, name@) && !self.holds(Category::WebApp, name@),
            },
    {
        if self.holds_name(Category::EdgeWorker, name) {
            Ok(Category::EdgeWorker)
        } else if self.holds_name(Category::StaticSite, name) {
            Ok(Category::StaticSite)
        } else if self.holds_name(Category::WebApp, name) {
            Ok(Category::WebApp)
        } else {
            Err(RegistryError::ProjectNotFound(name.to_owned()))
        }
    }
}

/// A lookup that found nothing.
#[derive(Debug, Clone, PartialEq, Eq)]
pub enum RegistryError {
    ProjectNotFound(String),
}

} // verus!
