//! The orchestrator's own list of projects, as its project query reports it.
use vstd::prelude::*;

verus! {

/// One project as the orchestrator knows it.
#[derive(Debug, Clone, PartialEq, Eq)]
pub struct MoonProject {
    pub id: String,
    pub source: String,
    pub language: String,
    pub layer: Option<String>,
    pub stack: Option<String>,
}

/// How a project is listed to the user: its id, and its stack where that is
/// frontend or backend.
pub open spec fn project_label(p: MoonProject) -> Seq<char> {
    p.id@ + match p.stack {
        Some(s) => if s@ == "frontend"@ {
            " (frontend)"@
        } else if s@ == "backend"@ {
            " (backend)"@
        } else {
            Seq::empty()
        },
        None => Seq::empty(),
    }
}

fn label_of(p: &MoonProject) -> (r: String)
    ensures
        r@ == project_label(*p),
{
    let mut out = p.id.clone();
    match &p.stack {
        Some(s) => {
            if *s == String::from_str("frontend") {
                out.append(" (frontend)");
            } else if *s == String::from_str("backend") {
                out.append(" (backend)");
            } else {
                assert(out@ + Seq::<char>::empty() == out@);
            }
        },
        None => {
            assert(out@ + Seq::<char>::empty() == out@);
        },
    }
    out
}

/// Whether a project of this id exists: `None` where it does, else the
/// labels of all projects there are, in the order reported.
pub fn validate_project_exists(projects: &Vec<MoonProject>, project_name: &str) -> (r: Option<
    Vec<String>,
>)
    ensures
        (exists|i: int| 0 <= i < projects.len() && (#[trigger] projects[i]).id@ == project_name@)
            <==> r is None,
        r matches Some(labels) ==> labels@.map_values(|l: String| l@) == projects@.map_values(
            |p: MoonProject| project_label(p),
        ),
{
    let wanted = project_name.to_owned();
    let mut i: usize = 0;
    while i < projects.len()
        invariant
            i <= projects.len(),
            wanted@ == project_name@,
            forall|j: int| 0 <= j < i ==> (#[trigger] projects[j]).id@ != project_name@,
        decreases projects.len() - i,
    {
        if projects[i].id == wanted {
            return None;
        }
        i = i + 1;
    }
    let mut labels: Vec<String> = Vec::new();
    let mut k: usize = 0;
    while k < projects.len()
        invariant
            k <= projects.len(),
            labels@.map_values(|l: String| l@) == projects@.subrange(0, k as int).map_values(
                |p: MoonProject| project_label(p),
            ),
        decreases projects.len() - k,
    {
        let ghost before = labels@.map_values(|l: String| l@);
        let label = label_of(&projects[k]);
        labels.push(label);
        assert(labels@.map_values(|l: String| l@) =~= before.push(project_label(projects@[k as int])));
        assert(projects@.subrange(0, k + 1) == projects@.subrange(0, k as int).push(projects@[k as int]));
        assert(projects@.subrange(0, k + 1).map_values(|p: MoonProject| project_label(p))
            =~= projects@.subrange(0, k as int).map_values(|p: MoonProject| project_label(p)).push(
            project_label(projects@[k as int]),
        ));
        k = k + 1;
    }
    assert(projects@.subrange(0, projects.len() as int) == projects@);
    Some(labels)
}

} // verus!
