//! The dependency lists of a project descriptor.

use vstd::prelude::*;

verus! {

/// The dependency maps of a project descriptor: package name and version range.
#[derive(Clone, Debug)]
pub struct PackageJson {
    pub dependencies: Option<Vec<(String, String)>>,
    pub dev_dependencies: Option<Vec<(String, String)>>,
}

/// The package names of a dependency map, in its order.
pub open spec fn dependency_names(deps: Seq<(String, String)>) -> Seq<Seq<char>> {
    deps.map_values(|e: (String, String)| e.0@)
}

/// The package names of a dependency map; the version ranges play no part in the analysis.
pub fn package_names(deps: &Vec<(String, String)>) -> (r: Vec<String>)
    ensures
        r@.map_values(|s: String| s@) == dependency_names(deps@),
{
    let mut out: Vec<String> = Vec::new();
    let mut i: usize = 0;
    while i < deps.len()
        invariant
            i <= deps@.len(),
            out@.map_values(|s: String| s@) == dependency_names(deps@.subrange(0, i as int)),
        decreases deps@.len() - i,
    {
        let name = deps[i].0.clone();
        let ghost before = out@;
        out.push(name);
        proof {
            assert(out@.map_values(|s: String| s@) =~= before.map_values(|s: String| s@).push(deps@[i as int].0@));
            assert(dependency_names(deps@.subrange(0, i + 1)) =~= dependency_names(deps@.subrange(0, i as int)).push(deps@[i as int].0@));
        }
        i = i + 1;
    }
    assert(deps@.subrange(0, deps@.len() as int) =~= deps@);
    out
}

} // verus!
