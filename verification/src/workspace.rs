//! What a run over a whole workspace takes from workspace discovery: the
//! manifests to update and the names to look up.

use vstd::prelude::*;
use crate::names::{distinct, distinct_names};

verus! {

/// A package of the workspace, as workspace discovery describes it.
#[derive(Clone, Debug, PartialEq, Eq)]
pub struct Package {
    /// The path of the package's manifest file.
    pub manifest_path: String,
    /// The names of the package's direct dependencies, as declared.
    pub dependencies: Vec<String>,
}

/// The mathematical content of a `Package`.
pub struct PackageView {
    pub manifest_path: Seq<char>,
    pub dependencies: Seq<Seq<char>>,
}

impl DeepView for Package {
    type V = PackageView;

    open spec fn deep_view(&self) -> PackageView {
        PackageView {
            manifest_path: self.manifest_path@,
            dependencies: self.dependencies.deep_view(),
        }
    }
}

/// The manifest paths of the workspace's packages, in discovery order.
pub open spec fn workspace_manifests(packages: Seq<PackageView>) -> Seq<Seq<char>> {
    packages.map_values(|package: PackageView| package.manifest_path)
}

/// Every dependency declaration of the workspace, package after package.
pub open spec fn workspace_dependencies(packages: Seq<PackageView>) -> Seq<Seq<char>> {
    packages.flat_map(|package: PackageView| package.dependencies)
}

/// Get the paths of all the manifests in the workspace.
pub fn get_workspace_manifests(packages: &Vec<Package>) -> (manifests: Vec<String>)
    ensures
        manifests.deep_view() == workspace_manifests(packages.deep_view()),
{
    let mut manifests: Vec<String> = Vec::new();
    let mut i: usize = 0;
    while i < packages.len()
        invariant
            i <= packages.len(),
            manifests.len() == i,
            forall|k: int| 0 <= k < i ==> manifests[k]@ == packages[k].manifest_path@,
        decreases packages.len() - i,
    {
        manifests.push(packages[i].manifest_path.clone());
        i += 1;
    }
    assert(manifests.deep_view() =~= workspace_manifests(packages.deep_view()));
    manifests
}

/// Every dependency declaration of the workspace, package after package.
fn all_dependencies(packages: &Vec<Package>) -> (names: Vec<String>)
    ensures
        names.deep_view() == workspace_dependencies(packages.deep_view()),
{
    let ghost all = packages.deep_view();
    let ghost declared = |package: PackageView| package.dependencies;
    let mut names: Vec<String> = Vec::new();
    let mut i: usize = 0;
    assert(all.take(0) =~= Seq::empty());
    assert(names.deep_view() =~= Seq::empty());
    while i < packages.len()
        invariant
            i <= packages.len(),
            all == packages.deep_view(),
            declared == |package: PackageView| package.dependencies,
            names.deep_view() == all.take(i as int).flat_map(declared),
        decreases packages.len() - i,
    {
        let dependencies = &packages[i].dependencies;
        let ghost done = names.deep_view();
        let mut j: usize = 0;
        while j < dependencies.len()
            invariant
                j <= dependencies.len(),
                names.deep_view() == done + dependencies.deep_view().take(j as int),
            decreases dependencies.len() - j,
        {
            let ghost before = names.deep_view();
            names.push(dependencies[j].clone());
            assert(names.deep_view() =~= before.push(dependencies[j as int]@));
            j += 1;
        }
        proof {
            assert(dependencies.deep_view().take(j as int) =~= dependencies.deep_view());
            all.lemma_flat_map_take_append(declared, i as int);
        }
        i += 1;
    }
    assert(all.take(i as int) =~= all);
    names
}

/// The names whose latest versions a run gets when dependencies were
/// specified: each specified name once, in the order in which they were
/// given.
pub fn get_specified_new_deps(dependencies: &[String]) -> (names: Vec<String>)
    ensures
        names.deep_view() == distinct_names(dependencies.deep_view()),
{
    distinct(dependencies)
}

/// The names whose latest versions a run over the whole workspace gets: each
/// name that some package declares once, however many packages declare it,
/// in the order of first declaration.
pub fn get_all_new_deps(packages: &Vec<Package>) -> (names: Vec<String>)
    ensures
        names.deep_view() == distinct_names(workspace_dependencies(packages.deep_view())),
{
    let declared = all_dependencies(packages);
    distinct(declared.as_slice())
}

} // verus!
