use cargo_upgrade::{
    get_all_new_deps, get_specified_new_deps, get_workspace_manifests, Package,
};

fn names(list: &[&str]) -> Vec<String> {
    list.iter().map(|name| name.to_string()).collect()
}

fn package(manifest_path: &str, dependencies: &[&str]) -> Package {
    Package { manifest_path: manifest_path.to_string(), dependencies: names(dependencies) }
}

#[test]
fn shared_dependency_is_looked_up_once() {
    let packages = vec![package("one/Cargo.toml", &["a", "b"]), package("two/Cargo.toml", &["a"])];
    let lookups = get_all_new_deps(&packages);
    assert_eq!(lookups, names(&["a", "b"]));
    assert_eq!(lookups.len(), 2);
}

#[test]
fn lookups_of_an_unchanged_workspace_are_the_same() {
    let packages = vec![package("one/Cargo.toml", &["a", "b"]), package("two/Cargo.toml", &["a"])];
    assert_eq!(get_all_new_deps(&packages), get_all_new_deps(&packages));
}

#[test]
fn lookups_follow_the_order_of_first_declaration() {
    let packages = vec![
        package("one/Cargo.toml", &["c", "a"]),
        package("two/Cargo.toml", &[]),
        package("three/Cargo.toml", &["b", "a", "c", "d"]),
    ];
    assert_eq!(get_all_new_deps(&packages), names(&["c", "a", "b", "d"]));
}

#[test]
fn dependency_declared_twice_by_one_package_is_looked_up_once() {
    let packages = vec![package("one/Cargo.toml", &["a", "a"])];
    assert_eq!(get_all_new_deps(&packages), names(&["a"]));
}

#[test]
fn workspace_without_packages_has_no_lookups() {
    assert_eq!(get_all_new_deps(&Vec::new()), names(&[]));
    assert_eq!(get_workspace_manifests(&Vec::new()), names(&[]));
}

#[test]
fn specified_dependencies_are_looked_up_in_the_given_order() {
    assert_eq!(get_specified_new_deps(&names(&["serde", "docopt"])), names(&["serde", "docopt"]));
}

#[test]
fn dependency_specified_twice_is_looked_up_once() {
    assert_eq!(
        get_specified_new_deps(&names(&["serde", "docopt", "serde"])),
        names(&["serde", "docopt"])
    );
}

#[test]
fn workspace_manifests_come_in_discovery_order() {
    let packages = vec![
        package("b/Cargo.toml", &["x"]),
        package("a/Cargo.toml", &[]),
        package("c/Cargo.toml", &["x"]),
    ];
    assert_eq!(
        get_workspace_manifests(&packages),
        names(&["b/Cargo.toml", "a/Cargo.toml", "c/Cargo.toml"])
    );
}
