use cargo_upgrade::names::{contains_name, copy_names, distinct};

fn names(list: &[&str]) -> Vec<String> {
    list.iter().map(|name| name.to_string()).collect()
}

#[test]
fn contains_name_finds_a_name() {
    let list = names(&["serde", "toml"]);
    assert!(contains_name(&list, "toml"));
    assert!(contains_name(&list, "serde"));
}

#[test]
fn contains_name_misses_an_absent_name() {
    let list = names(&["serde", "toml"]);
    assert!(!contains_name(&list, "tom"));
    assert!(!contains_name(&list, ""));
    assert!(!contains_name(&[], "serde"));
}

#[test]
fn copy_names_keeps_every_name_in_place() {
    let list = names(&["b", "a", "b"]);
    assert_eq!(copy_names(&list), list);
    assert_eq!(copy_names(&[]), names(&[]));
}

#[test]
fn distinct_keeps_first_occurrences_in_order() {
    let list = names(&["b", "a", "b", "c", "a", "b"]);
    assert_eq!(distinct(&list), names(&["b", "a", "c"]));
}

#[test]
fn distinct_of_nothing_is_nothing() {
    assert_eq!(distinct(&[]), names(&[]));
}

#[test]
fn distinct_leaves_a_list_without_repetition_as_it_is() {
    let list = names(&["z", "y", "x"]);
    assert_eq!(distinct(&list), list);
}
