use cargo_upgrade::{is_registry_eligible, is_version_dependency};

fn parse(text: &str) -> toml::Value {
    text.parse::<toml::Value>().unwrap()
}

fn names(list: &[&str]) -> Vec<String> {
    list.iter().map(|name| name.to_string()).collect()
}

#[test]
fn bare_version_is_eligible() {
    let manifest = parse("foo = \"1.0\"");
    assert!(is_version_dependency(&manifest["foo"]));
}

#[test]
fn scalar_that_is_no_string_is_eligible() {
    let manifest = parse("number = 3\nlist = [\"git\", \"path\"]\nflag = true");
    assert!(is_version_dependency(&manifest["number"]));
    assert!(is_version_dependency(&manifest["list"]));
    assert!(is_version_dependency(&manifest["flag"]));
}

#[test]
fn scalar_that_spells_a_source_key_is_eligible() {
    let manifest = parse("foo = \"git\"\nbar = \"path\"");
    assert!(is_version_dependency(&manifest["foo"]));
    assert!(is_version_dependency(&manifest["bar"]));
}

#[test]
fn path_table_is_not_eligible() {
    let manifest = parse("bar = { path = \"../bar\" }");
    assert!(!is_version_dependency(&manifest["bar"]));
}

#[test]
fn git_table_is_not_eligible() {
    let manifest = parse("bar = { git = \"https://example.com/bar.git\" }");
    assert!(!is_version_dependency(&manifest["bar"]));
}

#[test]
fn table_with_git_and_path_is_not_eligible() {
    let manifest = parse("bar = { git = \"https://example.com/bar.git\", path = \"../bar\" }");
    assert!(!is_version_dependency(&manifest["bar"]));
}

#[test]
fn version_beside_a_source_key_is_not_eligible() {
    let manifest = parse("bar = { version = \"1.0\", path = \"../bar\" }");
    assert!(!is_version_dependency(&manifest["bar"]));
}

#[test]
fn version_beside_an_unrelated_key_is_eligible() {
    let manifest = parse("foo = { version = \"1.0\", features = [\"derive\"], optional = true }");
    assert!(is_version_dependency(&manifest["foo"]));
}

#[test]
fn empty_table_is_eligible() {
    let manifest = parse("foo = {}");
    assert!(is_version_dependency(&manifest["foo"]));
}

#[test]
fn source_key_is_matched_as_a_whole() {
    let manifest = parse("foo = { gitlab = \"x\", paths = \"y\", Git = \"z\" }");
    assert!(is_version_dependency(&manifest["foo"]));
}

#[test]
fn table_in_standard_form_is_read_like_an_inline_table() {
    let manifest = parse("[foo]\nversion = \"1.0\"\n[bar]\ngit = \"https://example.com/bar.git\"");
    assert!(is_version_dependency(&manifest["foo"]));
    assert!(!is_version_dependency(&manifest["bar"]));
}

#[test]
fn keys_are_read_from_the_table_and_not_from_its_values() {
    let manifest =
        parse("foo = { version = \"path\", registry = \"git\" }\nbar = { path = \"version\" }");
    assert!(is_version_dependency(&manifest["foo"]));
    assert!(!is_version_dependency(&manifest["bar"]));
}

#[test]
fn scalar_in_the_model_is_eligible() {
    assert!(is_registry_eligible(&None));
}

#[test]
fn record_in_the_model_is_eligible_without_source_keys() {
    assert!(is_registry_eligible(&Some(names(&[]))));
    assert!(is_registry_eligible(&Some(names(&["version", "features"]))));
}

#[test]
fn record_in_the_model_is_not_eligible_with_a_source_key() {
    assert!(!is_registry_eligible(&Some(names(&["version", "git"]))));
    assert!(!is_registry_eligible(&Some(names(&["path"]))));
    assert!(!is_registry_eligible(&Some(names(&["path", "git"]))));
}
