use cargo_upgrade::{
    update_workspace_manifests, Entry, ManifestAction, ManifestEvent, Package, Section,
    UpgradeError, WorkspaceAction, WorkspaceError, WorkspaceEvent, WorkspaceRun,
};

fn names(list: &[&str]) -> Vec<String> {
    list.iter().map(|name| name.to_string()).collect()
}

fn package(manifest_path: &str, dependencies: &[&str]) -> Package {
    Package { manifest_path: manifest_path.to_string(), dependencies: names(dependencies) }
}

fn discover() -> WorkspaceAction {
    WorkspaceAction::Discover { manifest_path: None }
}

fn lookup(name: &str) -> WorkspaceAction {
    WorkspaceAction::Lookup { name: name.to_string(), allow_prerelease: false }
}

fn update(path: &str) -> WorkspaceAction {
    WorkspaceAction::UpdateManifest { path: path.to_string() }
}

fn discovered(packages: Vec<Package>) -> WorkspaceEvent<String> {
    WorkspaceEvent::Discovered(packages)
}

fn resolved(version: &str) -> WorkspaceEvent<String> {
    WorkspaceEvent::Resolved(version.to_string())
}

fn unwritten(path: &str) -> UpgradeError {
    UpgradeError::Write(Some(path.to_string()))
}

fn two_packages() -> Vec<Package> {
    vec![package("one/Cargo.toml", &["a", "b"]), package("two/Cargo.toml", &["a"])]
}

fn three_packages() -> Vec<Package> {
    vec![
        package("one/Cargo.toml", &["a"]),
        package("two/Cargo.toml", &["a"]),
        package("three/Cargo.toml", &["a"]),
    ]
}

/// Feeds the events to a new run and lists the actions that it asks for, the
/// first one included.
fn actions(only_update: &[&str], events: Vec<WorkspaceEvent<String>>) -> Vec<WorkspaceAction> {
    let mut run: WorkspaceRun<String> =
        update_workspace_manifests(&None, &names(only_update), false);
    let mut asked = vec![run.action()];
    for event in events {
        run = run.advance(event);
        asked.push(run.action());
    }
    asked
}

#[test]
fn run_begins_with_discovery() {
    let run: WorkspaceRun<String> = update_workspace_manifests(&None, &[], false);
    assert_eq!(run.action(), discover());
    let path = Some("work/Cargo.toml".to_string());
    let run: WorkspaceRun<String> = update_workspace_manifests(&path, &names(&["a"]), true);
    assert_eq!(run.action(), WorkspaceAction::Discover { manifest_path: path });
    assert_eq!(run.only_update().to_vec(), names(&["a"]));
    assert!(!run.new_deps().contains("a"));
}

#[test]
fn whole_workspace_run_looks_each_name_up_once() {
    let asked = actions(
        &[],
        vec![
            discovered(two_packages()),
            resolved("1.0.0"),
            resolved("2.0.0"),
            WorkspaceEvent::Updated,
            WorkspaceEvent::Updated,
        ],
    );
    assert_eq!(
        asked,
        vec![
            discover(),
            lookup("a"),
            lookup("b"),
            update("one/Cargo.toml"),
            update("two/Cargo.toml"),
            WorkspaceAction::Finish,
        ]
    );
    let lookups =
        asked.iter().filter(|action| matches!(action, WorkspaceAction::Lookup { .. })).count();
    assert_eq!(lookups, 2);
}

#[test]
fn run_with_selector_looks_up_the_selected_names() {
    let asked = actions(
        &["serde", "docopt", "serde"],
        vec![
            discovered(two_packages()),
            resolved("1.0.0"),
            resolved("2.0.0"),
            WorkspaceEvent::Updated,
            WorkspaceEvent::Updated,
        ],
    );
    assert_eq!(
        asked,
        vec![
            discover(),
            lookup("serde"),
            lookup("docopt"),
            update("one/Cargo.toml"),
            update("two/Cargo.toml"),
            WorkspaceAction::Finish,
        ]
    );
}

#[test]
fn cache_holds_what_the_registry_gave() {
    let mut run: WorkspaceRun<String> = update_workspace_manifests(&None, &[], false);
    for event in vec![discovered(two_packages()), resolved("1.0.0"), resolved("2.0.0")] {
        run = run.advance(event);
    }
    assert_eq!(run.action(), update("one/Cargo.toml"));
    assert_eq!(run.new_deps().get("a"), Some(&"1.0.0".to_string()));
    assert_eq!(run.new_deps().get("b"), Some(&"2.0.0".to_string()));
    assert_eq!(run.new_deps().get("c"), None);
}

#[test]
fn lookup_asks_for_prereleases_where_the_run_allows_them() {
    let mut run: WorkspaceRun<String> = update_workspace_manifests(&None, &[], true);
    run = run.advance(discovered(two_packages()));
    assert_eq!(
        run.action(),
        WorkspaceAction::Lookup { name: "a".to_string(), allow_prerelease: true }
    );
}

#[test]
fn second_manifest_fails_and_the_third_is_not_attempted() {
    let asked = actions(
        &[],
        vec![
            discovered(three_packages()),
            resolved("1.0.0"),
            WorkspaceEvent::Updated,
            WorkspaceEvent::Aborted(unwritten("two/Cargo.toml")),
            WorkspaceEvent::Updated,
            WorkspaceEvent::Aborted(unwritten("three/Cargo.toml")),
            resolved("3.0.0"),
        ],
    );
    let failure = WorkspaceAction::Abort(WorkspaceError::Manifest {
        path: "two/Cargo.toml".to_string(),
        cause: unwritten("two/Cargo.toml"),
    });
    assert_eq!(
        asked,
        vec![
            discover(),
            lookup("a"),
            update("one/Cargo.toml"),
            update("two/Cargo.toml"),
            failure.clone(),
            failure.clone(),
            failure.clone(),
            failure,
        ]
    );
    assert!(!asked.contains(&update("three/Cargo.toml")));
}

#[test]
fn failed_lookup_ends_the_run_before_any_manifest() {
    let asked = actions(
        &[],
        vec![
            discovered(two_packages()),
            resolved("1.0.0"),
            WorkspaceEvent::Failed,
            WorkspaceEvent::Updated,
        ],
    );
    let failure = WorkspaceAction::Abort(WorkspaceError::Lookup("b".to_string()));
    assert_eq!(asked, vec![discover(), lookup("a"), lookup("b"), failure.clone(), failure]);
}

#[test]
fn failed_discovery_ends_the_run() {
    let asked = actions(&["a"], vec![WorkspaceEvent::Failed, discovered(two_packages())]);
    let failure = WorkspaceAction::Abort(WorkspaceError::Discovery);
    assert_eq!(asked, vec![discover(), failure.clone(), failure]);
}

#[test]
fn workspace_without_packages_is_finished_at_once() {
    let asked = actions(&[], vec![discovered(Vec::new()), WorkspaceEvent::Updated]);
    assert_eq!(asked, vec![discover(), WorkspaceAction::Finish, WorkspaceAction::Finish]);
}

#[test]
fn workspace_without_dependencies_goes_straight_to_its_manifests() {
    let asked = actions(
        &[],
        vec![discovered(vec![package("one/Cargo.toml", &[])]), WorkspaceEvent::Updated],
    );
    assert_eq!(asked, vec![discover(), update("one/Cargo.toml"), WorkspaceAction::Finish]);
}

#[test]
fn selector_is_looked_up_even_where_no_package_declares_it() {
    let asked = actions(&["zzz"], vec![discovered(Vec::new()), resolved("1.0.0")]);
    assert_eq!(asked, vec![discover(), lookup("zzz"), WorkspaceAction::Finish]);
}

#[test]
fn event_that_answers_nothing_changes_nothing() {
    let asked = actions(
        &[],
        vec![
            WorkspaceEvent::Updated,
            resolved("0.0.0"),
            WorkspaceEvent::Aborted(unwritten("one/Cargo.toml")),
            discovered(two_packages()),
            WorkspaceEvent::Updated,
            discovered(three_packages()),
            WorkspaceEvent::Aborted(unwritten("one/Cargo.toml")),
            resolved("1.0.0"),
            resolved("2.0.0"),
            WorkspaceEvent::Failed,
            resolved("3.0.0"),
        ],
    );
    assert_eq!(
        asked,
        vec![
            discover(),
            discover(),
            discover(),
            discover(),
            lookup("a"),
            lookup("a"),
            lookup("a"),
            lookup("a"),
            lookup("b"),
            update("one/Cargo.toml"),
            update("one/Cargo.toml"),
            update("one/Cargo.toml"),
        ]
    );
}

#[test]
fn finished_run_stays_finished() {
    let asked = actions(
        &[],
        vec![
            discovered(vec![package("one/Cargo.toml", &[])]),
            WorkspaceEvent::Updated,
            WorkspaceEvent::Failed,
            WorkspaceEvent::Aborted(unwritten("one/Cargo.toml")),
        ],
    );
    let finish = WorkspaceAction::Finish;
    assert_eq!(asked[2..], [finish.clone(), finish.clone(), finish]);
}

#[test]
fn run_over_the_workspace_begins_the_run_over_its_next_manifest() {
    let mut run: WorkspaceRun<String> = update_workspace_manifests(&None, &names(&["a"]), false);
    assert!(run.manifest_run().is_none());
    run = run.advance(discovered(two_packages()));
    assert!(run.manifest_run().is_none());
    run = run.advance(resolved("1.0.0"));
    assert_eq!(run.action(), update("one/Cargo.toml"));

    let mut inner = run.manifest_run().unwrap();
    assert_eq!(
        inner.action(),
        ManifestAction::Load { manifest_path: Some("one/Cargo.toml".to_string()) }
    );
    let sections = vec![Section {
        table_path: names(&["dependencies"]),
        entries: vec![
            Entry { name: "b".to_string(), keys: None },
            Entry { name: "a".to_string(), keys: None },
        ],
    }];
    inner = inner.advance(ManifestEvent::Loaded(sections));
    match inner.action() {
        ManifestAction::Apply(update) => {
            assert_eq!(update.table_path, names(&["dependencies"]));
            assert_eq!(update.name, "a");
            assert_eq!(update.specifier, "1.0.0");
        }
        other => panic!("the run asks for {:?}", other),
    }
    inner = inner.advance(ManifestEvent::Applied);
    assert_eq!(
        inner.action(),
        ManifestAction::Persist { manifest_path: Some("one/Cargo.toml".to_string()) }
    );
    inner = inner.advance(ManifestEvent::Persisted);
    assert_eq!(inner.action(), ManifestAction::Finish);

    run = run.advance(WorkspaceEvent::Updated);
    assert_eq!(run.action(), update("two/Cargo.toml"));
    run = run.advance(WorkspaceEvent::Aborted(UpgradeError::MissingFromCache("c".to_string())));
    assert!(run.manifest_run().is_none());
    assert_eq!(
        run.action(),
        WorkspaceAction::Abort(WorkspaceError::Manifest {
            path: "two/Cargo.toml".to_string(),
            cause: UpgradeError::MissingFromCache("c".to_string()),
        })
    );
}
