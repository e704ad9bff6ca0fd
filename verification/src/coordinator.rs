//! The workspace coordinator: a run over a whole workspace, as a machine that
//! says what is to be done next and is told how it went.
//!
//! The caller performs each action outside and hands the outcome back as an
//! event. A run discovers the workspace, looks up each name once, has the
//! manifests updated from that cache, one after the other, and ends at the
//! first failure. What was written before a failure stays written.

use vstd::prelude::*;
use crate::cache::VersionCache;
use crate::error::{
    copy_path, copy_workspace_error, UpgradeError, UpgradeErrorView, WorkspaceError,
    WorkspaceErrorView,
};
use crate::names::{copy_names, distinct_names, lemma_distinct_names};
use crate::manifest::SectionView;
use crate::traversal::{lemma_selector_restricts_targets, manifest_targets, passes_selector};
use crate::updater::{
    lemma_cached_names_are_found, lemma_direct_and_cached_mode_agree,
    lemma_new_run_is_consistent, manifest_action, manifest_steps, new_run, resolved_updates,
    update_manifest_from_cache, ManifestActionView, ManifestEventView, ManifestRun, ResolverView,
};
use crate::workspace::{
    get_all_new_deps, get_specified_new_deps, get_workspace_manifests, workspace_dependencies,
    workspace_manifests, Package, PackageView,
};

verus! {

/// What the caller is to do next.
#[derive(Clone, Debug, PartialEq, Eq)]
pub enum WorkspaceAction {
    /// Discover the packages of the workspace around this manifest path, or
    /// around the working directory where there is none.
    Discover { manifest_path: Option<String> },
    /// Ask the registry for the latest version of this dependency.
    Lookup { name: String, allow_prerelease: bool },
    /// Update the manifest at this path in cached mode, with the selector
    /// and the cache of this run; then tell this run that the manifest was
    /// updated, or with what error the run over the manifest was aborted.
    UpdateManifest { path: String },
    /// The run is complete: nothing is left to do.
    Finish,
    /// The run has failed: stop, and report the failure.
    Abort(WorkspaceError),
}

/// The mathematical content of a `WorkspaceAction`.
pub enum WorkspaceActionView {
    Discover { manifest_path: Option<Seq<char>> },
    Lookup { name: Seq<char>, allow_prerelease: bool },
    UpdateManifest { path: Seq<char> },
    Finish,
    Abort(WorkspaceErrorView),
}

impl DeepView for WorkspaceAction {
    type V = WorkspaceActionView;

    open spec fn deep_view(&self) -> WorkspaceActionView {
        match self {
            WorkspaceAction::Discover { manifest_path } => WorkspaceActionView::Discover {
                manifest_path: manifest_path.deep_view(),
            },
            WorkspaceAction::Lookup { name, allow_prerelease } => WorkspaceActionView::Lookup {
                name: name@,
                allow_prerelease: *allow_prerelease,
            },
            WorkspaceAction::UpdateManifest { path } => WorkspaceActionView::UpdateManifest {
                path: path@,
            },
            WorkspaceAction::Finish => WorkspaceActionView::Finish,
            WorkspaceAction::Abort(error) => WorkspaceActionView::Abort(error.deep_view()),
        }
    }
}

/// How the last action went.
pub enum WorkspaceEvent<S> {
    /// Discovery found these packages.
    Discovered(Vec<Package>),
    /// The registry gave this specifier for the name that was looked up.
    Resolved(S),
    /// The manifest was updated and written.
    Updated,
    /// Discovery failed, or the lookup did.
    Failed,
    /// The run over the manifest was aborted with this error.
    Aborted(UpgradeError),
}

/// The mathematical content of a `WorkspaceEvent`.
pub enum WorkspaceEventView<S> {
    Discovered(Seq<PackageView>),
    Resolved(S),
    Updated,
    Failed,
    Aborted(UpgradeErrorView),
}

impl<S> DeepView for WorkspaceEvent<S> {
    type V = WorkspaceEventView<S>;

    open spec fn deep_view(&self) -> WorkspaceEventView<S> {
        match self {
            WorkspaceEvent::Discovered(packages) => WorkspaceEventView::Discovered(
                packages.deep_view(),
            ),
            WorkspaceEvent::Resolved(specifier) => WorkspaceEventView::Resolved(*specifier),
            WorkspaceEvent::Updated => WorkspaceEventView::Updated,
            WorkspaceEvent::Failed => WorkspaceEventView::Failed,
            WorkspaceEvent::Aborted(cause) => WorkspaceEventView::Aborted(cause.deep_view()),
        }
    }
}

/// The mathematical content of a run over a workspace.
pub struct WorkspaceRunView<S> {
    /// Where discovery starts.
    pub manifest_path: Option<Seq<char>>,
    /// The upgrade selector.
    pub only_update: Seq<Seq<char>>,
    /// Whether a pre-release counts as a latest version.
    pub allow_prerelease: bool,
    /// Whether discovery has found the workspace.
    pub discovered: bool,
    /// The names that the run looks up, in order.
    pub lookups: Seq<Seq<char>>,
    /// How many of the lookups the registry has answered.
    pub resolved: nat,
    /// The version cache, as far as it is filled.
    pub new_deps: Map<Seq<char>, S>,
    /// The manifests that the run updates, in order.
    pub manifests: Seq<Seq<char>>,
    /// How many of the manifests were updated and written.
    pub updated: nat,
    /// The failure that has ended the run, if one has.
    pub failure: Option<WorkspaceErrorView>,
}

/// A run that has not begun.
pub open spec fn new_workspace_run<S>(
    manifest_path: Option<Seq<char>>,
    only_update: Seq<Seq<char>>,
    allow_prerelease: bool,
) -> WorkspaceRunView<S> {
    WorkspaceRunView {
        manifest_path,
        only_update,
        allow_prerelease,
        discovered: false,
        lookups: Seq::empty(),
        resolved: 0,
        new_deps: Map::empty(),
        manifests: Seq::empty(),
        updated: 0,
        failure: None,
    }
}

/// The names that a run looks up: those of the selector where it is not
/// empty, else those of every dependency that a package of the workspace
/// declares; each name once.
pub open spec fn lookup_names(only_update: Seq<Seq<char>>, packages: Seq<PackageView>) -> Seq<
    Seq<char>,
> {
    if only_update.len() > 0 {
        distinct_names(only_update)
    } else {
        distinct_names(workspace_dependencies(packages))
    }
}

/// What a run asks of its caller: to abort once it has failed; else to
/// discover the workspace, then to look up the next name, then to update the
/// next manifest; and to finish when nothing of that is left.
pub open spec fn workspace_action<S>(run: WorkspaceRunView<S>) -> WorkspaceActionView {
    if let Some(error) = run.failure {
        WorkspaceActionView::Abort(error)
    } else if !run.discovered {
        WorkspaceActionView::Discover { manifest_path: run.manifest_path }
    } else if run.resolved < run.lookups.len() {
        WorkspaceActionView::Lookup {
            name: run.lookups[run.resolved as int],
            allow_prerelease: run.allow_prerelease,
        }
    } else if run.updated < run.manifests.len() {
        WorkspaceActionView::UpdateManifest { path: run.manifests[run.updated as int] }
    } else {
        WorkspaceActionView::Finish
    }
}

/// The failure that an event brings to a run: that of discovery or of a
/// lookup where the event says that the action failed, and that of a manifest,
/// with its cause, where the event says that the run over the manifest was
/// aborted. `None` where the event is no failure of the pending action.
pub open spec fn workspace_failure<S>(
    run: WorkspaceRunView<S>,
    event: WorkspaceEventView<S>,
) -> Option<WorkspaceErrorView> {
    match (workspace_action(run), event) {
        (WorkspaceActionView::Discover { .. }, WorkspaceEventView::Failed) => Some(
            WorkspaceErrorView::Discovery,
        ),
        (WorkspaceActionView::Lookup { name, .. }, WorkspaceEventView::Failed) => Some(
            WorkspaceErrorView::Lookup(name),
        ),
        (WorkspaceActionView::UpdateManifest { path }, WorkspaceEventView::Aborted(cause)) => {
            Some(WorkspaceErrorView::Manifest { path, cause })
        },
        _ => None,
    }
}

/// The run after an event. The success of the pending action takes the run
/// one action further, its failure ends the run. An event that does not
/// answer the pending action leaves the run as it is; so does every event
/// once the run is finished or has failed.
pub open spec fn workspace_step<S>(
    run: WorkspaceRunView<S>,
    event: WorkspaceEventView<S>,
) -> WorkspaceRunView<S> {
    match (workspace_action(run), event) {
        (WorkspaceActionView::Discover { .. }, WorkspaceEventView::Discovered(packages)) => {
            WorkspaceRunView {
                discovered: true,
                lookups: lookup_names(run.only_update, packages),
                manifests: workspace_manifests(packages),
                ..run
            }
        },
        (WorkspaceActionView::Lookup { name, .. }, WorkspaceEventView::Resolved(specifier)) => {
            WorkspaceRunView {
                resolved: run.resolved + 1,
                new_deps: run.new_deps.insert(name, specifier),
                ..run
            }
        },
        (WorkspaceActionView::UpdateManifest { .. }, WorkspaceEventView::Updated) => {
            WorkspaceRunView { updated: run.updated + 1, ..run }
        },
        _ => if workspace_failure(run, event) is Some {
            WorkspaceRunView { failure: workspace_failure(run, event), ..run }
        } else {
            run
        },
    }
}

/// The run after a sequence of events.
pub open spec fn workspace_steps<S>(
    run: WorkspaceRunView<S>,
    events: Seq<WorkspaceEventView<S>>,
) -> WorkspaceRunView<S>
    decreases events.len(),
{
    if events.len() == 0 {
        run
    } else {
        workspace_step(workspace_steps(run, events.drop_last()), events.last())
    }
}

/// Whether a run has ended, in success or in failure.
pub open spec fn workspace_run_ended<S>(run: WorkspaceRunView<S>) -> bool {
    workspace_action(run) is Finish || workspace_action(run) is Abort
}

/// Whether an event answers the pending action of a run: it is the failure
/// of that action, or the success that belongs to it.
pub open spec fn answers_workspace_action<S>(
    run: WorkspaceRunView<S>,
    event: WorkspaceEventView<S>,
) -> bool {
    match (workspace_action(run), event) {
        (WorkspaceActionView::Discover { .. }, WorkspaceEventView::Discovered(_)) => true,
        (WorkspaceActionView::Lookup { .. }, WorkspaceEventView::Resolved(_)) => true,
        (WorkspaceActionView::UpdateManifest { .. }, WorkspaceEventView::Updated) => true,
        _ => workspace_failure(run, event) is Some,
    }
}

/// How far a run has come: the number of actions that were answered with
/// success.
pub open spec fn workspace_progress<S>(run: WorkspaceRunView<S>) -> nat {
    let discovered: nat = if run.discovered {
        1
    } else {
        0
    };
    discovered + run.resolved + run.updated
}

/// What holds of a run at every moment. No name stands twice among the
/// lookups, and the cache holds exactly the names whose lookup was answered.
/// Before discovery there is nothing to look up and nothing to update. No
/// manifest is updated before every lookup was answered. With a selector that
/// is not empty the lookups are the names of the selector.
pub open spec fn workspace_run_consistent<S>(run: WorkspaceRunView<S>) -> bool {
    &&& run.lookups.no_duplicates()
    &&& run.resolved <= run.lookups.len()
    &&& run.updated <= run.manifests.len()
    &&& run.new_deps.dom() =~= run.lookups.take(run.resolved as int).to_set()
    &&& !run.discovered ==> run.lookups.len() == 0 && run.manifests.len() == 0
    &&& run.updated > 0 ==> run.resolved == run.lookups.len()
    &&& run.discovered && run.only_update.len() > 0 ==> run.lookups == distinct_names(
        run.only_update,
    )
}

/// The kind of action that a run asks for; `Nothing` once it has ended.
enum Pending {
    Discover,
    Lookup,
    UpdateManifest,
    Nothing,
}

/// The kind of an action.
spec fn pending_kind(action: WorkspaceActionView) -> Pending {
    match action {
        WorkspaceActionView::Discover { .. } => Pending::Discover,
        WorkspaceActionView::Lookup { .. } => Pending::Lookup,
        WorkspaceActionView::UpdateManifest { .. } => Pending::UpdateManifest,
        _ => Pending::Nothing,
    }
}

/// A run over a whole workspace.
#[verifier::reject_recursive_types(S)]
pub struct WorkspaceRun<S> {
    manifest_path: Option<String>,
    only_update: Vec<String>,
    allow_prerelease: bool,
    discovered: bool,
    lookups: Vec<String>,
    resolved: usize,
    new_deps: VersionCache<S>,
    manifests: Vec<String>,
    updated: usize,
    failure: Option<WorkspaceError>,
}

impl<S> View for WorkspaceRun<S> {
    type V = WorkspaceRunView<S>;

    closed spec fn view(&self) -> WorkspaceRunView<S> {
        WorkspaceRunView {
            manifest_path: self.manifest_path.deep_view(),
            only_update: self.only_update.deep_view(),
            allow_prerelease: self.allow_prerelease,
            discovered: self.discovered,
            lookups: self.lookups.deep_view(),
            resolved: self.resolved as nat,
            new_deps: self.new_deps@,
            manifests: self.manifests.deep_view(),
            updated: self.updated as nat,
            failure: self.failure.deep_view(),
        }
    }
}

impl<S> WorkspaceRun<S> {
    #[verifier::type_invariant]
    spec fn well_formed(self) -> bool {
        workspace_run_consistent(self@)
    }

    /// What the run asks of its caller.
    pub fn action(&self) -> (action: WorkspaceAction)
        ensures
            action.deep_view() == workspace_action(self@),
    {
        proof {
            use_type_invariant(self);
        }
        if let Some(error) = &self.failure {
            WorkspaceAction::Abort(copy_workspace_error(error))
        } else if !self.discovered {
            WorkspaceAction::Discover { manifest_path: copy_path(&self.manifest_path) }
        } else if self.resolved < self.lookups.len() {
            WorkspaceAction::Lookup {
                name: self.lookups[self.resolved].clone(),
                allow_prerelease: self.allow_prerelease,
            }
        } else if self.updated < self.manifests.len() {
            WorkspaceAction::UpdateManifest { path: self.manifests[self.updated].clone() }
        } else {
            WorkspaceAction::Finish
        }
    }

    /// The upgrade selector of the run.
    pub fn only_update(&self) -> (only_update: &[String])
        ensures
            only_update.deep_view() == self@.only_update,
    {
        self.only_update.as_slice()
    }

    /// The version cache, as far as the run has filled it.
    pub fn new_deps(&self) -> (new_deps: &VersionCache<S>)
        ensures
            new_deps@ == self@.new_deps,
    {
        &self.new_deps
    }

    /// The run over the manifest that this run asks to update: a run of the
    /// cached mode with the selector and the cache of this run. `None` where
    /// this run asks for something else.
    pub fn manifest_run(&self) -> (run: Option<ManifestRun<'_, S>>)
        ensures
            match workspace_action(self@) {
                WorkspaceActionView::UpdateManifest { path } => run matches Some(begun)
                    && begun@ == new_run(
                    Some(path),
                    self@.only_update,
                    ResolverView::Cache(self@.new_deps),
                ),
                _ => run is None,
            },
    {
        proof {
            use_type_invariant(self);
        }
        match self.pending() {
            Pending::UpdateManifest => {
                let path = Some(self.manifests[self.updated].clone());
                Some(
                    update_manifest_from_cache(
                        &path,
                        self.only_update.as_slice(),
                        &self.new_deps,
                    ),
                )
            },
            _ => None,
        }
    }

    /// The kind of action that the run asks for.
    fn pending(&self) -> (pending: Pending)
        ensures
            pending == pending_kind(workspace_action(self@)),
    {
        proof {
            use_type_invariant(self);
        }
        if self.failure.is_some() {
            Pending::Nothing
        } else if !self.discovered {
            Pending::Discover
        } else if self.resolved < self.lookups.len() {
            Pending::Lookup
        } else if self.updated < self.manifests.len() {
            Pending::UpdateManifest
        } else {
            Pending::Nothing
        }
    }

    /// Takes the run one step further: from the run and the outcome of the
    /// action that it asked for to the run that follows.
    pub fn advance(self, event: WorkspaceEvent<S>) -> (next: Self)
        ensures
            next@ == workspace_step(self@, event.deep_view()),
            workspace_run_consistent(next@),
    {
        proof {
            use_type_invariant(&self);
            lemma_workspace_run_stays_consistent(self@, event.deep_view());
        }
        let pending = self.pending();
        let WorkspaceRun {
            manifest_path,
            only_update,
            allow_prerelease,
            discovered,
            lookups,
            resolved,
            new_deps,
            manifests,
            updated,
            failure,
        } = self;
        let mut discovered = discovered;
        let mut lookups = lookups;
        let mut resolved = resolved;
        let mut new_deps = new_deps;
        let mut manifests = manifests;
        let mut updated = updated;
        let mut failure = failure;
        match (pending, event) {
            (Pending::Discover, WorkspaceEvent::Discovered(packages)) => {
                discovered = true;
                lookups = if only_update.len() > 0 {
                    get_specified_new_deps(only_update.as_slice())
                } else {
                    get_all_new_deps(&packages)
                };
                manifests = get_workspace_manifests(&packages);
            },
            (Pending::Lookup, WorkspaceEvent::Resolved(specifier)) => {
                new_deps.insert(lookups[resolved].clone(), specifier);
                assert(resolved < lookups.len());
                resolved = resolved + 1;
            },
            (Pending::UpdateManifest, WorkspaceEvent::Updated) => {
                assert(updated < manifests.len());
                updated = updated + 1;
            },
            (Pending::Discover, WorkspaceEvent::Failed) => {
                failure = Some(WorkspaceError::Discovery);
            },
            (Pending::Lookup, WorkspaceEvent::Failed) => {
                failure = Some(WorkspaceError::Lookup(lookups[resolved].clone()));
            },
            (Pending::UpdateManifest, WorkspaceEvent::Aborted(cause)) => {
                failure = Some(
                    WorkspaceError::Manifest { path: manifests[updated].clone(), cause },
                );
            },
            _ => {},
        }
        WorkspaceRun {
            manifest_path,
            only_update,
            allow_prerelease,
            discovered,
            lookups,
            resolved,
            new_deps,
            manifests,
            updated,
            failure,
        }
    }
}

/// Begins a run that upgrades every manifest of the workspace around
/// `manifest_path`: the run discovers the workspace, gets the latest version
/// of every name once, and has the manifests updated from that cache, one
/// after the other.
pub fn update_workspace_manifests<S>(
    manifest_path: &Option<String>,
    only_update: &[String],
    allow_prerelease: bool,
) -> (run: WorkspaceRun<S>)
    ensures
        run@ == new_workspace_run::<S>(
            manifest_path.deep_view(),
            only_update.deep_view(),
            allow_prerelease,
        ),
        workspace_run_consistent(run@),
{
    let manifest_path = copy_path(manifest_path);
    let only_update = copy_names(only_update);
    let lookups: Vec<String> = Vec::new();
    let manifests: Vec<String> = Vec::new();
    proof {
        assert(lookups.deep_view() =~= Seq::empty());
        assert(manifests.deep_view() =~= Seq::empty());
        lemma_new_workspace_run_is_consistent::<S>(
            manifest_path.deep_view(),
            only_update.deep_view(),
            allow_prerelease,
        );
    }
    WorkspaceRun {
        manifest_path,
        only_update,
        allow_prerelease,
        discovered: false,
        lookups,
        resolved: 0,
        new_deps: VersionCache::new(),
        manifests,
        updated: 0,
        failure: None,
    }
}

/// A run that has not begun is consistent.
pub proof fn lemma_new_workspace_run_is_consistent<S>(
    manifest_path: Option<Seq<char>>,
    only_update: Seq<Seq<char>>,
    allow_prerelease: bool,
)
    ensures
        workspace_run_consistent(
            new_workspace_run::<S>(manifest_path, only_update, allow_prerelease),
        ),
{
    let run = new_workspace_run::<S>(manifest_path, only_update, allow_prerelease);
    assert(run.lookups.take(0) =~= Seq::empty());
}

/// An event, whichever it is, takes a consistent run to a consistent run.
pub proof fn lemma_workspace_run_stays_consistent<S>(
    run: WorkspaceRunView<S>,
    event: WorkspaceEventView<S>,
)
    requires
        workspace_run_consistent(run),
    ensures
        workspace_run_consistent(workspace_step(run, event)),
{
    let next = workspace_step(run, event);
    match (workspace_action(run), event) {
        (WorkspaceActionView::Discover { .. }, WorkspaceEventView::Discovered(packages)) => {
            lemma_distinct_names(run.only_update);
            lemma_distinct_names(workspace_dependencies(packages));
            assert(run.lookups.take(0) =~= Seq::empty());
            assert(next.lookups.take(0) =~= Seq::empty());
        },
        (WorkspaceActionView::Lookup { name, .. }, WorkspaceEventView::Resolved(specifier)) => {
            let done = run.lookups.take(run.resolved as int);
            run.lookups.lemma_take_succ_push(run.resolved as int);
            done.lemma_push_to_set_commute(name);
        },
        _ => {},
    }
}

/// Every run is consistent: whatever the events, a run that began at its
/// beginning is consistent after them.
pub proof fn lemma_every_workspace_run_is_consistent<S>(
    manifest_path: Option<Seq<char>>,
    only_update: Seq<Seq<char>>,
    allow_prerelease: bool,
    events: Seq<WorkspaceEventView<S>>,
)
    ensures
        workspace_run_consistent(
            workspace_steps(
                new_workspace_run::<S>(manifest_path, only_update, allow_prerelease),
                events,
            ),
        ),
    decreases events.len(),
{
    let begin = new_workspace_run::<S>(manifest_path, only_update, allow_prerelease);
    if events.len() == 0 {
        lemma_new_workspace_run_is_consistent::<S>(manifest_path, only_update, allow_prerelease);
    } else {
        lemma_every_workspace_run_is_consistent::<S>(
            manifest_path,
            only_update,
            allow_prerelease,
            events.drop_last(),
        );
        lemma_workspace_run_stays_consistent(
            workspace_steps(begin, events.drop_last()),
            events.last(),
        );
    }
}

/// A run that has ended stays as it is, whatever events follow.
pub proof fn lemma_ended_workspace_run_stays<S>(
    run: WorkspaceRunView<S>,
    events: Seq<WorkspaceEventView<S>>,
)
    requires
        workspace_run_ended(run),
    ensures
        workspace_steps(run, events) == run,
    decreases events.len(),
{
    if events.len() > 0 {
        lemma_ended_workspace_run_stays(run, events.drop_last());
    }
}

/// The first failure ends a run. Where an event is the failure of the pending
/// action of a run, then, whatever events follow, the run asks for nothing
/// but to abort with that failure, and but for that it is as it was: a cache
/// that was filled in part is not used, no manifest is updated after the
/// failure, and what was updated before stays on record.
pub proof fn lemma_workspace_run_aborts_after_a_failure<S>(
    run: WorkspaceRunView<S>,
    event: WorkspaceEventView<S>,
    events: Seq<WorkspaceEventView<S>>,
)
    requires
        workspace_failure(run, event) is Some,
    ensures
        workspace_steps(workspace_step(run, event), events) == (WorkspaceRunView {
            failure: workspace_failure(run, event),
            ..run
        }),
        workspace_action(workspace_steps(workspace_step(run, event), events))
            == WorkspaceActionView::Abort(workspace_failure(run, event)->Some_0),
{
    lemma_ended_workspace_run_stays(workspace_step(run, event), events);
}

/// Fail-fast across the workspace. Where the run over a manifest is aborted,
/// the run over the workspace reports the failure of that manifest, with the
/// error of the aborted run as its cause; and whatever events follow, the
/// manifests that were updated before it stay on record as updated, and the
/// run asks for no further manifest.
pub proof fn lemma_no_manifest_is_attempted_after_a_failure<S>(
    run: WorkspaceRunView<S>,
    cause: UpgradeErrorView,
    events: Seq<WorkspaceEventView<S>>,
)
    requires
        workspace_action(run) is UpdateManifest,
    ensures
        ({
            let failed = WorkspaceErrorView::Manifest {
                path: run.manifests[run.updated as int],
                cause,
            };
            let aborted = workspace_step(run, WorkspaceEventView::Aborted(cause));
            let later = workspace_steps(aborted, events);
            &&& later.failure == Some(failed)
            &&& later.updated == run.updated
            &&& later.manifests == run.manifests
            &&& workspace_action(later) == WorkspaceActionView::Abort(failed)
        }),
{
    lemma_workspace_run_aborts_after_a_failure(run, WorkspaceEventView::Aborted(cause), events);
}

/// A run that finishes has done all of its work: the workspace was
/// discovered, every name was looked up, and every manifest was updated.
pub proof fn lemma_finished_run_has_updated_every_manifest<S>(run: WorkspaceRunView<S>)
    requires
        workspace_run_consistent(run),
        workspace_action(run) is Finish,
    ensures
        run.discovered,
        run.resolved == run.lookups.len(),
        run.new_deps.dom() =~= run.lookups.to_set(),
        run.updated == run.manifests.len(),
        run.failure is None,
{
    assert(run.lookups.take(run.resolved as int) =~= run.lookups);
}

/// An event that answers the pending action of a run takes the run one
/// action further, or ends it: no action is asked for a second time.
pub proof fn lemma_answer_takes_workspace_run_further<S>(
    run: WorkspaceRunView<S>,
    event: WorkspaceEventView<S>,
)
    requires
        answers_workspace_action(run, event),
    ensures
        workspace_run_ended(workspace_step(run, event)) || workspace_progress(
            workspace_step(run, event),
        ) == workspace_progress(run) + 1,
{
}

/// One lookup for each distinct name. No name stands twice among the names
/// that a run looks up; with an empty selector they are the names that the
/// packages of the workspace declare, and with any other the names of the
/// selector.
pub proof fn lemma_lookup_names(only_update: Seq<Seq<char>>, packages: Seq<PackageView>)
    ensures
        lookup_names(only_update, packages).no_duplicates(),
        only_update.len() == 0 ==> forall|name: Seq<char>|
            lookup_names(only_update, packages).contains(name) <==> workspace_dependencies(
                packages,
            ).contains(name),
        only_update.len() == 0 ==> lookup_names(only_update, packages).len()
            == workspace_dependencies(packages).to_set().len(),
        only_update.len() > 0 ==> forall|name: Seq<char>|
            lookup_names(only_update, packages).contains(name) <==> only_update.contains(name),
        only_update.len() > 0 ==> lookup_names(only_update, packages).len()
            == only_update.to_set().len(),
{
    lemma_distinct_names(only_update);
    lemma_distinct_names(workspace_dependencies(packages));
}

/// A name is looked up once. Once the registry has answered for a name, the
/// run does not ask for that name again, whatever events follow.
pub proof fn lemma_name_is_looked_up_once<S>(
    run: WorkspaceRunView<S>,
    specifier: S,
    events: Seq<WorkspaceEventView<S>>,
)
    requires
        workspace_run_consistent(run),
        workspace_action(run) is Lookup,
    ensures
        ({
            let name = run.lookups[run.resolved as int];
            let answered = workspace_step(run, WorkspaceEventView::Resolved(specifier));
            let later = workspace_steps(answered, events);
            !(workspace_action(later) matches WorkspaceActionView::Lookup { name: asked, .. }
                && asked == name)
        }),
{
    lemma_later_lookups(run, specifier, events);
}

/// After a lookup was answered, a run looks up only names at later places of
/// the same lookups.
proof fn lemma_later_lookups<S>(
    run: WorkspaceRunView<S>,
    specifier: S,
    events: Seq<WorkspaceEventView<S>>,
)
    requires
        workspace_run_consistent(run),
        workspace_action(run) is Lookup,
    ensures
        ({
            let answered = workspace_step(run, WorkspaceEventView::Resolved(specifier));
            let later = workspace_steps(answered, events);
            &&& workspace_run_consistent(later)
            &&& later.lookups == run.lookups
            &&& later.resolved > run.resolved
        }),
    decreases events.len(),
{
    let answered = workspace_step(run, WorkspaceEventView::Resolved(specifier));
    lemma_workspace_run_stays_consistent(run, WorkspaceEventView::Resolved(specifier));
    if events.len() > 0 {
        lemma_later_lookups(run, specifier, events.drop_last());
        lemma_workspace_run_stays_consistent(
            workspace_steps(answered, events.drop_last()),
            events.last(),
        );
    }
}

/// The events that take a run to the lookup at place `count`, where nothing
/// fails and the registry gives `registry[name]` for `name`: discovery finds
/// the packages, and the registry answers `count` lookups.
pub open spec fn lookup_events<S>(
    only_update: Seq<Seq<char>>,
    packages: Seq<PackageView>,
    registry: Map<Seq<char>, S>,
    count: nat,
) -> Seq<WorkspaceEventView<S>> {
    seq![WorkspaceEventView::Discovered(packages)] + Seq::new(
        count,
        |place: int|
            WorkspaceEventView::Resolved(registry[lookup_names(only_update, packages)[place]]),
    )
}

/// The cache that holds, for each of the names, what the registry gives for
/// it.
pub open spec fn cache_of<S>(names: Seq<Seq<char>>, registry: Map<Seq<char>, S>) -> Map<
    Seq<char>,
    S,
> {
    Map::new(|name: Seq<char>| names.contains(name), |name: Seq<char>| registry[name])
}

/// The run after a sequence of events and one more.
proof fn lemma_one_more_step<S>(
    run: WorkspaceRunView<S>,
    events: Seq<WorkspaceEventView<S>>,
    event: WorkspaceEventView<S>,
)
    ensures
        workspace_steps(run, events.push(event)) == workspace_step(
            workspace_steps(run, events),
            event,
        ),
{
    assert(events.push(event).drop_last() =~= events);
}

/// A run in which nothing fails fills its cache from the registry, name by
/// name in the order of the lookups. Once discovery has found the packages
/// and the registry has answered `count` lookups, the run stands before the
/// lookup at place `count`, and its cache holds the registry's specifiers for
/// the names before that place, and nothing else.
pub proof fn lemma_workspace_run_fills_its_cache<S>(
    manifest_path: Option<Seq<char>>,
    only_update: Seq<Seq<char>>,
    allow_prerelease: bool,
    packages: Seq<PackageView>,
    registry: Map<Seq<char>, S>,
    count: nat,
)
    requires
        count <= lookup_names(only_update, packages).len(),
    ensures
        workspace_steps(
            new_workspace_run(manifest_path, only_update, allow_prerelease),
            lookup_events(only_update, packages, registry, count),
        ) == (WorkspaceRunView {
            discovered: true,
            lookups: lookup_names(only_update, packages),
            manifests: workspace_manifests(packages),
            resolved: count,
            new_deps: cache_of(lookup_names(only_update, packages).take(count as int), registry),
            ..new_workspace_run::<S>(manifest_path, only_update, allow_prerelease)
        }),
    decreases count,
{
    let begin = new_workspace_run::<S>(manifest_path, only_update, allow_prerelease);
    let lookups = lookup_names(only_update, packages);
    if count == 0 {
        let found = WorkspaceEventView::Discovered(packages);
        lemma_one_more_step(begin, Seq::empty(), found);
        assert(lookup_events(only_update, packages, registry, 0) =~= Seq::empty().push(found));
        assert(cache_of(lookups.take(0), registry) =~= Map::empty());
    } else {
        let before = (count - 1) as nat;
        lemma_workspace_run_fills_its_cache(
            manifest_path,
            only_update,
            allow_prerelease,
            packages,
            registry,
            before,
        );
        let reached = lookup_events(only_update, packages, registry, before);
        let name = lookups[before as int];
        let answer = WorkspaceEventView::Resolved(registry[name]);
        lemma_one_more_step(begin, reached, answer);
        assert(lookup_events(only_update, packages, registry, count) =~= reached.push(answer));
        lookups.lemma_take_succ_push(before as int);
        assert(cache_of(lookups.take(count as int), registry) =~= cache_of(
            lookups.take(before as int),
            registry,
        ).insert(name, registry[name])) by {
            assert forall|other: Seq<char>|
                lookups.take(count as int).contains(other) <==> (other == name
                    || lookups.take(before as int).contains(other)) by {
                let shorter = lookups.take(before as int);
                let longer = shorter.push(name);
                if longer.contains(other) {
                    let at = choose|at: int| 0 <= at < longer.len() && longer[at] == other;
                    if at < shorter.len() {
                        assert(shorter[at] == other);
                    }
                }
                if shorter.contains(other) {
                    let at = choose|at: int| 0 <= at < shorter.len() && shorter[at] == other;
                    assert(longer[at] == other);
                }
                if other == name {
                    assert(longer[before as int] == other);
                }
            }
        }
    }
}

/// A run in which nothing fails updates the manifests in the order of
/// discovery. Once every lookup was answered and `count` manifests were
/// updated, the run stands before the manifest at place `count`, with the
/// cache as the lookups have filled it.
pub proof fn lemma_workspace_run_reaches_every_manifest<S>(
    manifest_path: Option<Seq<char>>,
    only_update: Seq<Seq<char>>,
    allow_prerelease: bool,
    packages: Seq<PackageView>,
    registry: Map<Seq<char>, S>,
    count: nat,
)
    requires
        count <= packages.len(),
    ensures
        workspace_steps(
            new_workspace_run(manifest_path, only_update, allow_prerelease),
            lookup_events(
                only_update,
                packages,
                registry,
                lookup_names(only_update, packages).len(),
            ) + Seq::new(count, |place: int| WorkspaceEventView::Updated),
        ) == (WorkspaceRunView {
            discovered: true,
            lookups: lookup_names(only_update, packages),
            manifests: workspace_manifests(packages),
            resolved: lookup_names(only_update, packages).len(),
            new_deps: cache_of(lookup_names(only_update, packages), registry),
            updated: count,
            ..new_workspace_run::<S>(manifest_path, only_update, allow_prerelease)
        }),
    decreases count,
{
    let begin = new_workspace_run::<S>(manifest_path, only_update, allow_prerelease);
    let lookups = lookup_names(only_update, packages);
    let looked_up = lookup_events(only_update, packages, registry, lookups.len());
    let updates = |count: nat| Seq::new(count, |place: int| WorkspaceEventView::<S>::Updated);
    assert(lookups.take(lookups.len() as int) =~= lookups);
    if count == 0 {
        lemma_workspace_run_fills_its_cache(
            manifest_path,
            only_update,
            allow_prerelease,
            packages,
            registry,
            lookups.len(),
        );
        assert(looked_up + updates(0) =~= looked_up);
    } else {
        let before = (count - 1) as nat;
        lemma_workspace_run_reaches_every_manifest(
            manifest_path,
            only_update,
            allow_prerelease,
            packages,
            registry,
            before,
        );
        lemma_one_more_step(begin, looked_up + updates(before), WorkspaceEventView::Updated);
        assert(looked_up + updates(count) =~= (looked_up + updates(before)).push(
            WorkspaceEventView::Updated,
        ));
    }
}

/// The cache holds what the cached mode asks of it. Once a run with a
/// selector that is not empty updates manifests, its cache holds every name
/// that passes the selector; so a run of the cached mode over a manifest,
/// begun with the selector and the cache of the run over the workspace, never
/// aborts for a name that the cache lacks, whatever the manifest holds.
pub proof fn lemma_selected_names_are_cached<S>(
    run: WorkspaceRunView<S>,
    manifest_path: Option<Seq<char>>,
    events: Seq<ManifestEventView<S>>,
)
    requires
        workspace_run_consistent(run),
        workspace_action(run) is UpdateManifest,
        run.only_update.len() > 0,
    ensures
        forall|name: Seq<char>|
            passes_selector(run.only_update, name) ==> run.new_deps.contains_key(name),
        !(manifest_action(
            manifest_steps(
                new_run(manifest_path, run.only_update, ResolverView::Cache(run.new_deps)),
                events,
            ),
        ) matches ManifestActionView::Abort(UpgradeErrorView::MissingFromCache(_))),
{
    lemma_distinct_names(run.only_update);
    assert(run.lookups.take(run.resolved as int) =~= run.lookups);
    assert forall|name: Seq<char>| passes_selector(run.only_update, name) implies #[trigger]
        run.new_deps.contains_key(name) by {
        assert(run.lookups.contains(name));
        assert(run.lookups.to_set().contains(name));
    }
    let resolver = ResolverView::Cache(run.new_deps);
    lemma_new_run_is_consistent(manifest_path, run.only_update, resolver);
    lemma_cached_names_are_found(new_run(manifest_path, run.only_update, resolver), events);
}

/// Whether every specifier of the cache is the one that the registry gives
/// for its name.
pub open spec fn agrees_with<S>(cache: Map<Seq<char>, S>, registry: Map<Seq<char>, S>) -> bool {
    forall|name: Seq<char>| cache.contains_key(name) ==> cache[name] == registry[name]
}

/// Whether an event can come from a registry that gives `registry[name]` for
/// `name`: where it answers a lookup with a specifier, the specifier is the
/// registry's for the name that was looked up.
pub open spec fn answered_by<S>(
    run: WorkspaceRunView<S>,
    event: WorkspaceEventView<S>,
    registry: Map<Seq<char>, S>,
) -> bool {
    workspace_action(run) matches WorkspaceActionView::Lookup { name, .. } ==> (event
        matches WorkspaceEventView::Resolved(specifier) ==> specifier == registry[name])
}

/// A cache that agrees with the registry still does so after an event that
/// comes from that registry.
pub proof fn lemma_cache_keeps_agreeing<S>(
    run: WorkspaceRunView<S>,
    event: WorkspaceEventView<S>,
    registry: Map<Seq<char>, S>,
)
    requires
        agrees_with(run.new_deps, registry),
        answered_by(run, event, registry),
    ensures
        agrees_with(workspace_step(run, event).new_deps, registry),
{
}

/// A run over a workspace writes what the direct mode writes. Let a run over
/// the workspace with a selector that is not empty have come to update
/// manifests, with a cache that agrees with the registry. Then for every
/// manifest the updates of the cached mode, with the selector and the cache
/// of that run, are the updates of the direct mode with the same selector
/// and the same registry, target by target.
pub proof fn lemma_workspace_run_agrees_with_direct_mode<S>(
    run: WorkspaceRunView<S>,
    registry: Map<Seq<char>, S>,
    sections: Seq<SectionView>,
)
    requires
        workspace_run_consistent(run),
        workspace_action(run) is UpdateManifest,
        run.only_update.len() > 0,
        agrees_with(run.new_deps, registry),
    ensures
        resolved_updates(manifest_targets(run.only_update, sections), run.new_deps)
            == resolved_updates(manifest_targets(run.only_update, sections), registry),
{
    let targets = manifest_targets(run.only_update, sections);
    lemma_selected_names_are_cached(run, None, Seq::empty());
    assert forall|index: int| 0 <= index < targets.len() implies run.new_deps.contains_key(
        #[trigger] targets[index].name,
    ) && run.new_deps[targets[index].name] == registry[targets[index].name] by {
        lemma_selector_restricts_targets(run.only_update, sections, index);
        assert(passes_selector(run.only_update, targets[index].name));
        assert(run.new_deps.contains_key(targets[index].name));
    }
    lemma_direct_and_cached_mode_agree(targets, registry, run.new_deps);
}

} // verus!
