//! The single-manifest updater: a run over one manifest, as a machine that
//! says what is to be done next and is told how it went.
//!
//! A run loads the manifest, rewrites the entries that the traversal picks,
//! one after the other, and then writes the manifest back. It has two modes,
//! which differ in where the new specifier of an entry comes from: the direct
//! mode asks the registry for each entry as it is reached, the cached mode
//! reads a version cache that was filled before. The first failure ends the
//! run, and a run that has failed never asks to write the manifest.

use vstd::prelude::*;
use crate::cache::VersionCache;
use crate::error::{copy_error, copy_path, UpgradeError, UpgradeErrorView};
use crate::manifest::{
    keep_present, manifest_root_is_table, manifest_sections, present_sections, read_sections,
    root_is_table, Section, SectionView,
};
use crate::names::copy_names;
use crate::traversal::{
    lemma_targets_are_the_upgraded_entries, manifest_targets, passes_selector, target_at,
    upgrade_targets, upgrades_entry, Target, TargetView,
};

verus! {

/// One change to a manifest: the specifier to write into the entry that
/// stands under `name` in the section at `table_path`.
#[derive(Debug, PartialEq, Eq)]
pub struct Update<'a, S> {
    pub table_path: Vec<String>,
    pub name: String,
    pub specifier: &'a S,
}

/// The mathematical content of an `Update`.
pub struct UpdateView<S> {
    pub table_path: Seq<Seq<char>>,
    pub name: Seq<char>,
    pub specifier: S,
}

impl<'a, S> DeepView for Update<'a, S> {
    type V = UpdateView<S>;

    open spec fn deep_view(&self) -> UpdateView<S> {
        UpdateView {
            table_path: self.table_path.deep_view(),
            name: self.name@,
            specifier: *self.specifier,
        }
    }
}

/// What the caller is to do next with the manifest.
#[derive(Debug, PartialEq, Eq)]
pub enum ManifestAction<'a, S> {
    /// Load the manifest at this path, or the one found from the working
    /// directory where there is none.
    Load { manifest_path: Option<String> },
    /// Ask the registry for the latest version of this dependency.
    Lookup { name: String, allow_prerelease: bool },
    /// Write the specifier into the entry, in the manifest in memory.
    Apply(Update<'a, S>),
    /// Write the manifest back to the file it was loaded from.
    Persist { manifest_path: Option<String> },
    /// The run is complete: nothing is left to do.
    Finish,
    /// The run has failed: stop, write nothing, and report the failure.
    Abort(UpgradeError),
}

/// The mathematical content of a `ManifestAction`.
pub enum ManifestActionView<S> {
    Load { manifest_path: Option<Seq<char>> },
    Lookup { name: Seq<char>, allow_prerelease: bool },
    Apply(UpdateView<S>),
    Persist { manifest_path: Option<Seq<char>> },
    Finish,
    Abort(UpgradeErrorView),
}

impl<'a, S> DeepView for ManifestAction<'a, S> {
    type V = ManifestActionView<S>;

    open spec fn deep_view(&self) -> ManifestActionView<S> {
        match self {
            ManifestAction::Load { manifest_path } => ManifestActionView::Load {
                manifest_path: manifest_path.deep_view(),
            },
            ManifestAction::Lookup { name, allow_prerelease } => ManifestActionView::Lookup {
                name: name@,
                allow_prerelease: *allow_prerelease,
            },
            ManifestAction::Apply(update) => ManifestActionView::Apply(update.deep_view()),
            ManifestAction::Persist { manifest_path } => ManifestActionView::Persist {
                manifest_path: manifest_path.deep_view(),
            },
            ManifestAction::Finish => ManifestActionView::Finish,
            ManifestAction::Abort(error) => ManifestActionView::Abort(error.deep_view()),
        }
    }
}

/// How the last action on the manifest went.
pub enum ManifestEvent<S> {
    /// The manifest was loaded; these are its dependency sections.
    Loaded(Vec<Section>),
    /// The registry gave this specifier for the name that was looked up.
    Resolved(S),
    /// The specifier was written into the entry.
    Applied,
    /// The manifest was written to its file.
    Persisted,
    /// The action failed.
    Failed,
}

/// The mathematical content of a `ManifestEvent`.
pub enum ManifestEventView<S> {
    Loaded(Seq<SectionView>),
    Resolved(S),
    Applied,
    Persisted,
    Failed,
}

impl<S> DeepView for ManifestEvent<S> {
    type V = ManifestEventView<S>;

    open spec fn deep_view(&self) -> ManifestEventView<S> {
        match self {
            ManifestEvent::Loaded(sections) => ManifestEventView::Loaded(sections.deep_view()),
            ManifestEvent::Resolved(specifier) => ManifestEventView::Resolved(*specifier),
            ManifestEvent::Applied => ManifestEventView::Applied,
            ManifestEvent::Persisted => ManifestEventView::Persisted,
            ManifestEvent::Failed => ManifestEventView::Failed,
        }
    }
}

/// Where the new specifiers of a run come from.
pub enum ResolverView<S> {
    /// From the registry, which is asked for each entry as it is reached.
    Registry { allow_prerelease: bool },
    /// From this version cache.
    Cache(Map<Seq<char>, S>),
}

/// The mathematical content of a run over one manifest.
pub struct ManifestRunView<S> {
    /// Where the manifest is loaded from and written to.
    pub manifest_path: Option<Seq<char>>,
    /// The upgrade selector.
    pub only_update: Seq<Seq<char>>,
    pub resolver: ResolverView<S>,
    /// Whether the manifest was loaded.
    pub loaded: bool,
    /// The entries to rewrite, in the order of the traversal.
    pub targets: Seq<TargetView>,
    /// How many of the targets were rewritten.
    pub applied: nat,
    /// In direct mode, the specifier that the registry gave for the next
    /// target, once it has answered.
    pub resolved: Option<S>,
    /// Whether the manifest was written back.
    pub persisted: bool,
    /// The failure that has ended the run, if one has.
    pub failure: Option<UpgradeErrorView>,
}

/// A run that has not begun.
pub open spec fn new_run<S>(
    manifest_path: Option<Seq<char>>,
    only_update: Seq<Seq<char>>,
    resolver: ResolverView<S>,
) -> ManifestRunView<S> {
    ManifestRunView {
        manifest_path,
        only_update,
        resolver,
        loaded: false,
        targets: Seq::empty(),
        applied: 0,
        resolved: None,
        persisted: false,
        failure: None,
    }
}

/// What a run asks of its caller. Once it has failed, to abort. Else to load
/// the manifest; then, for the next target, to rewrite it with the specifier
/// that the resolver has for its name, and where the resolver has none, to
/// ask the registry for it first, or to abort for a name that the cache
/// lacks; after the last target, to write the manifest; and then to finish.
pub open spec fn manifest_action<S>(run: ManifestRunView<S>) -> ManifestActionView<S> {
    if let Some(error) = run.failure {
        ManifestActionView::Abort(error)
    } else if !run.loaded {
        ManifestActionView::Load { manifest_path: run.manifest_path }
    } else if run.applied < run.targets.len() {
        let target = run.targets[run.applied as int];
        match (run.resolver, run.resolved) {
            (ResolverView::Registry { .. }, Some(specifier)) => ManifestActionView::Apply(
                UpdateView { table_path: target.table_path, name: target.name, specifier },
            ),
            (ResolverView::Registry { allow_prerelease }, None) => ManifestActionView::Lookup {
                name: target.name,
                allow_prerelease,
            },
            (ResolverView::Cache(cache), _) => if cache.contains_key(target.name) {
                ManifestActionView::Apply(
                    UpdateView {
                        table_path: target.table_path,
                        name: target.name,
                        specifier: cache[target.name],
                    },
                )
            } else {
                ManifestActionView::Abort(UpgradeErrorView::MissingFromCache(target.name))
            },
        }
    } else if !run.persisted {
        ManifestActionView::Persist { manifest_path: run.manifest_path }
    } else {
        ManifestActionView::Finish
    }
}

/// The error with which the pending action of a run fails.
pub open spec fn manifest_failure<S>(run: ManifestRunView<S>) -> UpgradeErrorView {
    match manifest_action(run) {
        ManifestActionView::Load { manifest_path } => UpgradeErrorView::Load(manifest_path),
        ManifestActionView::Lookup { name, .. } => UpgradeErrorView::Lookup(name),
        ManifestActionView::Apply(update) => UpgradeErrorView::Edit(update.name),
        ManifestActionView::Abort(error) => error,
        _ => UpgradeErrorView::Write(run.manifest_path),
    }
}

/// The run after an event. The success of the pending action takes the run
/// one action further, its failure ends the run. An event that does not
/// answer the pending action leaves the run as it is; so does every event
/// once the run is finished or has failed.
pub open spec fn manifest_step<S>(
    run: ManifestRunView<S>,
    event: ManifestEventView<S>,
) -> ManifestRunView<S> {
    match (manifest_action(run), event) {
        (ManifestActionView::Load { .. }, ManifestEventView::Loaded(sections)) => ManifestRunView {
            loaded: true,
            targets: manifest_targets(run.only_update, sections),
            ..run
        },
        (ManifestActionView::Lookup { .. }, ManifestEventView::Resolved(specifier)) => {
            ManifestRunView { resolved: Some(specifier), ..run }
        },
        (ManifestActionView::Apply(_), ManifestEventView::Applied) => ManifestRunView {
            applied: run.applied + 1,
            resolved: None,
            ..run
        },
        (ManifestActionView::Persist { .. }, ManifestEventView::Persisted) => ManifestRunView {
            persisted: true,
            ..run
        },
        (ManifestActionView::Finish, _) => run,
        (ManifestActionView::Abort(_), _) => run,
        (_, ManifestEventView::Failed) => ManifestRunView {
            failure: Some(manifest_failure(run)),
            ..run
        },
        _ => run,
    }
}

/// The run after a sequence of events.
pub open spec fn manifest_steps<S>(
    run: ManifestRunView<S>,
    events: Seq<ManifestEventView<S>>,
) -> ManifestRunView<S>
    decreases events.len(),
{
    if events.len() == 0 {
        run
    } else {
        manifest_step(manifest_steps(run, events.drop_last()), events.last())
    }
}

/// Whether a run has ended, in success or in failure.
pub open spec fn manifest_run_ended<S>(run: ManifestRunView<S>) -> bool {
    manifest_action(run) is Finish || manifest_action(run) is Abort
}

/// Whether an event answers the pending action of a run: it is the failure
/// of that action, or the success that belongs to it.
pub open spec fn answers_manifest_action<S>(
    run: ManifestRunView<S>,
    event: ManifestEventView<S>,
) -> bool {
    match (manifest_action(run), event) {
        (ManifestActionView::Load { .. }, ManifestEventView::Loaded(_)) => true,
        (ManifestActionView::Lookup { .. }, ManifestEventView::Resolved(_)) => true,
        (ManifestActionView::Apply(_), ManifestEventView::Applied) => true,
        (ManifestActionView::Persist { .. }, ManifestEventView::Persisted) => true,
        (ManifestActionView::Finish, _) => false,
        (ManifestActionView::Abort(_), _) => false,
        (_, ManifestEventView::Failed) => true,
        _ => false,
    }
}

/// How far a run has come: the number of actions that were answered with
/// success.
pub open spec fn manifest_progress<S>(run: ManifestRunView<S>) -> nat {
    let loaded: nat = if run.loaded {
        1
    } else {
        0
    };
    let resolved: nat = if run.resolved is Some {
        1
    } else {
        0
    };
    let persisted: nat = if run.persisted {
        1
    } else {
        0
    };
    let for_each_target: nat = if run.resolver is Registry {
        2
    } else {
        1
    };
    loaded + for_each_target * run.applied + resolved + persisted
}

/// What holds of a run at every moment. Before the manifest is loaded there
/// are no targets. No more targets are rewritten than there are, and the name
/// of every target passes the selector. The registry has answered only in
/// direct mode, and only for a target that is still to be rewritten. The
/// manifest is written only when every target was rewritten.
pub open spec fn manifest_run_consistent<S>(run: ManifestRunView<S>) -> bool {
    &&& run.applied <= run.targets.len()
    &&& !run.loaded ==> run.targets.len() == 0
    &&& run.resolved is Some ==> run.resolver is Registry && run.applied < run.targets.len()
    &&& run.persisted ==> run.loaded && run.applied == run.targets.len()
    &&& forall|index: int|
        0 <= index < run.targets.len() ==> passes_selector(
            run.only_update,
            #[trigger] run.targets[index].name,
        )
}

/// What a run is told of a manifest that was opened: its dependency
/// sections, without what was emptied; or, where the root of its document is
/// no table, that loading it has failed.
pub open spec fn loading_event<S>(manifest: cargo_edit::Manifest) -> ManifestEventView<S> {
    if manifest_root_is_table(manifest) {
        ManifestEventView::Loaded(present_sections(manifest_sections(manifest)))
    } else {
        ManifestEventView::Failed
    }
}

/// The kind of action that a run asks for; `Nothing` once it has ended.
enum Pending {
    Load,
    Lookup,
    Apply,
    Persist,
    Nothing,
}

/// The kind of an action.
spec fn pending_kind<S>(action: ManifestActionView<S>) -> Pending {
    match action {
        ManifestActionView::Load { .. } => Pending::Load,
        ManifestActionView::Lookup { .. } => Pending::Lookup,
        ManifestActionView::Apply(_) => Pending::Apply,
        ManifestActionView::Persist { .. } => Pending::Persist,
        _ => Pending::Nothing,
    }
}

/// Where the new specifiers of a run come from.
#[verifier::reject_recursive_types(S)]
enum Resolver<'a, S> {
    Registry { allow_prerelease: bool },
    Cache(&'a VersionCache<S>),
}

impl<'a, S> View for Resolver<'a, S> {
    type V = ResolverView<S>;

    closed spec fn view(&self) -> ResolverView<S> {
        match self {
            Resolver::Registry { allow_prerelease } => ResolverView::Registry {
                allow_prerelease: *allow_prerelease,
            },
            Resolver::Cache(cache) => ResolverView::Cache(cache@),
        }
    }
}

/// A run of the updater over one manifest.
#[verifier::reject_recursive_types(S)]
pub struct ManifestRun<'a, S> {
    manifest_path: Option<String>,
    only_update: Vec<String>,
    resolver: Resolver<'a, S>,
    loaded: bool,
    targets: Vec<Target>,
    applied: usize,
    resolved: Option<S>,
    persisted: bool,
    failure: Option<UpgradeError>,
}

impl<'a, S> View for ManifestRun<'a, S> {
    type V = ManifestRunView<S>;

    closed spec fn view(&self) -> ManifestRunView<S> {
        ManifestRunView {
            manifest_path: self.manifest_path.deep_view(),
            only_update: self.only_update.deep_view(),
            resolver: self.resolver@,
            loaded: self.loaded,
            targets: self.targets.deep_view(),
            applied: self.applied as nat,
            resolved: self.resolved,
            persisted: self.persisted,
            failure: self.failure.deep_view(),
        }
    }
}

impl<'a, S> ManifestRun<'a, S> {
    #[verifier::type_invariant]
    spec fn well_formed(self) -> bool {
        manifest_run_consistent(self@)
    }

    /// A run that has not begun.
    fn new(
        manifest_path: &Option<String>,
        only_update: &[String],
        resolver: Resolver<'a, S>,
    ) -> (run: Self)
        ensures
            run@ == new_run(manifest_path.deep_view(), only_update.deep_view(), resolver@),
    {
        let targets: Vec<Target> = Vec::new();
        assert(targets.deep_view() =~= Seq::empty());
        ManifestRun {
            manifest_path: copy_path(manifest_path),
            only_update: copy_names(only_update),
            resolver,
            loaded: false,
            targets,
            applied: 0,
            resolved: None,
            persisted: false,
            failure: None,
        }
    }

    /// What the run asks of its caller.
    pub fn action<'b>(&'b self) -> (action: ManifestAction<'b, S>)
        ensures
            action.deep_view() == manifest_action(self@),
    {
        proof {
            use_type_invariant(self);
        }
        if let Some(error) = &self.failure {
            ManifestAction::Abort(copy_error(error))
        } else if !self.loaded {
            ManifestAction::Load { manifest_path: copy_path(&self.manifest_path) }
        } else if self.applied < self.targets.len() {
            let target = &self.targets[self.applied];
            let found = match &self.resolver {
                Resolver::Registry { .. } => self.resolved.as_ref(),
                Resolver::Cache(cache) => cache.get(target.name.as_str()),
            };
            match (found, &self.resolver) {
                (Some(specifier), _) => ManifestAction::Apply(
                    Update {
                        table_path: target.table_path.clone(),
                        name: target.name.clone(),
                        specifier,
                    },
                ),
                (None, Resolver::Registry { allow_prerelease }) => ManifestAction::Lookup {
                    name: target.name.clone(),
                    allow_prerelease: *allow_prerelease,
                },
                (None, Resolver::Cache(_)) => ManifestAction::Abort(
                    UpgradeError::MissingFromCache(target.name.clone()),
                ),
            }
        } else if !self.persisted {
            ManifestAction::Persist { manifest_path: copy_path(&self.manifest_path) }
        } else {
            ManifestAction::Finish
        }
    }

    /// The kind of action that the run asks for.
    fn pending(&self) -> (pending: Pending)
        ensures
            pending == pending_kind(manifest_action(self@)),
    {
        proof {
            use_type_invariant(self);
        }
        if self.failure.is_some() {
            Pending::Nothing
        } else if !self.loaded {
            Pending::Load
        } else if self.applied < self.targets.len() {
            match &self.resolver {
                Resolver::Registry { .. } => if self.resolved.is_some() {
                    Pending::Apply
                } else {
                    Pending::Lookup
                },
                Resolver::Cache(cache) => if cache.contains(
                    self.targets[self.applied].name.as_str(),
                ) {
                    Pending::Apply
                } else {
                    Pending::Nothing
                },
            }
        } else if !self.persisted {
            Pending::Persist
        } else {
            Pending::Nothing
        }
    }

    /// Takes the run one step further: from the run and the outcome of the
    /// action that it asked for to the run that follows.
    pub fn advance(self, event: ManifestEvent<S>) -> (next: Self)
        ensures
            next@ == manifest_step(self@, event.deep_view()),
            manifest_run_consistent(next@),
    {
        proof {
            use_type_invariant(&self);
            lemma_manifest_run_stays_consistent(self@, event.deep_view());
        }
        let pending = self.pending();
        let ManifestRun {
            manifest_path,
            only_update,
            resolver,
            loaded,
            targets,
            applied,
            resolved,
            persisted,
            failure,
        } = self;
        let mut loaded = loaded;
        let mut targets = targets;
        let mut applied = applied;
        let mut resolved = resolved;
        let mut persisted = persisted;
        let mut failure = failure;
        match (pending, event) {
            (Pending::Load, ManifestEvent::Loaded(sections)) => {
                targets = upgrade_targets(&sections, only_update.as_slice());
                loaded = true;
            },
            (Pending::Lookup, ManifestEvent::Resolved(specifier)) => {
                resolved = Some(specifier);
            },
            (Pending::Apply, ManifestEvent::Applied) => {
                assert(applied < targets.len());
                applied = applied + 1;
                resolved = None;
            },
            (Pending::Persist, ManifestEvent::Persisted) => {
                persisted = true;
            },
            (Pending::Load, ManifestEvent::Failed) => {
                failure = Some(UpgradeError::Load(copy_path(&manifest_path)));
            },
            (Pending::Lookup, ManifestEvent::Failed) => {
                failure = Some(UpgradeError::Lookup(targets[applied].name.clone()));
            },
            (Pending::Apply, ManifestEvent::Failed) => {
                failure = Some(UpgradeError::Edit(targets[applied].name.clone()));
            },
            (Pending::Persist, ManifestEvent::Failed) => {
                failure = Some(UpgradeError::Write(copy_path(&manifest_path)));
            },
            _ => {},
        }
        ManifestRun {
            manifest_path,
            only_update,
            resolver,
            loaded,
            targets,
            applied,
            resolved,
            persisted,
            failure,
        }
    }

    /// Answers the run's request to load the manifest with a manifest that
    /// was opened, and reads the manifest's dependency sections for it. A
    /// manifest whose document has no table at its root cannot be read: for
    /// the run, loading it has failed. Where the run does not ask to load the
    /// manifest, it stays as it is.
    pub fn loaded(self, manifest: &cargo_edit::Manifest) -> (next: Self)
        ensures
            next@ == if manifest_action(self@) is Load {
                manifest_step(self@, loading_event(*manifest))
            } else {
                self@
            },
            manifest_run_consistent(next@),
    {
        proof {
            use_type_invariant(&self);
        }
        match self.pending() {
            Pending::Load => {
                if root_is_table(manifest) {
                    let yielded = read_sections(manifest);
                    self.advance(ManifestEvent::Loaded(keep_present(&yielded)))
                } else {
                    self.advance(ManifestEvent::Failed)
                }
            },
            _ => self,
        }
    }
}

/// Begins a run that upgrades one manifest in direct mode: every entry that
/// the traversal picks gets the latest version that the registry gives for
/// its name at the moment at which the run reaches the entry.
pub fn update_manifest<'a, S>(
    manifest_path: &Option<String>,
    only_update: &[String],
    allow_prerelease: bool,
) -> (run: ManifestRun<'a, S>)
    ensures
        run@ == new_run::<S>(
            manifest_path.deep_view(),
            only_update.deep_view(),
            ResolverView::Registry { allow_prerelease },
        ),
{
    ManifestRun::new(manifest_path, only_update, Resolver::Registry { allow_prerelease })
}

/// Begins a run that upgrades one manifest in cached mode: every entry that
/// the traversal picks gets the specifier that `new_deps` holds for its name.
pub fn update_manifest_from_cache<'a, S>(
    manifest_path: &Option<String>,
    only_update: &[String],
    new_deps: &'a VersionCache<S>,
) -> (run: ManifestRun<'a, S>)
    ensures
        run@ == new_run(
            manifest_path.deep_view(),
            only_update.deep_view(),
            ResolverView::Cache(new_deps@),
        ),
{
    ManifestRun::new(manifest_path, only_update, Resolver::Cache(new_deps))
}

/// A run that has not begun is consistent.
pub proof fn lemma_new_run_is_consistent<S>(
    manifest_path: Option<Seq<char>>,
    only_update: Seq<Seq<char>>,
    resolver: ResolverView<S>,
)
    ensures
        manifest_run_consistent(new_run(manifest_path, only_update, resolver)),
{
}

/// An event, whichever it is, takes a consistent run to a consistent run.
pub proof fn lemma_manifest_run_stays_consistent<S>(
    run: ManifestRunView<S>,
    event: ManifestEventView<S>,
)
    requires
        manifest_run_consistent(run),
    ensures
        manifest_run_consistent(manifest_step(run, event)),
{
    let next = manifest_step(run, event);
    match (manifest_action(run), event) {
        (ManifestActionView::Load { .. }, ManifestEventView::Loaded(sections)) => {
            assert forall|index: int| 0 <= index < next.targets.len() implies passes_selector(
                run.only_update,
                #[trigger] next.targets[index].name,
            ) by {
                let target = next.targets[index];
                assert(next.targets.contains(target));
                lemma_targets_are_the_upgraded_entries(run.only_update, sections, target);
            }
        },
        _ => {},
    }
}

/// A run that has ended stays as it is, whatever events follow.
pub proof fn lemma_ended_manifest_run_stays<S>(
    run: ManifestRunView<S>,
    events: Seq<ManifestEventView<S>>,
)
    requires
        manifest_run_ended(run),
    ensures
        manifest_steps(run, events) == run,
    decreases events.len(),
{
    if events.len() > 0 {
        lemma_ended_manifest_run_stays(run, events.drop_last());
    }
}

/// Nothing is written after a failure. Where an action of a run that has not
/// ended fails, then, whatever events follow, the run asks for nothing but to
/// abort with the error of that action: no further entry is looked up or
/// rewritten, and the manifest is not written to its file.
pub proof fn lemma_manifest_run_aborts_after_a_failure<S>(
    run: ManifestRunView<S>,
    events: Seq<ManifestEventView<S>>,
)
    requires
        !manifest_run_ended(run),
    ensures
        manifest_steps(manifest_step(run, ManifestEventView::Failed), events) == (ManifestRunView {
            failure: Some(manifest_failure(run)),
            ..run
        }),
        manifest_action(manifest_steps(manifest_step(run, ManifestEventView::Failed), events))
            == ManifestActionView::<S>::Abort(manifest_failure(run)),
{
    lemma_ended_manifest_run_stays(manifest_step(run, ManifestEventView::Failed), events);
}

/// A name that the cache lacks ends the run. Where the cached mode reaches a
/// target for whose name the cache holds nothing, the run asks to abort with
/// the fault that names it, and whatever events follow, it asks for nothing
/// else: the manifest is not written to its file.
pub proof fn lemma_missing_name_ends_run<S>(
    run: ManifestRunView<S>,
    events: Seq<ManifestEventView<S>>,
)
    requires
        run.failure is None,
        run.loaded,
        run.applied < run.targets.len(),
        run.resolver matches ResolverView::Cache(cache) && !cache.contains_key(
            run.targets[run.applied as int].name,
        ),
    ensures
        manifest_action(manifest_steps(run, events)) == ManifestActionView::<S>::Abort(
            UpgradeErrorView::MissingFromCache(run.targets[run.applied as int].name),
        ),
{
    lemma_ended_manifest_run_stays(run, events);
}

/// The manifest is written once every target was rewritten, and not before.
pub proof fn lemma_persist_follows_every_update<S>(run: ManifestRunView<S>)
    requires
        manifest_run_consistent(run),
        manifest_action(run) is Persist,
    ensures
        run.loaded,
        run.applied == run.targets.len(),
        run.failure is None,
{
}

/// A run that finishes has done all of its work: the manifest was loaded,
/// every target was rewritten, and the manifest was written.
pub proof fn lemma_finished_run_has_rewritten_every_target<S>(run: ManifestRunView<S>)
    requires
        manifest_run_consistent(run),
        manifest_action(run) is Finish,
    ensures
        run.loaded,
        run.applied == run.targets.len(),
        run.persisted,
        run.failure is None,
{
}

/// An event that answers the pending action of a run takes the run one
/// action further, or ends it: no action is asked for a second time.
pub proof fn lemma_answer_takes_manifest_run_further<S>(
    run: ManifestRunView<S>,
    event: ManifestEventView<S>,
)
    requires
        manifest_run_consistent(run),
        answers_manifest_action(run, event),
    ensures
        manifest_run_ended(manifest_step(run, event)) || manifest_progress(
            manifest_step(run, event),
        ) == manifest_progress(run) + 1,
{
}

/// Only what the traversal picks is rewritten. Whatever events follow the
/// loading of a manifest, a run asks to rewrite only entries of that manifest
/// whose name passes the selector and whose value is registry-eligible.
pub proof fn lemma_only_targets_are_rewritten<S>(
    run: ManifestRunView<S>,
    sections: Seq<SectionView>,
    events: Seq<ManifestEventView<S>>,
)
    requires
        manifest_action(run) is Load,
    ensures
        manifest_action(
            manifest_steps(manifest_step(run, ManifestEventView::Loaded(sections)), events),
        ) matches ManifestActionView::Apply(update) ==> exists|section: int, entry: int|
            #[trigger] upgrades_entry(run.only_update, sections, section, entry) && target_at(
                sections,
                section,
                entry,
            ) == (TargetView { table_path: update.table_path, name: update.name }),
{
    let loaded = manifest_step(run, ManifestEventView::Loaded(sections));
    let later = manifest_steps(loaded, events);
    lemma_targets_are_kept(loaded, events);
    if let ManifestActionView::Apply(update) = manifest_action(later) {
        let target = later.targets[later.applied as int];
        assert(manifest_targets(run.only_update, sections).contains(target));
        lemma_targets_are_the_upgraded_entries(run.only_update, sections, target);
    }
}

/// Once the manifest is loaded, the targets of a run stay as they are.
proof fn lemma_targets_are_kept<S>(run: ManifestRunView<S>, events: Seq<ManifestEventView<S>>)
    requires
        run.loaded,
    ensures
        manifest_steps(run, events).loaded,
        manifest_steps(run, events).targets == run.targets,
        manifest_steps(run, events).only_update == run.only_update,
    decreases events.len(),
{
    if events.len() > 0 {
        lemma_targets_are_kept(run, events.drop_last());
    }
}

/// The updates that result when each target gets the specifier that
/// `specifiers` holds for its name.
pub open spec fn resolved_updates<S>(
    targets: Seq<TargetView>,
    specifiers: Map<Seq<char>, S>,
) -> Seq<UpdateView<S>> {
    targets.map_values(
        |target: TargetView|
            UpdateView {
                table_path: target.table_path,
                name: target.name,
                specifier: specifiers[target.name],
            },
    )
}

/// What the cached mode writes. A run of the cached mode that stands before
/// a target whose name the cache holds asks for the update of that target
/// with the specifier of the cache.
pub proof fn lemma_cached_mode_applies_the_cache<S>(run: ManifestRunView<S>)
    requires
        run.failure is None,
        run.loaded,
        run.applied < run.targets.len(),
        run.resolver matches ResolverView::Cache(cache) && cache.contains_key(
            run.targets[run.applied as int].name,
        ),
    ensures
        manifest_action(run) == ManifestActionView::Apply(
            resolved_updates(run.targets, run.resolver->Cache_0)[run.applied as int],
        ),
{
}

/// What the direct mode writes. A run of the direct mode that stands before
/// a target, with the registry's answer for the name of that target in hand,
/// asks for the update of that target with the specifier of the registry.
pub proof fn lemma_direct_mode_applies_the_registry<S>(
    run: ManifestRunView<S>,
    registry: Map<Seq<char>, S>,
)
    requires
        run.failure is None,
        run.loaded,
        run.applied < run.targets.len(),
        run.resolver is Registry,
        run.resolved == Some(registry[run.targets[run.applied as int].name]),
    ensures
        manifest_action(run) == ManifestActionView::Apply(
            resolved_updates(run.targets, registry)[run.applied as int],
        ),
{
}

/// Direct and cached mode agree. Where the cache holds, for the name of every
/// target, the specifier that the registry gives for that name, the updates
/// of the cached mode are those of the direct mode, target by target.
pub proof fn lemma_direct_and_cached_mode_agree<S>(
    targets: Seq<TargetView>,
    registry: Map<Seq<char>, S>,
    cache: Map<Seq<char>, S>,
)
    requires
        forall|index: int|
            0 <= index < targets.len() ==> cache.contains_key(#[trigger] targets[index].name)
                && cache[targets[index].name] == registry[targets[index].name],
    ensures
        resolved_updates(targets, cache) == resolved_updates(targets, registry),
{
    assert(resolved_updates(targets, cache) =~= resolved_updates(targets, registry));
}

/// The events that take a run of the cached mode to the target at place
/// `count`, where nothing fails: the manifest is loaded, and `count` entries
/// are rewritten.
pub open spec fn cached_events<S>(sections: Seq<SectionView>, count: nat) -> Seq<
    ManifestEventView<S>,
> {
    seq![ManifestEventView::Loaded(sections)] + Seq::new(
        count,
        |place: int| ManifestEventView::Applied,
    )
}

/// The events that take a run of the direct mode to the target at place
/// `count`, where nothing fails and the registry gives `registry[name]` for
/// `name`: the manifest is loaded, and for each of `count` entries the
/// registry answers and the entry is rewritten.
pub open spec fn direct_events<S>(
    sections: Seq<SectionView>,
    only_update: Seq<Seq<char>>,
    registry: Map<Seq<char>, S>,
    count: nat,
) -> Seq<ManifestEventView<S>> {
    seq![ManifestEventView::Loaded(sections)] + Seq::new(
        2 * count,
        |place: int|
            if place % 2 == 0 {
                ManifestEventView::Resolved(
                    registry[manifest_targets(only_update, sections)[place / 2].name],
                )
            } else {
                ManifestEventView::Applied
            },
    )
}

/// The run after a sequence of events and one more.
proof fn lemma_one_more_step<S>(
    run: ManifestRunView<S>,
    events: Seq<ManifestEventView<S>>,
    event: ManifestEventView<S>,
)
    ensures
        manifest_steps(run, events.push(event)) == manifest_step(
            manifest_steps(run, events),
            event,
        ),
{
    assert(events.push(event).drop_last() =~= events);
}

/// A run of the cached mode in which nothing fails rewrites the targets in
/// the order of the traversal. Where the cache holds the names of the first
/// `count` targets, the run stands before the target at place `count` once
/// the manifest is loaded and `count` entries are rewritten.
pub proof fn lemma_cached_run_reaches_every_target<S>(
    manifest_path: Option<Seq<char>>,
    only_update: Seq<Seq<char>>,
    cache: Map<Seq<char>, S>,
    sections: Seq<SectionView>,
    count: nat,
)
    requires
        count <= manifest_targets(only_update, sections).len(),
        forall|index: int|
            0 <= index < count ==> cache.contains_key(
                #[trigger] manifest_targets(only_update, sections)[index].name,
            ),
    ensures
        manifest_steps(
            new_run(manifest_path, only_update, ResolverView::Cache(cache)),
            cached_events(sections, count),
        ) == (ManifestRunView {
            loaded: true,
            targets: manifest_targets(only_update, sections),
            applied: count,
            ..new_run(manifest_path, only_update, ResolverView::Cache(cache))
        }),
    decreases count,
{
    let begin = new_run(manifest_path, only_update, ResolverView::Cache(cache));
    let targets = manifest_targets(only_update, sections);
    if count == 0 {
        lemma_one_more_step(begin, Seq::empty(), ManifestEventView::Loaded(sections));
        assert(cached_events::<S>(sections, 0) =~= Seq::empty().push(
            ManifestEventView::Loaded(sections),
        ));
    } else {
        let before = (count - 1) as nat;
        lemma_cached_run_reaches_every_target(
            manifest_path,
            only_update,
            cache,
            sections,
            before,
        );
        lemma_one_more_step(
            begin,
            cached_events(sections, before),
            ManifestEventView::Applied,
        );
        assert(cached_events::<S>(sections, count) =~= cached_events::<S>(sections, before).push(
            ManifestEventView::Applied,
        ));
        assert(cache.contains_key(targets[before as int].name));
    }
}

/// A run of the direct mode in which nothing fails looks up and rewrites the
/// targets in the order of the traversal. The run stands before the target at
/// place `count`, with nothing from the registry in hand, once the manifest
/// is loaded and the registry has answered and the entry was rewritten for
/// each of the first `count` targets.
pub proof fn lemma_direct_run_reaches_every_target<S>(
    manifest_path: Option<Seq<char>>,
    only_update: Seq<Seq<char>>,
    allow_prerelease: bool,
    registry: Map<Seq<char>, S>,
    sections: Seq<SectionView>,
    count: nat,
)
    requires
        count <= manifest_targets(only_update, sections).len(),
    ensures
        manifest_steps(
            new_run(manifest_path, only_update, ResolverView::Registry { allow_prerelease }),
            direct_events(sections, only_update, registry, count),
        ) == (ManifestRunView {
            loaded: true,
            targets: manifest_targets(only_update, sections),
            applied: count,
            ..new_run::<S>(manifest_path, only_update, ResolverView::Registry { allow_prerelease })
        }),
    decreases count,
{
    let begin = new_run::<S>(
        manifest_path,
        only_update,
        ResolverView::Registry { allow_prerelease },
    );
    let targets = manifest_targets(only_update, sections);
    if count == 0 {
        lemma_one_more_step(begin, Seq::empty(), ManifestEventView::Loaded(sections));
        assert(direct_events(sections, only_update, registry, 0) =~= Seq::empty().push(
            ManifestEventView::Loaded(sections),
        ));
    } else {
        let before = (count - 1) as nat;
        lemma_direct_run_reaches_every_target(
            manifest_path,
            only_update,
            allow_prerelease,
            registry,
            sections,
            before,
        );
        let reached = direct_events(sections, only_update, registry, before);
        let answer = ManifestEventView::Resolved(registry[targets[before as int].name]);
        lemma_one_more_step(begin, reached, answer);
        lemma_one_more_step(begin, reached.push(answer), ManifestEventView::Applied);
        assert(direct_events(sections, only_update, registry, count) =~= reached.push(
            answer,
        ).push(ManifestEventView::Applied));
    }
}

/// Where the cache holds every name that passes the selector, the cached
/// mode never faults: whatever events follow, the run does not abort for a
/// name that the cache lacks.
pub proof fn lemma_cached_names_are_found<S>(
    run: ManifestRunView<S>,
    events: Seq<ManifestEventView<S>>,
)
    requires
        run.resolver matches ResolverView::Cache(cache) && forall|name: Seq<char>|
            passes_selector(run.only_update, name) ==> cache.contains_key(name),
        manifest_run_consistent(run),
        !(run.failure matches Some(UpgradeErrorView::MissingFromCache(_))),
    ensures
        !(manifest_action(manifest_steps(run, events)) matches ManifestActionView::Abort(
            UpgradeErrorView::MissingFromCache(_),
        )),
{
    lemma_cache_is_kept(run, events);
}

/// The resolver and the selector of a run stay as they are, a consistent run
/// stays consistent, and no event brings a fault that the run itself does not
/// find.
proof fn lemma_cache_is_kept<S>(run: ManifestRunView<S>, events: Seq<ManifestEventView<S>>)
    requires
        manifest_run_consistent(run),
        !(run.failure matches Some(UpgradeErrorView::MissingFromCache(_))),
    ensures
        manifest_steps(run, events).resolver == run.resolver,
        manifest_steps(run, events).only_update == run.only_update,
        manifest_run_consistent(manifest_steps(run, events)),
        !(manifest_steps(run, events).failure matches Some(
            UpgradeErrorView::MissingFromCache(_),
        )),
    decreases events.len(),
{
    if events.len() > 0 {
        lemma_cache_is_kept(run, events.drop_last());
        lemma_manifest_run_stays_consistent(
            manifest_steps(run, events.drop_last()),
            events.last(),
        );
    }
}

} // verus!
