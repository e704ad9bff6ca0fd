//! The traversal of a manifest that picks the entries to upgrade.
//!
//! Sections are visited in the manifest's order and the entries of a section
//! in declaration order. An entry is picked if its name passes the selector
//! and its value is registry-eligible.

use vstd::prelude::*;
use crate::eligibility::{is_registry_eligible, registry_eligible};
use crate::manifest::{EntryView, Section, SectionView};
use crate::names::contains_name;

verus! {

/// An entry picked for upgrade: the section it stands in and its name.
#[derive(Clone, Debug, PartialEq, Eq)]
pub struct Target {
    pub table_path: Vec<String>,
    pub name: String,
}

/// The mathematical content of a `Target`.
pub struct TargetView {
    pub table_path: Seq<Seq<char>>,
    pub name: Seq<char>,
}

impl DeepView for Target {
    type V = TargetView;

    open spec fn deep_view(&self) -> TargetView {
        TargetView { table_path: self.table_path.deep_view(), name: self.name@ }
    }
}

/// Whether a dependency name passes the upgrade selector: an empty selector
/// admits every name, a non-empty one only the names it lists.
pub open spec fn passes_selector(selector: Seq<Seq<char>>, name: Seq<char>) -> bool {
    selector.len() == 0 || selector.contains(name)
}

/// An entry is upgraded if and only if its name passes the selector and its
/// value is registry-eligible.
pub open spec fn is_upgrade_target(selector: Seq<Seq<char>>, entry: EntryView) -> bool {
    passes_selector(selector, entry.name) && registry_eligible(entry.keys)
}

/// The entries of one section that are upgraded, in declaration order.
pub open spec fn section_targets(selector: Seq<Seq<char>>, section: SectionView) -> Seq<
    TargetView,
> {
    section.entries.filter(|entry: EntryView| is_upgrade_target(selector, entry)).map_values(
        |entry: EntryView| TargetView { table_path: section.table_path, name: entry.name },
    )
}

/// The entries of a manifest that are upgraded: section by section in the
/// manifest's order, and within a section in declaration order.
pub open spec fn manifest_targets(selector: Seq<Seq<char>>, sections: Seq<SectionView>) -> Seq<
    TargetView,
> {
    sections.flat_map(|section: SectionView| section_targets(selector, section))
}

/// The targets among the first `count` entries of a section.
spec fn targets_before(selector: Seq<Seq<char>>, section: SectionView, count: int) -> Seq<
    TargetView,
> {
    section_targets(
        selector,
        SectionView { table_path: section.table_path, entries: section.entries.take(count) },
    )
}

/// The targets among the entries of a section, one entry further.
proof fn lemma_targets_before_step(selector: Seq<Seq<char>>, section: SectionView, count: int)
    requires
        0 <= count < section.entries.len(),
    ensures
        targets_before(selector, section, count + 1) == if is_upgrade_target(
            selector,
            section.entries[count],
        ) {
            targets_before(selector, section, count).push(
                TargetView { table_path: section.table_path, name: section.entries[count].name },
            )
        } else {
            targets_before(selector, section, count)
        },
{
    let entries = section.entries;
    let keep = |entry: EntryView| is_upgrade_target(selector, entry);
    let target = |entry: EntryView|
        TargetView { table_path: section.table_path, name: entry.name };
    entries.lemma_take_succ_push(count);
    entries.take(count).lemma_filter_push(entries[count], keep);
    if keep(entries[count]) {
        entries.take(count).filter(keep).lemma_push_map_commute(target, entries[count]);
    }
}

/// The traversal shared by both modes of the updater: the entries to upgrade,
/// in the order in which they are visited.
pub fn upgrade_targets(sections: &Vec<Section>, only_update: &[String]) -> (targets: Vec<Target>)
    ensures
        targets.deep_view() == manifest_targets(only_update.deep_view(), sections.deep_view()),
{
    let ghost selector = only_update.deep_view();
    let ghost all = sections.deep_view();
    let mut targets: Vec<Target> = Vec::new();
    let mut i: usize = 0;
    assert(all.take(0) =~= Seq::empty());
    assert(targets.deep_view() =~= Seq::empty());
    while i < sections.len()
        invariant
            i <= sections.len(),
            selector == only_update.deep_view(),
            all == sections.deep_view(),
            targets.deep_view() == manifest_targets(selector, all.take(i as int)),
        decreases sections.len() - i,
    {
        let section = &sections[i];
        let ghost view = section.deep_view();
        let ghost done = targets.deep_view();
        let mut j: usize = 0;
        assert(view.entries.take(0) =~= Seq::empty());
        assert(targets_before(selector, view, 0) =~= Seq::empty());
        while j < section.entries.len()
            invariant
                j <= section.entries.len(),
                selector == only_update.deep_view(),
                view == section.deep_view(),
                targets.deep_view() == done + targets_before(selector, view, j as int),
            decreases section.entries.len() - j,
        {
            let entry = &section.entries[j];
            proof {
                lemma_targets_before_step(selector, view, j as int);
            }
            if (only_update.len() == 0 || contains_name(only_update, entry.name.as_str()))
                && is_registry_eligible(&entry.keys) {
                let ghost before = targets.deep_view();
                let target = Target {
                    table_path: section.table_path.clone(),
                    name: entry.name.clone(),
                };
                assert(target.deep_view() == TargetView {
                    table_path: view.table_path,
                    name: view.entries[j as int].name,
                });
                targets.push(target);
                assert(targets.deep_view() =~= before.push(target.deep_view()));
            }
            j += 1;
        }
        proof {
            assert(view.entries.take(j as int) =~= view.entries);
            all.lemma_flat_map_take_append(
                |section: SectionView| section_targets(selector, section),
                i as int,
            );
        }
        i += 1;
    }
    assert(all.take(i as int) =~= all);
    targets
}

/// The target that the entry at place `entry` of the section at place
/// `section` gives.
pub open spec fn target_at(sections: Seq<SectionView>, section: int, entry: int) -> TargetView {
    TargetView {
        table_path: sections[section].table_path,
        name: sections[section].entries[entry].name,
    }
}

/// Whether the entry at place `entry` of the section at place `section` is
/// upgraded.
pub open spec fn upgrades_entry(
    selector: Seq<Seq<char>>,
    sections: Seq<SectionView>,
    section: int,
    entry: int,
) -> bool {
    &&& 0 <= section < sections.len()
    &&& 0 <= entry < sections[section].entries.len()
    &&& is_upgrade_target(selector, sections[section].entries[entry])
}

/// The targets of a section are its entries that are upgraded.
proof fn lemma_section_targets(selector: Seq<Seq<char>>, section: SectionView, target: TargetView)
    ensures
        section_targets(selector, section).contains(target) <==> exists|entry: int|
            0 <= entry < section.entries.len() && is_upgrade_target(
                selector,
                #[trigger] section.entries[entry],
            ) && target == (TargetView {
                table_path: section.table_path,
                name: section.entries[entry].name,
            }),
{
    let keep = |entry: EntryView| is_upgrade_target(selector, entry);
    let make = |entry: EntryView|
        TargetView { table_path: section.table_path, name: entry.name };
    let kept = section.entries.filter(keep);
    let targets = section_targets(selector, section);
    assert(targets == kept.map_values(make));
    if targets.contains(target) {
        let k = choose|k: int| 0 <= k < targets.len() && targets[k] == target;
        section.entries.lemma_filter_pred(keep, k);
        assert(kept.contains(kept[k]));
        section.entries.lemma_filter_contains_rev(keep, kept[k]);
        let entry = choose|entry: int|
            0 <= entry < section.entries.len() && section.entries[entry] == kept[k];
        assert(is_upgrade_target(selector, section.entries[entry]));
    }
    if exists|entry: int|
        0 <= entry < section.entries.len() && is_upgrade_target(
            selector,
            #[trigger] section.entries[entry],
        ) && target == (TargetView {
            table_path: section.table_path,
            name: section.entries[entry].name,
        }) {
        let entry = choose|entry: int|
            0 <= entry < section.entries.len() && is_upgrade_target(
                selector,
                #[trigger] section.entries[entry],
            ) && target == (TargetView {
                table_path: section.table_path,
                name: section.entries[entry].name,
            });
        section.entries.lemma_filter_contains(keep, entry);
        let k = choose|k: int| 0 <= k < kept.len() && kept[k] == section.entries[entry];
        assert(targets[k] == target);
    }
}

/// What a run upgrades: the targets of a manifest are exactly its entries
/// whose name passes the selector and whose value is registry-eligible, each
/// under the table path of its section.
pub proof fn lemma_targets_are_the_upgraded_entries(
    selector: Seq<Seq<char>>,
    sections: Seq<SectionView>,
    target: TargetView,
)
    ensures
        manifest_targets(selector, sections).contains(target) <==> exists|section: int, entry: int|
            #[trigger] upgrades_entry(selector, sections, section, entry) && target == target_at(
                sections,
                section,
                entry,
            ),
    decreases sections.len(),
{
    let of_section = |section: SectionView| section_targets(selector, section);
    let targets = manifest_targets(selector, sections);
    if sections.len() == 0 {
        assert(sections.map_values(of_section) =~= Seq::empty());
        assert(targets =~= Seq::empty());
    } else {
        let front = sections.drop_last();
        let last = sections.last();
        let at_end = sections.len() - 1;
        assert(sections =~= front.push(last));
        front.lemma_flat_map_push(of_section, last);
        assert(targets =~= manifest_targets(selector, front) + section_targets(selector, last));
        lemma_targets_are_the_upgraded_entries(selector, front, target);
        lemma_section_targets(selector, last, target);
        if targets.contains(target) {
            let k = choose|k: int| 0 <= k < targets.len() && targets[k] == target;
            if k < manifest_targets(selector, front).len() {
                assert(manifest_targets(selector, front)[k] == target);
                assert(manifest_targets(selector, front).contains(target));
                let (section, entry) = choose|section: int, entry: int|
                    #[trigger] upgrades_entry(selector, front, section, entry) && target
                        == target_at(front, section, entry);
                assert(upgrades_entry(selector, sections, section, entry));
            } else {
                let at = k - manifest_targets(selector, front).len();
                assert(section_targets(selector, last)[at] == target);
                assert(section_targets(selector, last).contains(target));
                let entry = choose|entry: int|
                    0 <= entry < last.entries.len() && is_upgrade_target(
                        selector,
                        #[trigger] last.entries[entry],
                    ) && target == (TargetView {
                        table_path: last.table_path,
                        name: last.entries[entry].name,
                    });
                assert(upgrades_entry(selector, sections, at_end, entry));
            }
        }
        if exists|section: int, entry: int|
            #[trigger] upgrades_entry(selector, sections, section, entry) && target == target_at(
                sections,
                section,
                entry,
            ) {
            let (section, entry) = choose|section: int, entry: int|
                #[trigger] upgrades_entry(selector, sections, section, entry) && target
                    == target_at(sections, section, entry);
            if section < at_end {
                assert(upgrades_entry(selector, front, section, entry));
                assert(target == target_at(front, section, entry));
                let k = choose|k: int|
                    0 <= k < manifest_targets(selector, front).len() && manifest_targets(
                        selector,
                        front,
                    )[k] == target;
                assert(targets[k] == target);
            } else {
                assert(is_upgrade_target(selector, last.entries[entry]));
                let k = choose|k: int|
                    0 <= k < section_targets(selector, last).len() && section_targets(
                        selector,
                        last,
                    )[k] == target;
                assert(targets[manifest_targets(selector, front).len() + k] == target);
            }
        }
    }
}

/// With an empty selector every registry-eligible entry of every section is
/// upgraded.
pub proof fn lemma_empty_selector_upgrades_every_eligible_entry(
    sections: Seq<SectionView>,
    section: int,
    entry: int,
)
    requires
        0 <= section < sections.len(),
        0 <= entry < sections[section].entries.len(),
        registry_eligible(sections[section].entries[entry].keys),
    ensures
        manifest_targets(Seq::empty(), sections).contains(target_at(sections, section, entry)),
{
    lemma_targets_are_the_upgraded_entries(
        Seq::empty(),
        sections,
        target_at(sections, section, entry),
    );
    assert(upgrades_entry(Seq::empty(), sections, section, entry));
}

/// With a selector that is not empty, only entries that it names are
/// upgraded, whatever other eligible entries there are.
pub proof fn lemma_selector_restricts_targets(
    selector: Seq<Seq<char>>,
    sections: Seq<SectionView>,
    index: int,
)
    requires
        selector.len() > 0,
        0 <= index < manifest_targets(selector, sections).len(),
    ensures
        selector.contains(manifest_targets(selector, sections)[index].name),
{
    let target = manifest_targets(selector, sections)[index];
    assert(manifest_targets(selector, sections).contains(target));
    lemma_targets_are_the_upgraded_entries(selector, sections, target);
}

/// Every target is an entry of the manifest, and a registry-eligible one: no
/// entry that refers to a path or to a repository is ever upgraded.
pub proof fn lemma_every_target_is_eligible(
    selector: Seq<Seq<char>>,
    sections: Seq<SectionView>,
    index: int,
)
    requires
        0 <= index < manifest_targets(selector, sections).len(),
    ensures
        exists|section: int, entry: int|
            #[trigger] upgrades_entry(selector, sections, section, entry) && registry_eligible(
                sections[section].entries[entry].keys,
            ) && manifest_targets(selector, sections)[index] == target_at(
                sections,
                section,
                entry,
            ),
{
    let target = manifest_targets(selector, sections)[index];
    assert(manifest_targets(selector, sections).contains(target));
    lemma_targets_are_the_upgraded_entries(selector, sections, target);
}

} // verus!
