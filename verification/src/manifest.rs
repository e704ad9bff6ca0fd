//! The dependency sections of a manifest, as the updater reads them.
//!
//! A manifest that was edited in memory can hold keys whose item was emptied:
//! the entry of a dependency that was removed, or an attribute that was taken
//! out of an entry. Such a key is no longer part of the manifest. The document
//! still yields it, so it is read with a mark and left out here.

use vstd::prelude::*;

verus! {

/// One dependency entry of a manifest section.
#[derive(Clone, Debug, PartialEq, Eq)]
pub struct Entry {
    /// The name under which the section declares the dependency.
    pub name: String,
    /// The keys of the entry's value where that is a structured record,
    /// `None` where it is a bare scalar.
    pub keys: Option<Vec<String>>,
}

/// The mathematical content of an `Entry`.
pub struct EntryView {
    pub name: Seq<char>,
    /// The keys of a structured value, `None` for a bare scalar.
    pub keys: Option<Seq<Seq<char>>>,
}

impl DeepView for Entry {
    type V = EntryView;

    open spec fn deep_view(&self) -> EntryView {
        EntryView { name: self.name@, keys: self.keys.deep_view() }
    }
}

/// One dependency section of a manifest, with its entries in declaration
/// order.
#[derive(Clone, Debug, PartialEq, Eq)]
pub struct Section {
    /// The path of the section's table from the root of the document, such as
    /// `target`, a platform, `dev-dependencies`.
    pub table_path: Vec<String>,
    pub entries: Vec<Entry>,
}

/// The mathematical content of a `Section`.
pub struct SectionView {
    pub table_path: Seq<Seq<char>>,
    pub entries: Seq<EntryView>,
}

impl DeepView for Section {
    type V = SectionView;

    open spec fn deep_view(&self) -> SectionView {
        SectionView { table_path: self.table_path.deep_view(), entries: self.entries.deep_view() }
    }
}

/// A key of a structured record, as the document yields it.
#[derive(Clone, Debug, PartialEq, Eq)]
pub struct YieldedKey {
    pub name: String,
    /// Whether the item under the key was emptied.
    pub emptied: bool,
}

/// The mathematical content of a `YieldedKey`.
pub struct YieldedKeyView {
    pub name: Seq<char>,
    pub emptied: bool,
}

impl DeepView for YieldedKey {
    type V = YieldedKeyView;

    open spec fn deep_view(&self) -> YieldedKeyView {
        YieldedKeyView { name: self.name@, emptied: self.emptied }
    }
}

/// A key of a section with what stands under it, as the document yields it.
#[derive(Clone, Debug, PartialEq, Eq)]
pub struct YieldedEntry {
    pub name: String,
    /// Whether the item under the key was emptied.
    pub emptied: bool,
    /// The keys that the item yields where it is a structured record, `None`
    /// where it is not.
    pub keys: Option<Vec<YieldedKey>>,
}

/// The mathematical content of a `YieldedEntry`.
pub struct YieldedEntryView {
    pub name: Seq<char>,
    pub emptied: bool,
    pub keys: Option<Seq<YieldedKeyView>>,
}

impl DeepView for YieldedEntry {
    type V = YieldedEntryView;

    open spec fn deep_view(&self) -> YieldedEntryView {
        YieldedEntryView {
            name: self.name@,
            emptied: self.emptied,
            keys: self.keys.deep_view(),
        }
    }
}

/// A dependency section with every key that the document yields for it.
#[derive(Clone, Debug, PartialEq, Eq)]
pub struct YieldedSection {
    pub table_path: Vec<String>,
    pub entries: Vec<YieldedEntry>,
}

/// The mathematical content of a `YieldedSection`.
pub struct YieldedSectionView {
    pub table_path: Seq<Seq<char>>,
    pub entries: Seq<YieldedEntryView>,
}

impl DeepView for YieldedSection {
    type V = YieldedSectionView;

    open spec fn deep_view(&self) -> YieldedSectionView {
        YieldedSectionView {
            table_path: self.table_path.deep_view(),
            entries: self.entries.deep_view(),
        }
    }
}

/// The keys that a structured record carries: those that the document
/// yields, without the emptied ones.
pub open spec fn present_keys(keys: Seq<YieldedKeyView>) -> Seq<Seq<char>> {
    keys.filter(|key: YieldedKeyView| !key.emptied).map_values(|key: YieldedKeyView| key.name)
}

/// The entry that the manifest holds under a key whose item was not emptied.
pub open spec fn present_entry(entry: YieldedEntryView) -> EntryView {
    EntryView {
        name: entry.name,
        keys: match entry.keys {
            Some(keys) => Some(present_keys(keys)),
            None => None,
        },
    }
}

/// The entries that a section holds: one for each key that the document
/// yields, without the emptied ones.
pub open spec fn present_entries(entries: Seq<YieldedEntryView>) -> Seq<EntryView> {
    entries.filter(|entry: YieldedEntryView| !entry.emptied).map_values(
        |entry: YieldedEntryView| present_entry(entry),
    )
}

/// The sections of a manifest as the updater reads them: every section that
/// the document yields, with the entries and the keys that were not emptied.
pub open spec fn present_sections(sections: Seq<YieldedSectionView>) -> Seq<SectionView> {
    sections.map_values(
        |section: YieldedSectionView|
            SectionView {
                table_path: section.table_path,
                entries: present_entries(section.entries),
            },
    )
}

/// The keys that a structured record carries.
fn keep_present_keys(keys: &Vec<YieldedKey>) -> (kept: Vec<String>)
    ensures
        kept.deep_view() == present_keys(keys.deep_view()),
{
    let ghost all = keys.deep_view();
    let ghost present = |key: YieldedKeyView| !key.emptied;
    let ghost name = |key: YieldedKeyView| key.name;
    let mut kept: Vec<String> = Vec::new();
    let mut i: usize = 0;
    proof {
        assert(all.take(0) =~= Seq::empty());
        assert(all.take(0).filter(present) =~= Seq::empty()) by {
            all.take(0).lemma_filter_len(present);
        }
        assert(kept.deep_view() =~= present_keys(all.take(0)));
    }
    while i < keys.len()
        invariant
            i <= keys.len(),
            all == keys.deep_view(),
            present == |key: YieldedKeyView| !key.emptied,
            name == |key: YieldedKeyView| key.name,
            kept.deep_view() == all.take(i as int).filter(present).map_values(name),
        decreases keys.len() - i,
    {
        let ghost before = kept.deep_view();
        proof {
            all.lemma_take_succ_push(i as int);
            all.take(i as int).lemma_filter_push(all[i as int], present);
            if present(all[i as int]) {
                all.take(i as int).filter(present).lemma_push_map_commute(name, all[i as int]);
            }
        }
        if !keys[i].emptied {
            kept.push(keys[i].name.clone());
            assert(kept.deep_view() =~= before.push(all[i as int].name));
        }
        i += 1;
    }
    assert(all.take(i as int) =~= all);
    kept
}

/// The entries that a section holds.
fn keep_present_entries(entries: &Vec<YieldedEntry>) -> (kept: Vec<Entry>)
    ensures
        kept.deep_view() == present_entries(entries.deep_view()),
{
    let ghost all = entries.deep_view();
    let ghost present = |entry: YieldedEntryView| !entry.emptied;
    let ghost held = |entry: YieldedEntryView| present_entry(entry);
    let mut kept: Vec<Entry> = Vec::new();
    let mut i: usize = 0;
    proof {
        assert(all.take(0) =~= Seq::empty());
        assert(all.take(0).filter(present) =~= Seq::empty()) by {
            all.take(0).lemma_filter_len(present);
        }
        assert(kept.deep_view() =~= present_entries(all.take(0)));
    }
    while i < entries.len()
        invariant
            i <= entries.len(),
            all == entries.deep_view(),
            present == |entry: YieldedEntryView| !entry.emptied,
            held == |entry: YieldedEntryView| present_entry(entry),
            kept.deep_view() == all.take(i as int).filter(present).map_values(held),
        decreases entries.len() - i,
    {
        let ghost before = kept.deep_view();
        proof {
            all.lemma_take_succ_push(i as int);
            all.take(i as int).lemma_filter_push(all[i as int], present);
            if present(all[i as int]) {
                all.take(i as int).filter(present).lemma_push_map_commute(held, all[i as int]);
            }
        }
        if !entries[i].emptied {
            let keys = match &entries[i].keys {
                Some(keys) => Some(keep_present_keys(keys)),
                None => None,
            };
            let entry = Entry { name: entries[i].name.clone(), keys };
            assert(entry.deep_view() == present_entry(all[i as int]));
            kept.push(entry);
            assert(kept.deep_view() =~= before.push(present_entry(all[i as int])));
        }
        i += 1;
    }
    assert(all.take(i as int) =~= all);
    kept
}

/// The sections of a manifest as the updater reads them, from what the
/// document yields: emptied entries and emptied keys are left out.
pub fn keep_present(sections: &Vec<YieldedSection>) -> (kept: Vec<Section>)
    ensures
        kept.deep_view() == present_sections(sections.deep_view()),
{
    let mut kept: Vec<Section> = Vec::new();
    let mut i: usize = 0;
    while i < sections.len()
        invariant
            i <= sections.len(),
            kept.len() == i,
            forall|k: int|
                0 <= k < i ==> (#[trigger] kept[k]).deep_view() == (SectionView {
                    table_path: sections[k].table_path.deep_view(),
                    entries: present_entries(sections[k].entries.deep_view()),
                }),
        decreases sections.len() - i,
    {
        let section = Section {
            table_path: sections[i].table_path.clone(),
            entries: keep_present_entries(&sections[i].entries),
        };
        kept.push(section);
        i += 1;
    }
    assert(kept.deep_view() =~= present_sections(sections.deep_view()));
    kept
}

/// `cargo_edit::Manifest`, a manifest held in memory as an editable document.
/// Nothing of its inside is known here but what `manifest_root_is_table` and
/// `manifest_sections` name.
#[verifier::external_type_specification]
#[verifier::external_body]
pub struct ExManifest(cargo_edit::Manifest);

/// Whether the root of the manifest's document is a table. Every manifest that
/// was parsed has such a root; one whose root was replaced by hand may not.
pub uninterp spec fn manifest_root_is_table(manifest: cargo_edit::Manifest) -> bool;

/// The dependency sections of a manifest whose root is a table, in the order
/// in which the manifest yields them, each with every key that its table
/// yields, in the table's order.
pub uninterp spec fn manifest_sections(manifest: cargo_edit::Manifest) -> Seq<
    YieldedSectionView,
>;

/// Reads the public field `data.root` of the manifest and calls
/// `toml_edit::Item::is_table` on it. Claimed: the result says whether the
/// root of the document is a table.
#[verifier::external_body]
pub(crate) fn root_is_table(manifest: &cargo_edit::Manifest) -> (is_table: bool)
    ensures
        is_table == manifest_root_is_table(*manifest),
{
    manifest.data.root.is_table()
}

/// Calls `cargo_edit::Manifest::get_sections`, which asks for the root table
/// of the document and does not return where there is none, and copies what
/// it returns. Claimed: the result holds one section for each pair that
/// `get_sections` yields, in its order, with the pair's table path; and in
/// each section one entry for each key that the pair's table yields, in the
/// table's order, with the key as its name, with the answer of `is_none` on
/// the item under it, and, where that item is a table or an inline table,
/// with each key that it yields and the answer of `is_none` on the item under
/// that key.
#[verifier::external_body]
pub(crate) fn read_sections(manifest: &cargo_edit::Manifest) -> (sections: Vec<
    YieldedSection,
>)
    requires
        manifest_root_is_table(*manifest),
    ensures
        sections.deep_view() == manifest_sections(*manifest),
{
    manifest.get_sections().into_iter().map(|(table_path, table)| YieldedSection {
        table_path,
        entries: table.as_table_like().into_iter().flat_map(|entries| entries.iter())
            .map(|(name, item)| YieldedEntry {
                name: name.to_owned(),
                emptied: item.is_none(),
                keys: item.as_table_like().map(|record| record.iter()
                    .map(|(key, under)| YieldedKey {
                        name: key.to_owned(),
                        emptied: under.is_none(),
                    }).collect()),
            }).collect(),
    }).collect()
}

} // verus!
