//! Lists of dependency names.

use vstd::prelude::*;

verus! {

/// The names of a list without repetition: each name once, at the place of
/// its first occurrence.
pub open spec fn distinct_names(names: Seq<Seq<char>>) -> Seq<Seq<char>> {
    names.remove_duplicates(Seq::empty())
}

/// Whether `names` holds `name`.
pub fn contains_name(names: &[String], name: &str) -> (found: bool)
    ensures
        found == names.deep_view().contains(name@),
{
    let needle = name.to_owned();
    let mut i: usize = 0;
    while i < names.len()
        invariant
            i <= names.len(),
            needle@ == name@,
            forall|k: int| 0 <= k < i ==> names.deep_view()[k] != name@,
        decreases names.len() - i,
    {
        if names[i] == needle {
            assert(names.deep_view()[i as int] == name@);
            return true;
        }
        i += 1;
    }
    false
}

/// A copy of a list of names.
pub fn copy_names(names: &[String]) -> (copy: Vec<String>)
    ensures
        copy.deep_view() == names.deep_view(),
{
    let mut copy: Vec<String> = Vec::new();
    let mut i: usize = 0;
    while i < names.len()
        invariant
            i <= names.len(),
            copy.len() == i,
            forall|k: int| 0 <= k < i ==> copy[k]@ == names[k]@,
        decreases names.len() - i,
    {
        copy.push(names[i].clone());
        i += 1;
    }
    assert(copy.deep_view() =~= names.deep_view());
    copy
}

/// The names of `names` without repetition, in the order of their first
/// occurrence.
pub fn distinct(names: &[String]) -> (kept: Vec<String>)
    ensures
        kept.deep_view() == distinct_names(names.deep_view()),
{
    let ghost all = names.deep_view();
    let mut kept: Vec<String> = Vec::new();
    let mut i: usize = 0;
    assert(all.take(0) =~= Seq::empty());
    assert(kept.deep_view() =~= Seq::empty());
    while i < names.len()
        invariant
            i <= names.len(),
            all == names.deep_view(),
            kept.deep_view() == distinct_names(all.take(i as int)),
        decreases names.len() - i,
    {
        let ghost seen = all.take(i as int);
        let ghost before = kept.deep_view();
        proof {
            seen.lemma_remove_duplicates_properties(Seq::empty());
            seen.lemma_remove_duplicates_append(all[i as int], Seq::empty());
            assert(seen + Seq::<Seq<char>>::empty() =~= seen);
            assert(all.take(i + 1) =~= seen + seq![all[i as int]]);
        }
        if !contains_name(kept.as_slice(), names[i].as_str()) {
            kept.push(names[i].clone());
            assert(kept.deep_view() =~= before + seq![all[i as int]]);
        }
        i += 1;
    }
    assert(all.take(i as int) =~= all);
    kept
}

/// Removing the repetitions from a list, beside names already seen, of which
/// none occurs twice, gives a list in which none occurs twice.
proof fn lemma_remove_duplicates_is_distinct(names: Seq<Seq<char>>, seen: Seq<Seq<char>>)
    requires
        seen.no_duplicates(),
    ensures
        names.remove_duplicates(seen).no_duplicates(),
    decreases names.len(),
{
    if names.len() == 0 {
    } else if seen.contains(names[0]) {
        lemma_remove_duplicates_is_distinct(names.skip(1), seen);
    } else {
        lemma_remove_duplicates_is_distinct(names.skip(1), seen + seq![names[0]]);
    }
}

/// One name for each distinct name: in `distinct_names(names)` no name occurs
/// twice, it holds a name if and only if `names` does, and so it is as long
/// as `names` has different names.
pub proof fn lemma_distinct_names(names: Seq<Seq<char>>)
    ensures
        distinct_names(names).no_duplicates(),
        forall|name: Seq<char>| distinct_names(names).contains(name) <==> names.contains(name),
        distinct_names(names).len() == names.to_set().len(),
{
    let kept = distinct_names(names);
    lemma_remove_duplicates_is_distinct(names, Seq::empty());
    names.lemma_remove_duplicates_properties(Seq::empty());
    assert(names + Seq::<Seq<char>>::empty() =~= names);
    assert(kept.to_set() =~= names.to_set());
    kept.unique_seq_to_set();
}

} // verus!
