//! The version cache: the latest specifier of each dependency name, looked up
//! once and shared by every manifest of a run.

use vstd::prelude::*;
use vstd::hash_map::StringHashMap;

verus! {

/// A mapping from dependency name to the specifier that the registry gave for
/// it. The cache never looks inside a specifier.
#[verifier::reject_recursive_types(S)]
pub struct VersionCache<S> {
    specifiers: StringHashMap<S>,
}

impl<S> View for VersionCache<S> {
    type V = Map<Seq<char>, S>;

    closed spec fn view(&self) -> Map<Seq<char>, S> {
        self.specifiers@
    }
}

impl<S> VersionCache<S> {
    /// A cache without entries.
    pub fn new() -> (cache: Self)
        ensures
            cache@ == Map::<Seq<char>, S>::empty(),
    {
        VersionCache { specifiers: StringHashMap::new() }
    }

    /// Records the specifier of `name`, in place of an earlier one if there
    /// is any.
    pub fn insert(&mut self, name: String, specifier: S)
        ensures
            final(self)@ == old(self)@.insert(name@, specifier),
    {
        self.specifiers.insert(name, specifier);
    }

    /// Whether the cache holds a specifier for `name`.
    pub fn contains(&self, name: &str) -> (found: bool)
        ensures
            found == self@.contains_key(name@),
    {
        self.specifiers.contains_key(name)
    }

    /// The specifier of `name`, if the cache holds one.
    pub fn get(&self, name: &str) -> (specifier: Option<&S>)
        ensures
            match specifier {
                Some(found) => self@.contains_key(name@) && *found == self@[name@],
                None => !self@.contains_key(name@),
            },
    {
        self.specifiers.get(name)
    }
}

} // verus!
