//! The eligibility filter: which dependency entries come from the registry.
//!
//! Of the raw value of an entry the filter reads one thing: the keys, where
//! the value is a structured record. They are written `Some(keys)`, and `None`
//! stands for a bare scalar.

use vstd::prelude::*;
use crate::names::contains_name;

verus! {

/// A value is registry-eligible unless it is a structured record that carries
/// a `git` or a `path` key. `keys` is `None` for a bare scalar.
pub open spec fn registry_eligible(keys: Option<Seq<Seq<char>>>) -> bool {
    match keys {
        None => true,
        Some(keys) => !keys.contains("git"@) && !keys.contains("path"@),
    }
}

/// What the filter decides: a structured value with a `git` or a `path` key is
/// not eligible; a bare scalar is eligible, and so is a structured value with
/// neither of the two keys, whatever else it holds.
pub proof fn lemma_registry_eligible(keys: Seq<Seq<char>>)
    ensures
        registry_eligible(None),
        keys.contains("git"@) || keys.contains("path"@) ==> !registry_eligible(Some(keys)),
        !keys.contains("git"@) && !keys.contains("path"@) ==> registry_eligible(Some(keys)),
{
}

/// The eligibility filter on the keys of a value.
pub fn is_registry_eligible(keys: &Option<Vec<String>>) -> (eligible: bool)
    ensures
        eligible == registry_eligible(keys.deep_view()),
{
    match keys {
        None => true,
        Some(keys) => {
            !contains_name(keys.as_slice(), "git") && !contains_name(keys.as_slice(), "path")
        },
    }
}

/// `toml::Value`, a parsed TOML value. Nothing of its inside is known here but
/// what `toml_table_keys` names.
#[verifier::external_type_specification]
#[verifier::external_body]
pub struct ExTomlValue(toml::Value);

/// The keys of a TOML value that is a table, in the order in which the table
/// yields them; `None` for a value that is no table.
pub uninterp spec fn toml_table_keys(value: toml::Value) -> Option<Seq<Seq<char>>>;

/// Calls `toml::Value::as_table` and, on the map that it gives, `keys`.
/// Claimed: the result is `None` exactly where the value is no table, and
/// else a copy of every key of the table, in the table's order.
#[verifier::external_body]
fn table_keys(value: &toml::Value) -> (keys: Option<Vec<String>>)
    ensures
        keys.deep_view() == toml_table_keys(*value),
{
    value.as_table().map(|table| table.keys().cloned().collect())
}

/// The eligibility filter on a TOML value: a table is eligible if and only if
/// it has neither a `git` nor a `path` key, and every other value is eligible.
pub fn is_version_dependency(dep: &toml::Value) -> (eligible: bool)
    ensures
        eligible == registry_eligible(toml_table_keys(*dep)),
{
    is_registry_eligible(&table_keys(dep))
}

} // verus!
