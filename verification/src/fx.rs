//! Sets of strings hashed with the Fx hash (`rustc_hash`), by what they
//! hold.

use vstd::prelude::*;
use rustc_hash::{FxBuildHasher, FxHashSet};
use crate::text::views_of;

verus! {

/// The hasher of the engine's maps and sets (`rustc_hash`).
#[verifier::external_type_specification]
#[verifier::external_body]
pub struct ExFxBuildHasher(FxBuildHasher);

/// A set of strings.
pub type StrSet = FxHashSet<String>;

/// The strings a set holds, by their text.
pub uninterp spec fn str_set(s: std::collections::HashSet<String, FxBuildHasher>) -> Set<Seq<char>>;

/// The set of no string.
pub open spec fn no_strings() -> Set<Seq<char>> {
    Set::empty()
}

/// `FxHashSet::default()`: a set with no string.
#[verifier::external_body]
pub(crate) fn strset_new() -> (r: StrSet)
    ensures
        str_set(r) == no_strings(),
{
    FxHashSet::default()
}

/// `HashSet::insert`: `k` is in the set.
#[verifier::external_body]
pub(crate) fn strset_insert(s: &mut StrSet, k: String)
    ensures
        str_set(*final(s)) == str_set(*old(s)).insert(k@),
{
    s.insert(k);
}

/// `HashSet::contains`: whether `k` is in the set.
#[verifier::external_body]
pub(crate) fn strset_contains(s: &StrSet, k: &str) -> (r: bool)
    ensures
        r == str_set(*s).contains(k@),
{
    s.contains(k)
}

/// `HashSet::is_empty`: whether the set holds no string.
#[verifier::external_body]
pub(crate) fn strset_is_empty(s: &StrSet) -> (r: bool)
    ensures
        r == (str_set(*s) == no_strings()),
{
    s.is_empty()
}

/// `HashSet::clone`: a set with the same strings.
#[verifier::external_body]
pub(crate) fn strset_copy(s: &StrSet) -> (r: StrSet)
    ensures
        str_set(r) == str_set(*s),
{
    s.clone()
}

/// `HashSet::union`, each string copied: the strings of either set.
#[verifier::external_body]
pub(crate) fn strset_union(a: &StrSet, b: &StrSet) -> (r: StrSet)
    ensures
        str_set(r) == str_set(*a).union(str_set(*b)),
{
    a.union(b).cloned().collect()
}

/// `HashSet::iter`, each string copied: the strings of the set, once
/// each; the order, which is the set's, is left open.
#[verifier::external_body]
pub(crate) fn strset_items(s: &StrSet) -> (r: Vec<String>)
    ensures
        forall|x: Seq<char>| views_of(r@).contains(x) <==> str_set(*s).contains(x),
        views_of(r@).no_duplicates(),
{
    s.iter().cloned().collect()
}

} // verus!
