//! The record of the helpers that have been loaded.
//!
//! The record is a hash map from `rustc_hash`, keyed by helper name. The
//! verifier does not look inside it: what it holds goes by the name
//! [`loaded_helpers`], and the four operations below are taken on trust.

use rustc_hash::{FxBuildHasher, FxHashMap};
use vstd::prelude::*;

verus! {

/// The hasher builder of `rustc_hash`, opaque to the verifier.
#[verifier::external_type_specification]
#[verifier::external_body]
pub struct ExFxBuildHasher(FxBuildHasher);

/// The record: from helper name to the name that the helper is reached
/// by and the index of the symbol that this name is bound to.
pub type HelperRecord = FxHashMap<String, (String, Option<usize>)>;

/// What the record holds: for each helper name that has been loaded, the
/// name that the helper is reached by and the index of the symbol that
/// this name is bound to, if it is bound.
pub uninterp spec fn loaded_helpers(record: HelperRecord) -> Map<
    Seq<char>,
    (Seq<char>, Option<usize>),
>;

/// The contents of a record that holds nothing.
pub open spec fn nothing_loaded() -> Map<Seq<char>, (Seq<char>, Option<usize>)> {
    Map::empty()
}

/// `FxHashMap::default`: a record that holds nothing.
#[verifier::external_body]
pub(crate) fn new_record() -> (record: HelperRecord)
    ensures
        loaded_helpers(record) == nothing_loaded(),
{
    FxHashMap::default()
}

/// `HashMap::contains_key`: whether the record holds an entry for
/// `helper`.
#[verifier::external_body]
pub(crate) fn is_loaded(record: &HelperRecord, helper: &str) -> (loaded: bool)
    ensures
        loaded == loaded_helpers(*record).contains_key(helper@),
{
    record.contains_key(helper)
}

/// `HashMap::get`: a copy of the entry that the record holds for
/// `helper`, if it holds one.
#[verifier::external_body]
pub(crate) fn loaded_entry(
    record: &HelperRecord,
    helper: &str,
) -> (entry: Option<(String, Option<usize>)>)
    ensures
        entry is Some == loaded_helpers(*record).contains_key(helper@),
        entry is Some ==> loaded_helpers(*record)[helper@] == (
            entry.unwrap().0@,
            entry.unwrap().1,
        ),
{
    record.get(helper).cloned()
}

/// `HashMap::insert`: the record afterwards holds `(name, symbol)` for
/// `helper`, in place of what it held for that helper before, and is
/// otherwise unchanged.
#[verifier::external_body]
pub(crate) fn record_loaded(
    record: &mut HelperRecord,
    helper: String,
    name: String,
    symbol: Option<usize>,
)
    ensures
        loaded_helpers(*final(record)) == loaded_helpers(*old(record)).insert(
            helper@,
            (name@, symbol),
        ),
{
    record.insert(helper, (name, symbol));
}

} // verus!
