pub mod category;
pub mod recipe;

use vstd::prelude::*;

verus! {

/// The greatest number of rows a store accepts, chosen so that a search's
/// `count` always fits in an `i64`.
pub const STORE_CAPACITY: u64 = 0x7fff_ffff_ffff_ffff;

/// Relies on uuid's `Uuid::new_v4` and its `Display` impl: a fresh random
/// version-4 identifier, rendered in the hyphenated form of 32 lowercase
/// hexadecimal digits and 4 hyphens. The draw is random, so nothing relates
/// one result to another; callers check freshness against the store.
#[verifier::external_body]
pub(crate) fn fresh_id() -> (r: String)
    ensures
        r@.len() == 36,
{
    uuid::Uuid::new_v4().to_string()
}

/// Filtering a sequence extended by one element keeps the old filtered prefix
/// and appends the new element exactly when it satisfies the predicate.
pub proof fn lemma_filter_push<A>(s: Seq<A>, pred: spec_fn(A) -> bool, x: A)
    ensures
        s.push(x).filter(pred) == if pred(x) {
            s.filter(pred).push(x)
        } else {
            s.filter(pred)
        },
{
    reveal(Seq::filter);
    assert(s.push(x).drop_last() =~= s);
    assert(s.push(x).last() == x);
}

} // verus!
