//! Filters that remember byte strings for a time, kept by `message_filter`.

use message_filter::MessageFilter;
use vstd::prelude::*;

verus! {

/// The longest expiry time, in seconds, that the collections are made with.
pub const MAX_EXPIRY_SECONDS: i64 = 1_000_000_000;

/// Makes `MessageFilter` a type that contracts can speak of. What a filter
/// holds is known only through `filter_items`.
#[verifier::external_type_specification]
#[verifier::external_body]
#[verifier::reject_recursive_types(T)]
pub struct ExMessageFilter<T: Ord + Clone>(MessageFilter<T>);

/// The byte strings that a filter holds, expired ones that it has not yet
/// dropped included.
pub uninterp spec fn filter_items(filter: MessageFilter<Vec<u8>>) -> Set<Seq<u8>>;

/// The number of items that a filter is limited to, where it is.
pub uninterp spec fn filter_capacity(filter: MessageFilter<Vec<u8>>) -> Option<nat>;

/// Calls `MessageFilter::with_expiry_duration` with a duration of `seconds`
/// seconds. The new filter holds nothing and is not limited in number.
#[verifier::external_body]
pub(crate) fn filter_new(seconds: i64) -> (filter: MessageFilter<Vec<u8>>)
    requires
        0 <= seconds <= MAX_EXPIRY_SECONDS,
    ensures
        filter_items(filter) == Set::<Seq<u8>>::empty(),
        filter_capacity(filter) == None::<nat>,
{
    MessageFilter::with_expiry_duration(time::Duration::seconds(seconds))
}

/// Calls `MessageFilter::insert`. It first drops what has expired, which
/// depends on the clock, so the contract bounds the result from both sides:
/// afterwards the filter holds `item` and otherwise only what it held before,
/// and it hands back `item` only where it held it before. A filter that is
/// limited to no items would drop `item` at once, so it is left out.
#[verifier::external_body]
pub(crate) fn filter_insert(filter: &mut MessageFilter<Vec<u8>>, item: Vec<u8>) -> (previous: Option<
    Vec<u8>,
>)
    requires
        filter_capacity(*old(filter)) != Some(0nat),
    ensures
        filter_capacity(*final(filter)) == filter_capacity(*old(filter)),
        filter_items(*final(filter)).contains(item@),
        forall|other: Seq<u8>| #[trigger]
            filter_items(*final(filter)).contains(other) ==> other == item@ || filter_items(
                *old(filter),
            ).contains(other),
        previous matches Some(held) ==> held@ == item@ && filter_items(*old(filter)).contains(
            item@,
        ),
{
    filter.insert(item)
}

/// Calls `MessageFilter::contains`. It first drops what has expired, which
/// depends on the clock: afterwards the filter holds only what it held
/// before, and the answer is whether it still holds `item`.
#[verifier::external_body]
pub(crate) fn filter_contains(filter: &mut MessageFilter<Vec<u8>>, item: &Vec<u8>) -> (held: bool)
    ensures
        filter_capacity(*final(filter)) == filter_capacity(*old(filter)),
        filter_items(*final(filter)).subset_of(filter_items(*old(filter))),
        held == filter_items(*final(filter)).contains(item@),
{
    filter.contains(item)
}

} // verus!
