//! The accumulator that collects the senders of one message until enough of
//! them have sent it, kept by `accumulator`.

use crate::filter::MAX_EXPIRY_SECONDS;
use accumulator::Accumulator;
use vstd::prelude::*;

verus! {

/// Makes `Accumulator` a type that contracts can speak of. What an
/// accumulator holds is known only through `accumulated` and `quorum_of`.
#[verifier::external_type_specification]
#[verifier::external_body]
#[verifier::reject_recursive_types(Key)]
#[verifier::reject_recursive_types(Value)]
pub struct ExAccumulator<Key: PartialOrd + Ord + Clone, Value: Clone>(Accumulator<Key, Value>);

/// The values gathered under each key, in the order they came, expired keys
/// that have not yet been dropped included.
pub uninterp spec fn accumulated(accumulator: Accumulator<Vec<u8>, Vec<u8>>) -> Map<
    Seq<u8>,
    Seq<Seq<u8>>,
>;

/// The number of values from which on a key's values are handed out.
pub uninterp spec fn quorum_of(accumulator: Accumulator<Vec<u8>, Vec<u8>>) -> nat;

/// The number of keys that an accumulator is limited to.
pub uninterp spec fn accumulator_capacity(accumulator: Accumulator<Vec<u8>, Vec<u8>>) -> nat;

/// The byte strings that the vectors hold.
pub open spec fn byte_strings(values: Seq<Vec<u8>>) -> Seq<Seq<u8>> {
    values.map_values(|value: Vec<u8>| value@)
}

/// Calls `Accumulator::with_duration` with a duration of `seconds` seconds.
/// The new accumulator holds nothing, has the given quorum and is limited
/// to as many keys as a `usize` counts.
#[verifier::external_body]
pub(crate) fn accumulator_new(quorum: usize, seconds: i64) -> (accumulator: Accumulator<
    Vec<u8>,
    Vec<u8>,
>)
    requires
        0 <= seconds <= MAX_EXPIRY_SECONDS,
    ensures
        accumulated(accumulator).dom() == Set::<Seq<u8>>::empty(),
        quorum_of(accumulator) == quorum,
        accumulator_capacity(accumulator) == usize::MAX,
{
    Accumulator::with_duration(quorum, time::Duration::seconds(seconds))
}

/// Calls `Accumulator::set_quorum_size`, which changes the quorum and
/// nothing else.
#[verifier::external_body]
pub(crate) fn accumulator_set_quorum(accumulator: &mut Accumulator<Vec<u8>, Vec<u8>>, quorum: usize)
    ensures
        accumulated(*final(accumulator)) == accumulated(*old(accumulator)),
        accumulator_capacity(*final(accumulator)) == accumulator_capacity(*old(accumulator)),
        quorum_of(*final(accumulator)) == quorum,
{
    accumulator.set_quorum_size(quorum)
}

/// Calls `Accumulator::add`. It drops what has expired, which depends on the
/// clock, so the contract says what holds either way: other keys are only
/// dropped; where `key` is held afterwards, its values are those it had
/// before followed by `value`, or `value` alone; and the values of `key` are
/// handed out exactly where it is held afterwards with at least a quorum of
/// them. An accumulator that is limited to no keys would never be done with
/// making room, so it is left out.
#[verifier::external_body]
pub(crate) fn accumulator_add(
    accumulator: &mut Accumulator<Vec<u8>, Vec<u8>>,
    key: Vec<u8>,
    value: Vec<u8>,
) -> (gathered: Option<Vec<Vec<u8>>>)
    requires
        accumulator_capacity(*old(accumulator)) > 0,
    ensures
        quorum_of(*final(accumulator)) == quorum_of(*old(accumulator)),
        accumulator_capacity(*final(accumulator)) == accumulator_capacity(*old(accumulator)),
        forall|other: Seq<u8>|
            other != key@ && #[trigger] accumulated(*final(accumulator)).contains_key(other)
                ==> accumulated(*old(accumulator)).contains_key(other) && accumulated(
                *final(accumulator),
            )[other] == accumulated(*old(accumulator))[other],
        accumulated(*final(accumulator)).contains_key(key@) ==> accumulated(
            *final(accumulator),
        )[key@] == seq![value@] || (accumulated(*old(accumulator)).contains_key(key@)
            && accumulated(*final(accumulator))[key@] == accumulated(*old(accumulator))[key@].push(
            value@,
        )),
        match gathered {
            Some(values) => accumulated(*final(accumulator)).contains_key(key@) && byte_strings(
                values@,
            ) == accumulated(*final(accumulator))[key@] && values@.len() >= quorum_of(
                *final(accumulator),
            ),
            None => !accumulated(*final(accumulator)).contains_key(key@) || accumulated(
                *final(accumulator),
            )[key@].len() < quorum_of(*final(accumulator)),
        },
{
    accumulator.add(key, value)
}

} // verus!
