//! The Kademlia routing table, kept by `kademlia_routing_table`. The table
//! holds names; what else is known of a peer is kept beside it.

use crate::names::{xor_distance, XorName};
use kademlia_routing_table::{Destination, RoutingTable};
use vstd::prelude::*;

verus! {

/// A `RoutingTable` of `kademlia_routing_table` over 512-bit names. What
/// it holds is known only through `table_names`, `table_own_name` and
/// `table_bucket_size`.
#[verifier::external_body]
pub struct NameTable {
    inner: RoutingTable<[u8; 64]>,
}

/// The names that a table holds.
pub uninterp spec fn table_names(table: NameTable) -> Set<Seq<u8>>;

/// The name of the node that a table belongs to.
pub uninterp spec fn table_own_name(table: NameTable) -> Seq<u8>;

/// The bucket size that a table was made with.
pub uninterp spec fn table_bucket_size(table: NameTable) -> nat;

/// The size from which on a table counts the entries of a bucket as more
/// than it needs.
pub uninterp spec fn table_max_bucket_size(table: NameTable) -> nat;

/// Whether a table of `own` that holds `names` lets the node called `name`
/// connect: what `RoutingTable::allow_connection` answers, by which
/// `RoutingTable::add` decides on a name that it does not hold.
pub uninterp spec fn kademlia_allows(
    own: Seq<u8>,
    names: Set<Seq<u8>>,
    bucket_size: nat,
    name: Seq<u8>,
) -> bool;

/// The names that a table of `own` that holds `names` no longer needs once
/// it has taken `name` in, as `RoutingTable::add` lists them.
pub uninterp spec fn kademlia_unneeded(
    own: Seq<u8>,
    names: Set<Seq<u8>>,
    bucket_size: nat,
    max_bucket_size: nat,
    name: Seq<u8>,
) -> Seq<Seq<u8>>;

/// Whether a table takes `name` in: it neither holds it nor belongs to it,
/// and lets it connect.
pub open spec fn takes_in(table: NameTable, name: Seq<u8>) -> bool {
    &&& name != table_own_name(table)
    &&& !table_names(table).contains(name)
    &&& kademlia_allows(
        table_own_name(table),
        table_names(table),
        table_bucket_size(table),
        name,
    )
}

/// The names that a table no longer needs once it has taken `name` in.
pub open spec fn unneeded_after(table: NameTable, name: Seq<u8>) -> Seq<Seq<u8>> {
    kademlia_unneeded(
        table_own_name(table),
        table_names(table),
        table_bucket_size(table),
        table_max_bucket_size(table),
        name,
    )
}

/// The number of zero bits at the front of a byte.
pub open spec fn leading_zeros(byte: u8) -> nat {
    if byte >= 128 {
        0
    } else if byte >= 64 {
        1
    } else if byte >= 32 {
        2
    } else if byte >= 16 {
        3
    } else if byte >= 8 {
        4
    } else if byte >= 4 {
        5
    } else if byte >= 2 {
        6
    } else if byte >= 1 {
        7
    } else {
        8
    }
}

/// The number of bits at the front in which `a` and `b` agree. A table
/// keeps a name in the bucket of the number of bits in which it agrees with
/// the table's own name.
pub open spec fn common_prefix(a: Seq<u8>, b: Seq<u8>) -> nat
    decreases a.len(),
{
    if a.len() == 0 || b.len() == 0 {
        0
    } else if a[0] != b[0] {
        leading_zeros(a[0] ^ b[0])
    } else {
        8 + common_prefix(a.drop_first(), b.drop_first())
    }
}

/// The names among `names` that stand in the bucket of `name` and are
/// nearer to `own` than `name` is.
pub open spec fn bucket_rivals(own: Seq<u8>, names: Set<Seq<u8>>, name: Seq<u8>) -> Set<Seq<u8>> {
    names.filter(
        |held: Seq<u8>|
            common_prefix(own, held) == common_prefix(own, name) && xor_distance(held, own)
                < xor_distance(name, own),
    )
}

/// Whether a table of `own` that holds `names` should take `name` in: the
/// name is neither its own nor held, and would be among the `bucket_size`
/// names of its bucket that are nearest to `own`.
pub open spec fn kademlia_needs(
    own: Seq<u8>,
    names: Set<Seq<u8>>,
    bucket_size: nat,
    name: Seq<u8>,
) -> bool {
    name != own && !names.contains(name) && bucket_rivals(own, names, name).len() < bucket_size
}

/// The names that a table of `own` that holds `names` hands a message on
/// to, where the message is for the node called `target`, or for the group
/// of `target` of the size `group_size` where there is one, came from `hop`
/// and takes the route `route`.
pub uninterp spec fn kademlia_targets(
    own: Seq<u8>,
    names: Set<Seq<u8>>,
    bucket_size: nat,
    target: Seq<u8>,
    group_size: Option<nat>,
    hop: Seq<u8>,
    route: nat,
) -> Seq<Seq<u8>>;

/// A size as a number.
pub open spec fn as_nat(size: Option<usize>) -> Option<nat> {
    match size {
        Some(n) => Some(n as nat),
        None => None,
    }
}

/// The names among `names` that are nearer to `target` than `own` is.
pub open spec fn nearer_names(names: Set<Seq<u8>>, own: Seq<u8>, target: Seq<u8>) -> Set<Seq<u8>> {
    names.filter(|name: Seq<u8>| xor_distance(name, target) < xor_distance(own, target))
}

/// Whether `names` is a finite set of `count` names.
pub open spec fn holds_exactly(names: Set<Seq<u8>>, count: nat) -> bool {
    names.finite() && names.len() == count
}

/// The byte strings of the names in order.
pub open spec fn name_views(names: Seq<XorName>) -> Seq<Seq<u8>> {
    names.map_values(|name: XorName| name@)
}

/// Whether `found` lists, nearest first, the `count` names of `names` that
/// are nearest to `target`, or all of them where there are fewer.
pub open spec fn nearest_of(
    names: Set<Seq<u8>>,
    target: Seq<u8>,
    count: nat,
    found: Seq<XorName>,
) -> bool {
    &&& found.len() == if names.len() < count {
        names.len()
    } else {
        count
    }
    &&& forall|i: int| 0 <= i < found.len() ==> names.contains(#[trigger] found[i]@)
    &&& forall|i: int, j: int|
        0 <= i < j < found.len() ==> xor_distance(#[trigger] found[i]@, target) < xor_distance(
            #[trigger] found[j]@,
            target,
        )
    &&& forall|i: int, other: Seq<u8>|
        0 <= i < found.len() && names.contains(other) && !name_views(found).contains(other)
            ==> xor_distance(#[trigger] found[i]@, target) < #[trigger] xor_distance(
            other,
            target,
        )
}

/// Calls `RoutingTable::new` for the node called `own`. The new table holds
/// no names.
#[verifier::external_body]
pub(crate) fn table_new(own: &XorName, bucket_size: usize, extra_entries: usize) -> (table:
    NameTable)
    requires
        bucket_size + extra_entries <= usize::MAX,
    ensures
        table_names(table) == Set::<Seq<u8>>::empty(),
        table_own_name(table) == own@,
        table_bucket_size(table) == bucket_size,
        table_max_bucket_size(table) == bucket_size + extra_entries,
{
    NameTable { inner: RoutingTable::new(own.0, bucket_size, extra_entries) }
}

/// Calls `RoutingTable::len`: the number of names held.
#[verifier::external_body]
pub(crate) fn table_len(table: &NameTable) -> (count: usize)
    ensures
        holds_exactly(table_names(*table), count as nat),
{
    table.inner.len()
}

/// Calls `RoutingTable::contains`: whether `name` is one of the names held.
#[verifier::external_body]
pub(crate) fn table_contains(table: &NameTable, name: &XorName) -> (held: bool)
    ensures
        held == table_names(*table).contains(name@),
{
    table.inner.contains(&name.0)
}

/// Calls `RoutingTable::need_to_add`, which is documented to tell whether
/// the name would be among the `bucket_size` nearest names of its bucket.
/// Its source answers no for the table's own name and for a name that is
/// held, looks for the name in the bucket of the bits that it shares with
/// the table's own name, where the names stand nearest first, and answers
/// yes where fewer than `bucket_size` stand before it.
#[verifier::external_body]
pub(crate) fn table_need_to_add(table: &NameTable, name: &XorName) -> (needed: bool)
    ensures
        needed == (name@ != table_own_name(*table) && !table_names(*table).contains(name@)
            && bucket_rivals(table_own_name(*table), table_names(*table), name@).len()
            < table_bucket_size(*table)),
{
    table.inner.need_to_add(&name.0)
}

/// Calls `RoutingTable::is_close`, which is documented to tell whether
/// fewer than `group_size` of the names held are nearer to `name` than the
/// table's own name is.
#[verifier::external_body]
pub(crate) fn table_is_close(table: &NameTable, name: &XorName, group_size: usize) -> (close: bool)
    requires
        group_size >= 1,
    ensures
        close == (nearer_names(table_names(*table), table_own_name(*table), name@).len()
            < group_size),
{
    table.inner.is_close(&name.0, group_size)
}

/// Calls `RoutingTable::closest_nodes_to` without the table's own name,
/// which is documented to give the `count` names held that are nearest to
/// `target`, or all where there are fewer; its source lists them nearest
/// first.
#[verifier::external_body]
pub(crate) fn table_closest(table: &NameTable, target: &XorName, count: usize) -> (found: Vec<
    XorName,
>)
    ensures
        nearest_of(table_names(*table), target@, count as nat, found@),
{
    table.inner.closest_nodes_to(&target.0, count, false).into_iter().map(XorName).collect()
}

/// Calls `RoutingTable::target_nodes` with the destination that is the
/// group of `target` where `group_size` gives its size, and the node called
/// `target` where it gives none. The answer is named `kademlia_targets`; its
/// source shows that every name in it is one of the names held. The bounds
/// keep its arithmetic on the route and the sizes from wrapping.
#[verifier::external_body]
pub(crate) fn table_target_nodes(
    table: &NameTable,
    target: &XorName,
    group_size: Option<usize>,
    hop: &XorName,
    route: usize,
) -> (targets: Vec<XorName>)
    requires
        group_size matches Some(size) ==> size >= 1,
        table_bucket_size(*table) >= 1,
        route + 2 <= usize::MAX,
    ensures
        name_views(targets@) == kademlia_targets(
            table_own_name(*table),
            table_names(*table),
            table_bucket_size(*table),
            target@,
            as_nat(group_size),
            hop@,
            route as nat,
        ),
        forall|i: int|
            0 <= i < targets@.len() ==> table_names(*table).contains(#[trigger] targets@[i]@),
{
    let dst = match group_size {
        Some(size) => Destination::Group(target.0, size),
        None => Destination::Node(target.0),
    };
    table.inner.target_nodes(dst, &hop.0, route).into_iter().map(XorName).collect()
}

/// Calls `RoutingTable::add`. Its source takes a name in exactly where it
/// is neither held nor the table's own and `allow_connection` lets it
/// connect, and then hands back the names held that it no longer needs,
/// which are named `kademlia_unneeded`; where it does not take the name in,
/// nothing changes. The bound keeps its arithmetic on the bucket size from
/// wrapping.
#[verifier::external_body]
pub(crate) fn table_add(table: &mut NameTable, name: &XorName) -> (unneeded: Option<Vec<XorName>>)
    requires
        table_bucket_size(*old(table)) >= 1,
    ensures
        table_own_name(*final(table)) == table_own_name(*old(table)),
        table_bucket_size(*final(table)) == table_bucket_size(*old(table)),
        table_max_bucket_size(*final(table)) == table_max_bucket_size(*old(table)),
        unneeded is Some == (name@ != table_own_name(*old(table)) && !table_names(
            *old(table),
        ).contains(name@) && kademlia_allows(
            table_own_name(*old(table)),
            table_names(*old(table)),
            table_bucket_size(*old(table)),
            name@,
        )),
        match unneeded {
            Some(names) => {
                &&& table_names(*final(table)) == table_names(*old(table)).insert(name@)
                &&& name_views(names@) == kademlia_unneeded(
                    table_own_name(*old(table)),
                    table_names(*old(table)),
                    table_bucket_size(*old(table)),
                    table_max_bucket_size(*old(table)),
                    name@,
                )
                &&& forall|i: int|
                    0 <= i < names@.len() ==> table_names(*final(table)).contains(
                        #[trigger] names@[i]@,
                    )
            },
            None => table_names(*final(table)) == table_names(*old(table)),
        },
{
    table.inner.add(name.0).map(|added| added.unneeded.into_iter().map(XorName).collect())
}

/// Calls `RoutingTable::remove`, which takes the name out and says whether
/// it was held; what it hands back is the index of the bucket that is left
/// incomplete, where there is one.
#[verifier::external_body]
pub(crate) fn table_remove(table: &mut NameTable, name: &XorName) -> (dropped: Option<Option<usize>>)
    ensures
        table_own_name(*final(table)) == table_own_name(*old(table)),
        table_bucket_size(*final(table)) == table_bucket_size(*old(table)),
        table_max_bucket_size(*final(table)) == table_max_bucket_size(*old(table)),
        table_names(*final(table)) == table_names(*old(table)).remove(name@),
        dropped.is_some() == table_names(*old(table)).contains(name@),
{
    table.inner.remove(&name.0).map(|details| details.incomplete_bucket)
}

} // verus!
