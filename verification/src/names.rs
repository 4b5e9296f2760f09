//! Names in the 512-bit XOR keyspace and the distance between them.

use crate::bytes::bytes_equal;
use kademlia_routing_table::Xorable;
use std::cmp::Ordering;
use vstd::prelude::*;

verus! {

/// A 512-bit identifier. Distance between two names is their bitwise XOR,
/// read as a big-endian number.
#[derive(Clone, Copy, Debug, PartialEq, Eq, Hash)]
pub struct XorName(pub [u8; 64]);

impl View for XorName {
    type V = Seq<u8>;

    open spec fn view(&self) -> Seq<u8> {
        self.0@
    }
}

/// Bytewise XOR of `a` with `t`.
pub open spec fn xor_bytes(a: Seq<u8>, t: Seq<u8>) -> Seq<u8> {
    Seq::new(a.len(), |i: int| a[i] ^ t[i])
}

/// The number that a byte string spells, most significant byte first.
pub open spec fn big_endian(s: Seq<u8>) -> nat
    decreases s.len(),
{
    if s.len() == 0 {
        0
    } else {
        big_endian(s.drop_last()) * 256 + s.last() as nat
    }
}

/// XOR distance from `a` to `t`.
pub open spec fn xor_distance(a: Seq<u8>, t: Seq<u8>) -> nat {
    big_endian(xor_bytes(a, t))
}

/// `lhs` and `rhs` agree before byte `i`, and at byte `i` the XOR of `lhs`
/// with `target` is the smaller one.
pub open spec fn decides_at(lhs: Seq<u8>, rhs: Seq<u8>, target: Seq<u8>, i: int) -> bool {
    &&& 0 <= i < lhs.len()
    &&& (lhs[i] ^ target[i]) < (rhs[i] ^ target[i])
    &&& forall|j: int| 0 <= j < i ==> lhs[j] == rhs[j]
}

/// Whether the first byte in which `lhs` and `rhs` differ puts `lhs` nearer
/// to `target`.
pub open spec fn closer(lhs: Seq<u8>, rhs: Seq<u8>, target: Seq<u8>) -> bool {
    exists|i: int| #[trigger] decides_at(lhs, rhs, target, i)
}

/// `x` comes before `y` in lexicographic order, decided at byte `i`.
pub open spec fn less_at(x: Seq<u8>, y: Seq<u8>, i: int) -> bool {
    &&& 0 <= i < x.len()
    &&& x[i] < y[i]
    &&& forall|j: int| 0 <= j < i ==> x[j] == y[j]
}

/// `x` comes before `y` in lexicographic order.
pub open spec fn lex_less(x: Seq<u8>, y: Seq<u8>) -> bool {
    exists|i: int| #[trigger] less_at(x, y, i)
}

proof fn lemma_xor_cancels(a: u8, b: u8, t: u8)
    ensures
        (a ^ t) == (b ^ t) <==> a == b,
{
    assert((a ^ t) == (b ^ t) <==> a == b) by (bit_vector);
}

/// Lexicographic order on byte strings of one length is the order of the
/// numbers they spell, and equal numbers mean equal strings.
pub proof fn lemma_lex_is_numeric(x: Seq<u8>, y: Seq<u8>)
    requires
        x.len() == y.len(),
    ensures
        lex_less(x, y) <==> big_endian(x) < big_endian(y),
        x == y <==> big_endian(x) == big_endian(y),
    decreases x.len(),
{
    if x.len() == 0 {
        assert(x =~= y);
        assert(!lex_less(x, y)) by {
            if lex_less(x, y) {
                let i = choose|i: int| #[trigger] less_at(x, y, i);
                assert(less_at(x, y, i));
            }
        }
    } else {
        let n = x.len() - 1;
        let xp = x.drop_last();
        let yp = y.drop_last();
        lemma_lex_is_numeric(xp, yp);
        assert forall|j: int| 0 <= j < n implies xp[j] == x[j] && yp[j] == y[j] by {}
        assert(x.last() == x[n] && y.last() == y[n]);
        if lex_less(xp, yp) {
            let i = choose|i: int| #[trigger] less_at(xp, yp, i);
            assert(less_at(xp, yp, i));
            assert(less_at(x, y, i));
        }
        if xp == yp && x.last() < y.last() {
            assert(less_at(x, y, n));
        }
        if lex_less(x, y) {
            let i = choose|i: int| #[trigger] less_at(x, y, i);
            assert(less_at(x, y, i));
            if i < n {
                assert(less_at(xp, yp, i));
            } else {
                assert(xp =~= yp);
            }
        }
        if big_endian(xp) == big_endian(yp) && x.last() == y.last() {
            assert(x =~= xp.push(x.last()));
            assert(y =~= yp.push(y.last()));
        }
    }
}

/// Being closer to a target is having the smaller XOR distance to it, and
/// no two names are at one distance from a target.
pub proof fn lemma_closer_is_distance(lhs: Seq<u8>, rhs: Seq<u8>, target: Seq<u8>)
    requires
        lhs.len() == target.len(),
        rhs.len() == target.len(),
    ensures
        closer(lhs, rhs, target) <==> xor_distance(lhs, target) < xor_distance(rhs, target),
        lhs == rhs <==> xor_distance(lhs, target) == xor_distance(rhs, target),
{
    let x = xor_bytes(lhs, target);
    let y = xor_bytes(rhs, target);
    lemma_lex_is_numeric(x, y);
    assert forall|j: int| 0 <= j < lhs.len() implies (x[j] == y[j] <==> lhs[j] == rhs[j]) by {
        lemma_xor_cancels(lhs[j], rhs[j], target[j]);
    }
    if closer(lhs, rhs, target) {
        let i = choose|i: int| #[trigger] decides_at(lhs, rhs, target, i);
        assert(decides_at(lhs, rhs, target, i));
        assert(less_at(x, y, i));
    }
    if lex_less(x, y) {
        let i = choose|i: int| #[trigger] less_at(x, y, i);
        assert(less_at(x, y, i));
        assert(decides_at(lhs, rhs, target, i));
    }
    if x == y {
        assert(lhs =~= rhs);
    }
}

/// Calls `Xorable::cmp_distance` of `kademlia_routing_table` on the three
/// byte arrays. Its source walks the bytes from the front and, at the first
/// byte where the two candidates differ, compares their XORs with the target;
/// the contract says that the answer is `Less` exactly then.
#[verifier::external_body]
pub(crate) fn cmp_distance_is_less(lhs: &XorName, rhs: &XorName, target: &XorName) -> (less: bool)
    ensures
        less == closer(lhs@, rhs@, target@),
{
    match target.0.cmp_distance(&lhs.0, &rhs.0) {
        Ordering::Less => true,
        Ordering::Equal => false,
        Ordering::Greater => false,
    }
}

impl XorName {
    /// The name made of the given bytes.
    pub fn new(bytes: [u8; 64]) -> (name: XorName)
        ensures
            name@ == bytes@,
            name.0 == bytes,
    {
        XorName(bytes)
    }

    /// The bytes of the name.
    pub fn get_id(&self) -> (bytes: [u8; 64])
        ensures
            bytes@ == self@,
            bytes == self.0,
    {
        self.0
    }

    /// Whether `self` and `other` are the same name.
    pub fn same_as(&self, other: &XorName) -> (same: bool)
        ensures
            same == (self@ == other@),
            same == (*self == *other),
    {
        let same = bytes_equal(self.0.as_slice(), other.0.as_slice());
        proof {
            if same {
                assert(self.0 =~= other.0);
            }
        }
        same
    }

    /// Whether `self` is strictly nearer to `target` than `other` is.
    pub fn is_closer_than(&self, other: &XorName, target: &XorName) -> (nearer: bool)
        ensures
            nearer == (xor_distance(self@, target@) < xor_distance(other@, target@)),
    {
        proof {
            lemma_closer_is_distance(self@, other@, target@);
        }
        cmp_distance_is_less(self, other, target)
    }
}

/// Whether `lhs` is strictly nearer to `target` than `rhs` is.
pub fn closer_to_target(lhs: &XorName, rhs: &XorName, target: &XorName) -> (nearer: bool)
    ensures
        nearer == (xor_distance(lhs@, target@) < xor_distance(rhs@, target@)),
{
    lhs.is_closer_than(rhs, target)
}

} // verus!
