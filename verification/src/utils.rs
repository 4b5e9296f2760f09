//! Small helpers: a short printable form of a byte string, and the name that
//! a joining node is moved to.

use crate::bytes::append_bytes;
use crate::crypto::{sha512, sha512_digest};
use crate::error::RoutingError;
use crate::names::{lemma_closer_is_distance, xor_distance, XorName};
use vstd::prelude::*;

verus! {

/// The lower-case hexadecimal digit for a value below sixteen.
pub open spec fn hex_char(nibble: u8) -> char {
    if nibble == 0 {
        '0'
    } else if nibble == 1 {
        '1'
    } else if nibble == 2 {
        '2'
    } else if nibble == 3 {
        '3'
    } else if nibble == 4 {
        '4'
    } else if nibble == 5 {
        '5'
    } else if nibble == 6 {
        '6'
    } else if nibble == 7 {
        '7'
    } else if nibble == 8 {
        '8'
    } else if nibble == 9 {
        '9'
    } else if nibble == 10 {
        'a'
    } else if nibble == 11 {
        'b'
    } else if nibble == 12 {
        'c'
    } else if nibble == 13 {
        'd'
    } else if nibble == 14 {
        'e'
    } else {
        'f'
    }
}

/// Two hexadecimal digits for each byte, in order.
pub open spec fn hex_text(bytes: Seq<u8>) -> Seq<char>
    decreases bytes.len(),
{
    if bytes.len() == 0 {
        Seq::empty()
    } else {
        hex_text(bytes.drop_last()).push(hex_char(bytes.last() / 16)).push(
            hex_char(bytes.last() % 16),
        )
    }
}

/// The text `BYTES:` followed by all bytes in hexadecimal where there are at
/// most six, and else by the first three, two dots and the last three.
pub open spec fn debug_id_text(input: Seq<u8>) -> Seq<char> {
    let prefix = seq!['B', 'Y', 'T', 'E', 'S', ':'];
    if input.len() <= 6 {
        prefix + hex_text(input)
    } else {
        prefix + hex_text(input.subrange(0, 3)) + seq!['.', '.'] + hex_text(
            input.subrange(input.len() - 3, input.len() as int),
        )
    }
}

fn hex_digit(nibble: u8) -> (digit: &'static str)
    requires
        nibble < 16,
    ensures
        digit@ == seq![hex_char(nibble)],
{
    proof {
        reveal_strlit("0");
        reveal_strlit("1");
        reveal_strlit("2");
        reveal_strlit("3");
        reveal_strlit("4");
        reveal_strlit("5");
        reveal_strlit("6");
        reveal_strlit("7");
        reveal_strlit("8");
        reveal_strlit("9");
        reveal_strlit("a");
        reveal_strlit("b");
        reveal_strlit("c");
        reveal_strlit("d");
        reveal_strlit("e");
        reveal_strlit("f");
    }
    let digit = if nibble == 0 {
        "0"
    } else if nibble == 1 {
        "1"
    } else if nibble == 2 {
        "2"
    } else if nibble == 3 {
        "3"
    } else if nibble == 4 {
        "4"
    } else if nibble == 5 {
        "5"
    } else if nibble == 6 {
        "6"
    } else if nibble == 7 {
        "7"
    } else if nibble == 8 {
        "8"
    } else if nibble == 9 {
        "9"
    } else if nibble == 10 {
        "a"
    } else if nibble == 11 {
        "b"
    } else if nibble == 12 {
        "c"
    } else if nibble == 13 {
        "d"
    } else if nibble == 14 {
        "e"
    } else {
        "f"
    };
    assert(digit@ =~= seq![hex_char(nibble)]);
    digit
}

/// Appends the hexadecimal digits of `input[from..to]` to `text`.
fn append_hex(text: &mut String, input: &[u8], from: usize, to: usize)
    requires
        from <= to <= input@.len(),
    ensures
        final(text)@ == old(text)@ + hex_text(input@.subrange(from as int, to as int)),
{
    let mut i: usize = from;
    assert(input@.subrange(from as int, from as int) =~= Seq::<u8>::empty());
    while i < to
        invariant
            from <= i <= to <= input@.len(),
            text@ == old(text)@ + hex_text(input@.subrange(from as int, i as int)),
        decreases to - i,
    {
        let byte: u8 = input[i];
        let ghost before = text@;
        text.append(hex_digit(byte / 16));
        text.append(hex_digit(byte % 16));
        proof {
            let done = input@.subrange(from as int, i + 1);
            assert(done.drop_last() =~= input@.subrange(from as int, i as int));
            assert(done.last() == byte);
            assert(text@ =~= old(text)@ + hex_text(done));
        }
        i += 1;
    }
}

/// A short printable form of a byte string.
pub fn get_debug_id(input: &[u8]) -> (text: String)
    ensures
        text@ == debug_id_text(input@),
{
    proof {
        reveal_strlit("BYTES:");
        reveal_strlit("..");
    }
    let mut text = String::from_str("BYTES:");
    assert(text@ =~= seq!['B', 'Y', 'T', 'E', 'S', ':']);
    let len: usize = input.len();
    if len <= 6 {
        append_hex(&mut text, input, 0, len);
        assert(input@.subrange(0, len as int) =~= input@);
        return text;
    }
    append_hex(&mut text, input, 0, 3);
    text.append("..");
    assert("..".view() =~= seq!['.', '.']);
    append_hex(&mut text, input, len - 3, len);
    text
}

/// Whether `first` and `second` are two places in `nodes`, the first holding
/// a name nearest to `target` and the second a name nearest among the rest.
pub open spec fn nearest_two(nodes: Seq<XorName>, target: Seq<u8>, first: int, second: int) -> bool {
    &&& 0 <= first < nodes.len()
    &&& 0 <= second < nodes.len()
    &&& first != second
    &&& forall|m: int|
        0 <= m < nodes.len() ==> xor_distance(nodes[first]@, target) <= xor_distance(
            #[trigger] nodes[m]@,
            target,
        )
    &&& forall|m: int|
        0 <= m < nodes.len() && m != first ==> xor_distance(nodes[second]@, target)
            <= xor_distance(#[trigger] nodes[m]@, target)
}

/// The bytes that are hashed into the new name: the original name, then the
/// nearest of `nodes` to it, then the second nearest where there is one.
pub open spec fn relocation_input(nodes: Seq<XorName>, original: Seq<u8>) -> Seq<u8> {
    if nodes.len() == 1 {
        original + nodes[0]@
    } else {
        let places = choose|places: (int, int)|
            nearest_two(nodes, original, places.0, places.1);
        original + nodes[places.0]@ + nodes[places.1]@
    }
}

/// The name that the node called `original` is moved to by a group whose
/// members are `nodes`.
pub open spec fn relocated_name(nodes: Seq<XorName>, original: Seq<u8>) -> Seq<u8> {
    sha512_digest(relocation_input(nodes, original))
}

/// Any two choices of the nearest and second nearest place hold the same
/// two names.
pub proof fn lemma_nearest_two_unique(
    nodes: Seq<XorName>,
    target: Seq<u8>,
    a: (int, int),
    b: (int, int),
)
    requires
        target.len() == 64,
        nearest_two(nodes, target, a.0, a.1),
        nearest_two(nodes, target, b.0, b.1),
    ensures
        nodes[a.0]@ == nodes[b.0]@,
        nodes[a.1]@ == nodes[b.1]@,
{
    broadcast use vstd::array::group_array_axioms;

    let d = |i: int| xor_distance(nodes[i]@, target);
    assert(d(a.0) <= xor_distance(nodes[b.0]@, target));
    assert(d(b.0) <= xor_distance(nodes[a.0]@, target));
    lemma_closer_is_distance(nodes[a.0]@, nodes[b.0]@, target);
    if a.0 == b.0 {
        assert(d(a.1) <= xor_distance(nodes[b.1]@, target));
        assert(d(b.1) <= xor_distance(nodes[a.1]@, target));
    } else {
        assert(d(a.1) <= xor_distance(nodes[b.0]@, target));
        assert(d(a.0) <= xor_distance(nodes[a.1]@, target));
        assert(d(b.1) <= xor_distance(nodes[a.0]@, target));
        assert(d(b.0) <= xor_distance(nodes[b.1]@, target));
    }
    lemma_closer_is_distance(nodes[a.1]@, nodes[b.1]@, target);
}

/// The places of the nearest and the second nearest of `nodes` to `target`.
fn find_nearest_two(nodes: &Vec<XorName>, target: &XorName) -> (places: (usize, usize))
    requires
        nodes.len() >= 2,
    ensures
        nearest_two(nodes@, target@, places.0 as int, places.1 as int),
{
    let mut first: usize = 0;
    let mut second: usize = 1;
    if nodes[1].is_closer_than(&nodes[0], target) {
        first = 1;
        second = 0;
    }
    let mut k: usize = 2;
    while k < nodes.len()
        invariant
            2 <= k <= nodes.len(),
            first < k,
            second < k,
            first != second,
            forall|m: int|
                0 <= m < k ==> xor_distance(nodes@[first as int]@, target@) <= xor_distance(
                    #[trigger] nodes@[m]@,
                    target@,
                ),
            forall|m: int|
                0 <= m < k && m != first ==> xor_distance(nodes@[second as int]@, target@)
                    <= xor_distance(#[trigger] nodes@[m]@, target@),
        decreases nodes.len() - k,
    {
        if nodes[k].is_closer_than(&nodes[first], target) {
            second = first;
            first = k;
        } else if nodes[k].is_closer_than(&nodes[second], target) {
            second = k;
        }
        k += 1;
    }
    (first, second)
}

/// The name that a joining node is moved to: the hash of its original name
/// followed by the nearest member of the group to it and, where the group
/// has more than one member, the second nearest. An empty group has no
/// answer.
pub fn calculate_relocated_name(close_nodes: Vec<XorName>, original_name: &XorName) -> (result:
    Result<XorName, RoutingError>)
    ensures
        match result {
            Ok(name) => close_nodes@.len() > 0 && name@ == relocated_name(
                close_nodes@,
                original_name@,
            ),
            Err(error) => close_nodes@.len() == 0 && error == RoutingError::RoutingTableEmpty,
        },
{
    broadcast use vstd::array::group_array_axioms;

    if close_nodes.len() == 0 {
        return Err(RoutingError::RoutingTableEmpty);
    }
    let mut combined: Vec<u8> = Vec::new();
    append_bytes(&mut combined, original_name.0.as_slice());
    if close_nodes.len() == 1 {
        append_bytes(&mut combined, close_nodes[0].0.as_slice());
    } else {
        let places = find_nearest_two(&close_nodes, original_name);
        append_bytes(&mut combined, close_nodes[places.0].0.as_slice());
        append_bytes(&mut combined, close_nodes[places.1].0.as_slice());
        proof {
            let found = (places.0 as int, places.1 as int);
            assert(nearest_two(close_nodes@, original_name@, found.0, found.1));
            let chosen = choose|chosen: (int, int)|
                nearest_two(close_nodes@, original_name@, chosen.0, chosen.1);
            lemma_nearest_two_unique(close_nodes@, original_name@, found, chosen);
        }
    }
    assert(combined@ =~= relocation_input(close_nodes@, original_name@));
    Ok(XorName(sha512(combined.as_slice())))
}

/// Whether the sending group of a group message is accepted; every group is.
pub fn bucket_index_range_confidence() -> (accepted: bool)
    ensures
        accepted,
{
    true
}

} // verus!
