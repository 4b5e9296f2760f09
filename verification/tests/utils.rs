use routing_core::error::RoutingError;
use routing_core::names::XorName;
use routing_core::utils::{bucket_index_range_confidence, get_debug_id};

fn random_name() -> XorName {
    let mut bytes = [0u8; 64];
    for byte in bytes.iter_mut() {
        *byte = rand::random();
    }
    XorName(bytes)
}

fn closer(lhs: &XorName, rhs: &XorName, target: &XorName) -> bool {
    for i in 0..64 {
        let left = lhs.0[i] ^ target.0[i];
        let right = rhs.0[i] ^ target.0[i];
        if left != right {
            return left < right;
        }
    }
    false
}

fn sha512_of(parts: &[&XorName]) -> XorName {
    let mut combined: Vec<u8> = Vec::new();
    for part in parts {
        combined.extend_from_slice(&part.0);
    }
    XorName(sodiumoxide::crypto::hash::sha512::hash(&combined).0)
}

#[test]
fn calculate_relocated_name() {
    let original_name: XorName = random_name();

    // empty close nodes
    assert!(routing_core::utils::calculate_relocated_name(Vec::new(), &original_name).is_err());

    // one entry
    let mut close_nodes_one_entry: Vec<XorName> = Vec::new();
    close_nodes_one_entry.push(random_name());
    let actual_relocated_name_one_entry =
        routing_core::utils::calculate_relocated_name(close_nodes_one_entry.clone(), &original_name)
            .unwrap();
    assert!(original_name != actual_relocated_name_one_entry);

    let expected_relocated_name_one_node = sha512_of(&[&original_name, &close_nodes_one_entry[0]]);
    assert_eq!(actual_relocated_name_one_entry, expected_relocated_name_one_node);

    // populated closed nodes
    let mut close_nodes: Vec<XorName> = Vec::new();
    for _ in 0..8 {
        close_nodes.push(random_name());
    }
    let actual_relocated_name =
        routing_core::utils::calculate_relocated_name(close_nodes.clone(), &original_name).unwrap();
    assert!(original_name != actual_relocated_name);
    close_nodes.sort_by(|a, b| {
        if closer(a, b, &original_name) {
            std::cmp::Ordering::Less
        } else if closer(b, a, &original_name) {
            std::cmp::Ordering::Greater
        } else {
            std::cmp::Ordering::Equal
        }
    });
    let first_closest = close_nodes[0];
    let second_closest = close_nodes[1];
    let expected_relocated_name = sha512_of(&[&original_name, &first_closest, &second_closest]);
    assert_eq!(expected_relocated_name, actual_relocated_name);

    let invalid_relocated_name = sha512_of(&[&first_closest, &second_closest, &original_name]);
    assert!(invalid_relocated_name != actual_relocated_name);
}

#[test]
fn relocated_name_of_empty_group_is_routing_table_empty() {
    let original = XorName([7u8; 64]);
    assert_eq!(routing_core::utils::calculate_relocated_name(Vec::new(), &original), Err(RoutingError::RoutingTableEmpty));
}

#[test]
fn relocated_name_takes_nearest_then_second_nearest() {
    let original = XorName([0u8; 64]);
    let mut far = [0u8; 64];
    far[0] = 0x80;
    let mut mid = [0u8; 64];
    mid[1] = 0x01;
    let mut near = [0u8; 64];
    near[63] = 0x01;
    let nodes = vec![XorName(far), XorName(near), XorName(mid)];
    let name = routing_core::utils::calculate_relocated_name(nodes, &original).unwrap();
    assert_eq!(name, sha512_of(&[&original, &XorName(near), &XorName(mid)]));
}

#[test]
fn relocated_name_is_the_same_for_the_same_inputs() {
    let original = random_name();
    let nodes = vec![random_name(), random_name(), random_name()];
    let first = routing_core::utils::calculate_relocated_name(nodes.clone(), &original).unwrap();
    let second = routing_core::utils::calculate_relocated_name(nodes, &original).unwrap();
    assert_eq!(first, second);
}

#[test]
fn debug_id_of_short_input_lists_every_byte() {
    assert_eq!(get_debug_id(&[]), "BYTES:");
    assert_eq!(get_debug_id(&[0x00, 0x0f, 0xa0, 0xff]), "BYTES:000fa0ff");
    assert_eq!(get_debug_id(&[1, 2, 3, 4, 5, 6]), "BYTES:010203040506");
}

#[test]
fn debug_id_of_long_input_keeps_both_ends() {
    assert_eq!(get_debug_id(&[1, 2, 3, 4, 5, 6, 7]), "BYTES:010203..050607");
    let bytes: Vec<u8> = (0u8..=255).collect();
    assert_eq!(get_debug_id(&bytes), "BYTES:000102..fdfeff");
}

#[test]
fn every_group_is_trusted() {
    assert!(bucket_index_range_confidence());
}
