use node_graph::NodeId;

#[test]
fn to_string_joins_index_and_generation() {
    let id = NodeId { index: 7, generation: 3 };
    assert_eq!(id.to_string(), "7v3");
}

#[test]
fn to_string_shows_an_even_generation_as_the_next_odd_one() {
    let id = NodeId { index: 12, generation: 4 };
    assert_eq!(id.to_string(), "12v5");
}

#[test]
fn to_string_renders_zero() {
    let id = NodeId { index: 0, generation: 0 };
    assert_eq!(id.to_string(), "0v1");
}

#[test]
fn to_string_renders_the_largest_values() {
    let id = NodeId { index: u32::MAX, generation: u32::MAX };
    assert_eq!(id.to_string(), "4294967295v4294967295");
}

#[test]
fn to_string_renders_multiples_of_ten() {
    let id = NodeId { index: 1000, generation: 101 };
    assert_eq!(id.to_string(), "1000v101");
}

#[test]
fn to_string_does_not_decide_equality() {
    let even = NodeId { index: 5, generation: 2 };
    let odd = NodeId { index: 5, generation: 3 };
    assert_eq!(even.to_string(), odd.to_string());
    assert_ne!(even, odd);
}

#[test]
fn identities_are_equal_when_both_fields_are() {
    assert_eq!(NodeId { index: 1, generation: 1 }, NodeId { index: 1, generation: 1 });
    assert_ne!(NodeId { index: 1, generation: 1 }, NodeId { index: 2, generation: 1 });
    assert_ne!(NodeId { index: 1, generation: 1 }, NodeId { index: 1, generation: 3 });
}

#[test]
fn bits_hold_generation_above_index() {
    let id = NodeId { index: 0x0000_0002, generation: 0x0000_0005 };
    assert_eq!(id.to_bits(), 0x0000_0005_0000_0002);
}

#[test]
fn bits_round_trip() {
    let id = NodeId { index: 0xdead_beef, generation: 0x8000_0001 };
    assert_eq!(NodeId::from_bits(id.to_bits()), id);
    let bits: u64 = 0xffff_ffff_0000_0001;
    assert_eq!(NodeId::from_bits(bits).to_bits(), bits);
    assert_eq!(NodeId::from_bits(bits), NodeId { index: 1, generation: u32::MAX });
}
