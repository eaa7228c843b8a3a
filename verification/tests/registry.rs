use node_graph::{Error, IdentityRegistry, NodeId};

#[test]
fn a_new_registry_is_empty() {
    let registry: IdentityRegistry<u32> = IdentityRegistry::new();
    assert_eq!(registry.len(), 0);
    assert!(registry.ids().is_empty());
}

#[test]
fn allocate_then_resolve() {
    let mut registry = IdentityRegistry::new();
    let a = registry.allocate("a");
    let b = registry.allocate("b");
    assert_ne!(a, b);
    assert_eq!(registry.len(), 2);
    assert_eq!(registry.resolve(a), Ok(&"a"));
    assert_eq!(registry.resolve(b), Ok(&"b"));
    assert!(registry.contains(a));
    assert!(registry.contains(b));
}

#[test]
fn issued_generations_are_odd() {
    let mut registry = IdentityRegistry::new();
    let a = registry.allocate(1u8);
    let b = registry.allocate(2u8);
    assert_eq!(a.generation % 2, 1);
    assert_eq!(b.generation % 2, 1);
    assert_eq!(a.to_string(), format!("{}v{}", a.index, a.generation));
}

#[test]
fn allocate_with_hands_the_identity_to_the_maker() {
    let mut registry = IdentityRegistry::new();
    let first = registry.allocate_with(|id: NodeId| (id, 1));
    let second = registry.allocate_with(|id: NodeId| (id, 2));
    assert_eq!(registry.resolve(first), Ok(&(first, 1)));
    assert_eq!(registry.resolve(second), Ok(&(second, 2)));
}

#[test]
fn deallocate_returns_the_value_and_retires_the_identity() {
    let mut registry = IdentityRegistry::new();
    let a = registry.allocate(10);
    let b = registry.allocate(20);
    assert_eq!(registry.deallocate(a), Ok(10));
    assert_eq!(registry.len(), 1);
    assert!(!registry.contains(a));
    assert_eq!(registry.resolve(a), Err(Error::StaleIdentity));
    assert_eq!(registry.resolve(b), Ok(&20));
}

#[test]
fn deallocate_twice_fails_with_stale_identity() {
    let mut registry = IdentityRegistry::new();
    let a = registry.allocate(10);
    assert_eq!(registry.deallocate(a), Ok(10));
    assert_eq!(registry.deallocate(a), Err(Error::StaleIdentity));
    assert_eq!(registry.len(), 0);
}

#[test]
fn resolve_mut_changes_only_the_named_value() {
    let mut registry = IdentityRegistry::new();
    let a = registry.allocate(10);
    let b = registry.allocate(20);
    *registry.resolve_mut(a).unwrap() = 11;
    assert_eq!(registry.resolve(a), Ok(&11));
    assert_eq!(registry.resolve(b), Ok(&20));
    let nobody = NodeId { index: 99, generation: 1 };
    assert_eq!(registry.resolve_mut(nobody), Err(Error::StaleIdentity));
}

#[test]
fn a_reused_slot_gets_a_later_generation() {
    let mut registry = IdentityRegistry::new();
    let a = registry.allocate(1);
    assert_eq!(registry.deallocate(a), Ok(1));
    let b = registry.allocate(2);
    assert_eq!(b.index, a.index);
    assert!(b.generation > a.generation);
    assert_eq!(registry.resolve(a), Err(Error::StaleIdentity));
    assert_eq!(registry.resolve(b), Ok(&2));
    assert_eq!(registry.deallocate(a), Err(Error::StaleIdentity));
    assert_eq!(registry.resolve(b), Ok(&2));
}

#[test]
fn a_stale_identity_stays_stale_through_many_reuses() {
    let mut registry = IdentityRegistry::new();
    let first = registry.allocate(0);
    assert_eq!(registry.deallocate(first), Ok(0));
    let mut seen = vec![first];
    for round in 1..50 {
        let id = registry.allocate(round);
        for old in &seen {
            assert_ne!(id, *old);
            assert_eq!(registry.resolve(*old), Err(Error::StaleIdentity));
        }
        assert_eq!(registry.deallocate(id), Ok(round));
        seen.push(id);
    }
}

#[test]
fn removing_from_the_middle_keeps_the_others_in_place() {
    let mut registry = IdentityRegistry::new();
    let ids: Vec<NodeId> = (0..6).map(|n| registry.allocate(n * 10)).collect();
    assert_eq!(registry.deallocate(ids[1]), Ok(10));
    assert_eq!(registry.deallocate(ids[4]), Ok(40));
    assert_eq!(registry.deallocate(ids[0]), Ok(0));
    assert_eq!(registry.len(), 3);
    assert_eq!(registry.resolve(ids[2]), Ok(&20));
    assert_eq!(registry.resolve(ids[3]), Ok(&30));
    assert_eq!(registry.resolve(ids[5]), Ok(&50));
    for gone in [ids[0], ids[1], ids[4]] {
        assert_eq!(registry.resolve(gone), Err(Error::StaleIdentity));
    }
    let mut left = registry.ids();
    left.sort_by_key(|id| id.index);
    assert_eq!(left, vec![ids[2], ids[3], ids[5]]);
}

#[test]
fn removing_the_last_value_stored() {
    let mut registry = IdentityRegistry::new();
    let a = registry.allocate('a');
    let b = registry.allocate('b');
    assert_eq!(registry.deallocate(b), Ok('b'));
    assert_eq!(registry.resolve(a), Ok(&'a'));
    assert_eq!(registry.deallocate(a), Ok('a'));
    assert_eq!(registry.len(), 0);
}

#[test]
fn an_even_generation_is_never_live() {
    let mut registry = IdentityRegistry::new();
    let a = registry.allocate(1);
    let forged = NodeId { index: a.index, generation: a.generation - 1 };
    assert!(!registry.contains(forged));
    assert_eq!(registry.resolve(forged), Err(Error::StaleIdentity));
    assert_eq!(registry.deallocate(forged), Err(Error::StaleIdentity));
    assert_eq!(registry.resolve(a), Ok(&1));
}

#[test]
fn an_identity_of_another_index_is_not_live() {
    let mut registry = IdentityRegistry::new();
    let a = registry.allocate(1);
    let other = NodeId { index: a.index + 1, generation: a.generation };
    assert!(!registry.contains(other));
    assert_eq!(registry.resolve(other), Err(Error::StaleIdentity));
    let null = NodeId { index: u32::MAX, generation: 1 };
    assert_eq!(registry.resolve(null), Err(Error::StaleIdentity));
}

#[test]
fn ids_lists_each_live_identity_once() {
    let mut registry = IdentityRegistry::new();
    let a = registry.allocate(1);
    let b = registry.allocate(2);
    let c = registry.allocate(3);
    assert_eq!(registry.deallocate(b), Ok(2));
    let ids = registry.ids();
    assert_eq!(ids.len(), 2);
    assert!(ids.contains(&a));
    assert!(ids.contains(&c));
    assert!(!ids.contains(&b));
}
