use fast_map::{Container, Values};

#[test]
fn container_starts_vacant() {
    let c: Container<u8, String> = Container::new(5);
    assert_eq!(c.capacity(), 5);
    for i in 0..5 {
        assert_eq!(c.slot(i), None);
    }
}

#[test]
fn container_replace_take_and_slot_mut() {
    let mut c: Container<u8, String> = Container::new(3);
    assert_eq!(c.replace(1, "a".to_string()), None);
    assert_eq!(c.replace(1, "b".to_string()), Some("a".to_string()));
    c.slot_mut(1).unwrap().push('c');
    assert_eq!(c.slot(1), Some(&"bc".to_string()));
    assert!(c.slot_mut(2).is_none());
    assert_eq!(c.take(1), Some("bc".to_string()));
    assert_eq!(c.take(1), None);
    assert_eq!(c.slot(1), None);
}

#[test]
fn values_skip_vacant_entries() {
    let (a, b) = (1u32, 2u32);
    let mut v = Values::new(vec![None, Some(&a), None, None, Some(&b), None]);
    assert_eq!(v.next(), Some(&1));
    assert_eq!(v.next(), Some(&2));
    assert_eq!(v.next(), None);
    let all = Values::new(vec![Some(&a), None, Some(&b)]).into_vec();
    assert_eq!(all, vec![&1, &2]);
    assert!(Values::<u32>::new(vec![None, None]).into_vec().is_empty());
}
