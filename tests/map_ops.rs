use fast_map::{EasyMap, Error, FastMap, InfallibleMap};

#[derive(Debug, PartialEq)]
enum A {
    A,
    B,
    C,
    D,
}

#[test]
fn it_works() {
    let mut foo: FastMap<A, String> = FastMap::new(vec![A::A, A::B, A::C, A::D], 64).unwrap();

    foo.insert(&A::B, "B".into()).unwrap();

    assert_eq!(foo.get(&A::B).unwrap(), Some(&"B".to_string()));

    assert_eq!(foo.get(&A::C).unwrap(), None);

    foo.insert(&A::C, "C".into()).unwrap();

    assert_eq!(foo.values().into_vec().len(), 2);
}

#[test]
fn it_works_2() {
    let mut foo: FastMap<&str, &str> = FastMap::new(vec!["x", "y", "z"], 3).unwrap();

    let insert_x = String::from("x");

    foo.insert(&insert_x.as_str(), &insert_x).unwrap();

    assert_eq!(foo.values().into_vec().len(), 1);

    let x = foo.remove(&"x").ok().flatten().unwrap();

    assert_eq!(x, "x");

    assert!(foo.values().into_vec().is_empty());
}

#[test]
fn it_works_3() {
    let mut foo: FastMap<usize, &str> = FastMap::new(vec![1, 2, 3], 3).unwrap();

    let _ = foo.insert(&1, "1");
    let _ = foo.insert(&2, "2");
    let _ = foo.insert(&3, "3");
    let _ = foo.insert(&4, "4");

    let _ = foo.remove(&1);

    assert_eq!(foo.values().into_vec().into_iter().map(|x| *x).collect::<Vec<_>>(), vec!["2", "3"]);
}

#[test]
fn insert_then_get_round_trips() {
    let mut m: FastMap<u32, i64> = FastMap::new(vec![10, 20, 30], 3).unwrap();
    assert_eq!(m.insert(&20, -5), Ok(None));
    assert_eq!(m.get(&20), Ok(Some(&-5)));
    assert_eq!(m.get(&10), Ok(None));
    assert_eq!(m.get(&30), Ok(None));
}

#[test]
fn insert_twice_swaps_out_prior_value() {
    let mut m: FastMap<u32, &str> = FastMap::new(vec![1, 2], 2).unwrap();
    assert_eq!(m.insert(&2, "first"), Ok(None));
    assert_eq!(m.insert(&2, "second"), Ok(Some("first")));
    assert_eq!(m.get(&2), Ok(Some(&"second")));
}

#[test]
fn remove_after_insert_vacates_slot() {
    let mut m: FastMap<char, u8> = FastMap::new(vec!['a', 'b'], 2).unwrap();
    m.insert(&'b', 7).unwrap();
    assert_eq!(m.remove(&'b'), Ok(Some(7)));
    assert_eq!(m.get(&'b'), Ok(None));
    assert_eq!(m.remove(&'b'), Ok(None));
    assert!(m.values().into_vec().is_empty());
}

#[test]
fn values_follow_declaration_order_not_insertion_order() {
    let mut m: FastMap<u8, u8> = FastMap::new(vec![5, 4, 3, 2, 1], 8).unwrap();
    m.insert(&1, 10).unwrap();
    m.insert(&5, 50).unwrap();
    m.insert(&3, 30).unwrap();
    let vals: Vec<u8> = m.values().into_vec().into_iter().copied().collect();
    assert_eq!(vals, vec![50, 30, 10]);
    assert_eq!(m.capacity(), 8);
    assert_eq!(m.key_count(), 5);
}

#[test]
fn values_count_ignores_spare_capacity() {
    let mut m: FastMap<u8, u8> = FastMap::new(vec![1, 2], 64).unwrap();
    assert_eq!(m.values().into_vec().len(), 0);
    m.insert(&2, 2).unwrap();
    assert_eq!(m.values().into_vec().len(), 1);
}

#[test]
fn values_sequence_is_single_pass() {
    let mut m: FastMap<u8, u8> = FastMap::new(vec![1, 2, 3], 3).unwrap();
    m.insert(&1, 11).unwrap();
    m.insert(&3, 33).unwrap();
    let mut it = m.values();
    assert_eq!(it.next(), Some(&11));
    assert_eq!(it.next(), Some(&33));
    assert_eq!(it.next(), None);
    assert_eq!(it.next(), None);
    assert_eq!(m.values().next(), Some(&11));
}

#[test]
fn get_mut_writes_through() {
    let mut m: FastMap<&str, Vec<u8>> = FastMap::new(vec!["p", "q"], 2).unwrap();
    assert!(m.get_mut(&"p").unwrap().is_none());
    m.insert(&"p", vec![1]).unwrap();
    m.get_mut(&"p").unwrap().unwrap().push(2);
    assert_eq!(m.get(&"p"), Ok(Some(&vec![1, 2])));
    assert!(matches!(m.get_mut(&"r"), Err(Error::KeyNotFound)));
}

#[test]
fn strict_mode_reports_undeclared_key() {
    let mut m: FastMap<u32, u32> = FastMap::new(vec![1, 2], 2).unwrap();
    m.insert(&1, 100).unwrap();
    assert_eq!(m.get(&9), Err(Error::KeyNotFound));
    assert_eq!(m.insert(&9, 5), Err(Error::KeyNotFound));
    assert_eq!(m.remove(&9), Err(Error::KeyNotFound));
    assert_eq!(m.get(&1), Ok(Some(&100)));
    assert_eq!(m.values().into_vec(), vec![&100]);
}

#[test]
fn easy_mode_treats_undeclared_key_as_absent() {
    let mut m: EasyMap<u32, u32> = EasyMap::new(vec![1, 2], 2).unwrap();
    assert_eq!(m.insert(&1, 100), None);
    assert_eq!(m.insert(&9, 5), None);
    assert_eq!(m.get(&9), None);
    assert_eq!(m.get_mut(&9), None);
    assert_eq!(m.remove(&9), None);
    assert_eq!(m.get(&1), Some(&100));
    *m.get_mut(&1).unwrap() += 1;
    assert_eq!(m.insert(&1, 7), Some(101));
    assert_eq!(m.remove(&1), Some(7));
    assert!(m.values().into_vec().is_empty());
}

#[test]
fn infallible_mode_on_declared_keys() {
    let mut m: InfallibleMap<A, &str> = InfallibleMap::new(vec![A::A, A::B, A::C, A::D], 4).unwrap();
    assert_eq!(m.insert(&A::D, "d"), None);
    assert_eq!(m.get(&A::D), Some(&"d"));
    assert_eq!(m.get(&A::A), None);
    *m.get_mut(&A::D).unwrap() = "dd";
    assert_eq!(m.insert(&A::D, "ddd"), Some("dd"));
    assert_eq!(m.remove(&A::D), Some("ddd"));
    assert_eq!(m.get_mut(&A::D), None);
    assert!(m.values().into_vec().is_empty());
}

#[test]
fn scenario_enum_keys_capacity_four() {
    let mut m: FastMap<A, &str> = FastMap::new(vec![A::A, A::B, A::C, A::D], 4).unwrap();
    m.insert(&A::A, "A").unwrap();
    m.insert(&A::B, "B").unwrap();
    assert_eq!(m.get(&A::A), Ok(Some(&"A")));
    assert_eq!(m.get(&A::C), Ok(None));
    assert_eq!(m.values().into_vec().len(), 2);
}

#[test]
fn scenario_string_keys_remove() {
    let mut m: FastMap<&str, &str> = FastMap::new(vec!["x", "y", "z"], 3).unwrap();
    m.insert(&"x", "X").unwrap();
    assert_eq!(m.remove(&"x"), Ok(Some("X")));
    assert!(m.values().into_vec().is_empty());
}

#[test]
fn scenario_easy_mode_undeclared_insert_is_noop() {
    let mut m: EasyMap<i32, &str> = EasyMap::new(vec![1, 2, 3], 3).unwrap();
    m.insert(&1, "1");
    m.insert(&2, "2");
    m.insert(&3, "3");
    assert_eq!(m.insert(&4, "4"), None);
    assert_eq!(m.remove(&1), Some("1"));
    assert_eq!(m.values().into_vec(), vec![&"2", &"3"]);
}

#[test]
fn too_many_keys_is_refused() {
    assert!(matches!(FastMap::<u8, u8>::new(vec![1, 2, 3], 2), Err(fast_map::ConfigError::TooManyKeys)));
    assert!(matches!(EasyMap::<u8, u8>::new(vec![1, 2, 3], 2), Err(fast_map::ConfigError::TooManyKeys)));
    assert!(matches!(
        InfallibleMap::<u8, u8>::new(vec![1, 2, 3], 2),
        Err(fast_map::ConfigError::TooManyKeys)
    ));
    assert!(FastMap::<u8, u8>::new(vec![], 0).is_ok());
}

#[test]
fn duplicate_keys_resolve_to_first_declaration() {
    let mut m: FastMap<u8, u8> = FastMap::new(vec![7, 8, 7], 3).unwrap();
    assert_eq!(m.slot_index(&7), Some(0));
    assert_eq!(m.slot_index(&8), Some(1));
    assert_eq!(m.slot_index(&9), None);
    m.insert(&7, 1).unwrap();
    assert_eq!(m.values().into_vec(), vec![&1]);
}

#[test]
fn error_messages() {
    assert_eq!(Error::KeyNotFound.message(), "Key not found");
    assert_eq!(
        fast_map::ConfigError::NotAContainerWrapper.message(),
        "can only be derived on a container-wrapping type"
    );
    assert_eq!(
        fast_map::ConfigError::TooManyKeys.message(),
        "more keys are declared than the container has slots"
    );
}
