use ruduo::slots::Slots;

#[test]
fn freed_keys_are_used_again_before_new_ones() {
    let mut s: Slots<&'static str> = Slots::with_capacity(4);
    assert_eq!(s.len(), 0);
    assert!(s.capacity() >= 4);
    assert_eq!(s.vacant_key(), 0);
    assert_eq!(s.insert("a"), 0);
    assert_eq!(s.insert("b"), 1);
    assert_eq!(s.insert("c"), 2);
    assert_eq!(s.try_remove(1), Some("b"));
    assert_eq!(s.try_remove(1), None);
    assert!(!s.contains(1));
    assert_eq!(s.vacant_key(), 1);
    assert_eq!(s.keys(), vec![0, 2]);
    assert_eq!(s.insert("d"), 1);
    assert_eq!(s.vacant_key(), 3);
    assert_eq!(s.len(), 3);
    assert_eq!(s.get(1), Some(&"d"));
    assert_eq!(s.get(9), None);
    *s.get_mut(0).unwrap() = "z";
    assert!(s.get_mut(7).is_none());
    assert_eq!(s.drain(), vec!["z", "d", "c"]);
    assert_eq!(s.len(), 0);
    assert_eq!(s.vacant_key(), 0);
    assert_eq!(s.keys(), Vec::<usize>::new());
}

#[test]
fn there_is_room_for_what_was_held_before() {
    let mut s: Slots<usize> = Slots::with_capacity(1);
    for i in 0..50usize {
        assert_eq!(s.insert(i), i);
    }
    assert!(s.capacity() >= 50);
    for i in 0..50usize {
        assert_eq!(s.try_remove(i), Some(i));
    }
    assert!(s.capacity() >= 50);
}

#[test]
fn the_key_freed_last_is_used_again_first() {
    let mut s: Slots<char> = Slots::with_capacity(4);
    for c in ['a', 'b', 'c', 'd'] {
        s.insert(c);
    }
    assert_eq!(s.try_remove(2), Some('c'));
    assert_eq!(s.try_remove(0), Some('a'));
    assert_eq!(s.try_remove(3), Some('d'));
    assert_eq!(s.vacant_key(), 3);
    assert_eq!(s.insert('x'), 3);
    assert_eq!(s.insert('y'), 0);
    assert_eq!(s.insert('z'), 2);
    assert_eq!(s.insert('w'), 4);
    assert_eq!(s.keys(), vec![0, 1, 2, 3, 4]);
}
