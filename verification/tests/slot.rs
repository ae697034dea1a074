use staticslot::StaticSlot;
use std::mem;
use std::rc::Rc;

#[test]
fn test_is_small() {
    assert!(mem::size_of::<StaticSlot<u64>>() == mem::size_of::<usize>());
}

#[test]
fn test_basic_usage() {
    let mut value: StaticSlot<i32> = StaticSlot::empty();

    assert!(value.get() == None);
    value.set(1);
    assert!(value.get() == Some(&1));
    value.drop();
    assert!(value.get() == None);
}

#[test]
fn test_with() {
    let mut value: StaticSlot<i32> = StaticSlot::empty();

    assert!(value.get() == None);

    value.with(1, |s| {
        assert!(s.get() == Some(&1));

        s.with(2, |s2| {
            assert!(s2.get() == Some(&2));
        });

        assert!(s.get() == Some(&1));
    });

    assert!(value.get() == None);
}

#[test]
fn size_does_not_depend_on_content_type() {
    assert!(mem::size_of::<StaticSlot<u8>>() == mem::size_of::<usize>());
    assert!(mem::size_of::<StaticSlot<[u64; 32]>>() == mem::size_of::<usize>());
    assert!(mem::size_of::<StaticSlot<String>>() == mem::size_of::<usize>());
}

#[test]
fn fresh_slot_is_empty() {
    let slot: StaticSlot<u32> = StaticSlot::empty();
    assert!(slot.is_null());
    assert!(slot.get() == None);

    let slot: StaticSlot<u32> = StaticSlot::default();
    assert!(slot.is_null());
    assert!(slot.get() == None);
}

#[test]
fn new_slot_holds_value() {
    let slot = StaticSlot::new(5u32);
    assert!(!slot.is_null());
    assert!(slot.get() == Some(&5));
    assert!(*slot.get_unchecked() == 5);
}

#[test]
fn set_then_get() {
    let mut slot: StaticSlot<String> = StaticSlot::empty();
    slot.set(String::from("hello"));
    assert_eq!(slot.get(), Some(&String::from("hello")));
}

#[test]
fn take_empties_slot() {
    let mut slot: StaticSlot<u32> = StaticSlot::empty();
    slot.set(3);
    assert_eq!(slot.take(), Some(3));
    assert!(slot.get() == None);
    assert_eq!(slot.take(), None);
    assert!(slot.get() == None);
}

#[test]
fn set_replaces_destructively() {
    let first = Rc::new(1u32);
    let second = Rc::new(2u32);

    let mut slot: StaticSlot<Rc<u32>> = StaticSlot::empty();
    slot.set(first.clone());
    assert_eq!(Rc::strong_count(&first), 2);

    slot.set(second.clone());
    // The first value was dropped by the replacement, never handed back.
    assert_eq!(Rc::strong_count(&first), 1);
    assert_eq!(Rc::strong_count(&second), 2);
    assert_eq!(slot.get(), Some(&second));

    slot.drop();
    assert_eq!(Rc::strong_count(&second), 1);
}

#[test]
fn with_restores_empty_and_propagates_result() {
    let mut slot: StaticSlot<u32> = StaticSlot::empty();
    let r = slot.with(7, |s| {
        assert!(s.get() == Some(&7));
        "done"
    });
    assert_eq!(r, "done");
    assert!(slot.get() == None);
}

#[test]
fn with_restores_previous_value() {
    let mut slot: StaticSlot<u32> = StaticSlot::empty();
    slot.set(1);
    slot.with(2, |s| {
        assert!(s.get() == Some(&2));
    });
    assert!(slot.get() == Some(&1));
}

#[test]
fn drop_reports_presence() {
    let mut slot: StaticSlot<u32> = StaticSlot::empty();
    slot.set(9);
    assert!(slot.drop());
    assert!(!slot.drop());
    assert!(slot.get() == None);
}

#[test]
fn scenario_integer_slot() {
    let mut slot: StaticSlot<i32> = StaticSlot::empty();
    assert!(slot.get() == None);
    slot.set(42);
    assert!(slot.get() == Some(&42));
    slot.with(7, |s| {
        assert!(s.get() == Some(&7));
    });
    assert!(slot.get() == Some(&42));
    assert!(slot.drop());
    assert!(slot.get() == None);
    assert!(!slot.drop());
}

#[test]
fn take_hands_value_out_exactly_once() {
    // One value installed, several takers in some order: exactly one
    // receives the value, the rest find the slot empty.
    let mut slot: StaticSlot<u64> = StaticSlot::empty();
    slot.set(77);
    let mut received: Vec<Option<u64>> = Vec::new();
    for _ in 0..8 {
        received.push(slot.take());
    }
    let winners = received.iter().filter(|r| r.is_some()).count();
    assert_eq!(winners, 1);
    assert_eq!(received[0], Some(77));
}
