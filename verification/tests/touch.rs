use xash3d::player_move::touch::{TouchList, MAX_PHYSENTS};

#[test]
fn touch_each_entity_once() {
    let mut list: TouchList<&str> = TouchList::new();
    assert_eq!(list.len(), 0);
    assert!(list.add_to_touched(7, "first"));
    assert!(list.add_to_touched(3, "second"));
    assert!(!list.add_to_touched(7, "again"));
    assert_eq!(list.len(), 2);
    assert_eq!(*list.get(0), (7, "first"));
    assert_eq!(*list.get(1), (3, "second"));
    assert!(list.contains(3));
    assert!(!list.contains(4));
}

#[test]
fn touch_list_fills_up() {
    let mut list: TouchList<u8> = TouchList::new();
    for ent in 0..MAX_PHYSENTS as i32 {
        assert!(list.add_to_touched(ent, 0));
    }
    assert_eq!(list.len(), MAX_PHYSENTS);
    // a full list still answers for an entity it holds
    assert!(!list.add_to_touched(5, 1));
    assert_eq!(*list.get(5), (5, 0));
}
