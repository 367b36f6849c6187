//! Sprite list and drawing-order scenarios.
use asterism::sprite_layer::{render_order, SpriteList};

#[test]
fn render_order_is_stable_by_z() {
    assert_eq!(render_order(&[3, 1, 2]), vec![1, 2, 0]);
    assert_eq!(render_order(&[0, 0, -1, 0]), vec![2, 0, 1, 3]);
    assert_eq!(render_order(&[]), Vec::<usize>::new());
}

#[test]
fn sprite_list_add_remove_get() {
    let mut list: SpriteList<&str> = SpriteList::new();
    list.add(1, 0, "a");
    list.add(2, 5, "b");
    list.add(3, -1, "c");
    assert_eq!(list.len(), 3);
    assert_eq!(list.get(2), Some(&"b"));
    assert!(list.remove(2));
    assert!(!list.remove(2));
    assert_eq!(list.get(2), None);
    assert_eq!(list.len(), 2);
}

#[test]
fn sprite_list_add_same_id_replaces() {
    let mut list: SpriteList<u32> = SpriteList::new();
    list.add(1, 0, 10);
    list.add(2, 0, 20);
    list.add(1, 0, 11);
    assert_eq!(list.len(), 2);
    assert_eq!(list.index_of(1), Some(1));
    assert_eq!(list.get(1), Some(&11));
}

#[test]
fn sprite_list_draw_order_and_entry_mut() {
    let mut list: SpriteList<u32> = SpriteList::new();
    list.add(7, 2, 70);
    list.add(8, 1, 80);
    list.add(9, 2, 90);
    assert_eq!(list.draw_order(), vec![1, 0, 2]);
    let i = list.index_of(9).unwrap();
    *list.entry_mut(i) = 99;
    assert_eq!(list.get(9), Some(&99));
    list.clear();
    assert_eq!(list.len(), 0);
}
