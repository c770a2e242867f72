use inventory_grid::inventory::{Inventory, Item};

#[test]
fn new_item_starts_with_amount_one() {
    let item = Item::new("Rose_Flower");
    assert_eq!(item.name(), "Rose_Flower");
    assert_eq!(item.amount(), 1);
}

#[test]
fn adding_same_name_merges_into_one_slot() {
    let mut inventory = Inventory::new();
    assert!(inventory.add_item(Item::new("X")).is_ok());
    assert!(inventory.add_item(Item::with_amount("X", 2)).is_ok());
    assert_eq!(inventory.len(), 1);
    let stored = inventory.get(0).expect("slot 0 is occupied");
    assert_eq!(stored.name(), "X");
    assert_eq!(stored.amount(), 3);
}

#[test]
fn merge_keeps_the_first_insertion_slot() {
    let mut inventory = Inventory::new();
    assert!(inventory.add_item(Item::new("X")).is_ok());
    assert!(inventory.add_item(Item::new("Y")).is_ok());
    assert!(inventory.add_item(Item::with_amount("X", 2)).is_ok());
    assert_eq!(inventory.len(), 2);
    assert_eq!(inventory.get(0).unwrap().name(), "X");
    assert_eq!(inventory.get(0).unwrap().amount(), 3);
    assert_eq!(inventory.get(1).unwrap().name(), "Y");
    assert_eq!(inventory.get(1).unwrap().amount(), 1);
}

#[test]
fn distinct_names_keep_insertion_order() {
    let mut inventory = Inventory::new();
    assert!(inventory.add_item(Item::new("Rose_Flower")).is_ok());
    assert!(inventory.add_item(Item::new("Dragon_Tooth")).is_ok());
    assert_eq!(inventory.len(), 2);
    assert_eq!(inventory.get(0).unwrap().name(), "Rose_Flower");
    assert_eq!(inventory.get(1).unwrap().name(), "Dragon_Tooth");
}

#[test]
fn contains_item_matches_substrings() {
    let mut inventory = Inventory::new();
    assert!(inventory.add_item(Item::new("Rose_Flower")).is_ok());
    assert!(inventory.contains_item("Rose"));
    assert!(inventory.contains_item("Flower"));
    assert!(inventory.contains_item("e_F"));
    assert!(inventory.contains_item(""));
    assert!(!inventory.contains_item("rose"));
    assert!(!inventory.contains_item("Tooth"));
}

#[test]
fn contains_item_on_empty_inventory_is_false() {
    let inventory = Inventory::new();
    assert!(!inventory.contains_item("Rose"));
    assert!(!inventory.contains_item(""));
}

#[test]
fn get_by_name_matches_exactly() {
    let mut inventory = Inventory::new();
    assert!(inventory.add_item(Item::new("Rose_Flower")).is_ok());
    assert!(inventory.add_item(Item::new("Dragon_Tooth")).is_ok());
    assert_eq!(inventory.get_by_name("Rose_Flower"), Some(0));
    assert_eq!(inventory.get_by_name("Dragon_Tooth"), Some(1));
    assert_eq!(inventory.get_by_name("Rose"), None);
    assert_eq!(inventory.get_by_name("rose_flower"), None);
}

#[test]
fn a_new_name_is_rejected_once_all_slots_are_taken() {
    let mut inventory = Inventory::new();
    for i in 0..36 {
        let name = format!("item{}", i);
        assert!(inventory.add_item(Item::new(&name)).is_ok());
    }
    assert_eq!(inventory.len(), 36);
    assert!(inventory.add_item(Item::new("overflow")).is_err());
    assert_eq!(inventory.len(), 36);
    assert!(inventory.add_item(Item::with_amount("item0", 9)).is_ok());
    assert_eq!(inventory.get(0).unwrap().amount(), 10);
}

#[test]
fn merged_amounts_saturate_at_the_integer_limit() {
    let mut inventory = Inventory::new();
    assert!(inventory.add_item(Item::with_amount("Gold", i32::MAX)).is_ok());
    assert!(inventory.add_item(Item::new("Gold")).is_ok());
    assert_eq!(inventory.len(), 1);
    assert_eq!(inventory.get(0).unwrap().amount(), i32::MAX);
}

#[test]
fn capacity_is_thirty_six() {
    let inventory = Inventory::new();
    assert_eq!(inventory.capacity(), 36);
    assert_eq!(inventory.len(), 0);
    assert!(inventory.get(0).is_none());
}
