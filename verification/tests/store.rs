use restaurant::api::{add_item, query_all, query_one, remove_item};
use restaurant::Item;
use restaurant::Mutex;
use restaurant::Restaurant;
use restaurant::Table;

fn create_restaurant(table_n: usize, item_n: usize) -> Restaurant {
    let r = Restaurant::new(table_n);
    let t = r.clone().get_table(0).unwrap();
    for i in 0..item_n {
        let (mut tbl, handle) = t.acquire_write();
        tbl.add_item(i as u32);
        handle.release_write(tbl);
    }
    r
}

fn table_len(r: &Restaurant, tid: u32) -> usize {
    let t = r.clone().get_table(tid).unwrap();
    let (tbl, handle) = t.acquire_write();
    let n = tbl.items_size();
    handle.release_write(tbl);
    n
}

#[test]
fn test_item() -> Result<(), String> {
    let i = Item::new(1, 2, 3);

    assert_eq!(
        i,
        Item {
            item_id: 1,
            table_id: 2,
            prepare_time: 3,
        }
    );
    Ok(())
}

#[test]
fn test_table_add_item() -> Result<(), String> {
    let table_id = 12;

    let mut t = Table::new(table_id);

    let item_id = 4;

    t.add_item(item_id);

    t.check_item(item_id).unwrap();

    Ok(())
}

#[test]
fn test_table_check_item() -> Result<(), String> {
    let mut t = Table::new(1);

    let item_id = 7;

    t.add_item(item_id);
    let i = t.check_item(item_id).unwrap();
    assert_eq!(i.id(), item_id);

    let i2 = t.check_item(123);
    assert_eq!(i2, None);

    Ok(())
}

#[test]
fn test_table_remove_item() -> Result<(), String> {
    let mut t = Table::new(1);

    let item_id = 11;

    t.add_item(item_id);

    let i = t.remove_item(item_id).unwrap();
    assert_eq!(i.id(), item_id);

    let i2 = t.remove_item(item_id);
    assert_eq!(i2, None);

    Ok(())
}

#[test]
fn test_api_query_all() {
    let r = create_restaurant(1, 2);

    let output = query_all(0, r);

    assert_eq!(output.contains("item_id: 0"), true);
    assert_eq!(output.contains("item_id: 1"), true);
}

#[test]
fn test_api_query_one() {
    let r = create_restaurant(1, 2);
    let r2 = r.clone();

    let output = query_one(0, 1, r);
    assert_eq!(output.contains("item_id: 1"), true);

    let output2 = query_one(0, 3, r2);
    assert_eq!(output2.contains("{ msg: \"not found\"}"), true);
}

#[test]
fn test_api_remove_item() {
    let item_amount = 5;
    let item_id = 1;

    let r = create_restaurant(1, item_amount);
    let r2 = r.clone();
    let r3 = r.clone();

    let output = remove_item(0, item_id, r);
    assert_eq!(output.contains("success"), true);

    assert_eq!(table_len(&r2, 0), item_amount - 1);

    let output2 = remove_item(0, item_id, r3);
    assert_eq!(output2.contains("cannot remove"), true);
}

#[test]
fn test_api_add_item() {
    let item_amount = 5;

    let r = create_restaurant(1, item_amount);

    add_item(0, "999,", r.clone());

    assert_eq!(table_len(&r, 0), item_amount + 1);

    add_item(0, "777", r.clone());

    assert_eq!(table_len(&r, 0), item_amount + 2);
}

#[test]
fn add_then_remove_then_check_absent() {
    let mut t = Table::new(3);
    t.add_item(21);
    let removed = t.remove_item(21);
    assert!(removed.is_some());
    assert_eq!(t.check_item(21), None);
}

#[test]
fn re_add_same_id_keeps_count() {
    let mut t = Table::new(0);
    t.add_item(1);
    t.add_item(2);
    t.add_item(3);
    assert_eq!(t.items_size(), 3);
    t.add_item(2);
    assert_eq!(t.items_size(), 3);
    let it = t.check_item(2).unwrap();
    assert_eq!(it.item_id, 2);
}

#[test]
fn prepare_time_within_range() {
    let mut t = Table::new(5);
    for id in 0..50u32 {
        t.add_item(id);
        let it = t.check_item(id).unwrap();
        assert!(5 <= it.prepare_time && it.prepare_time < 15);
        assert_eq!(it.table_id, 5);
        assert_eq!(it.item_id, id);
    }
}

#[test]
fn item_print_exact() {
    let i = Item::new(1, 2, 3);
    assert_eq!(i.print(), "{item_id: 1, table_id: 2, prepare_time: 3}");
}

#[test]
fn item_print_large_numbers() {
    let i = Item::new(4294967295, 0, 10);
    assert_eq!(
        i.print(),
        "{item_id: 4294967295, table_id: 0, prepare_time: 10}"
    );
}

#[test]
fn empty_table_renders_empty_list() {
    let t = Table::new(0);
    assert_eq!(t.print_items(), "[]");
}

#[test]
fn print_item_not_found_exact() {
    let t = Table::new(0);
    assert_eq!(t.print_item(44), "{ msg: \"not found\"}");
}

#[test]
fn print_items_lists_every_item() {
    let mut t = Table::new(2);
    t.add_item(0);
    t.add_item(1);
    let all = t.print_items();
    assert!(all.starts_with("["));
    assert!(all.ends_with("]"));
    assert!(all.contains("item_id: 0"));
    assert!(all.contains(", "));
    assert!(all.contains("item_id: 1"));
}

#[test]
fn get_table_out_of_range_is_absent() {
    let r = Restaurant::new(1);
    assert!(r.clone().get_table(1).is_none());
    assert!(r.clone().get_table(7).is_none());
    assert!(r.get_table(0).is_some());
}

#[test]
fn api_markers_for_missing_table() {
    let r = Restaurant::new(1);
    assert_eq!(query_all(5, r.clone()), "{ msg: \"no such table\"}");
    assert_eq!(query_one(5, 0, r.clone()), "{ msg: \"no such table\"}");
    assert_eq!(remove_item(5, 0, r.clone()), "{ msg: \"no such table\"}");
    assert_eq!(add_item(5, "1", r), "{ msg: \"no such table\"}");
}

#[test]
fn api_remove_absent_marker_exact() {
    let r = Restaurant::new(1);
    assert_eq!(remove_item(0, 99, r), "{ msg: \"cannot remove, not exist\"}");
}

#[test]
fn api_add_bad_payload_marker() {
    let r = create_restaurant(1, 2);
    assert_eq!(add_item(0, "abc", r.clone()), "{ msg: \"cannot add\"}");
    assert_eq!(add_item(0, "", r.clone()), "{ msg: \"cannot add\"}");
    assert_eq!(add_item(0, ",7", r.clone()), "{ msg: \"cannot add\"}");
    assert_eq!(table_len(&r, 0), 2);
}

#[test]
fn cloned_handles_share_partitions() {
    let r = Restaurant::new(2);
    let a = r.clone();
    let b = r.clone();
    add_item(1, "8", a);
    assert_eq!(table_len(&b, 1), 1);
    assert_eq!(table_len(&b, 0), 0);
}

#[test]
fn table_ids_match_indices() {
    let r = Restaurant::new(10);
    for tid in 0..10u32 {
        let t = r.clone().get_table(tid).unwrap();
        let (tbl, handle) = t.acquire_write();
        let id = tbl.id();
        handle.release_write(tbl);
        assert_eq!(id, tid);
    }
}

#[test]
fn mutex_lock_unlock_cycles() {
    let m = Mutex::new();
    m.lock();
    m.unlock();
    m.lock();
    m.unlock();
}
