use lau_ffi_bindings::handle::HandleIdGenerator;
use lau_ffi_bindings::{HandleTable, OpaqueHandle};

#[test]
fn test_handle_unique_ids() {
    let mut ids = HandleIdGenerator::new();
    let h1: OpaqueHandle<u8> = ids.next_handle();
    let h2: OpaqueHandle<u8> = ids.next_handle();
    assert_ne!(h1.id(), h2.id());
}

#[test]
fn test_handle_is_valid() {
    let mut ids = HandleIdGenerator::new();
    let h: OpaqueHandle<u8> = ids.next_handle();
    assert!(h.is_valid());
    let zero = OpaqueHandle::<u8>::from_id(0);
    assert!(!zero.is_valid());
}

#[test]
fn test_handle_table_insert_get() {
    let mut table: HandleTable<String> = HandleTable::new();
    let h = table.insert("hello".to_string());
    assert_eq!(table.get(h), Some(&"hello".to_string()));
}

#[test]
fn test_handle_table_remove() {
    let mut table: HandleTable<Vec<u8>> = HandleTable::new();
    let h = table.insert(vec![1, 2, 3]);
    assert!(table.contains(h));
    let val = table.remove(h);
    assert_eq!(val, Some(vec![1, 2, 3]));
    assert!(!table.contains(h));
    assert!(table.is_empty());
}

#[test]
fn test_handle_table_get_mut() {
    let mut table: HandleTable<i32> = HandleTable::new();
    let h = table.insert(10);
    if let Some(v) = table.get_mut(h) {
        *v = 20;
    }
    assert_eq!(table.get(h), Some(&20));
}

#[test]
fn test_handle_table_multiple() {
    let mut table: HandleTable<u32> = HandleTable::new();
    let h1 = table.insert(1);
    let h2 = table.insert(2);
    let h3 = table.insert(3);
    assert_eq!(table.len(), 3);
    assert_eq!(table.get(h1), Some(&1));
    assert_eq!(table.get(h2), Some(&2));
    assert_eq!(table.get(h3), Some(&3));
}

#[test]
fn test_handle_type_safety() {
    let mut int_ids = HandleIdGenerator::new();
    let mut str_ids = HandleIdGenerator::new();
    let h_int: OpaqueHandle<i32> = int_ids.next_handle();
    let h_str: OpaqueHandle<String> = str_ids.next_handle();
    assert!(h_int.is_valid());
    assert!(h_str.is_valid());
}

#[test]
fn test_handle_from_id() {
    let h: OpaqueHandle<f64> = OpaqueHandle::from_id(42);
    assert_eq!(h.id(), 42);
}

#[test]
fn generator_issues_increasing_ids_from_one() {
    let mut ids = HandleIdGenerator::new();
    assert_eq!(ids.peek_next(), 1);
    let a: OpaqueHandle<()> = ids.next_handle();
    let b: OpaqueHandle<()> = ids.next_handle();
    assert_eq!(a.id(), 1);
    assert_eq!(b.id(), 2);
    assert_eq!(ids.peek_next(), 3);
}

#[test]
fn removed_handle_is_never_reissued() {
    let mut table: HandleTable<&str> = HandleTable::new();
    let h = table.insert("a");
    assert_eq!(table.remove(h), Some("a"));
    let h2 = table.insert("b");
    assert_ne!(h.id(), h2.id());
    assert_eq!(table.get(h), None);
    assert_eq!(table.get(h2), Some(&"b"));
}

#[test]
fn missing_handles_resolve_to_nothing() {
    let mut table: HandleTable<u8> = HandleTable::new();
    let stray = OpaqueHandle::<u8>::from_id(77);
    assert_eq!(table.get(stray), None);
    assert!(table.get_mut(stray).is_none());
    assert_eq!(table.remove(stray), None);
    assert!(!table.contains(stray));
    assert_eq!(table.len(), 0);
}

#[test]
fn handle_copies_keep_the_id() {
    let h = OpaqueHandle::<u8>::from_id(9);
    let c = h;
    let d = h.clone();
    assert_eq!(c.id(), 9);
    assert_eq!(d.id(), 9);
}

#[test]
fn default_table_is_empty() {
    let table: HandleTable<u8> = HandleTable::default();
    assert!(table.is_empty());
    assert_eq!(table.len(), 0);
}

#[test]
fn insert_and_remove_change_length_by_one() {
    let mut table: HandleTable<u8> = HandleTable::new();
    let a = table.insert(1);
    let b = table.insert(2);
    assert_eq!(table.len(), 2);
    assert_eq!(table.remove(a), Some(1));
    assert_eq!(table.len(), 1);
    assert_eq!(table.remove(a), None);
    assert_eq!(table.len(), 1);
    assert_eq!(table.get(b), Some(&2));
}

#[test]
fn tables_sharing_a_generator_never_share_ids() {
    let mut ids = HandleIdGenerator::new();
    let mut a: HandleTable<u8> = HandleTable::new();
    let mut b: HandleTable<u8> = HandleTable::new();
    let ha = a.insert_from(&mut ids, 1);
    let hb = b.insert_from(&mut ids, 2);
    assert_ne!(ha.id(), hb.id());
    assert_eq!(a.get(hb), None);
    assert_eq!(b.get(ha), None);
    assert_eq!(b.get(hb), Some(&2));
}

#[test]
fn insert_with_handle_moves_the_counter_past_it() {
    let mut table: HandleTable<&str> = HandleTable::new();
    let outside = OpaqueHandle::<&str>::from_id(10);
    assert_eq!(table.insert_with_handle(outside, "x"), None);
    assert_eq!(table.insert_with_handle(outside, "y"), Some("x"));
    assert_eq!(table.len(), 1);
    let own = table.insert("z");
    assert_eq!(own.id(), 11);
    assert_eq!(table.get(outside), Some(&"y"));
}

#[test]
fn generator_wraps_after_max() {
    let mut ids = HandleIdGenerator::starting_at(u64::MAX);
    let last: OpaqueHandle<()> = ids.next_handle();
    assert_eq!(last.id(), u64::MAX);
    assert_eq!(ids.peek_next(), 0);
    let mut ids2 = HandleIdGenerator::starting_at(5);
    ids2.advance_past(3);
    assert_eq!(ids2.peek_next(), 5);
    ids2.advance_past(9);
    assert_eq!(ids2.peek_next(), 10);
}
