use rapi::table::{CorrelationEntry, CorrelationTable};

fn entry(delivery: u32, remaining: Option<i32>) -> CorrelationEntry<u32> {
    CorrelationEntry { delivery, remaining }
}

#[test]
fn a_new_table_is_empty() {
    let table: CorrelationTable<u32> = CorrelationTable::new();
    assert!(table.is_empty());
    assert_eq!(table.len(), 0);
    assert!(!table.contains(&String::from("a")));
}

#[test]
fn registered_jobs_are_found_and_removed() {
    let mut table = CorrelationTable::new();
    assert!(table.register(String::from("a"), entry(1, None)).is_none());
    assert!(table.register(String::from("b"), entry(2, Some(3))).is_none());
    assert!(table.register(String::from("c"), entry(3, Some(1))).is_none());
    assert_eq!(table.len(), 3);
    assert!(table.contains(&String::from("b")));

    let b = table.remove(&String::from("b")).unwrap();
    assert_eq!(b.delivery, 2);
    assert_eq!(b.remaining, Some(3));
    assert!(!table.contains(&String::from("b")));
    assert!(table.contains(&String::from("a")));
    assert!(table.contains(&String::from("c")));
    assert_eq!(table.len(), 2);

    assert!(table.remove(&String::from("b")).is_none());
    assert_eq!(table.remove(&String::from("c")).unwrap().delivery, 3);
    let a = table.remove(&String::from("a")).unwrap();
    assert_eq!(a.delivery, 1);
    assert_eq!(a.remaining, None);
    assert!(table.is_empty());
}

#[test]
fn an_id_is_held_once() {
    let mut table = CorrelationTable::new();
    assert!(table.register(String::from("a"), entry(1, None)).is_none());
    let refused = table.register(String::from("a"), entry(2, Some(5))).unwrap();
    assert_eq!(refused.delivery, 2);
    assert_eq!(refused.remaining, Some(5));
    assert_eq!(table.len(), 1);
    assert_eq!(table.remove(&String::from("a")).unwrap().delivery, 1);
}

#[test]
fn ids_are_told_apart_exactly() {
    let mut table = CorrelationTable::new();
    assert!(table.register(String::from("job"), entry(1, None)).is_none());
    assert!(!table.contains(&String::from("Job")));
    assert!(!table.contains(&String::from("job ")));
    assert!(!table.contains(&String::from("")));
    assert!(table.register(String::from(""), entry(2, None)).is_none());
    assert!(table.contains(&String::from("")));
}
