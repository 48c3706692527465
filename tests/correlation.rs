use zbench::correlation::{CorrelationError, CorrelationTable};

#[test]
fn complete_returns_inserted_waiter() {
    let mut t: CorrelationTable<&str> = CorrelationTable::new();
    t.insert(7, "seven");
    t.insert(8, "eight");
    assert_eq!(t.len(), 2);
    assert_eq!(t.complete(7), Ok("seven"));
    assert_eq!(t.len(), 1);
    assert!(!t.contains(7));
    assert!(t.contains(8));
}

#[test]
fn complete_twice_fails() {
    let mut t: CorrelationTable<u32> = CorrelationTable::new();
    t.insert(3, 33);
    assert_eq!(t.complete(3), Ok(33));
    assert_eq!(t.complete(3), Err(CorrelationError::Missing { seq: 3 }));
    assert!(t.is_empty());
}

#[test]
fn complete_unknown_seq_fails() {
    let mut t: CorrelationTable<u32> = CorrelationTable::new();
    assert_eq!(t.complete(0), Err(CorrelationError::Missing { seq: 0 }));
    assert_eq!(t.len(), 0);
}
