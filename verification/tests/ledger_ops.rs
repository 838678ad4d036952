use rental_ledger::ledger::{Ledger, LedgerError};
use rental_ledger::strings::{copy_texts, same_text, same_texts};

fn strings(items: &[&str]) -> Vec<String> {
    items.iter().map(|s| s.to_string()).collect()
}

fn ledger_with(user: &str, items: &[&str]) -> Ledger {
    let mut ledger = Ledger::new();
    for item in items {
        ledger.borrow(user, item.to_string());
    }
    ledger
}

#[test]
fn new_ledger_knows_nobody() {
    let ledger = Ledger::new();
    assert!(!ledger.contains("alice"));
    assert_eq!(ledger.list("alice"), Err(LedgerError::NotFound));
    assert!(ledger.snapshot().is_empty());
}

#[test]
fn borrow_then_list_shows_the_item_last() {
    let mut ledger = ledger_with("alice", &["lamp"]);
    ledger.borrow("alice", "x".to_string());
    assert_eq!(ledger.list("alice"), Ok(strings(&["lamp", "x"])));
    assert_eq!(ledger.list("alice").unwrap().last(), Some(&"x".to_string()));
}

#[test]
fn sequential_borrows_are_listed_in_call_order() {
    let mut ledger = Ledger::new();
    let mut expected = Vec::new();
    for i in 1..=25 {
        let item = format!("item-{}", i);
        ledger.borrow("alice", item.clone());
        expected.push(item);
        assert_eq!(ledger.list("alice").unwrap().len(), i);
    }
    assert_eq!(ledger.list("alice"), Ok(expected));
}

#[test]
fn borrow_accepts_an_empty_item_and_duplicates() {
    let mut ledger = Ledger::new();
    ledger.borrow("alice", String::new());
    ledger.borrow("alice", "pen".to_string());
    ledger.borrow("alice", "pen".to_string());
    assert_eq!(ledger.list("alice"), Ok(strings(&["", "pen", "pen"])));
}

#[test]
fn borrow_touches_only_the_borrower() {
    let mut ledger = ledger_with("alice", &["lamp"]);
    ledger.borrow("bob", "drill".to_string());
    ledger.borrow("alice", "saw".to_string());
    assert_eq!(ledger.list("alice"), Ok(strings(&["lamp", "saw"])));
    assert_eq!(ledger.list("bob"), Ok(strings(&["drill"])));
    assert_eq!(ledger.list("carol"), Err(LedgerError::NotFound));
}

#[test]
fn giveback_removes_the_item_at_the_position() {
    let mut ledger = ledger_with("u", &["a", "b", "c"]);
    assert_eq!(ledger.giveback("u", 2), Ok(()));
    assert_eq!(ledger.list("u"), Ok(strings(&["a", "c"])));
}

#[test]
fn giveback_first_and_last_positions() {
    let mut ledger = ledger_with("u", &["a", "b", "c"]);
    assert_eq!(ledger.giveback("u", 1), Ok(()));
    assert_eq!(ledger.list("u"), Ok(strings(&["b", "c"])));
    assert_eq!(ledger.giveback("u", 2), Ok(()));
    assert_eq!(ledger.list("u"), Ok(strings(&["b"])));
}

#[test]
fn giveback_out_of_range_leaves_the_list_unchanged() {
    let mut ledger = ledger_with("u", &["a", "b", "c"]);
    assert_eq!(ledger.giveback("u", 0), Err(LedgerError::IndexOutOfRange));
    assert_eq!(ledger.giveback("u", 4), Err(LedgerError::IndexOutOfRange));
    assert_eq!(ledger.giveback("u", usize::MAX), Err(LedgerError::IndexOutOfRange));
    assert_eq!(ledger.list("u"), Ok(strings(&["a", "b", "c"])));
}

#[test]
fn positions_are_renumbered_at_once() {
    let mut ledger = ledger_with("u", &["a", "b", "c"]);
    assert_eq!(ledger.giveback("u", 1), Ok(()));
    assert_eq!(ledger.giveback("u", 1), Ok(()));
    assert_eq!(ledger.list("u"), Ok(strings(&["c"])));
    assert_eq!(ledger.giveback("u", 2), Err(LedgerError::IndexOutOfRange));
}

#[test]
fn unknown_user_is_not_found_and_nothing_changes() {
    let mut ledger = ledger_with("alice", &["lamp"]);
    let before = ledger.snapshot();
    assert_eq!(ledger.list("unknown"), Err(LedgerError::NotFound));
    assert_eq!(ledger.giveback("unknown", 1), Err(LedgerError::NotFound));
    assert_eq!(ledger.giveback("unknown", 0), Err(LedgerError::NotFound));
    assert_eq!(ledger.snapshot(), before);
    assert!(!ledger.contains("unknown"));
}

#[test]
fn user_who_returned_everything_keeps_an_empty_entry() {
    let mut ledger = ledger_with("alice", &["lamp"]);
    assert_eq!(ledger.giveback("alice", 1), Ok(()));
    assert!(ledger.contains("alice"));
    assert_eq!(ledger.list("alice"), Ok(Vec::new()));
    assert_eq!(ledger.giveback("alice", 1), Err(LedgerError::IndexOutOfRange));
    ledger.borrow("alice", "saw".to_string());
    assert_eq!(ledger.list("alice"), Ok(strings(&["saw"])));
}

#[test]
fn list_returns_a_copy() {
    let ledger = ledger_with("alice", &["lamp"]);
    let mut copy = ledger.list("alice").unwrap();
    copy.push("ghost".to_string());
    assert_eq!(ledger.list("alice"), Ok(strings(&["lamp"])));
}

#[test]
fn snapshot_lists_every_user_once() {
    let mut ledger = ledger_with("alice", &["lamp", "saw"]);
    ledger.borrow("bob", "drill".to_string());
    let mut snapshot = ledger.snapshot();
    snapshot.sort();
    assert_eq!(
        snapshot,
        vec![
            ("alice".to_string(), strings(&["lamp", "saw"])),
            ("bob".to_string(), strings(&["drill"])),
        ]
    );
}

#[test]
fn equals_compares_users_and_lists() {
    let mut a = ledger_with("alice", &["lamp", "saw"]);
    a.borrow("bob", "drill".to_string());
    let mut b = ledger_with("bob", &["drill"]);
    b.borrow("alice", "lamp".to_string());
    assert!(!a.equals(&b));
    assert!(!b.equals(&a));
    b.borrow("alice", "saw".to_string());
    assert!(a.equals(&b));
    let swapped = ledger_with("alice", &["saw", "lamp"]);
    let straight = ledger_with("alice", &["lamp", "saw"]);
    assert!(!swapped.equals(&straight));
    assert!(Ledger::new().equals(&Ledger::new()));
    assert!(!Ledger::new().equals(&straight));
}

#[test]
fn borrows_served_in_any_order_are_all_kept() {
    let n = 40usize;
    let mut order: Vec<usize> = (1..=n).collect();
    let mut seed = 12345usize;
    for i in (1..n).rev() {
        seed = seed.wrapping_mul(1103515245).wrapping_add(12345);
        order.swap(i, seed % (i + 1));
    }
    let mut ledger = Ledger::new();
    for i in &order {
        ledger.borrow("u", i.to_string());
    }
    let listed = ledger.list("u").unwrap();
    assert_eq!(listed.len(), n);
    let expected: Vec<String> = order.iter().map(|i| i.to_string()).collect();
    assert_eq!(listed, expected);
    let mut sorted: Vec<usize> = listed.iter().map(|s| s.parse().unwrap()).collect();
    sorted.sort();
    assert_eq!(sorted, (1..=n).collect::<Vec<usize>>());
}

#[test]
fn same_texts_and_copy_texts_agree() {
    let a = strings(&["a", "b"]);
    assert!(same_texts(&a, &copy_texts(&a)));
    assert!(!same_texts(&a, &strings(&["a"])));
    assert!(!same_texts(&a, &strings(&["a", "c"])));
    assert!(same_texts(&Vec::new(), &Vec::new()));
    assert!(same_text("lamp", "lamp"));
    assert!(!same_text("lamp", "lamP"));
    assert!(!same_text("lamp", "lam"));
}
