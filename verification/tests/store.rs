use account_manager::account::Account;
use account_manager::error::AccountError;
use account_manager::store::AccountStore;

fn add(store: &mut AccountStore, uuid: &str, name: &str, token: &str, now: i64) {
    store.add_account(
        uuid.to_string(),
        name.to_string(),
        token.to_string(),
        Some(format!("refresh-{}", uuid)),
        now + 3600,
        now,
    );
}

fn active_uuid(store: &AccountStore) -> Option<String> {
    store.active_account_uuid().clone()
}

/// The active uuid, when set, names an account of the store, and no uuid
/// is listed twice.
fn holds_invariants(store: &AccountStore) -> bool {
    let accounts = store.accounts();
    for (i, a) in accounts.iter().enumerate() {
        for b in accounts.iter().skip(i + 1) {
            if a.uuid == b.uuid {
                return false;
            }
        }
    }
    match store.active_account_uuid() {
        Some(uuid) => accounts.iter().any(|a| &a.uuid == uuid),
        None => true,
    }
}

#[test]
fn new_store_is_empty() {
    let store = AccountStore::new();
    assert!(store.accounts().is_empty());
    assert_eq!(active_uuid(&store), None);
    assert!(store.get_active_account().is_none());
    assert!(store.get_all_accounts().is_empty());
    assert!(!store.account_exists("u1"));
}

#[test]
fn first_added_account_becomes_active() {
    let mut store = AccountStore::new();
    add(&mut store, "u1", "Alice", "tokA", 1_000);
    assert_eq!(store.accounts().len(), 1);
    assert_eq!(active_uuid(&store), Some("u1".to_string()));
    add(&mut store, "u2", "Bob", "tokB", 2_000);
    assert_eq!(store.accounts().len(), 2);
    assert_eq!(active_uuid(&store), Some("u1".to_string()));
}

#[test]
fn add_account_records_every_field() {
    let mut store = AccountStore::new();
    store.add_account(
        "u1".to_string(),
        "Alice".to_string(),
        "tokA".to_string(),
        None,
        5_000,
        1_234,
    );
    let account: Account = store.get_account("u1").unwrap();
    assert_eq!(account.uuid, "u1");
    assert_eq!(account.username, "Alice");
    assert_eq!(account.access_token, "tokA");
    assert_eq!(account.refresh_token, None);
    assert_eq!(account.expires_at, 5_000);
    assert_eq!(account.added_at, 1_234);
    assert_eq!(account.last_used, Some(1_234));
}

#[test]
fn add_account_overwrites_the_same_uuid() {
    let mut store = AccountStore::new();
    add(&mut store, "u1", "Alice", "tokA", 1_000);
    add(&mut store, "u2", "Bob", "tokB", 2_000);
    add(&mut store, "u1", "Alicia", "tokA2", 3_000);
    assert_eq!(store.accounts().len(), 2);
    let account = store.get_account("u1").unwrap();
    assert_eq!(account.username, "Alicia");
    assert_eq!(account.access_token, "tokA2");
    assert_eq!(account.added_at, 3_000);
    assert_eq!(active_uuid(&store), Some("u1".to_string()));
    assert!(holds_invariants(&store));
}

#[test]
fn insert_keeps_the_active_choice() {
    let mut store = AccountStore::new();
    store.insert(Account {
        uuid: "u1".to_string(),
        username: "Alice".to_string(),
        access_token: "tokA".to_string(),
        refresh_token: None,
        expires_at: 10,
        added_at: 1,
        last_used: None,
    });
    assert_eq!(active_uuid(&store), None);
    assert!(store.account_exists("u1"));
    assert_eq!(store.get_account("u1").unwrap().last_used, None);
}

#[test]
fn remove_is_idempotent() {
    let mut store = AccountStore::new();
    add(&mut store, "u1", "Alice", "tokA", 1_000);
    store.remove_account("nobody");
    assert_eq!(store.accounts().len(), 1);
    assert_eq!(active_uuid(&store), Some("u1".to_string()));
    store.remove_account("u1");
    store.remove_account("u1");
    assert!(store.accounts().is_empty());
    assert_eq!(active_uuid(&store), None);
}

#[test]
fn removing_the_sole_active_account_leaves_none_active() {
    let mut store = AccountStore::new();
    add(&mut store, "u1", "Alice", "tokA", 1_000);
    store.remove_account("u1");
    assert_eq!(active_uuid(&store), None);
    assert!(store.get_active_account().is_none());
}

#[test]
fn removing_the_active_account_activates_a_remaining_one() {
    let mut store = AccountStore::new();
    add(&mut store, "u1", "Alice", "tokA", 1_000);
    add(&mut store, "u2", "Bob", "tokB", 2_000);
    add(&mut store, "u3", "Carol", "tokC", 3_000);
    store.remove_account("u1");
    let active = active_uuid(&store).unwrap();
    assert_ne!(active, "u1");
    assert!(store.account_exists(&active));
    assert!(holds_invariants(&store));
}

#[test]
fn removing_an_inactive_account_keeps_the_active_one() {
    let mut store = AccountStore::new();
    add(&mut store, "u1", "Alice", "tokA", 1_000);
    add(&mut store, "u2", "Bob", "tokB", 2_000);
    store.remove_account("u2");
    assert_eq!(active_uuid(&store), Some("u1".to_string()));
    assert!(!store.account_exists("u2"));
}

#[test]
fn invariants_hold_after_every_step() {
    let mut store = AccountStore::new();
    assert!(holds_invariants(&store));
    let steps: Vec<(bool, &str)> = vec![
        (true, "a"),
        (true, "b"),
        (false, "a"),
        (true, "c"),
        (true, "b"),
        (false, "b"),
        (false, "zz"),
        (false, "c"),
        (true, "a"),
        (false, "a"),
    ];
    let mut now = 100;
    for (adding, uuid) in steps {
        if adding {
            add(&mut store, uuid, uuid, "tok", now);
        } else {
            store.remove_account(uuid);
        }
        now += 10;
        assert!(holds_invariants(&store));
        assert_eq!(store.accounts().is_empty(), active_uuid(&store).is_none());
    }
    assert!(store.accounts().is_empty());
}

#[test]
fn set_active_then_get_active_returns_that_account() {
    let mut store = AccountStore::new();
    add(&mut store, "u1", "Alice", "tokA", 1_000);
    add(&mut store, "u2", "Bob", "tokB", 2_000);
    assert_eq!(store.set_active_account("u2", 7_777), Ok(()));
    let active = store.get_active_account().unwrap();
    assert_eq!(active.uuid, "u2");
    assert_eq!(active.username, "Bob");
    assert_eq!(active.last_used, Some(7_777));
    assert_eq!(active.added_at, 2_000);
    assert_eq!(store.get_account("u1").unwrap().last_used, Some(1_000));
}

#[test]
fn set_active_fails_for_an_unknown_uuid() {
    let mut store = AccountStore::new();
    add(&mut store, "u1", "Alice", "tokA", 1_000);
    assert_eq!(store.set_active_account("u9", 5_000), Err(AccountError::AccountNotFound));
    assert_eq!(active_uuid(&store), Some("u1".to_string()));
    assert_eq!(store.get_account("u1").unwrap().last_used, Some(1_000));
}

#[test]
fn account_exists_tells_members_from_strangers() {
    let mut store = AccountStore::new();
    add(&mut store, "u1", "Alice", "tokA", 1_000);
    assert!(store.account_exists("u1"));
    assert!(!store.account_exists("u"));
    assert!(!store.account_exists("u11"));
    assert!(!store.account_exists(""));
}

#[test]
fn listing_is_ordered_by_last_use_with_never_used_last() {
    let mut store = AccountStore::new();
    add(&mut store, "old", "Old", "t1", 100);
    store.insert(Account {
        uuid: "never".to_string(),
        username: "Never".to_string(),
        access_token: "t0".to_string(),
        refresh_token: None,
        expires_at: 10,
        added_at: 1,
        last_used: None,
    });
    add(&mut store, "new", "New", "t2", 300);
    add(&mut store, "mid", "Mid", "t3", 200);
    let listing = store.get_all_accounts();
    let uuids: Vec<&str> = listing.iter().map(|s| s.uuid.as_str()).collect();
    assert_eq!(uuids, vec!["new", "mid", "old", "never"]);
    let used: Vec<Option<i64>> = listing.iter().map(|s| s.last_used).collect();
    assert_eq!(used, vec![Some(300), Some(200), Some(100), None]);
}

#[test]
fn listing_marks_the_active_account_and_hides_nothing_else() {
    let mut store = AccountStore::new();
    add(&mut store, "u1", "Alice", "tokA", 1_000);
    add(&mut store, "u2", "Bob", "tokB", 2_000);
    let listing = store.get_all_accounts();
    assert_eq!(listing.len(), 2);
    assert_eq!(listing[0].uuid, "u2");
    assert_eq!(listing[0].username, "Bob");
    assert!(!listing[0].is_active);
    assert_eq!(listing[0].added_at, 2_000);
    assert_eq!(listing[1].uuid, "u1");
    assert!(listing[1].is_active);
    assert_eq!(listing[1].last_used, Some(1_000));
}

#[test]
fn listing_keeps_store_order_among_equal_times() {
    let mut store = AccountStore::new();
    add(&mut store, "a", "A", "t", 500);
    add(&mut store, "b", "B", "t", 500);
    add(&mut store, "c", "C", "t", 500);
    let listing = store.get_all_accounts();
    let uuids: Vec<&str> = listing.iter().map(|s| s.uuid.as_str()).collect();
    assert_eq!(uuids, vec!["a", "b", "c"]);
}

#[test]
fn restore_rejects_duplicates_and_dangling_active() {
    let account = |uuid: &str| Account {
        uuid: uuid.to_string(),
        username: "n".to_string(),
        access_token: "t".to_string(),
        refresh_token: None,
        expires_at: 1,
        added_at: 1,
        last_used: None,
    };
    assert!(AccountStore::restore(vec![account("a"), account("b")], Some("b".to_string())).is_ok());
    assert!(AccountStore::restore(vec![account("a"), account("b")], None).is_ok());
    assert_eq!(
        AccountStore::restore(vec![account("a"), account("a")], None).err(),
        Some(AccountError::StoreCorrupt)
    );
    assert_eq!(
        AccountStore::restore(vec![account("a")], Some("b".to_string())).err(),
        Some(AccountError::StoreCorrupt)
    );
    assert_eq!(
        AccountStore::restore(Vec::new(), Some("a".to_string())).err(),
        Some(AccountError::StoreCorrupt)
    );
}

#[test]
fn clone_copies_the_store() {
    let mut store = AccountStore::new();
    add(&mut store, "u1", "Alice", "tokA", 1_000);
    let copy = store.clone();
    store.remove_account("u1");
    assert!(copy.account_exists("u1"));
    assert_eq!(copy.active_account_uuid().clone(), Some("u1".to_string()));
    assert_eq!(copy.get_account("u1").unwrap().access_token, "tokA");
}

#[test]
fn concrete_scenario_on_the_store() {
    let t = 1_700_000_000;
    let mut store = AccountStore::new();
    store.add_account(
        "u1".to_string(),
        "Alice".to_string(),
        "tokA".to_string(),
        Some("refA".to_string()),
        t + 3600,
        t,
    );
    assert_eq!(store.accounts().len(), 1);
    assert_eq!(active_uuid(&store), Some("u1".to_string()));
    store.add_account(
        "u2".to_string(),
        "Bob".to_string(),
        "tokB".to_string(),
        Some("refB".to_string()),
        t + 3600,
        t,
    );
    assert_eq!(active_uuid(&store), Some("u1".to_string()));
    assert_eq!(store.accounts().len(), 2);
    store.remove_account("u1");
    assert_eq!(active_uuid(&store), Some("u2".to_string()));
}

#[test]
fn accounts_stand_in_the_order_of_their_arrival() {
    let mut store = AccountStore::new();
    add(&mut store, "c", "C", "t", 1);
    add(&mut store, "a", "A", "t", 2);
    add(&mut store, "b", "B", "t", 3);
    let order = |store: &AccountStore| -> Vec<String> {
        store.accounts().iter().map(|a| a.uuid.clone()).collect()
    };
    assert_eq!(order(&store), vec!["c", "a", "b"]);
    add(&mut store, "a", "A2", "t", 4);
    assert_eq!(order(&store), vec!["c", "a", "b"]);
    store.set_active_account("b", 5).unwrap();
    assert_eq!(order(&store), vec!["c", "a", "b"]);
    store.remove_account("c");
    assert_eq!(order(&store), vec!["a", "b"]);
    assert_eq!(active_uuid(&store), Some("b".to_string()));
    store.remove_account("b");
    assert_eq!(order(&store), vec!["a"]);
    assert_eq!(active_uuid(&store), Some("a".to_string()));
}

#[test]
fn removing_the_active_account_activates_the_first_that_remains() {
    let mut store = AccountStore::new();
    add(&mut store, "u1", "Alice", "tokA", 1_000);
    add(&mut store, "u2", "Bob", "tokB", 2_000);
    add(&mut store, "u3", "Carol", "tokC", 3_000);
    store.set_active_account("u2", 4_000).unwrap();
    store.remove_account("u2");
    assert_eq!(active_uuid(&store), Some("u1".to_string()));
    store.remove_account("u1");
    assert_eq!(active_uuid(&store), Some("u3".to_string()));
}
