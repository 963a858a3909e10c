use account_manager::error::AccountError;
use account_manager::manager::AccountManager;
use account_manager::persistence::StoredFile;
use account_manager::refresh::RefreshOutcome;
use account_manager::tickets::TokenStep;
use account_manager::store::AccountStore;
use std::cell::RefCell;

fn written(_text: &str) -> bool {
    true
}

fn refused(_text: &str) -> bool {
    false
}

fn manager_with(accounts: &[(&str, &str, Option<&str>, i64)], now: i64) -> AccountManager {
    let mut store = AccountStore::new();
    for (uuid, token, refresh, expires_at) in accounts {
        store.add_account(
            uuid.to_string(),
            format!("name-{}", uuid),
            token.to_string(),
            refresh.map(|s| s.to_string()),
            *expires_at,
            now,
        );
    }
    AccountManager::new(store)
}

fn active(manager: &AccountManager) -> Option<String> {
    manager.get_active_account().map(|a| a.uuid)
}

#[test]
fn concrete_scenario() {
    let t = chrono::Utc::now().timestamp();
    let mut manager = AccountManager::new(AccountManager::load(StoredFile::Missing).unwrap());
    assert!(manager.get_all_accounts().is_empty());
    let added = manager.add_account(
        "u1".to_string(),
        "Alice".to_string(),
        "tokA".to_string(),
        Some("refA".to_string()),
        t + 3600,
        written,
    );
    assert_eq!(added, Ok(()));
    assert_eq!(manager.get_all_accounts().len(), 1);
    assert_eq!(active(&manager), Some("u1".to_string()));
    let added = manager.add_account(
        "u2".to_string(),
        "Bob".to_string(),
        "tokB".to_string(),
        Some("refB".to_string()),
        t + 3600,
        written,
    );
    assert_eq!(added, Ok(()));
    assert_eq!(active(&manager), Some("u1".to_string()));
    assert_eq!(manager.get_all_accounts().len(), 2);
    assert_eq!(manager.remove_account("u1", written), Ok(()));
    assert_eq!(active(&manager), Some("u2".to_string()));
    let step = manager.get_valid_token_at("u2", t);
    assert!(matches!(step, Ok(TokenStep::Ready(token)) if token == "tokB"));
    let step = manager.get_valid_token("u2");
    assert!(matches!(step, Ok(TokenStep::Ready(token)) if token == "tokB"));
}

#[test]
fn add_account_stamps_the_account_with_the_current_time() {
    let before = chrono::Utc::now().timestamp();
    let mut manager = AccountManager::new(AccountStore::new());
    manager
        .add_account("u1".to_string(), "Alice".to_string(), "tokA".to_string(), None, 0, written)
        .unwrap();
    let after = chrono::Utc::now().timestamp();
    let account = manager.get_active_account().unwrap();
    assert!(before <= account.added_at && account.added_at <= after);
    assert_eq!(account.last_used, Some(account.added_at));
}

#[test]
fn every_change_is_persisted_as_the_store_it_leads_to() {
    let texts: RefCell<Vec<String>> = RefCell::new(Vec::new());
    let mut manager = AccountManager::new(AccountStore::new());
    manager
        .add_account_at(
            "u1".to_string(),
            "Alice".to_string(),
            "tokA".to_string(),
            None,
            4_600,
            1_000,
            |text: &str| {
                texts.borrow_mut().push(text.to_string());
                true
            },
        )
        .unwrap();
    manager
        .set_active_account_at("u1", 2_000, |text: &str| {
            texts.borrow_mut().push(text.to_string());
            true
        })
        .unwrap();
    manager
        .remove_account("u1", |text: &str| {
            texts.borrow_mut().push(text.to_string());
            true
        })
        .unwrap();
    let texts = texts.into_inner();
    assert_eq!(texts.len(), 3);
    let first = AccountManager::load(StoredFile::Content(texts[0].clone())).unwrap();
    assert_eq!(first.get_account("u1").unwrap().last_used, Some(1_000));
    assert_eq!(first.active_account_uuid().clone(), Some("u1".to_string()));
    let second = AccountManager::load(StoredFile::Content(texts[1].clone())).unwrap();
    assert_eq!(second.get_account("u1").unwrap().last_used, Some(2_000));
    let third = AccountManager::load(StoredFile::Content(texts[2].clone())).unwrap();
    assert!(third.accounts().is_empty());
    assert_eq!(texts[2], AccountManager::save(manager.store()).unwrap());
}

#[test]
fn failed_persistence_leaves_the_store_unchanged() {
    let mut manager = manager_with(&[("u1", "tokA", Some("refA"), 4_600)], 1_000);
    let added = manager.add_account_at(
        "u2".to_string(),
        "Bob".to_string(),
        "tokB".to_string(),
        None,
        4_600,
        2_000,
        refused,
    );
    assert_eq!(added, Err(AccountError::IoFailure));
    assert!(!manager.account_exists("u2"));
    assert_eq!(manager.remove_account("u1", refused), Err(AccountError::IoFailure));
    assert!(manager.account_exists("u1"));
    assert_eq!(active(&manager), Some("u1".to_string()));
    assert_eq!(manager.set_active_account_at("u1", 9_000, refused), Err(AccountError::IoFailure));
    assert_eq!(manager.get_active_account().unwrap().last_used, Some(1_000));
    assert_eq!(manager.set_active_account("u1", refused), Err(AccountError::IoFailure));
    assert_eq!(manager.get_active_account().unwrap().last_used, Some(1_000));
}

#[test]
fn with_store_mut_hands_back_what_the_change_computed() {
    let mut manager = manager_with(&[("u1", "tokA", None, 4_600)], 1_000);
    let count = manager.with_store_mut(
        |store: &AccountStore| {
            let mut next = store.clone();
            next.remove_account("u1");
            (next, store.accounts().len())
        },
        written,
    );
    assert_eq!(count, Ok(1));
    assert!(!manager.account_exists("u1"));
    let count = manager.with_store_mut(
        |store: &AccountStore| {
            let mut next = store.clone();
            next.add_account("u9".to_string(), "n".to_string(), "t".to_string(), None, 1, 1);
            (next, 7)
        },
        refused,
    );
    assert_eq!(count, Err(AccountError::IoFailure));
    assert!(!manager.account_exists("u9"));
}

#[test]
fn set_active_account_selects_and_touches() {
    let mut manager =
        manager_with(&[("u1", "tokA", None, 4_600), ("u2", "tokB", None, 4_600)], 1_000);
    assert_eq!(manager.set_active_account_at("u2", 5_000, written), Ok(()));
    let account = manager.get_active_account().unwrap();
    assert_eq!(account.uuid, "u2");
    assert_eq!(account.last_used, Some(5_000));
    let listing = manager.get_all_accounts();
    assert_eq!(listing[0].uuid, "u2");
    assert!(listing[0].is_active);
    assert!(!listing[1].is_active);
    let before = chrono::Utc::now().timestamp();
    assert_eq!(manager.set_active_account("u1", written), Ok(()));
    let account = manager.get_active_account().unwrap();
    assert_eq!(account.uuid, "u1");
    assert!(account.last_used.unwrap() >= before);
}

#[test]
fn set_active_account_fails_for_an_unknown_uuid_without_persisting() {
    let calls = RefCell::new(0);
    let mut manager = manager_with(&[("u1", "tokA", None, 4_600)], 1_000);
    let result = manager.set_active_account_at("u2", 5_000, |_text: &str| {
        *calls.borrow_mut() += 1;
        true
    });
    assert_eq!(result, Err(AccountError::AccountNotFound));
    assert_eq!(*calls.borrow(), 0);
    assert_eq!(manager.set_active_account("u2", written), Err(AccountError::AccountNotFound));
    assert_eq!(active(&manager), Some("u1".to_string()));
}

#[test]
fn get_valid_token_follows_the_freshness_of_the_token() {
    let mut manager = manager_with(
        &[
            ("fresh", "tokF", Some("refF"), 10_000),
            ("stale", "tokS", Some("refS"), 5_000),
            ("dead", "tokD", None, 5_000),
        ],
        1_000,
    );
    assert_eq!(
        manager.get_valid_token_at("fresh", 6_000),
        Ok(TokenStep::Ready("tokF".to_string()))
    );
    assert_eq!(
        manager.get_valid_token_at("stale", 6_000),
        Ok(TokenStep::Refresh("refS".to_string()))
    );
    assert_eq!(manager.get_valid_token_at("stale", 6_000), Ok(TokenStep::Join));
    assert_eq!(
        manager.get_valid_token_at("dead", 6_000).err(),
        Some(AccountError::ReauthenticationRequired)
    );
    assert_eq!(
        manager.get_valid_token_at("nobody", 6_000).err(),
        Some(AccountError::AccountNotFound)
    );
}

#[test]
fn concurrent_callers_share_one_refresh() {
    let mut manager = manager_with(&[("u1", "tokA", Some("refA"), 5_000)], 1_000);
    let mut exchanges = 0;
    let mut joined = 0;
    for _ in 0..8 {
        match manager.get_valid_token_at("u1", 6_000) {
            Ok(TokenStep::Refresh(token)) => {
                assert_eq!(token, "refA");
                exchanges += 1;
            }
            Ok(TokenStep::Join) => joined += 1,
            other => panic!("unexpected step {:?}", other),
        }
    }
    assert_eq!(exchanges, 1);
    assert_eq!(joined, 7);
    let outcome = RefreshOutcome::Refreshed {
        access_token: "tokA2".to_string(),
        refresh_token: Some("refA2".to_string()),
        expires_in: 3_600,
    };
    let refreshed = manager.complete_refresh_at("u1", outcome, 6_000, written).unwrap();
    assert_eq!(refreshed.access_token, "tokA2");
    for _ in 0..8 {
        let step = manager.get_valid_token_at("u1", 6_001);
        assert!(matches!(step, Ok(TokenStep::Ready(t)) if t == "tokA2"));
    }
}

#[test]
fn completed_refresh_updates_the_account() {
    let mut manager = manager_with(&[("u1", "tokA", Some("refA"), 5_000)], 1_000);
    assert!(matches!(manager.get_valid_token_at("u1", 6_000), Ok(TokenStep::Refresh(_))));
    let outcome = RefreshOutcome::Refreshed {
        access_token: "tokA2".to_string(),
        refresh_token: None,
        expires_in: 3_600,
    };
    let refreshed = manager.complete_refresh_at("u1", outcome, 6_010, written).unwrap();
    let account = manager.get_active_account().unwrap();
    assert_eq!(refreshed, account);
    assert_eq!(account.access_token, "tokA2");
    assert_eq!(account.refresh_token, Some("refA".to_string()));
    assert_eq!(account.expires_at, 9_610);
    assert_eq!(account.last_used, Some(6_010));
    assert_eq!(account.added_at, 1_000);
}

#[test]
fn failed_exchange_resolves_the_ticket_and_keeps_the_store() {
    for (outcome, error) in [
        (RefreshOutcome::NetworkFailure, AccountError::NetworkFailure),
        (RefreshOutcome::MalformedResponse, AccountError::MalformedResponse),
    ] {
        let calls = RefCell::new(0);
        let mut manager = manager_with(&[("u1", "tokA", Some("refA"), 5_000)], 1_000);
        assert!(matches!(manager.get_valid_token_at("u1", 6_000), Ok(TokenStep::Refresh(_))));
        let result = manager.complete_refresh_at("u1", outcome, 6_000, |_text: &str| {
            *calls.borrow_mut() += 1;
            true
        });
        assert_eq!(result, Err(error));
        assert_eq!(*calls.borrow(), 0);
        let account = manager.get_active_account().unwrap();
        assert_eq!(account.access_token, "tokA");
        assert_eq!(account.refresh_token, Some("refA".to_string()));
        assert!(matches!(manager.get_valid_token_at("u1", 6_000), Ok(TokenStep::Refresh(_))));
    }
}

#[test]
fn rejected_refresh_token_downgrades_the_account() {
    let mut manager = manager_with(&[("u1", "tokA", Some("refA"), 5_000)], 1_000);
    assert!(matches!(manager.get_valid_token_at("u1", 6_000), Ok(TokenStep::Refresh(_))));
    let result =
        manager.complete_refresh_at("u1", RefreshOutcome::InvalidRefreshToken, 6_000, written);
    assert_eq!(result, Err(AccountError::InvalidRefreshToken));
    assert_eq!(manager.get_active_account().unwrap().refresh_token, None);
    assert_eq!(
        manager.get_valid_token_at("u1", 6_000).err(),
        Some(AccountError::ReauthenticationRequired)
    );
}

#[test]
fn refresh_that_cannot_be_persisted_hands_out_no_token() {
    let mut manager = manager_with(&[("u1", "tokA", Some("refA"), 5_000)], 1_000);
    assert!(matches!(manager.get_valid_token_at("u1", 6_000), Ok(TokenStep::Refresh(_))));
    let outcome = RefreshOutcome::Refreshed {
        access_token: "tokA2".to_string(),
        refresh_token: Some("refA2".to_string()),
        expires_in: 3_600,
    };
    let result = manager.complete_refresh_at("u1", outcome, 6_000, refused);
    assert_eq!(result, Err(AccountError::IoFailure));
    let account = manager.get_active_account().unwrap();
    assert_eq!(account.access_token, "tokA");
    assert_eq!(account.refresh_token, Some("refA".to_string()));
    assert_eq!(account.expires_at, 5_000);
    assert!(matches!(manager.get_valid_token_at("u1", 6_000), Ok(TokenStep::Refresh(_))));
}

#[test]
fn refresh_of_an_account_removed_meanwhile_is_not_found() {
    let mut manager = manager_with(&[("u1", "tokA", Some("refA"), 5_000)], 1_000);
    assert!(matches!(manager.get_valid_token_at("u1", 6_000), Ok(TokenStep::Refresh(_))));
    manager.remove_account("u1", written).unwrap();
    let outcome = RefreshOutcome::Refreshed {
        access_token: "tokA2".to_string(),
        refresh_token: None,
        expires_in: 3_600,
    };
    assert_eq!(
        manager.complete_refresh_at("u1", outcome, 6_000, written),
        Err(AccountError::AccountNotFound)
    );
    assert!(!manager.account_exists("u1"));
    assert_eq!(
        manager.complete_refresh_at("u1", RefreshOutcome::InvalidRefreshToken, 6_000, written),
        Err(AccountError::InvalidRefreshToken)
    );
}

#[test]
fn complete_refresh_uses_the_clock() {
    let mut manager = manager_with(&[("u1", "tokA", Some("refA"), 5_000)], 1_000);
    assert!(matches!(manager.get_valid_token("u1"), Ok(TokenStep::Refresh(_))));
    assert!(matches!(manager.get_valid_token("u1"), Ok(TokenStep::Join)));
    let before = chrono::Utc::now().timestamp();
    let outcome = RefreshOutcome::Refreshed {
        access_token: "tokA2".to_string(),
        refresh_token: None,
        expires_in: 3_600,
    };
    let refreshed = manager.complete_refresh("u1", outcome, written).unwrap();
    assert_eq!(refreshed.access_token, "tokA2");
    let account = manager.get_active_account().unwrap();
    assert_eq!(refreshed, account);
    assert!(account.last_used.unwrap() >= before);
    assert_eq!(account.expires_at, account.last_used.unwrap() + 3_600);
    assert!(matches!(manager.get_valid_token("u1"), Ok(TokenStep::Ready(t)) if t == "tokA2"));
}

#[test]
fn errors_tell_whether_to_try_again() {
    assert!(AccountError::IoFailure.is_retryable());
    assert!(AccountError::NetworkFailure.is_retryable());
    assert!(AccountError::MalformedResponse.is_retryable());
    assert!(!AccountError::StoreCorrupt.is_retryable());
    assert!(!AccountError::AccountNotFound.is_retryable());
    assert!(!AccountError::InvalidRefreshToken.is_retryable());
    assert!(!AccountError::ReauthenticationRequired.is_retryable());
}

#[test]
fn begin_refresh_registers_one_ticket_whatever_the_freshness() {
    let mut manager = manager_with(
        &[("u1", "tokA", Some("refA"), i64::MAX), ("dead", "tokD", None, i64::MAX)],
        1_000,
    );
    assert_eq!(manager.begin_refresh("u1"), Ok(TokenStep::Refresh("refA".to_string())));
    assert_eq!(manager.begin_refresh("u1"), Ok(TokenStep::Join));
    assert_eq!(manager.begin_refresh("dead"), Err(AccountError::ReauthenticationRequired));
    assert_eq!(manager.begin_refresh("nobody"), Err(AccountError::AccountNotFound));
    assert_eq!(manager.get_valid_token_at("u1", 2_000), Ok(TokenStep::Ready("tokA".to_string())));
    let outcome = RefreshOutcome::Refreshed {
        access_token: "tokA2".to_string(),
        refresh_token: None,
        expires_in: 10,
    };
    manager.complete_refresh_at("u1", outcome, 2_000, written).unwrap();
    assert_eq!(manager.begin_refresh("u1"), Ok(TokenStep::Refresh("refA".to_string())));
}
