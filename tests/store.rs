use makishima::store::{IdentityStore, StoreError};
use makishima::user::MediaAccount;

fn account(id: u32, access: &str) -> MediaAccount {
    MediaAccount { id, access_token: access.to_string(), refresh_token: "r".to_string(), expiry: 99 }
}

#[test]
fn upsert_twice_keeps_one_row_with_latest_token_and_link() {
    let mut store = IdentityStore::new();
    store.upsert_chat_account("u1".to_string(), "t1".to_string()).unwrap();
    store.upsert_media_account(account(7, "a"));
    store.link_media_to_user(&"u1".to_string(), 7).unwrap();
    store.upsert_chat_account("u1".to_string(), "t2".to_string()).unwrap();
    let users = store.users();
    assert_eq!(users.len(), 1);
    assert_eq!(users[0].id, "u1");
    assert_eq!(users[0].discord_token, "t2");
    assert_eq!(users[0].anilist_id, Some(7));
}

#[test]
fn link_to_missing_user_fails_and_changes_nothing() {
    let mut store = IdentityStore::new();
    store.upsert_chat_account("u1".to_string(), "t1".to_string()).unwrap();
    store.upsert_media_account(account(7, "a"));
    assert_eq!(store.link_media_to_user(&"nobody".to_string(), 7), Err(StoreError::NotFound));
    assert_eq!(store.users().len(), 1);
    assert_eq!(store.users()[0].anilist_id, None);
    assert_eq!(store.media_accounts().len(), 1);
}

#[test]
fn token_clash_is_refused() {
    let mut store = IdentityStore::new();
    store.upsert_chat_account("u1".to_string(), "t".to_string()).unwrap();
    assert_eq!(store.upsert_chat_account("u2".to_string(), "t".to_string()), Err(StoreError::Constraint));
    assert_eq!(store.users().len(), 1);
    store.upsert_chat_account("u1".to_string(), "t".to_string()).unwrap();
    assert_eq!(store.users().len(), 1);
}

#[test]
fn link_needs_existing_unclaimed_media_account() {
    let mut store = IdentityStore::new();
    store.upsert_chat_account("u1".to_string(), "t1".to_string()).unwrap();
    store.upsert_chat_account("u2".to_string(), "t2".to_string()).unwrap();
    assert_eq!(store.link_media_to_user(&"u1".to_string(), 7), Err(StoreError::Constraint));
    store.upsert_media_account(account(7, "a"));
    assert_eq!(store.link_media_to_user(&"u1".to_string(), 7), Ok(()));
    assert_eq!(store.link_media_to_user(&"u2".to_string(), 7), Err(StoreError::Constraint));
    assert_eq!(store.link_media_to_user(&"u1".to_string(), 7), Ok(()));
    assert_eq!(store.users()[1].anilist_id, None);
}

#[test]
fn media_upsert_replaces_tokens_and_expiry() {
    let mut store = IdentityStore::new();
    store.upsert_media_account(account(7, "a"));
    store.upsert_media_account(MediaAccount { id: 7, access_token: "b".to_string(), refresh_token: "s".to_string(), expiry: 5 });
    store.upsert_media_account(account(8, "c"));
    let media = store.media_accounts();
    assert_eq!(media.len(), 2);
    assert_eq!(media[0].access_token, "b");
    assert_eq!(media[0].refresh_token, "s");
    assert_eq!(media[0].expiry, 5);
    assert_eq!(media[1].id, 8);
}
