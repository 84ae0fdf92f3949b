use velo::credential_order::{is_listed_before, sort_credentials, text_less_than};
use velo::credentials::{
    find_credentials_for_origin, index_after_delete, index_after_save, keyring_service,
    origin_host_label, remove_credential, upsert_credential, KeyringDeletion,
};
use velo::records::CredentialMeta;

fn meta(origin: &str, username: &str, saved_at: &str) -> CredentialMeta {
    CredentialMeta {
        origin: origin.to_string(),
        username: username.to_string(),
        saved_at: saved_at.to_string(),
    }
}

#[test]
fn keyring_service_names() {
    assert_eq!(keyring_service("https://a.org"), "velo:https://a.org");
    assert_eq!(keyring_service(""), "velo:");
    assert_ne!(keyring_service("https://a.org"), keyring_service("https://b.org"));
}

#[test]
fn finds_logins_of_one_origin_in_order() {
    let creds = vec![
        meta("https://a.org", "ann", "1"),
        meta("https://b.org", "bob", "2"),
        meta("https://a.org", "al", "3"),
    ];
    let found = find_credentials_for_origin(&creds, "https://a.org");
    assert_eq!(found, vec![meta("https://a.org", "ann", "1"), meta("https://a.org", "al", "3")]);
    assert!(find_credentials_for_origin(&creds, "https://c.org").is_empty());
    assert!(find_credentials_for_origin(&creds, "https://a.or").is_empty());
}

#[test]
fn saving_replaces_the_same_login_and_appends() {
    let mut idx = vec![meta("https://a.org", "ann", "1"), meta("https://b.org", "bob", "2")];
    upsert_credential(&mut idx, meta("https://a.org", "ann", "9"));
    assert_eq!(idx, vec![meta("https://b.org", "bob", "2"), meta("https://a.org", "ann", "9")]);
    upsert_credential(&mut idx, meta("https://a.org", "al", "10"));
    assert_eq!(idx.len(), 3);
    let found = find_credentials_for_origin(&idx, "https://a.org");
    assert_eq!(found, vec![meta("https://a.org", "ann", "9"), meta("https://a.org", "al", "10")]);
}

#[test]
fn removing_drops_only_that_login() {
    let mut idx = vec![
        meta("https://a.org", "ann", "1"),
        meta("https://a.org", "al", "2"),
        meta("https://b.org", "ann", "3"),
    ];
    remove_credential(&mut idx, "https://a.org", "ann");
    assert_eq!(idx, vec![meta("https://a.org", "al", "2"), meta("https://b.org", "ann", "3")]);
    remove_credential(&mut idx, "https://c.org", "x");
    assert_eq!(idx.len(), 2);
}

#[test]
fn remove_after_save_restores_the_index() {
    let start = vec![meta("https://a.org", "al", "2"), meta("https://b.org", "ann", "3")];
    let mut idx = start.clone();
    upsert_credential(&mut idx, meta("https://c.org", "cy", "4"));
    remove_credential(&mut idx, "https://c.org", "cy");
    assert_eq!(idx, start);
}

#[test]
fn text_order_is_string_order() {
    let words = ["", "a", "ab", "b", "B", "é", "z", "aa", "a b"];
    for x in words {
        for y in words {
            assert_eq!(text_less_than(x, y), x < y, "{x:?} {y:?}");
        }
    }
}

#[test]
fn listing_order_is_origin_then_user() {
    assert!(is_listed_before(&meta("a", "z", ""), &meta("b", "a", "")));
    assert!(is_listed_before(&meta("a", "a", ""), &meta("a", "b", "")));
    assert!(!is_listed_before(&meta("a", "a", "1"), &meta("a", "a", "2")));
}

#[test]
fn sorting_is_stable_by_origin_and_user() {
    let mut idx = vec![
        meta("https://b.org", "bob", "1"),
        meta("https://a.org", "zed", "2"),
        meta("https://a.org", "ann", "3"),
        meta("https://b.org", "bob", "4"),
        meta("https://a.org", "ann", "5"),
    ];
    sort_credentials(&mut idx);
    assert_eq!(
        idx,
        vec![
            meta("https://a.org", "ann", "3"),
            meta("https://a.org", "ann", "5"),
            meta("https://a.org", "zed", "2"),
            meta("https://b.org", "bob", "1"),
            meta("https://b.org", "bob", "4"),
        ]
    );
    let mut empty: Vec<CredentialMeta> = Vec::new();
    sort_credentials(&mut empty);
    assert!(empty.is_empty());
}

#[test]
fn sorting_matches_std_stable_sort() {
    let mut idx = vec![
        meta("x", "b", "1"),
        meta("x", "a", "2"),
        meta("", "b", "3"),
        meta("x", "b", "4"),
        meta("xy", "", "5"),
        meta("", "b", "6"),
    ];
    let mut expected = idx.clone();
    expected.sort_by(|a, b| a.origin.cmp(&b.origin).then(a.username.cmp(&b.username)));
    sort_credentials(&mut idx);
    assert_eq!(idx, expected);
}

#[test]
fn host_labels() {
    assert_eq!(origin_host_label("https://a.org"), "a.org");
    assert_eq!(origin_host_label("https://a.org:8080"), "a.org:8080");
    assert_eq!(origin_host_label("a.org"), "a.org");
    assert_eq!(origin_host_label("x://y://z"), "y");
    assert_eq!(origin_host_label("https://"), "");
}

#[test]
fn saving_and_removing_leave_other_origins_alone() {
    let mut idx = vec![meta("https://a.org", "ann", "1"), meta("https://b.org", "bob", "2")];
    let before = find_credentials_for_origin(&idx, "https://b.org");
    upsert_credential(&mut idx, meta("https://a.org", "al", "3"));
    remove_credential(&mut idx, "https://a.org", "ann");
    assert_eq!(find_credentials_for_origin(&idx, "https://b.org"), before);
}

#[test]
fn the_index_changes_only_when_the_keyring_did() {
    let idx = vec![meta("https://a.org", "ann", "1")];
    assert_eq!(index_after_save(idx.clone(), meta("https://b.org", "bob", "2"), false), None);
    assert_eq!(
        index_after_save(idx.clone(), meta("https://a.org", "ann", "3"), true),
        Some(vec![meta("https://a.org", "ann", "3")])
    );
    assert_eq!(index_after_delete(idx.clone(), "https://a.org", "ann", KeyringDeletion::Failed), None);
    assert_eq!(
        index_after_delete(idx.clone(), "https://a.org", "ann", KeyringDeletion::Deleted),
        Some(vec![])
    );
    assert_eq!(
        index_after_delete(idx, "https://a.org", "ann", KeyringDeletion::NoEntry),
        Some(vec![])
    );
}
