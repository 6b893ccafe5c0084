use socks6_app::profiles::{default_listen, default_max_tls, Profile, ProfileStore};

fn profile(id: &str, name: &str) -> Profile {
    Profile {
        id: id.to_string(),
        name: name.to_string(),
        server: "example.org:443".to_string(),
        server_name: "example.org".to_string(),
        secret: "AAAAAAAAAAAAAAAAAAAAAAAAAAAAAAAAAAAAAAAAAAA=".to_string(),
        short_id: "0011223344556677".to_string(),
        auth_user: String::new(),
        auth_pass: String::new(),
        listen: default_listen(),
        max_tls_parallel: default_max_tls(),
        auth_time_offset_secs: 0,
    }
}

#[test]
fn defaults_are_local_socks_port_and_twelve_handshakes() {
    assert_eq!(default_listen(), "127.0.0.1:1080");
    assert_eq!(default_max_tls(), 12);
}

#[test]
fn empty_store_lists_nothing() {
    let store = ProfileStore::default();
    assert!(store.list().is_empty());
    assert!(store.get("a").is_none());
}

#[test]
fn upsert_appends_new_profiles_in_order() {
    let mut store = ProfileStore::default();
    store.upsert(profile("a", "first"));
    store.upsert(profile("b", "second"));
    let ids: Vec<String> = store.list().into_iter().map(|p| p.id).collect();
    assert_eq!(ids, vec!["a".to_string(), "b".to_string()]);
}

#[test]
fn upsert_then_get_returns_the_profile() {
    let mut store = ProfileStore::default();
    store.upsert(profile("a", "first"));
    store.upsert(profile("b", "second"));
    store.upsert(profile("a", "renamed"));
    assert_eq!(store.get("a").unwrap().name, "renamed");
    assert_eq!(store.get("b").unwrap().name, "second");
    assert_eq!(store.list().len(), 2);
    assert_eq!(store.list()[0].name, "renamed");
}

#[test]
fn upsert_replaces_only_the_first_duplicate() {
    let mut store = ProfileStore::from_profiles(vec![profile("a", "one"), profile("a", "two")]);
    store.upsert(profile("a", "three"));
    let names: Vec<String> = store.list().into_iter().map(|p| p.name).collect();
    assert_eq!(names, vec!["three".to_string(), "two".to_string()]);
    assert_eq!(store.get("a").unwrap().name, "three");
}

#[test]
fn remove_then_get_finds_nothing_and_keeps_others() {
    let mut store = ProfileStore::from_profiles(vec![
        profile("a", "one"),
        profile("b", "two"),
        profile("a", "three"),
        profile("c", "four"),
    ]);
    store.remove("a");
    assert!(store.get("a").is_none());
    let names: Vec<String> = store.list().into_iter().map(|p| p.name).collect();
    assert_eq!(names, vec!["two".to_string(), "four".to_string()]);
    assert_eq!(store.get("c").unwrap().name, "four");
}

#[test]
fn remove_of_absent_id_changes_nothing() {
    let mut store = ProfileStore::from_profiles(vec![profile("a", "one")]);
    store.remove("zzz");
    assert_eq!(store.list().len(), 1);
    assert_eq!(store.get("a").unwrap().name, "one");
}

#[test]
fn ids_compare_exactly() {
    let store = ProfileStore::from_profiles(vec![profile("Abc", "one")]);
    assert!(store.get("abc").is_none());
    assert!(store.get("Abc ").is_none());
    assert!(store.get("Abc").is_some());
}

#[test]
fn list_is_a_copy() {
    let store = ProfileStore::from_profiles(vec![profile("a", "one")]);
    let mut copy = store.list();
    copy[0].name = "changed".to_string();
    assert_eq!(store.get("a").unwrap().name, "one");
}
