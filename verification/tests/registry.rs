use russh_rules::registry::{ChannelId, ClientRegistry};

#[test]
fn registry_starts_empty() {
    let r: ClientRegistry<u8> = ClientRegistry::new();
    assert!(!r.contains(0, ChannelId(0)));
    assert_eq!(r.get(0, ChannelId(0)), None);
}

#[test]
fn registry_insert_replaces_and_returns_old_value() {
    let mut r = ClientRegistry::new();
    assert_eq!(r.insert(3, ChannelId(9), "a"), None);
    assert_eq!(r.insert(3, ChannelId(9), "b"), Some("a"));
    assert_eq!(r.get(3, ChannelId(9)), Some(&"b"));
    assert!(r.contains(3, ChannelId(9)));
}

#[test]
fn registry_keeps_other_keys() {
    let mut r = ClientRegistry::new();
    r.insert(1, ChannelId(1), 10u32);
    r.insert(1, ChannelId(2), 20u32);
    r.insert(2, ChannelId(1), 30u32);
    r.insert(1, ChannelId(1), 11u32);
    assert_eq!(r.get(1, ChannelId(1)), Some(&11));
    assert_eq!(r.get(1, ChannelId(2)), Some(&20));
    assert_eq!(r.get(2, ChannelId(1)), Some(&30));
    assert!(!r.contains(2, ChannelId(2)));
}

#[test]
fn registry_len_counts_distinct_keys() {
    let mut r = ClientRegistry::new();
    assert_eq!(r.len(), 0);
    r.insert(0, ChannelId(1), 'a');
    r.insert(0, ChannelId(2), 'b');
    assert_eq!(r.len(), 2);
    r.insert(0, ChannelId(1), 'c');
    assert_eq!(r.len(), 2);
    r.insert(1, ChannelId(1), 'd');
    assert_eq!(r.len(), 3);
}
