use simple_chat::client::{Client, Clients};

#[test]
fn fresh_client_is_blank() {
    let c = Client::new(7);
    assert_eq!(c.nick, "");
    assert_eq!(c.addr, 7);
    assert!(c.last_seen.is_none());
}

#[test]
fn set_nick_replaces_name() {
    let mut c = Client::new(1);
    c.set_nick("alice");
    assert_eq!(c.nick, "alice");
    c.set_nick("carol");
    assert_eq!(c.nick, "carol");
}

#[test]
fn add_and_check() {
    let mut reg = Clients::new();
    let mut a = Client::new(1);
    a.set_nick("alice");
    reg.add(a);
    assert!(reg.check_by_addr(1));
    assert!(!reg.check_by_addr(2));
    assert!(reg.check_by_nick("alice"));
    assert!(!reg.check_by_nick("bob"));
}

#[test]
fn remove_by_addr_removes_only_that_record() {
    let mut reg = Clients::new();
    let mut a = Client::new(1);
    a.set_nick("alice");
    let mut b = Client::new(2);
    b.set_nick("bob");
    reg.add(a);
    reg.add(b);
    reg.remove_by_addr(1);
    assert!(!reg.check_by_addr(1));
    assert!(reg.check_by_addr(2));
    assert_eq!(reg.list_clients(), vec!["bob".to_string()]);
}

#[test]
fn remove_by_addr_without_match_is_a_noop() {
    let mut reg = Clients::new();
    let mut a = Client::new(1);
    a.set_nick("alice");
    reg.add(a);
    reg.remove_by_addr(9);
    assert_eq!(reg.list_clients(), vec!["alice".to_string()]);
}

#[test]
fn remove_by_nick_frees_the_name() {
    let mut reg = Clients::new();
    let mut a = Client::new(1);
    a.set_nick("alice");
    let mut b = Client::new(2);
    b.set_nick("bob");
    reg.add(a);
    reg.add(b);
    reg.remove_by_nick("alice");
    assert!(!reg.check_by_nick("alice"));
    assert!(reg.check_by_nick("bob"));
}

#[test]
fn retrieve_by_nick_returns_a_copy() {
    let mut reg = Clients::new();
    let mut b = Client::new(2);
    b.set_nick("bob");
    reg.add(b);
    let found = reg.retrieve_by_nick("bob").expect("bob is registered");
    assert_eq!(found.nick, "bob");
    assert_eq!(found.addr, 2);
    assert!(reg.retrieve_by_nick("carol").is_none());
}

#[test]
fn list_clients_keeps_insertion_order() {
    let mut reg = Clients::new();
    for (addr, nick) in [(1u64, "alice"), (2, "bob"), (3, "carol")] {
        let mut c = Client::new(addr);
        c.set_nick(nick);
        reg.add(c);
    }
    assert_eq!(
        reg.list_clients(),
        vec!["alice".to_string(), "bob".to_string(), "carol".to_string()]
    );
}

#[test]
fn set_last_seen_touches_only_the_match() {
    let mut reg = Clients::new();
    let mut a = Client::new(1);
    a.set_nick("alice");
    let mut b = Client::new(2);
    b.set_nick("bob");
    reg.add(a);
    reg.add(b);
    reg.set_last_seen(1);
    let alice = reg.retrieve_by_nick("alice").unwrap();
    let bob = reg.retrieve_by_nick("bob").unwrap();
    assert!(alice.last_seen.is_some());
    assert!(bob.last_seen.is_none());
}

#[test]
fn set_last_seen_without_match_changes_nothing() {
    let mut reg = Clients::new();
    let mut a = Client::new(1);
    a.set_nick("alice");
    reg.add(a);
    reg.set_last_seen(5);
    assert!(reg.retrieve_by_nick("alice").unwrap().last_seen.is_none());
}
