use simple_chat::client::{Client, Clients};
use simple_chat::utils::set_nick;
use tokio::sync::broadcast;

#[test]
fn short_nick_is_rejected_with_reason() {
    let (tx, _rx) = broadcast::channel::<String>(32);
    let mut reg = Clients::new();
    let mut c = Client::new(1);
    let out = set_nick(&tx, &mut reg, &mut c, "ab\n");
    assert!(!out.accepted);
    assert_eq!(out.response, "server: nick is too short\n");
    assert!(out.notice.is_none());
    assert_eq!(c.nick, "");
    assert!(!reg.check_by_addr(1));
}

#[test]
fn long_nick_is_rejected_with_reason() {
    let (tx, _rx) = broadcast::channel::<String>(32);
    let mut reg = Clients::new();
    let mut c = Client::new(1);
    let out = set_nick(&tx, &mut reg, &mut c, "abcdefghijklmnop\n");
    assert!(!out.accepted);
    assert_eq!(out.response, "server: nick is too long\n");
}

#[test]
fn fifteen_characters_pass_sixteen_do_not() {
    let (tx, _rx) = broadcast::channel::<String>(32);
    let mut reg = Clients::new();
    let mut c = Client::new(1);
    let out = set_nick(&tx, &mut reg, &mut c, "abcdefghijklmno\n");
    assert!(out.accepted);
    let mut d = Client::new(2);
    let out = set_nick(&tx, &mut reg, &mut d, "abcdefghijklmnop\n");
    assert!(!out.accepted);
}

#[test]
fn three_characters_pass_two_do_not() {
    let (tx, _rx) = broadcast::channel::<String>(32);
    let mut reg = Clients::new();
    let mut c = Client::new(1);
    assert!(set_nick(&tx, &mut reg, &mut c, "abc\n").accepted);
    let mut d = Client::new(2);
    assert!(!set_nick(&tx, &mut reg, &mut d, "ab\n").accepted);
}

#[test]
fn empty_nick_is_invalid() {
    let (tx, _rx) = broadcast::channel::<String>(32);
    let mut reg = Clients::new();
    let mut c = Client::new(1);
    let out = set_nick(&tx, &mut reg, &mut c, "   \n");
    assert!(!out.accepted);
    assert_eq!(out.response, "server: please enter a valid nick\n");
}

#[test]
fn nick_with_marker_is_invalid() {
    let (tx, _rx) = broadcast::channel::<String>(32);
    let mut reg = Clients::new();
    let mut c = Client::new(1);
    let out = set_nick(&tx, &mut reg, &mut c, "al/ce\n");
    assert!(!out.accepted);
    assert_eq!(out.response, "server: please enter a valid nick\n");
}

#[test]
fn non_ascii_nick_is_invalid() {
    let (tx, _rx) = broadcast::channel::<String>(32);
    let mut reg = Clients::new();
    let mut c = Client::new(1);
    let out = set_nick(&tx, &mut reg, &mut c, "ali\u{e9}e\n");
    assert!(!out.accepted);
    assert_eq!(out.response, "server: please enter a valid nick\n");
}

#[test]
fn accepted_nick_joins_and_announces() {
    let (tx, mut rx) = broadcast::channel::<String>(32);
    let mut reg = Clients::new();
    let mut c = Client::new(1);
    let out = set_nick(&tx, &mut reg, &mut c, "alice\n");
    assert!(out.accepted);
    assert_eq!(out.response, "server: welcome to chat\n");
    assert_eq!(out.notice.as_deref(), Some("server: alice has joined\n"));
    assert_eq!(c.nick, "alice");
    assert!(reg.check_by_nick("alice"));
    assert!(reg.check_by_addr(1));
    assert_eq!(rx.try_recv().unwrap(), "server: alice has joined\n");
}

#[test]
fn taken_nick_is_rejected_and_keeps_registry_unique() {
    let (tx, _rx) = broadcast::channel::<String>(32);
    let mut reg = Clients::new();
    let mut a = Client::new(1);
    assert!(set_nick(&tx, &mut reg, &mut a, "alice\n").accepted);
    let mut b = Client::new(2);
    let out = set_nick(&tx, &mut reg, &mut b, "alice\n");
    assert!(!out.accepted);
    assert_eq!(out.response, "server: nick is already taken\n");
    assert_eq!(b.nick, "");
    assert_eq!(reg.list_clients(), vec!["alice".to_string()]);
}

#[test]
fn candidate_is_trimmed_before_validation() {
    let (tx, _rx) = broadcast::channel::<String>(32);
    let mut reg = Clients::new();
    let mut c = Client::new(1);
    let out = set_nick(&tx, &mut reg, &mut c, "  alice  \r\n");
    assert!(out.accepted);
    assert_eq!(c.nick, "alice");
}
