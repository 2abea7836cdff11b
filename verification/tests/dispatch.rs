use simple_chat::client::{Client, Clients};
use simple_chat::commands::{seen, time, time_response, users};
use simple_chat::connection::{handle_line, LineOutcome, LineResult};
use simple_chat::utils::set_nick;
use tokio::sync::broadcast;

fn join(
    tx: &broadcast::Sender<String>,
    reg: &mut Clients,
    addr: u64,
    nick: &str,
) -> Client {
    let mut c = Client::new(addr);
    let out = set_nick(tx, reg, &mut c, &format!("{}\n", nick));
    assert!(out.accepted);
    c
}

fn relayed(out: &LineOutcome) -> Option<&str> {
    match &out.result {
        LineResult::Broadcast(m) => Some(m.as_str()),
        _ => None,
    }
}

#[test]
fn chat_line_is_tagged_and_relayed() {
    let (tx, _rx) = broadcast::channel::<String>(32);
    let mut reg = Clients::new();
    let mut a = join(&tx, &mut reg, 1, "alice");
    let out = handle_line(&tx, &mut reg, &mut a, "hi\n");
    assert_eq!(relayed(&out), Some("alice: hi\n"));
    assert!(out.response.is_none());
    assert!(out.notice.is_none());
}

#[test]
fn chat_line_reaches_other_subscribers() {
    let (tx, _rx) = broadcast::channel::<String>(32);
    let mut reg = Clients::new();
    let mut a = join(&tx, &mut reg, 1, "alice");
    let _b = join(&tx, &mut reg, 2, "bob");
    let mut rx_b = tx.subscribe();
    let out = handle_line(&tx, &mut reg, &mut a, "hi\n");
    let line = relayed(&out).unwrap().to_string();
    tx.send(line).unwrap();
    assert_eq!(rx_b.try_recv().unwrap(), "alice: hi\n");
}

#[test]
fn chat_line_marks_the_sender_active() {
    let (tx, _rx) = broadcast::channel::<String>(32);
    let mut reg = Clients::new();
    let mut a = join(&tx, &mut reg, 1, "alice");
    assert!(reg.retrieve_by_nick("alice").unwrap().last_seen.is_none());
    handle_line(&tx, &mut reg, &mut a, "hi\n");
    assert!(reg.retrieve_by_nick("alice").unwrap().last_seen.is_some());
}

#[test]
fn command_line_does_not_mark_activity() {
    let (tx, _rx) = broadcast::channel::<String>(32);
    let mut reg = Clients::new();
    let mut a = join(&tx, &mut reg, 1, "alice");
    handle_line(&tx, &mut reg, &mut a, "/time\n");
    assert!(reg.retrieve_by_nick("alice").unwrap().last_seen.is_none());
}

#[test]
fn empty_line_produces_nothing() {
    let (tx, _rx) = broadcast::channel::<String>(32);
    let mut reg = Clients::new();
    let mut a = join(&tx, &mut reg, 1, "alice");
    let out = handle_line(&tx, &mut reg, &mut a, "   \n");
    assert!(out.response.is_none());
    assert!(out.notice.is_none());
    assert!(matches!(out.result, LineResult::NoBroadcast));
}

#[test]
fn quit_requests_shutdown_with_no_response() {
    let (tx, _rx) = broadcast::channel::<String>(32);
    let mut reg = Clients::new();
    let mut a = join(&tx, &mut reg, 1, "alice");
    let out = handle_line(&tx, &mut reg, &mut a, "/quit\n");
    assert!(matches!(out.result, LineResult::Shutdown));
    assert!(out.response.is_none());
}

#[test]
fn unknown_command_is_refused() {
    let (tx, _rx) = broadcast::channel::<String>(32);
    let mut reg = Clients::new();
    let mut a = join(&tx, &mut reg, 1, "alice");
    let out = handle_line(&tx, &mut reg, &mut a, "/dance\n");
    assert_eq!(out.response.as_deref(), Some("server: invalid command\n"));
    assert!(matches!(out.result, LineResult::NoBroadcast));
}

#[test]
fn commands_match_case_insensitively() {
    let (tx, _rx) = broadcast::channel::<String>(32);
    let mut reg = Clients::new();
    let mut a = join(&tx, &mut reg, 1, "alice");
    let out = handle_line(&tx, &mut reg, &mut a, "/TIME\n");
    let reply = out.response.expect("a time reply");
    assert!(reply.starts_with("server: current time is "));
    assert!(reply.ends_with('\n'));
}

#[test]
fn time_reply_renders_the_epoch() {
    assert_eq!(
        time_response(0),
        "server: current time is 1970-01-01 00:00\n"
    );
}

#[test]
fn time_reply_has_minute_precision() {
    assert_eq!(
        time_response(62),
        "server: current time is 1970-01-01 00:01\n"
    );
    let now = time();
    assert!(now.starts_with("server: current time is "));
}

#[test]
fn users_lists_the_registry_comma_joined() {
    let (tx, _rx) = broadcast::channel::<String>(32);
    let mut reg = Clients::new();
    let mut a = join(&tx, &mut reg, 1, "alice");
    let _b = join(&tx, &mut reg, 2, "bob");
    assert_eq!(users(&reg), "server: alice, bob\n");
    let out = handle_line(&tx, &mut reg, &mut a, "/users\n");
    assert_eq!(out.response.as_deref(), Some("server: alice, bob\n"));
}

#[test]
fn seen_before_any_chat_line_says_not_seen() {
    let (tx, _rx) = broadcast::channel::<String>(32);
    let mut reg = Clients::new();
    let mut a = join(&tx, &mut reg, 1, "alice");
    let _b = join(&tx, &mut reg, 2, "bob");
    let out = handle_line(&tx, &mut reg, &mut a, "/seen bob\n");
    assert_eq!(out.response.as_deref(), Some("server: bob was not seen yet\n"));
}

#[test]
fn seen_formats_the_recorded_moment() {
    let mut reg = Clients::new();
    let bob = Client {
        nick: "bob".to_string(),
        addr: 2,
        connected_at: 0,
        last_seen: Some(60),
    };
    reg.add(bob);
    let tokens = vec!["/seen".to_string(), "bob".to_string()];
    assert_eq!(
        seen(&reg, &tokens),
        "server: bob was seen at 1970-01-01 00:01\n"
    );
}

#[test]
fn seen_unknown_nick_is_reported() {
    let (tx, _rx) = broadcast::channel::<String>(32);
    let mut reg = Clients::new();
    let mut a = join(&tx, &mut reg, 1, "alice");
    let out = handle_line(&tx, &mut reg, &mut a, "/seen nobody\n");
    assert_eq!(out.response.as_deref(), Some("server: nick not found\n"));
}

#[test]
fn seen_arity_is_checked() {
    let (tx, _rx) = broadcast::channel::<String>(32);
    let mut reg = Clients::new();
    let mut a = join(&tx, &mut reg, 1, "alice");
    let out = handle_line(&tx, &mut reg, &mut a, "/seen\n");
    assert_eq!(
        out.response.as_deref(),
        Some("server: not enough arguments provided\n")
    );
    let out = handle_line(&tx, &mut reg, &mut a, "/seen bob carol\n");
    assert_eq!(
        out.response.as_deref(),
        Some("server: too many arguments provided\n")
    );
}

#[test]
fn adjacent_spaces_count_as_empty_arguments() {
    let (tx, _rx) = broadcast::channel::<String>(32);
    let mut reg = Clients::new();
    let mut a = join(&tx, &mut reg, 1, "alice");
    let out = handle_line(&tx, &mut reg, &mut a, "/seen  bob\n");
    assert_eq!(
        out.response.as_deref(),
        Some("server: too many arguments provided\n")
    );
}

#[test]
fn only_the_command_token_is_case_folded() {
    let (tx, _rx) = broadcast::channel::<String>(32);
    let mut reg = Clients::new();
    let mut a = join(&tx, &mut reg, 1, "alice");
    let out = handle_line(&tx, &mut reg, &mut a, "/NICK CAROL\n");
    assert!(out.response.is_none());
    assert_eq!(a.nick, "CAROL");
    assert!(reg.check_by_nick("CAROL"));
    assert!(!reg.check_by_nick("carol"));
}

#[test]
fn rename_to_taken_nick_is_refused() {
    let (tx, _rx) = broadcast::channel::<String>(32);
    let mut reg = Clients::new();
    let mut a = join(&tx, &mut reg, 1, "alice");
    let _c = join(&tx, &mut reg, 3, "carol");
    let out = handle_line(&tx, &mut reg, &mut a, "/nick carol\n");
    assert_eq!(out.response.as_deref(), Some("server: nick is already taken\n"));
    assert_eq!(a.nick, "alice");
    assert!(reg.check_by_nick("alice"));
}

#[test]
fn rename_frees_the_old_nick_and_announces() {
    let (tx, mut rx) = broadcast::channel::<String>(32);
    let mut reg = Clients::new();
    let mut a = join(&tx, &mut reg, 1, "alice");
    assert_eq!(rx.try_recv().unwrap(), "server: alice has joined\n");
    let out = handle_line(&tx, &mut reg, &mut a, "/nick carol\n");
    assert!(out.response.is_none());
    assert_eq!(out.notice.as_deref(), Some("server: alice is now carol\n"));
    assert_eq!(rx.try_recv().unwrap(), "server: alice is now carol\n");
    assert_eq!(a.nick, "carol");
    assert!(!reg.check_by_nick("alice"));
    assert!(reg.check_by_nick("carol"));
}

#[test]
fn rename_moves_the_record_to_the_end() {
    let (tx, _rx) = broadcast::channel::<String>(32);
    let mut reg = Clients::new();
    let mut a = join(&tx, &mut reg, 1, "alice");
    let _b = join(&tx, &mut reg, 2, "bob");
    let out = handle_line(&tx, &mut reg, &mut a, "/nick carol\n");
    assert!(out.response.is_none());
    assert_eq!(users(&reg), "server: bob, carol\n");
}

#[test]
fn rename_arity_is_checked() {
    let (tx, _rx) = broadcast::channel::<String>(32);
    let mut reg = Clients::new();
    let mut a = join(&tx, &mut reg, 1, "alice");
    let out = handle_line(&tx, &mut reg, &mut a, "/nick\n");
    assert_eq!(
        out.response.as_deref(),
        Some("server: not enough arguments provided\n")
    );
    let out = handle_line(&tx, &mut reg, &mut a, "/nick bob carol\n");
    assert_eq!(
        out.response.as_deref(),
        Some("server: too many arguments provided\n")
    );
}
