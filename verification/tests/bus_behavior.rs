use simple_chat::bus::{drain_pending, publish};
use tokio::sync::broadcast;
use tokio::sync::broadcast::error::TryRecvError;

#[test]
fn publish_delivers_a_present_notice() {
    let (tx, mut rx) = broadcast::channel::<String>(32);
    publish(&tx, &Some("server: alice has joined\n".to_string()));
    assert_eq!(rx.try_recv().unwrap(), "server: alice has joined\n");
}

#[test]
fn publish_of_nothing_sends_nothing() {
    let (tx, mut rx) = broadcast::channel::<String>(32);
    publish(&tx, &None);
    assert_eq!(rx.try_recv(), Err(TryRecvError::Empty));
}

#[test]
fn publish_without_subscribers_is_not_fatal() {
    let (tx, rx) = broadcast::channel::<String>(32);
    drop(rx);
    publish(&tx, &Some("server: alice has joined\n".to_string()));
}

#[test]
fn drain_discards_lines_published_before_the_join() {
    let (tx, mut rx) = broadcast::channel::<String>(32);
    tx.send("bob: old chatter\n".to_string()).unwrap();
    tx.send("server: bob is now carol\n".to_string()).unwrap();
    drain_pending(&mut rx);
    assert_eq!(rx.try_recv(), Err(TryRecvError::Empty));
    tx.send("carol: hello\n".to_string()).unwrap();
    assert_eq!(rx.try_recv().unwrap(), "carol: hello\n");
}

#[test]
fn drain_on_an_empty_subscription_is_a_noop() {
    let (tx, mut rx) = broadcast::channel::<String>(32);
    drain_pending(&mut rx);
    tx.send("alice: hi\n".to_string()).unwrap();
    assert_eq!(rx.try_recv().unwrap(), "alice: hi\n");
}
