use simple_chat::config::Config;

#[test]
fn config_carries_both_addresses() {
    let c = Config::new("http://127.0.0.1:3100".to_string(), "127.0.0.1:8888".to_string());
    assert_eq!(c.loki_address, "http://127.0.0.1:3100");
    assert_eq!(c.server_address, "127.0.0.1:8888");
}
