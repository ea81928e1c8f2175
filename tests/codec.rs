use rust_chat_server::behaviors;
use rust_chat_server::commands::{CommandParseError, Commands, CommandsAPI};
use rust_chat_server::frame::FRAME_SIZE;
use rust_chat_server::kind::CommandKind;
use rust_chat_server::params::Params;

fn params(pairs: &[(&str, &str)]) -> Params {
    let mut p = Params::new();
    for (k, v) in pairs {
        p.insert(k.to_string(), v.to_string());
    }
    p
}

fn value_of(c: &Commands, key: &str) -> Option<String> {
    match c.params() {
        Some(p) => p.get(&key.to_string()),
        None => None,
    }
}

#[test]
fn round_trip_connect() {
    let c = Commands::Connect(Some(params(&[
        ("uuid", "123456-1234-1234-123456"),
        ("name", "michael"),
        ("host", "127.0.0.1"),
    ])));
    let text = c.to_string();
    let back = Commands::from_str(&text).unwrap();
    assert!(back == c);
    assert_eq!(value_of(&back, "name"), Some("michael".to_string()));
}

#[test]
fn round_trip_every_kind_without_params() {
    let all = vec![
        Commands::Request,
        Commands::Info,
        Commands::HeartBeat(None),
        Commands::Connect(None),
        Commands::Disconnect,
        Commands::ClientUpdate,
        Commands::ClientInfo(None),
        Commands::ClientRemove(None),
        Commands::Client(None),
        Commands::Success(None),
        Commands::Error,
    ];
    for c in all {
        let back = Commands::from_str(&c.to_string()).unwrap();
        assert!(back == c, "{}", c.to_string());
    }
}

#[test]
fn encode_exact_frames() {
    assert_eq!(Commands::Request.to_string(), "!request:");
    assert_eq!(Commands::ClientRemove(None).to_string(), "!clientRemove:");
    assert_eq!(Commands::Success(None).to_string(), "!success:");
    let c = Commands::ClientInfo(Some(params(&[("uuid", "abc")])));
    assert_eq!(c.to_string(), "!clientInfo: uuid:abc");
}

#[test]
fn encode_keeps_insertion_order() {
    let c = Commands::Client(Some(params(&[("uuid", "a"), ("name", "b"), ("host", "c")])));
    assert_eq!(c.to_string(), "!client: uuid:a name:b host:c");
}

#[test]
fn quoting_value_with_colon() {
    let c = Commands::Connect(Some(params(&[("host", "10.0.0.1:8080")])));
    let text = c.to_string();
    assert_eq!(text, "!connect: host:\"10.0.0.1:8080\"");
    let back = Commands::from_str(&text).unwrap();
    assert_eq!(value_of(&back, "host"), Some("10.0.0.1:8080".to_string()));
    assert!(back == c);
}

#[test]
fn quoted_value_may_hold_spaces() {
    let c = Commands::Success(Some(params(&[("name", "a b:c")])));
    let back = Commands::from_str(&c.to_string()).unwrap();
    assert!(back == c);
}

#[test]
fn decode_empty_is_no_string() {
    assert!(matches!(Commands::from_str(""), Err(CommandParseError::NoString)));
}

#[test]
fn decode_without_keyword_is_no_string() {
    assert!(matches!(Commands::from_str("hello"), Err(CommandParseError::NoString)));
    assert!(matches!(Commands::from_str("!connect"), Err(CommandParseError::NoString)));
    assert!(matches!(Commands::from_str(" !info:"), Err(CommandParseError::NoString)));
}

#[test]
fn decode_unknown_keyword_is_error() {
    let c = Commands::from_str("!bogus: a:b").unwrap();
    assert_eq!(c.kind(), CommandKind::Error);
    assert!(c.params().is_none());
    let c = Commands::from_str("!:").unwrap();
    assert_eq!(c.kind(), CommandKind::Error);
}

#[test]
fn decode_keyword_is_case_sensitive() {
    let c = Commands::from_str("!HeartBeat:").unwrap();
    assert_eq!(c.kind(), CommandKind::Error);
}

#[test]
fn decode_sigils_alike() {
    assert_eq!(Commands::from_str("?info:").unwrap().kind(), CommandKind::Info);
    assert_eq!(Commands::from_str("info:").unwrap().kind(), CommandKind::Info);
    assert_eq!(Commands::from_str("!info:").unwrap().kind(), CommandKind::Info);
}

#[test]
fn decode_missing_uuid_keeps_other_params() {
    let c = Commands::from_str("!connect: name:alice host:127.0.0.1").unwrap();
    assert_eq!(c.kind(), CommandKind::Connect);
    assert_eq!(value_of(&c, "name"), Some("alice".to_string()));
    assert_eq!(value_of(&c, "host"), Some("127.0.0.1".to_string()));
    assert_eq!(value_of(&c, "uuid"), None);
}

#[test]
fn decode_ignores_params_of_parameterless_kinds() {
    let c = Commands::from_str("!info: name:x").unwrap();
    assert!(c == Commands::Info);
}

#[test]
fn decode_later_duplicate_key_wins() {
    let c = Commands::from_str("!success: k:a k:b").unwrap();
    assert_eq!(value_of(&c, "k"), Some("b".to_string()));
    assert_eq!(c.params().as_ref().unwrap().len(), 1);
}

#[test]
fn decode_skips_words_without_colon() {
    let c = Commands::from_str("!success: junk k:v").unwrap();
    assert!(c == Commands::Success(Some(params(&[("k", "v")]))));
}

#[test]
fn decode_unclosed_quote_drops_param() {
    let c = Commands::from_str("!success: a:1 b:\"open").unwrap();
    assert!(c == Commands::Success(Some(params(&[("a", "1")]))));
}

#[test]
fn decode_empty_value() {
    let c = Commands::from_str("!success: a:").unwrap();
    assert_eq!(value_of(&c, "a"), Some(String::new()));
}

#[test]
fn equality_ignores_order_and_tells_absent_from_present() {
    let a = Commands::Success(Some(params(&[("x", "1"), ("y", "2")])));
    let b = Commands::Success(Some(params(&[("y", "2"), ("x", "1")])));
    assert!(a == b);
    assert!(Commands::Success(None) != a);
    assert!(Commands::Success(Some(params(&[("x", "1")]))) != a);
    assert!(Commands::Success(Some(params(&[("x", "1"), ("y", "3")]))) != a);
    assert!(Commands::Client(Some(params(&[("x", "1"), ("y", "2")]))) != a);
}

#[test]
fn compare_params_cases() {
    let c = Commands::Error;
    assert!(c.compare_params(&None, &None));
    assert!(!c.compare_params(&Some(params(&[("a", "b")])), &None));
    assert!(!c.compare_params(&None, &Some(params(&[("a", "b")]))));
    assert!(c.compare_params(&Some(params(&[("a", "b")])), &Some(params(&[("a", "b")]))));
}

#[test]
fn from_text_maps_failure_to_error() {
    assert!(Commands::from_text("nothing here".to_string()) == Commands::Error);
    assert!(CommandsAPI::generate_from("!disconnect:".to_string()) == Commands::Disconnect);
}

#[test]
fn from_buffer_trims_and_wipes() {
    let mut buf = [0u8; FRAME_SIZE];
    let frame = b"!heartbeat: a:1";
    buf[..frame.len()].copy_from_slice(frame);
    let c = Commands::from_buffer(&mut buf);
    assert!(c == Commands::HeartBeat(Some(params(&[("a", "1")]))));
    assert!(buf.iter().all(|b| *b == 0));
}

#[test]
fn from_buffer_all_zero_is_error() {
    let mut buf = [0u8; FRAME_SIZE];
    assert!(Commands::from_buffer(&mut buf) == Commands::Error);
}

#[test]
fn from_buffer_invalid_utf8_is_lossy() {
    let mut buf = [0u8; FRAME_SIZE];
    let frame = b"!success: n:\xff";
    buf[..frame.len()].copy_from_slice(frame);
    let c = Commands::from_buffer(&mut buf);
    assert_eq!(value_of(&c, "n"), Some("\u{fffd}".to_string()));
}

#[test]
fn params_insert_replaces_in_place() {
    let mut p = params(&[("a", "1"), ("b", "2")]);
    p.insert("a".to_string(), "3".to_string());
    assert_eq!(p.len(), 2);
    assert_eq!(p.get(&"a".to_string()), Some("3".to_string()));
    assert!(p.contains_key(&"b".to_string()));
    assert!(!p.contains_key(&"c".to_string()));
    assert!(!p.is_empty());
    assert!(Params::new().is_empty());
    let c = Commands::Success(Some(p));
    assert_eq!(c.to_string(), "!success: a:3 b:2");
}

#[test]
fn per_kind_types() {
    assert_eq!(behaviors::Request.to_string(), "!request:");
    assert_eq!(behaviors::Error.to_string(), "!error:");
    assert!(behaviors::Disconnect.to_command() == Commands::Disconnect);
    assert!(behaviors::Info == Commands::Info);
    assert!(!(behaviors::Info == Commands::Request));
    let h = behaviors::HeartBeat::new(Some(params(&[("t", "1")])));
    assert_eq!(h.to_string(), "!heartbeat: t:1");
    assert!(h == Commands::HeartBeat(None));
    assert!(h.to_command() == Commands::HeartBeat(Some(params(&[("t", "1")]))));
    assert!(h.get_params().is_some());
    let s = behaviors::Success::new(None);
    assert_eq!(s.to_string(), "!success:");
    assert!(s.get_params().is_none());
    let c = behaviors::ClientRemove::new(Some(params(&[("uuid", "x")])));
    assert_eq!(c.to_string(), "!clientRemove: uuid:x");
}

#[test]
fn clone_keeps_command() {
    let c = Commands::Client(Some(params(&[("uuid", "a")])));
    let d = c.clone();
    assert!(c == d);
    assert_eq!(c.to_string(), d.to_string());
}

#[test]
fn keywords() {
    assert_eq!(CommandKind::ClientUpdate.keyword(), "clientUpdate");
    assert_eq!(CommandKind::HeartBeat.keyword(), "heartbeat");
}
