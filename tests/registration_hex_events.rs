use svroll::events::{format_error, log_error, Rs2JsEntity, Rs2JsMsgType};
use svroll::hexcode::{decode_payload_hex, hex_string_to_bytes};
use svroll::registration::{ack_client_key, registration_settings, RegistrationError};
use svroll::tcp::TcpSendData;
use svroll::topic::{TopicConfig, TopicInfo, TopicWrap};

fn info(topic: &str, key_index: Option<usize>, extra: Option<&str>) -> TopicInfo {
    TopicInfo { key_index, topic: topic.to_string(), extra_key: extra.map(|e| e.to_string()), qos: 1 }
}

#[test]
fn ack_topic_yields_client_key() {
    let ack = info("/sub/register/ack", Some(2), Some("deviceKey"));
    assert_eq!(ack_client_key("/sub/C42/register/ack", &ack), Some("C42".to_string()));
    assert_eq!(ack_client_key("/sub/register/ack", &ack), None);
    assert_eq!(ack_client_key("/sub/C42/other/ack", &ack), None);
    assert_eq!(ack_client_key("/sub//register/ack", &ack), None);
    let last = info("/sub/ack", Some(3), None);
    assert_eq!(ack_client_key("/sub/ack/K", &last), Some("K".to_string()));
    let unset = info("/sub/register/ack", None, None);
    assert_eq!(ack_client_key("/sub/C42/register/ack", &unset), None);
}

#[test]
fn registration_settings_report_what_is_missing() {
    assert_eq!(
        registration_settings(&TopicConfig { register: None, data: None }).err(),
        Some(RegistrationError::MissingRegisterTopic)
    );
    let no_ack = TopicConfig { register: Some(TopicWrap { publish: info("/r", None, None), subscribe: None }), data: None };
    assert_eq!(registration_settings(&no_ack).err(), Some(RegistrationError::MissingAckTopic));
    let no_key = TopicConfig {
        register: Some(TopicWrap { publish: info("/r", None, None), subscribe: Some(info("/a", Some(1), None)) }),
        data: None,
    };
    assert_eq!(registration_settings(&no_key).err(), Some(RegistrationError::MissingExtraKey));
    let ok = TopicConfig {
        register: Some(TopicWrap { publish: info("/r", None, None), subscribe: Some(info("/a", Some(1), Some("dk"))) }),
        data: None,
    };
    let s = registration_settings(&ok).ok().unwrap();
    assert_eq!(s.extra_key, "dk");
    assert_eq!(s.ack.topic, "/a");
    assert_eq!(s.announce.topic, "/r");
}

#[test]
fn hex_text_with_spaces() {
    assert_eq!(hex_string_to_bytes("01 03 0a FF"), Ok(vec![0x01, 0x03, 0x0A, 0xFF]));
    assert_eq!(hex_string_to_bytes(""), Ok(vec![]));
    assert_eq!(hex_string_to_bytes("abc"), Err("hex string length must be even".to_string()));
    assert_eq!(hex_string_to_bytes("zz"), Err("invalid hex string".to_string()));
    assert_eq!(hex_string_to_bytes("+a"), Err("invalid hex string".to_string()));
    assert_eq!(hex_string_to_bytes("+1 00"), Err("invalid hex string".to_string()));
}

#[test]
fn strict_hex_payload() {
    assert_eq!(decode_payload_hex("0aFF"), Ok(vec![0x0A, 0xFF]));
    assert_eq!(decode_payload_hex("0a F"), Err("invalid hex string".to_string()));
    assert_eq!(decode_payload_hex("abc"), Err("invalid hex string".to_string()));
    let d = TcpSendData::from_hex("c0ffee").ok().unwrap();
    assert_eq!(*d.data, vec![0xC0, 0xFF, 0xEE]);
    assert!(TcpSendData::from_hex("xyz0").is_err());
}

#[test]
fn error_text_and_events() {
    assert_eq!(format_error("connect", "refused"), "connect: refused");
    assert_eq!(log_error("send", "timeout"), "send: timeout");
    let e = Rs2JsEntity::new(Rs2JsMsgType::Counter, "12".to_string());
    assert_eq!(e.msg_type, Rs2JsMsgType::Counter);
    assert_eq!(e.msg, "12");
    assert_eq!(e.time.len(), 19);
}

#[test]
fn inserted_key_comes_back_from_ack_topic() {
    let ack = info("/sub/register/ack", Some(2), Some("deviceKey"));
    for key in ["A", "client-007", "x y"] {
        let topic = svroll::topic::wrap_real_topic(&ack, Some(key));
        assert_eq!(ack_client_key(&topic, &ack), Some(key.to_string()));
    }
}
