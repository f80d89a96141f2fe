use svroll::topic::{default_qos, wrap_real_topic, QosLevel, TopicConfig, TopicInfo, TopicWrap};

fn info(topic: &str, key_index: Option<usize>) -> TopicInfo {
    TopicInfo { key_index, topic: topic.to_string(), extra_key: None, qos: 0 }
}

#[test]
fn key_inserted_at_index_two() {
    let t = info("/pub/long_freq/data", Some(2));
    assert_eq!(wrap_real_topic(&t, Some("ABC123")), "/pub/ABC123/long_freq/data");
}

#[test]
fn index_zero_or_empty_key_leave_pattern() {
    let zero = info("/pub/long_freq/data", Some(0));
    assert_eq!(wrap_real_topic(&zero, Some("ABC123")), "/pub/long_freq/data");
    let t = info("/pub/long_freq/data", Some(2));
    assert_eq!(wrap_real_topic(&t, Some("")), "/pub/long_freq/data");
    assert_eq!(wrap_real_topic(&t, None), "/pub/long_freq/data");
    let unset = info("/pub/long_freq/data", None);
    assert_eq!(wrap_real_topic(&unset, Some("K")), "/pub/long_freq/data");
}

#[test]
fn index_past_the_segments_leaves_pattern() {
    let t = info("/a/b", Some(3));
    assert_eq!(wrap_real_topic(&t, Some("K")), "/a/b");
    let last = info("/a/b", Some(2));
    assert_eq!(wrap_real_topic(&last, Some("K")), "/a/K/b");
    let first = info("/a/b", Some(1));
    assert_eq!(wrap_real_topic(&first, Some("K")), "/K/a/b");
}

#[test]
fn identify_key_insertion() {
    let w = TopicWrap { publish: info("/pub/long_freq/data", Some(2)), subscribe: None };
    assert_eq!(w.get_pushlish_real_topic_identify_key("ID9".to_string()), "/pub/ID9/long_freq/data");
    assert_eq!(w.get_pushlish_real_topic_identify_key("   ".to_string()), "/pub/long_freq/data");
    assert_eq!(w.get_pushlish_real_topic_identify_key(String::new()), "/pub/long_freq/data");
    assert_eq!(w.get_publish_real_topic(Some("DK")), "/pub/DK/long_freq/data");
}

#[test]
fn subscribe_topics() {
    let w = TopicWrap { publish: info("/p", None), subscribe: Some(info("/sub/register/ack", Some(2))) };
    assert!(w.is_exist_subscribe());
    assert_eq!(w.get_subscribe_topic(), Some("/sub/register/ack"));
    assert_eq!(w.get_subscribe_real_topic(Some("C1")), "/sub/C1/register/ack");
    let none = TopicWrap { publish: info("/p", None), subscribe: None };
    assert_eq!(none.get_subscribe_real_topic(Some("C1")), "");
    assert_eq!(none.get_subscribe_topic(), None);
    assert_eq!(none.get_publish_topic(), "/p");
    assert_eq!(none.get_subscribe_qos(), QosLevel::AtMostOnce);
}

#[test]
fn qos_levels() {
    let mut w = TopicWrap { publish: info("/p", None), subscribe: Some(info("/s", None)) };
    assert_eq!(w.get_publish_qos(), QosLevel::AtMostOnce);
    w.publish.qos = 1;
    assert_eq!(w.get_publish_qos(), QosLevel::AtLeastOnce);
    w.publish.qos = 2;
    assert_eq!(w.get_publish_qos(), QosLevel::ExactlyOnce);
    w.publish.qos = 7;
    assert_eq!(w.get_publish_qos(), QosLevel::AtMostOnce);
    w.subscribe.as_mut().unwrap().qos = 2;
    assert_eq!(w.get_subscribe_qos(), QosLevel::ExactlyOnce);
    assert_eq!(default_qos(), 0);
    assert_eq!(w.publish.get_qos(), 7);
    assert_eq!(w.publish.get_topic(), "/p");
}

#[test]
fn default_topics() {
    let c = TopicConfig::default();
    assert_eq!(c.get_register_topic(), Some("/pub/register"));
    let data = c.data.unwrap();
    assert_eq!(data.get_publish_real_topic(Some("ABC123")), "/pub/ABC123/long_freq/data");
    let reg = c.register.unwrap();
    assert_eq!(reg.publish.qos, 0);
    assert!(reg.publish.extra_key.is_none());
    let ack = reg.subscribe.unwrap();
    assert_eq!(ack.qos, 0);
    assert!(ack.extra_key.is_none());
    assert_eq!(ack.topic, "/sub/register/ack");
    assert_eq!(ack.key_index, Some(2));
}
