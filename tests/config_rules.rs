use svroll::config::{init_mqtt_context, BasicConfig, BenchmarkConfig, Protocol};
use svroll::topic::{TopicConfig, TopicInfo, TopicWrap};

fn basic(threads: usize, rate: usize, interval: u64, clients: Vec<u8>, broker: &str) -> BasicConfig<u8, u8> {
    BasicConfig::new(0, clients, Protocol::Mqtt, threads, false, broker.to_string(), rate, interval)
}

#[test]
fn valid_config_passes() {
    let c = basic(2, 10, 1, vec![1, 2], "localhost:1883");
    assert_eq!(c.validate(), Ok(()));
    assert_eq!(c.get_broker(), "localhost:1883");
    assert_eq!(c.get_clients(), &vec![1, 2]);
    assert_eq!(c.get_max_connect_per_second(), 10);
}

#[test]
fn each_rule_has_its_error_in_order() {
    assert_eq!(basic(0, 0, 0, vec![], "").validate(), Err("thread size must not be 0".to_string()));
    assert_eq!(
        basic(1, 0, 0, vec![], "").validate(),
        Err("max connections per second must not be 0".to_string())
    );
    assert_eq!(basic(1, 1, 0, vec![], "").validate(), Err("send interval must not be 0".to_string()));
    assert_eq!(basic(1, 1, 1, vec![], "").validate(), Err("client list must not be empty".to_string()));
    assert_eq!(basic(1, 1, 1, vec![1], "").validate(), Err("broker address must not be empty".to_string()));
}

#[test]
fn setters_change_one_field() {
    let mut c = basic(2, 10, 1, vec![1], "b");
    c.set_send_interval(5);
    c.set_send_data(9);
    assert_eq!(c.send_interval, 5);
    assert_eq!(*c.get_send_data(), 9);
    assert_eq!(**c.get_send_data_arc(), 9);
    assert_eq!(c.get_clients_arc().len(), 1);
}

fn bench(register: bool) -> BenchmarkConfig<u8, u8> {
    BenchmarkConfig::new(3, vec![1], Protocol::Tcp, 1, register, false, "h:1".to_string(), 1, 1)
}

fn wrap(t: &str) -> TopicWrap {
    TopicWrap { publish: TopicInfo { key_index: None, topic: t.to_string(), extra_key: None, qos: 0 }, subscribe: None }
}

#[test]
fn benchmark_config_validates_and_sets() {
    let mut c = bench(false);
    assert_eq!(c.validate(), Ok(()));
    c.thread_size = 0;
    assert!(c.validate().is_err());
    c.set_send_data(4);
    c.set_send_interval(3);
    assert_eq!(*c.get_send_data(), 4);
    assert_eq!(c.send_interval, 3);
    assert_eq!(c.get_broker(), "h:1");
    assert_eq!(c.get_clients().len(), 1);
    assert_eq!(c.get_max_connect_per_second(), 1);
}

#[test]
fn mqtt_context_needs_its_topics() {
    let missing_register = TopicConfig { register: None, data: Some(wrap("/d")) };
    assert_eq!(
        init_mqtt_context(&bench(true), missing_register).err(),
        Some("no registration topic configured".to_string())
    );
    let missing_data = TopicConfig { register: Some(wrap("/r")), data: None };
    assert_eq!(init_mqtt_context(&bench(false), missing_data).err(), Some("no data topic configured".to_string()));
    let ok = init_mqtt_context(&bench(true), TopicConfig { register: Some(wrap("/r")), data: Some(wrap("/d")) })
        .unwrap();
    assert!(ok.enable_register);
    assert_eq!(ok.data_topic.publish.topic, "/d");
    assert_eq!(ok.register_topic.unwrap().publish.topic, "/r");
    let no_reg = init_mqtt_context(&bench(false), TopicConfig { register: Some(wrap("/r")), data: Some(wrap("/d")) })
        .unwrap();
    assert!(no_reg.register_topic.is_none());
    assert_eq!(no_reg.send_data, 3);
}
