use svroll::client::{ConnectionState, MqttClientData, TcpClient};
use svroll::config::Protocol;
use svroll::connect::{
    on_poll, parse_broker, ConnectWait, LoopAction, PollEvent, WaitStep, MAX_CONNECT_POLLS,
};
use svroll::dispatch::{partition_clients, plan_mqtt_tick, plan_tcp_tick, TickAction};
use svroll::fleet::FleetState;
use svroll::lifecycle::{StopOutcome, StopStep, Task};
use svroll::limiter::RateLimiter;
use svroll::topic::{TopicInfo, TopicWrap};

fn mqtt(id: &str) -> MqttClientData {
    MqttClientData::new(id.to_string(), "u".to_string(), "p".to_string(), None)
}

fn tcp(mac: &str) -> TcpClient {
    TcpClient { mac: mac.to_string(), connection_state: ConnectionState::default() }
}

#[test]
fn limiter_admits_budget_per_rolling_second() {
    let mut l = RateLimiter::new(3);
    assert!(l.try_admit(0));
    assert!(l.try_admit(10));
    assert!(l.try_admit(20));
    assert!(!l.try_admit(500));
    assert_eq!(l.next_admission_at(), 1000);
    assert!(!l.try_admit(999));
    assert!(l.try_admit(1000));
    assert!(!l.try_admit(1005));
    assert!(l.try_admit(1010));
    assert_eq!(l.get_budget(), 3);
}

#[test]
fn limiter_never_exceeds_budget_in_any_window() {
    let k = 4usize;
    let mut l = RateLimiter::new(k);
    let mut admitted: Vec<u64> = Vec::new();
    let mut now = 0u64;
    while admitted.len() < 40 {
        if l.try_admit(now) {
            admitted.push(now);
        }
        now += 37;
    }
    for (i, t) in admitted.iter().enumerate() {
        let in_window = admitted[i..].iter().filter(|u| **u < t + 1000).count();
        assert!(in_window <= k);
    }
}

#[test]
fn wait_times_out_after_budget_and_fails_client() {
    let mut fleet = FleetState::new();
    fleet.add_mqtt_client(mqtt("c1"));
    let mut w = ConnectWait::new();
    let mut retries = 0u32;
    loop {
        match w.poll_mqtt(&mut fleet, "c1") {
            WaitStep::Retry => retries += 1,
            WaitStep::TimedOut => break,
            WaitStep::Connected => panic!("never connected"),
        }
    }
    assert_eq!(retries, MAX_CONNECT_POLLS);
    assert_eq!(fleet.mqtt_state("c1"), Some(ConnectionState::Failed));
}

#[test]
fn wait_ends_when_connected() {
    let mut fleet = FleetState::new();
    fleet.add_tcp_client(tcp("m1"));
    let mut w = ConnectWait::new();
    assert_eq!(w.poll_tcp(&mut fleet, "m1"), WaitStep::Retry);
    fleet.set_tcp_state("m1", ConnectionState::Connected);
    assert_eq!(w.poll_tcp(&mut fleet, "m1"), WaitStep::Connected);
    assert_eq!(fleet.tcp_state("m1"), Some(ConnectionState::Connected));
}

#[test]
fn fleet_records_are_keyed_by_id() {
    let mut fleet = FleetState::new();
    fleet.add_mqtt_client(mqtt("a"));
    fleet.add_mqtt_client(mqtt("b"));
    let mut again = mqtt("a");
    again.password = "new".to_string();
    fleet.add_mqtt_client(again);
    assert_eq!(fleet.get_mqtt_client_list().len(), 2);
    assert_eq!(fleet.get_mqtt_client("a").unwrap().password, "new");
    assert!(fleet.contains_mqtt("b"));
    assert!(!fleet.set_mqtt_state("zz", ConnectionState::Connected));
    assert!(fleet.set_mqtt_state("b", ConnectionState::Connected));
    let stats = fleet.mqtt_connection_stats(&vec!["a".to_string(), "b".to_string(), "x".to_string()]);
    assert_eq!((stats.total, stats.connected, stats.connecting, stats.failed), (3, 1, 1, 0));
    assert_eq!(fleet.mqtt_client_ids(), vec!["a".to_string(), "b".to_string()]);
    fleet.add_tcp_client(tcp("m"));
    fleet.set_tcp_state("m", ConnectionState::Failed);
    let t = fleet.tcp_connection_stats(&vec!["m".to_string()]);
    assert_eq!((t.total, t.active_connections(), t.failed_connections()), (1, 0, 1));
    fleet.clear_clients(Protocol::Mqtt);
    assert!(fleet.get_mqtt_client_list().is_empty());
    assert_eq!(fleet.get_tcp_client_list().len(), 1);
    fleet.clear_clients(Protocol::Tcp);
    assert!(fleet.get_tcp_client_list().is_empty());
}

#[test]
fn disconnect_is_claimed_once() {
    let mut fleet = FleetState::new();
    fleet.add_mqtt_client(mqtt("a"));
    assert!(fleet.claim_disconnect("a"));
    assert!(!fleet.claim_disconnect("a"));
    assert!(!fleet.claim_disconnect("missing"));
    let mut rec = mqtt("b");
    assert!(rec.begin_disconnect());
    assert!(!rec.begin_disconnect());
}

#[test]
fn partition_respects_group_count() {
    let ids: Vec<String> = (0..10).map(|i| format!("c{}", i)).collect();
    let groups = partition_clients(ids.clone(), 3);
    assert_eq!(groups.iter().map(|g| g.len()).collect::<Vec<_>>(), vec![4, 4, 2]);
    assert_eq!(groups.concat(), ids);
    assert_eq!(partition_clients(ids.clone(), 20).len(), 10);
    assert!(partition_clients(Vec::new(), 4).is_empty());
    assert_eq!(partition_clients(ids.clone(), 1).len(), 1);
}

fn data_topic() -> TopicWrap {
    TopicWrap {
        publish: TopicInfo { key_index: Some(2), topic: "/pub/long_freq/data".to_string(), extra_key: None, qos: 0 },
        subscribe: None,
    }
}

#[test]
fn registration_gates_publishing() {
    let mut fleet = FleetState::new();
    fleet.add_mqtt_client(mqtt("a"));
    fleet.add_mqtt_client(mqtt("b"));
    fleet.set_mqtt_state("a", ConnectionState::Connected);
    let group = vec!["a".to_string(), "b".to_string(), "zz".to_string()];
    let plan = plan_mqtt_tick(&fleet, &group, true, &data_topic());
    assert!(matches!(plan[0], TickAction::Register));
    assert!(matches!(plan[1], TickAction::Skip));
    assert!(matches!(plan[2], TickAction::Skip));
    assert!(fleet.begin_registration("a"));
    assert!(!fleet.begin_registration("a"));
    assert!(fleet.complete_registration("a", "DK1".to_string()));
    let plan = plan_mqtt_tick(&fleet, &group, true, &data_topic());
    match &plan[0] {
        TickAction::Publish { topic } => assert_eq!(topic, "/pub/DK1/long_freq/data"),
        _ => panic!("expected a publish"),
    }
    let open = plan_mqtt_tick(&FleetState::new(), &group, false, &data_topic());
    assert!(open.iter().all(|a| matches!(a, TickAction::Skip)));
}

#[test]
fn identify_key_wins_over_device_key() {
    let mut fleet = FleetState::new();
    let mut c = mqtt("a");
    c.identify_key = Some("IDK".to_string());
    fleet.add_mqtt_client(c);
    fleet.set_mqtt_state("a", ConnectionState::Connected);
    let plan = plan_mqtt_tick(&fleet, &vec!["a".to_string()], false, &data_topic());
    match &plan[0] {
        TickAction::Publish { topic } => assert_eq!(topic, "/pub/IDK/long_freq/data"),
        _ => panic!("expected a publish"),
    }
    fleet.add_tcp_client(tcp("m"));
    assert_eq!(plan_tcp_tick(&fleet, &vec!["m".to_string()]), vec![false]);
    fleet.set_tcp_state("m", ConnectionState::Connected);
    assert_eq!(plan_tcp_tick(&fleet, &vec!["m".to_string()]), vec![true]);
}

#[test]
fn counter_counts_and_restart_resets() {
    let mut t = Task::new();
    t.start();
    for _ in 0..25 {
        t.record_sent();
    }
    assert_eq!(t.counter(), 25);
    assert!(matches!(t.stop(None), StopOutcome::Stopping { .. }));
    t.start();
    assert_eq!(t.counter(), 0);
    assert!(t.status());
}

#[test]
fn stop_twice_is_a_no_op_and_clears_once() {
    let mut t = Task::new();
    assert_eq!(t.stop(Some(Protocol::Tcp)), StopOutcome::NothingRunning { clear: Some(Protocol::Tcp) });
    t.start();
    t.dispatch_spawned();
    let first = t.stop(Some(Protocol::Mqtt));
    let steps = match first {
        StopOutcome::Stopping { steps } => steps,
        other => panic!("unexpected {:?}", other),
    };
    assert_eq!(
        steps,
        vec![
            StopStep::AbortMain,
            StopStep::TearDown(Protocol::Mqtt),
            StopStep::AbortDispatch,
            StopStep::AbortCounter,
            StopStep::ClearFleet(Protocol::Mqtt),
        ]
    );
    assert_eq!(steps.iter().filter(|s| matches!(s, StopStep::ClearFleet(_))).count(), 1);
    assert!(!t.status());
    assert_eq!(t.stop(Some(Protocol::Mqtt)), StopOutcome::AlreadyStopped);
}

#[test]
fn event_loop_decisions() {
    let mut fleet = FleetState::new();
    assert_eq!(on_poll(&mut fleet, "a", PollEvent::Other), LoopAction::Stop { disconnect: false });
    fleet.add_mqtt_client(mqtt("a"));
    assert_eq!(on_poll(&mut fleet, "a", PollEvent::ConnAck), LoopAction::Continue);
    assert_eq!(fleet.mqtt_state("a"), Some(ConnectionState::Connected));
    assert_eq!(on_poll(&mut fleet, "a", PollEvent::Error { fatal: false }), LoopAction::BackOff);
    assert_eq!(on_poll(&mut fleet, "a", PollEvent::Error { fatal: true }), LoopAction::Stop { disconnect: true });
    assert_eq!(fleet.mqtt_state("a"), Some(ConnectionState::Failed));
    assert_eq!(on_poll(&mut fleet, "a", PollEvent::Error { fatal: true }), LoopAction::Stop { disconnect: false });
}

#[test]
fn broker_addresses() {
    assert_eq!(parse_broker("localhost:1884"), ("localhost".to_string(), 1884));
    assert_eq!(parse_broker("tcp://10.0.0.1:8883"), ("10.0.0.1".to_string(), 8883));
    assert_eq!(parse_broker("broker"), ("broker".to_string(), 1883));
    assert_eq!(parse_broker("h:99999"), ("h".to_string(), 1883));
    assert_eq!(parse_broker("h:x1"), ("h".to_string(), 1883));
    assert_eq!(parse_broker("h:"), ("h".to_string(), 1883));
}
