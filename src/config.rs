use vstd::prelude::*;

use std::sync::Arc;

use crate::topic::{TopicConfig, TopicWrap};

verus! {

/// The transport that a run drives.
#[derive(Debug, Clone, Copy, PartialEq, Eq, Structural)]
pub enum Protocol {
    Mqtt,
    Tcp,
}

/// A switch as the configuration files write it.
#[derive(Debug, Clone, Copy, PartialEq, Eq, Structural)]
pub enum Flag {
    True,
    False,
}

/// The first rule that a run's parameters break, if any: at least one worker
/// group, at least one connection per second, an interval of at least one
/// second, at least one client and a broker address.
pub open spec fn config_problem(
    thread_size: usize,
    max_connect_per_second: usize,
    send_interval: u64,
    client_count: nat,
    broker: Seq<char>,
) -> Option<Seq<char>> {
    if thread_size == 0 {
        Some(msg_no_threads())
    } else if max_connect_per_second == 0 {
        Some(msg_no_connect_rate())
    } else if send_interval == 0 {
        Some(msg_no_interval())
    } else if client_count == 0 {
        Some(msg_no_clients())
    } else if broker.len() == 0 {
        Some(msg_no_broker())
    } else {
        None
    }
}

pub open spec fn msg_no_threads() -> Seq<char> {
    "thread size must not be 0"@
}

pub open spec fn msg_no_connect_rate() -> Seq<char> {
    "max connections per second must not be 0"@
}

pub open spec fn msg_no_interval() -> Seq<char> {
    "send interval must not be 0"@
}

pub open spec fn msg_no_clients() -> Seq<char> {
    "client list must not be empty"@
}

pub open spec fn msg_no_broker() -> Seq<char> {
    "broker address must not be empty"@
}

fn check_parameters(
    thread_size: usize,
    max_connect_per_second: usize,
    send_interval: u64,
    client_count: usize,
    broker: &str,
) -> (r: Result<(), String>)
    ensures
        config_problem(thread_size, max_connect_per_second, send_interval, client_count as nat, broker@) is None
            ==> r is Ok,
        config_problem(thread_size, max_connect_per_second, send_interval, client_count as nat, broker@) matches Some(m)
            ==> (r matches Err(e) && e@ == m),
{
    proof {
        reveal_strlit("thread size must not be 0");
        reveal_strlit("max connections per second must not be 0");
        reveal_strlit("send interval must not be 0");
        reveal_strlit("client list must not be empty");
        reveal_strlit("broker address must not be empty");
    }
    if thread_size == 0 {
        return Err("thread size must not be 0".to_owned());
    }
    if max_connect_per_second == 0 {
        return Err("max connections per second must not be 0".to_owned());
    }
    if send_interval == 0 {
        return Err("send interval must not be 0".to_owned());
    }
    if client_count == 0 {
        return Err("client list must not be empty".to_owned());
    }
    if broker.is_empty() {
        return Err("broker address must not be empty".to_owned());
    }
    Ok(())
}

/// The parameters of a run: payload template, clients, protocol, worker
/// group count, randomisation, broker, connection rate and send interval.
#[derive(Debug, Clone)]
pub struct BasicConfig<T, C> {
    pub send_data: Arc<T>,
    pub protocol_type: Protocol,
    pub clients: Arc<Vec<C>>,
    pub thread_size: usize,
    pub enable_random: bool,
    pub broker: Arc<String>,
    pub max_connect_per_second: usize,
    pub send_interval: u64,
}

impl<T, C> BasicConfig<T, C> {
    pub fn new(
        send_data: T,
        clients: Vec<C>,
        protocol_type: Protocol,
        thread_size: usize,
        enable_random: bool,
        broker: String,
        max_connect_per_second: usize,
        send_interval: u64,
    ) -> (r: Self)
        ensures
            *r.send_data == send_data,
            *r.clients == clients,
            r.protocol_type == protocol_type,
            r.thread_size == thread_size,
            r.enable_random == enable_random,
            *r.broker == broker,
            r.max_connect_per_second == max_connect_per_second,
            r.send_interval == send_interval,
    {
        BasicConfig {
            send_data: Arc::new(send_data),
            protocol_type,
            clients: Arc::new(clients),
            thread_size,
            enable_random,
            broker: Arc::new(broker),
            max_connect_per_second,
            send_interval,
        }
    }

    /// `Ok` exactly when the parameters break no rule; otherwise the first
    /// rule broken, in the order thread size, connection rate, interval,
    /// clients, broker.
    pub fn validate(&self) -> (r: Result<(), String>)
        ensures
            config_problem(
                self.thread_size,
                self.max_connect_per_second,
                self.send_interval,
                self.clients@.len(),
                self.broker@,
            ) is None ==> r is Ok,
            config_problem(
                self.thread_size,
                self.max_connect_per_second,
                self.send_interval,
                self.clients@.len(),
                self.broker@,
            ) matches Some(m) ==> (r matches Err(e) && e@ == m),
    {
        check_parameters(
            self.thread_size,
            self.max_connect_per_second,
            self.send_interval,
            self.clients.len(),
            self.broker.as_str(),
        )
    }

    pub fn set_send_data(&mut self, data: T)
        ensures
            *final(self).send_data == data,
            final(self).protocol_type == old(self).protocol_type,
            final(self).clients == old(self).clients,
            final(self).thread_size == old(self).thread_size,
            final(self).enable_random == old(self).enable_random,
            final(self).broker == old(self).broker,
            final(self).max_connect_per_second == old(self).max_connect_per_second,
            final(self).send_interval == old(self).send_interval,
    {
        self.send_data = Arc::new(data);
    }

    pub fn get_send_data_arc(&self) -> (r: &Arc<T>)
        ensures
            *r == self.send_data,
    {
        &self.send_data
    }

    pub fn get_send_data(&self) -> (r: &T)
        ensures
            *r == *self.send_data,
    {
        &*self.send_data
    }

    pub fn get_broker(&self) -> (r: &str)
        ensures
            r@ == self.broker@,
    {
        self.broker.as_str()
    }

    pub fn get_clients(&self) -> (r: &Vec<C>)
        ensures
            *r == *self.clients,
    {
        &*self.clients
    }

    pub fn get_clients_arc(&self) -> (r: &Arc<Vec<C>>)
        ensures
            *r == self.clients,
    {
        &self.clients
    }

    pub fn get_max_connect_per_second(&self) -> (r: usize)
        ensures
            r == self.max_connect_per_second,
    {
        self.max_connect_per_second
    }

    pub fn set_send_interval(&mut self, send_interval: u64)
        ensures
            *final(self) == (BasicConfig { send_interval: send_interval, ..*old(self) }),
    {
        self.send_interval = send_interval;
    }
}

/// The parameters of a run together with the registration switch.
#[derive(Debug, Clone)]
pub struct BenchmarkConfig<T, C> {
    pub send_data: T,
    pub protocol_type: Protocol,
    pub clients: Vec<C>,
    pub thread_size: usize,
    pub enable_register: bool,
    pub enable_random: bool,
    pub broker: String,
    pub max_connect_per_second: usize,
    pub send_interval: u64,
}

impl<T, C> BenchmarkConfig<T, C> {
    pub fn new(
        send_data: T,
        clients: Vec<C>,
        protocol_type: Protocol,
        thread_size: usize,
        enable_register: bool,
        enable_random: bool,
        broker: String,
        max_connect_per_second: usize,
        send_interval: u64,
    ) -> (r: Self)
        ensures
            r.send_data == send_data,
            r.clients == clients,
            r.protocol_type == protocol_type,
            r.thread_size == thread_size,
            r.enable_register == enable_register,
            r.enable_random == enable_random,
            r.broker == broker,
            r.max_connect_per_second == max_connect_per_second,
            r.send_interval == send_interval,
    {
        BenchmarkConfig {
            send_data,
            protocol_type,
            clients,
            thread_size,
            enable_register,
            enable_random,
            broker,
            max_connect_per_second,
            send_interval,
        }
    }

    /// `Ok` exactly when the parameters break no rule; otherwise the first
    /// rule broken, in the order thread size, connection rate, interval,
    /// clients, broker.
    pub fn validate(&self) -> (r: Result<(), String>)
        ensures
            config_problem(
                self.thread_size,
                self.max_connect_per_second,
                self.send_interval,
                self.clients@.len(),
                self.broker@,
            ) is None ==> r is Ok,
            config_problem(
                self.thread_size,
                self.max_connect_per_second,
                self.send_interval,
                self.clients@.len(),
                self.broker@,
            ) matches Some(m) ==> (r matches Err(e) && e@ == m),
    {
        check_parameters(
            self.thread_size,
            self.max_connect_per_second,
            self.send_interval,
            self.clients.len(),
            self.broker.as_str(),
        )
    }

    pub fn set_send_data(&mut self, data: T)
        ensures
            *final(self) == (BenchmarkConfig { send_data: data, ..*old(self) }),
    {
        self.send_data = data;
    }

    pub fn get_send_data(&self) -> (r: &T)
        ensures
            *r == self.send_data,
    {
        &self.send_data
    }

    pub fn get_broker(&self) -> (r: &str)
        ensures
            r@ == self.broker@,
    {
        self.broker.as_str()
    }

    pub fn get_clients(&self) -> (r: &Vec<C>)
        ensures
            *r == self.clients,
    {
        &self.clients
    }

    pub fn get_max_connect_per_second(&self) -> (r: usize)
        ensures
            r == self.max_connect_per_second,
    {
        self.max_connect_per_second
    }

    pub fn set_send_interval(&mut self, send_interval: u64)
        ensures
            *final(self) == (BenchmarkConfig { send_interval: send_interval, ..*old(self) }),
    {
        self.send_interval = send_interval;
    }
}

/// What an MQTT run publishes, and where: the payload template, whether
/// clients register first, the registration topics and the data topic.
#[derive(Debug, Clone)]
pub struct MqttContext<T> {
    pub send_data: T,
    pub enable_register: bool,
    pub register_topic: Option<TopicWrap>,
    pub data_topic: TopicWrap,
}

pub open spec fn msg_no_register_topic() -> Seq<char> {
    "no registration topic configured"@
}

pub open spec fn msg_no_data_topic() -> Seq<char> {
    "no data topic configured"@
}

/// The publishing context of an MQTT run. Registration needs its topics and
/// every run needs a data topic; a missing one is an error.
pub fn init_mqtt_context<T: Clone, C>(config: &BenchmarkConfig<T, C>, topic_config: TopicConfig) -> (r:
    Result<MqttContext<T>, String>)
    ensures
        config.enable_register && topic_config.register is None ==> (r matches Err(e) && e@
            == msg_no_register_topic()),
        !(config.enable_register && topic_config.register is None) && topic_config.data is None ==> (r matches Err(
            e,
        ) && e@ == msg_no_data_topic()),
        !(config.enable_register && topic_config.register is None) && topic_config.data is Some ==> (r matches Ok(
            c,
        ) && c.enable_register == config.enable_register && c.data_topic
            == topic_config.data->Some_0 && (config.enable_register ==> c.register_topic
            == topic_config.register) && (!config.enable_register ==> c.register_topic is None)),
{
    proof {
        reveal_strlit("no registration topic configured");
        reveal_strlit("no data topic configured");
    }
    let mut register_topic: Option<TopicWrap> = None;
    if config.enable_register {
        match topic_config.register {
            Some(register) => {
                register_topic = Some(register);
            },
            None => {
                return Err("no registration topic configured".to_owned());
            },
        }
    }
    match topic_config.data {
        Some(data_topic) => Ok(
            MqttContext {
                send_data: config.send_data.clone(),
                enable_register: config.enable_register,
                register_topic,
                data_topic,
            },
        ),
        None => Err("no data topic configured".to_owned()),
    }
}

} // verus!
