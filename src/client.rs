use vstd::prelude::*;

verus! {

/// Where a simulated client stands: connected, still connecting, or failed.
#[derive(Debug, Clone, Copy, PartialEq, Eq, Structural)]
pub enum ConnectionState {
    Connected,
    Connecting,
    Failed,
}

impl Default for ConnectionState {
    /// A client starts out connecting.
    fn default() -> (r: Self)
        ensures
            r == ConnectionState::Connecting,
    {
        ConnectionState::Connecting
    }
}

/// A simulated TCP endpoint, known by its MAC address.
#[derive(Debug, Clone)]
pub struct TcpClient {
    pub mac: String,
    pub connection_state: ConnectionState,
}

impl TcpClient {
    pub fn set_mac(&mut self, mac: String)
        ensures
            *final(self) == (TcpClient { mac: mac, ..*old(self) }),
    {
        self.mac = mac;
    }

    pub fn get_mac(&self) -> (r: String)
        ensures
            r@ == self.mac@,
    {
        self.mac.clone()
    }

    pub fn get_connection_state(&self) -> (r: &ConnectionState)
        ensures
            *r == self.connection_state,
    {
        &self.connection_state
    }

    pub fn set_connection_state(&mut self, state: ConnectionState)
        ensures
            *final(self) == (TcpClient { connection_state: state, ..*old(self) }),
    {
        self.connection_state = state;
    }

    pub fn is_connected(&self) -> (r: bool)
        ensures
            r == (self.connection_state == ConnectionState::Connected),
    {
        self.connection_state == ConnectionState::Connected
    }

    /// A copy of this client.
    pub fn duplicate(&self) -> (r: Self)
        ensures
            r.mac@ == self.mac@,
            r.connection_state == self.connection_state,
    {
        TcpClient { mac: self.mac.clone(), connection_state: self.connection_state }
    }
}

/// A simulated MQTT client: identity and credentials, the key that it puts
/// into its topics, the device key that registration gives it, its connection
/// state, whether a disconnect has been asked for already, and whether a
/// registration handshake is under way.
#[derive(Debug, Clone)]
pub struct MqttClientData {
    pub client_id: String,
    pub username: String,
    pub password: String,
    pub identify_key: Option<String>,
    pub device_key: String,
    pub connection_state: ConnectionState,
    pub disconnecting: bool,
    pub registering: bool,
}

/// The text of an optional string.
pub open spec fn opt_text(s: Option<String>) -> Option<Seq<char>> {
    match s {
        Some(t) => Some(t@),
        None => None,
    }
}

/// Two client records hold the same values.
pub open spec fn same_mqtt_record(a: MqttClientData, b: MqttClientData) -> bool {
    &&& a.client_id@ == b.client_id@
    &&& a.username@ == b.username@
    &&& a.password@ == b.password@
    &&& opt_text(a.identify_key) == opt_text(b.identify_key)
    &&& a.device_key@ == b.device_key@
    &&& a.connection_state == b.connection_state
    &&& a.disconnecting == b.disconnecting
    &&& a.registering == b.registering
}

fn copy_opt_text(s: &Option<String>) -> (r: Option<String>)
    ensures
        opt_text(r) == opt_text(*s),
{
    match s {
        Some(t) => Some(t.clone()),
        None => None,
    }
}

impl MqttClientData {
    /// A client as the configuration gives it: connecting, with no device
    /// key yet, no disconnect asked for and no handshake under way.
    pub fn new(client_id: String, username: String, password: String, identify_key: Option<String>) -> (r:
        Self)
        ensures
            r.client_id == client_id,
            r.username == username,
            r.password == password,
            r.identify_key == identify_key,
            r.device_key@.len() == 0,
            r.connection_state == ConnectionState::Connecting,
            !r.disconnecting,
            !r.registering,
    {
        MqttClientData {
            client_id,
            username,
            password,
            identify_key,
            device_key: String::new(),
            connection_state: ConnectionState::Connecting,
            disconnecting: false,
            registering: false,
        }
    }

    pub fn get_client_id(&self) -> (r: &str)
        ensures
            r@ == self.client_id@,
    {
        self.client_id.as_str()
    }

    pub fn get_username(&self) -> (r: &str)
        ensures
            r@ == self.username@,
    {
        self.username.as_str()
    }

    pub fn get_password(&self) -> (r: &str)
        ensures
            r@ == self.password@,
    {
        self.password.as_str()
    }

    pub fn get_device_key(&self) -> (r: &str)
        ensures
            r@ == self.device_key@,
    {
        self.device_key.as_str()
    }

    pub fn get_identify_key(&self) -> (r: &Option<String>)
        ensures
            *r == self.identify_key,
    {
        &self.identify_key
    }

    pub fn set_client_id(&mut self, client_id: String)
        ensures
            *final(self) == (MqttClientData { client_id: client_id, ..*old(self) }),
    {
        self.client_id = client_id;
    }

    pub fn get_connection_state(&self) -> (r: &ConnectionState)
        ensures
            *r == self.connection_state,
    {
        &self.connection_state
    }

    pub fn set_connection_state(&mut self, state: ConnectionState)
        ensures
            *final(self) == (MqttClientData { connection_state: state, ..*old(self) }),
    {
        self.connection_state = state;
    }

    pub fn is_connected(&self) -> (r: bool)
        ensures
            r == (self.connection_state == ConnectionState::Connected),
    {
        self.connection_state == ConnectionState::Connected
    }

    pub fn set_device_key(&mut self, device_key: String)
        ensures
            *final(self) == (MqttClientData { device_key: device_key, ..*old(self) }),
    {
        self.device_key = device_key;
    }

    /// Claims the one disconnect of this client: true for the first caller
    /// only, who is then the one to close the connection.
    pub fn begin_disconnect(&mut self) -> (r: bool)
        ensures
            r == !old(self).disconnecting,
            *final(self) == (MqttClientData { disconnecting: true, ..*old(self) }),
    {
        if self.disconnecting {
            false
        } else {
            self.disconnecting = true;
            true
        }
    }

    /// A copy of this client.
    pub fn duplicate(&self) -> (r: Self)
        ensures
            same_mqtt_record(r, *self),
    {
        MqttClientData {
            client_id: self.client_id.clone(),
            username: self.username.clone(),
            password: self.password.clone(),
            identify_key: copy_opt_text(&self.identify_key),
            device_key: self.device_key.clone(),
            connection_state: self.connection_state,
            disconnecting: self.disconnecting,
            registering: self.registering,
        }
    }
}

/// How many of a set of clients are in each connection state.
#[derive(Debug, Clone, Copy, Default)]
pub struct ConnectionStats {
    pub total: usize,
    pub connected: usize,
    pub connecting: usize,
    pub failed: usize,
}

/// How many of a set of TCP clients are in each connection state.
#[derive(Debug, Clone, Copy, Default)]
pub struct TcpConnectionStats {
    pub total: usize,
    pub connected: usize,
    pub connecting: usize,
    pub failed: usize,
}

impl TcpConnectionStats {
    pub fn active_connections(&self) -> (r: usize)
        ensures
            r == self.connected,
    {
        self.connected
    }

    pub fn failed_connections(&self) -> (r: usize)
        ensures
            r == self.failed,
    {
        self.failed
    }
}

} // verus!
