use vstd::prelude::*;

use crate::client::{
    ConnectionState, ConnectionStats, MqttClientData, TcpClient, TcpConnectionStats, same_mqtt_record,
};
use crate::config::Protocol;
use crate::text::same_text;

verus! {

/// Whether some MQTT record has this client id.
pub open spec fn has_mqtt(recs: Seq<MqttClientData>, id: Seq<char>) -> bool {
    exists|i: int| 0 <= i < recs.len() && #[trigger] recs[i].client_id@ == id
}

/// The position of the MQTT record with this client id.
pub open spec fn mqtt_index(recs: Seq<MqttClientData>, id: Seq<char>) -> int {
    choose|i: int| 0 <= i < recs.len() && #[trigger] recs[i].client_id@ == id
}

/// The connection state of the MQTT client with this id, if it is known.
pub open spec fn mqtt_state_of(recs: Seq<MqttClientData>, id: Seq<char>) -> Option<ConnectionState> {
    if has_mqtt(recs, id) {
        Some(recs[mqtt_index(recs, id)].connection_state)
    } else {
        None
    }
}

/// Whether some TCP record has this MAC address.
pub open spec fn has_tcp(recs: Seq<TcpClient>, mac: Seq<char>) -> bool {
    exists|i: int| 0 <= i < recs.len() && #[trigger] recs[i].mac@ == mac
}

/// The position of the TCP record with this MAC address.
pub open spec fn tcp_index(recs: Seq<TcpClient>, mac: Seq<char>) -> int {
    choose|i: int| 0 <= i < recs.len() && #[trigger] recs[i].mac@ == mac
}

/// The connection state of the TCP client with this MAC address, if known.
pub open spec fn tcp_state_of(recs: Seq<TcpClient>, mac: Seq<char>) -> Option<ConnectionState> {
    if has_tcp(recs, mac) {
        Some(recs[tcp_index(recs, mac)].connection_state)
    } else {
        None
    }
}

/// No two MQTT records share a client id.
pub open spec fn mqtt_ids_unique(recs: Seq<MqttClientData>) -> bool {
    forall|i: int, j: int|
        0 <= i < recs.len() && 0 <= j < recs.len() && i != j ==> recs[i].client_id@ != recs[j].client_id@
}

/// No two TCP records share a MAC address.
pub open spec fn tcp_macs_unique(recs: Seq<TcpClient>) -> bool {
    forall|i: int, j: int| 0 <= i < recs.len() && 0 <= j < recs.len() && i != j ==> recs[i].mac@ != recs[j].mac@
}

/// How many of the listed MQTT clients are known and in state `s`.
pub open spec fn mqtt_count_in(recs: Seq<MqttClientData>, ids: Seq<String>, s: ConnectionState) -> nat
    decreases ids.len(),
{
    if ids.len() == 0 {
        0
    } else {
        mqtt_count_in(recs, ids.drop_last(), s) + if mqtt_state_of(recs, ids.last()@) == Some(s) {
            1nat
        } else {
            0nat
        }
    }
}

/// How many of the listed TCP clients are known and in state `s`.
pub open spec fn tcp_count_in(recs: Seq<TcpClient>, macs: Seq<String>, s: ConnectionState) -> nat
    decreases macs.len(),
{
    if macs.len() == 0 {
        0
    } else {
        tcp_count_in(recs, macs.drop_last(), s) + if tcp_state_of(recs, macs.last()@) == Some(s) {
            1nat
        } else {
            0nat
        }
    }
}

/// The record with its connection state replaced.
pub open spec fn with_state(r: MqttClientData, s: ConnectionState) -> MqttClientData {
    MqttClientData { connection_state: s, ..r }
}

/// The record with its device key replaced.
pub open spec fn with_device_key(r: MqttClientData, key: String) -> MqttClientData {
    MqttClientData { device_key: key, ..r }
}

/// The record with a handshake under way.
pub open spec fn with_registering(r: MqttClientData) -> MqttClientData {
    MqttClientData { registering: true, ..r }
}

/// The record with its handshake done and its device key set.
pub open spec fn with_registered(r: MqttClientData, key: String) -> MqttClientData {
    MqttClientData { device_key: key, registering: false, ..r }
}

/// A registration handshake may start for this record: it is connected, has
/// no device key, and no handshake is under way for it.
pub open spec fn may_register(r: MqttClientData) -> bool {
    r.connection_state == ConnectionState::Connected && r.device_key@.len() == 0 && !r.registering
}

/// The record with its disconnect claimed.
pub open spec fn with_disconnecting(r: MqttClientData) -> MqttClientData {
    MqttClientData { disconnecting: true, ..r }
}

/// The state of a fleet: every simulated client of each protocol, by
/// identifier, one record per identifier.
pub struct FleetState {
    mqtt: Vec<MqttClientData>,
    tcp: Vec<TcpClient>,
}

impl FleetState {
    /// The MQTT records.
    pub closed spec fn mqtt_records(&self) -> Seq<MqttClientData> {
        self.mqtt@
    }

    /// The TCP records.
    pub closed spec fn tcp_records(&self) -> Seq<TcpClient> {
        self.tcp@
    }

    /// One record per identifier.
    pub open spec fn wf(&self) -> bool {
        mqtt_ids_unique(self.mqtt_records()) && tcp_macs_unique(self.tcp_records())
    }

    pub fn new() -> (r: Self)
        ensures
            r.wf(),
            r.mqtt_records().len() == 0,
            r.tcp_records().len() == 0,
    {
        FleetState { mqtt: Vec::new(), tcp: Vec::new() }
    }

    fn find_mqtt(&self, id: &str) -> (r: Option<usize>)
        requires
            self.wf(),
        ensures
            r matches Some(i) ==> i < self.mqtt@.len() && self.mqtt@[i as int].client_id@ == id@
                && mqtt_index(self.mqtt@, id@) == i && has_mqtt(self.mqtt@, id@),
            r is None ==> !has_mqtt(self.mqtt@, id@),
    {
        let mut i: usize = self.mqtt.len();
        while i > 0
            invariant
                self.wf(),
                i <= self.mqtt@.len(),
                forall|j: int| i <= j < self.mqtt@.len() ==> #[trigger] self.mqtt@[j].client_id@ != id@,
            decreases i,
        {
            if same_text(self.mqtt[i - 1].client_id.as_str(), id) {
                proof {
                    let k = mqtt_index(self.mqtt@, id@);
                    assert(self.mqtt@[i - 1].client_id@ == id@);
                    assert(has_mqtt(self.mqtt@, id@));
                    assert(self.mqtt@[k].client_id@ == id@);
                    assert(mqtt_ids_unique(self.mqtt@));
                    assert(k == i - 1);
                }
                return Some(i - 1);
            }
            i = i - 1;
        }
        None
    }

    fn find_tcp(&self, mac: &str) -> (r: Option<usize>)
        requires
            self.wf(),
        ensures
            r matches Some(i) ==> i < self.tcp@.len() && self.tcp@[i as int].mac@ == mac@ && tcp_index(
                self.tcp@,
                mac@,
            ) == i && has_tcp(self.tcp@, mac@),
            r is None ==> !has_tcp(self.tcp@, mac@),
    {
        let mut i: usize = self.tcp.len();
        while i > 0
            invariant
                self.wf(),
                i <= self.tcp@.len(),
                forall|j: int| i <= j < self.tcp@.len() ==> #[trigger] self.tcp@[j].mac@ != mac@,
            decreases i,
        {
            if same_text(self.tcp[i - 1].mac.as_str(), mac) {
                proof {
                    let k = tcp_index(self.tcp@, mac@);
                    assert(self.tcp@[i - 1].mac@ == mac@);
                    assert(has_tcp(self.tcp@, mac@));
                    assert(self.tcp@[k].mac@ == mac@);
                    assert(tcp_macs_unique(self.tcp@));
                    assert(k == i - 1);
                }
                return Some(i - 1);
            }
            i = i - 1;
        }
        None
    }

    /// Records an MQTT client, replacing the record that has its id.
    pub fn add_mqtt_client(&mut self, client: MqttClientData)
        requires
            old(self).wf(),
        ensures
            final(self).wf(),
            final(self).tcp_records() == old(self).tcp_records(),
            has_mqtt(old(self).mqtt_records(), client.client_id@) ==> final(self).mqtt_records()
                == old(self).mqtt_records().update(
                mqtt_index(old(self).mqtt_records(), client.client_id@),
                client,
            ),
            !has_mqtt(old(self).mqtt_records(), client.client_id@) ==> final(self).mqtt_records()
                == old(self).mqtt_records().push(client),
    {
        match self.find_mqtt(client.client_id.as_str()) {
            Some(i) => {
                self.mqtt.set(i, client);
            },
            None => {
                self.mqtt.push(client);
            },
        }
    }

    /// Records a TCP client, replacing the record that has its MAC address.
    pub fn add_tcp_client(&mut self, client: TcpClient)
        requires
            old(self).wf(),
        ensures
            final(self).wf(),
            final(self).mqtt_records() == old(self).mqtt_records(),
            has_tcp(old(self).tcp_records(), client.mac@) ==> final(self).tcp_records()
                == old(self).tcp_records().update(tcp_index(old(self).tcp_records(), client.mac@), client),
            !has_tcp(old(self).tcp_records(), client.mac@) ==> final(self).tcp_records()
                == old(self).tcp_records().push(client),
    {
        match self.find_tcp(client.mac.as_str()) {
            Some(i) => {
                self.tcp.set(i, client);
            },
            None => {
                self.tcp.push(client);
            },
        }
    }

    /// Whether an MQTT client with this id is in the fleet.
    pub fn contains_mqtt(&self, id: &str) -> (r: bool)
        requires
            self.wf(),
        ensures
            r == has_mqtt(self.mqtt_records(), id@),
    {
        self.find_mqtt(id).is_some()
    }

    /// A copy of the MQTT client with this id.
    pub fn get_mqtt_client(&self, id: &str) -> (r: Option<MqttClientData>)
        requires
            self.wf(),
        ensures
            !has_mqtt(self.mqtt_records(), id@) ==> r is None,
            has_mqtt(self.mqtt_records(), id@) ==> (r matches Some(c) && same_mqtt_record(
                c,
                self.mqtt_records()[mqtt_index(self.mqtt_records(), id@)],
            )),
    {
        match self.find_mqtt(id) {
            Some(i) => Some(self.mqtt[i].duplicate()),
            None => None,
        }
    }

    /// The connection state of the MQTT client with this id.
    pub fn mqtt_state(&self, id: &str) -> (r: Option<ConnectionState>)
        requires
            self.wf(),
        ensures
            r == mqtt_state_of(self.mqtt_records(), id@),
    {
        match self.find_mqtt(id) {
            Some(i) => Some(self.mqtt[i].connection_state),
            None => None,
        }
    }

    /// The connection state of the TCP client with this MAC address.
    pub fn tcp_state(&self, mac: &str) -> (r: Option<ConnectionState>)
        requires
            self.wf(),
        ensures
            r == tcp_state_of(self.tcp_records(), mac@),
    {
        match self.find_tcp(mac) {
            Some(i) => Some(self.tcp[i].connection_state),
            None => None,
        }
    }

    /// Sets the connection state of the MQTT client with this id; false when
    /// there is no such client, and then nothing changes.
    pub fn set_mqtt_state(&mut self, id: &str, state: ConnectionState) -> (r: bool)
        requires
            old(self).wf(),
        ensures
            final(self).wf(),
            r == has_mqtt(old(self).mqtt_records(), id@),
            final(self).tcp_records() == old(self).tcp_records(),
            r ==> final(self).mqtt_records() == old(self).mqtt_records().update(
                mqtt_index(old(self).mqtt_records(), id@),
                with_state(old(self).mqtt_records()[mqtt_index(old(self).mqtt_records(), id@)], state),
            ),
            !r ==> final(self).mqtt_records() == old(self).mqtt_records(),
    {
        match self.find_mqtt(id) {
            Some(i) => {
                let mut rec = self.mqtt.remove(i);
                rec.connection_state = state;
                self.mqtt.insert(i, rec);
                proof {
                    assert(self.mqtt@ =~= old(self).mqtt@.update(i as int, with_state(old(self).mqtt@[i as int], state)));
                }
                true
            },
            None => false,
        }
    }

    /// Sets the connection state of the TCP client with this MAC address;
    /// false when there is no such client, and then nothing changes.
    pub fn set_tcp_state(&mut self, mac: &str, state: ConnectionState) -> (r: bool)
        requires
            old(self).wf(),
        ensures
            final(self).wf(),
            r == has_tcp(old(self).tcp_records(), mac@),
            final(self).mqtt_records() == old(self).mqtt_records(),
            r ==> final(self).tcp_records() == old(self).tcp_records().update(
                tcp_index(old(self).tcp_records(), mac@),
                TcpClient { connection_state: state, ..old(self).tcp_records()[tcp_index(old(self).tcp_records(), mac@)] },
            ),
            !r ==> final(self).tcp_records() == old(self).tcp_records(),
    {
        match self.find_tcp(mac) {
            Some(i) => {
                let mut rec = self.tcp.remove(i);
                rec.connection_state = state;
                self.tcp.insert(i, rec);
                proof {
                    assert(self.tcp@ =~= old(self).tcp@.update(
                        i as int,
                        TcpClient { connection_state: state, ..old(self).tcp@[i as int] },
                    ));
                }
                true
            },
            None => false,
        }
    }

    /// Gives the MQTT client with this id its device key; false when there is
    /// no such client, and then nothing changes.
    pub fn set_device_key(&mut self, id: &str, key: String) -> (r: bool)
        requires
            old(self).wf(),
        ensures
            final(self).wf(),
            r == has_mqtt(old(self).mqtt_records(), id@),
            final(self).tcp_records() == old(self).tcp_records(),
            r ==> final(self).mqtt_records() == old(self).mqtt_records().update(
                mqtt_index(old(self).mqtt_records(), id@),
                with_device_key(old(self).mqtt_records()[mqtt_index(old(self).mqtt_records(), id@)], key),
            ),
            !r ==> final(self).mqtt_records() == old(self).mqtt_records(),
    {
        match self.find_mqtt(id) {
            Some(i) => {
                let mut rec = self.mqtt.remove(i);
                let ghost before = rec;
                rec.device_key = key;
                self.mqtt.insert(i, rec);
                proof {
                    assert(self.mqtt@ =~= old(self).mqtt@.update(i as int, with_device_key(before, key)));
                }
                true
            },
            None => false,
        }
    }

    /// Claims the one disconnect of the MQTT client with this id: true for
    /// the first caller only; false too when there is no such client.
    pub fn claim_disconnect(&mut self, id: &str) -> (r: bool)
        requires
            old(self).wf(),
        ensures
            final(self).wf(),
            final(self).tcp_records() == old(self).tcp_records(),
            !has_mqtt(old(self).mqtt_records(), id@) ==> !r && final(self).mqtt_records() == old(
                self,
            ).mqtt_records(),
            has_mqtt(old(self).mqtt_records(), id@) ==> {
                let i = mqtt_index(old(self).mqtt_records(), id@);
                &&& r == !old(self).mqtt_records()[i].disconnecting
                &&& final(self).mqtt_records() == old(self).mqtt_records().update(
                    i,
                    with_disconnecting(old(self).mqtt_records()[i]),
                )
            },
    {
        match self.find_mqtt(id) {
            Some(i) => {
                let mut rec = self.mqtt.remove(i);
                let first = rec.begin_disconnect();
                self.mqtt.insert(i, rec);
                proof {
                    assert(self.mqtt@ =~= old(self).mqtt@.update(i as int, with_disconnecting(old(self).mqtt@[i as int])));
                }
                first
            },
            None => false,
        }
    }

    /// Claims the registration handshake of the MQTT client with this id:
    /// true, and the handshake marked as under way, only when the client is
    /// connected, has no device key and no handshake is under way already.
    pub fn begin_registration(&mut self, id: &str) -> (r: bool)
        requires
            old(self).wf(),
        ensures
            final(self).wf(),
            final(self).tcp_records() == old(self).tcp_records(),
            r == (has_mqtt(old(self).mqtt_records(), id@) && may_register(
                old(self).mqtt_records()[mqtt_index(old(self).mqtt_records(), id@)],
            )),
            r ==> final(self).mqtt_records() == old(self).mqtt_records().update(
                mqtt_index(old(self).mqtt_records(), id@),
                with_registering(old(self).mqtt_records()[mqtt_index(old(self).mqtt_records(), id@)]),
            ),
            !r ==> final(self).mqtt_records() == old(self).mqtt_records(),
    {
        match self.find_mqtt(id) {
            Some(i) => {
                let ok = self.mqtt[i].connection_state == ConnectionState::Connected
                    && self.mqtt[i].device_key.as_str().is_empty() && !self.mqtt[i].registering;
                if !ok {
                    return false;
                }
                let mut rec = self.mqtt.remove(i);
                rec.registering = true;
                self.mqtt.insert(i, rec);
                proof {
                    assert(self.mqtt@ =~= old(self).mqtt@.update(i as int, with_registering(old(self).mqtt@[i as int])));
                }
                true
            },
            None => false,
        }
    }

    /// Ends the registration handshake of the MQTT client with this id with
    /// the device key the broker assigned; false when there is no such
    /// client, and then nothing changes.
    pub fn complete_registration(&mut self, id: &str, key: String) -> (r: bool)
        requires
            old(self).wf(),
        ensures
            final(self).wf(),
            final(self).tcp_records() == old(self).tcp_records(),
            r == has_mqtt(old(self).mqtt_records(), id@),
            r ==> final(self).mqtt_records() == old(self).mqtt_records().update(
                mqtt_index(old(self).mqtt_records(), id@),
                with_registered(old(self).mqtt_records()[mqtt_index(old(self).mqtt_records(), id@)], key),
            ),
            !r ==> final(self).mqtt_records() == old(self).mqtt_records(),
    {
        match self.find_mqtt(id) {
            Some(i) => {
                let mut rec = self.mqtt.remove(i);
                let ghost before = rec;
                rec.device_key = key;
                rec.registering = false;
                self.mqtt.insert(i, rec);
                proof {
                    assert(self.mqtt@ =~= old(self).mqtt@.update(i as int, with_registered(before, key)));
                }
                true
            },
            None => false,
        }
    }

    /// Copies of the MQTT records, in order.
    pub fn get_mqtt_client_list(&self) -> (r: Vec<MqttClientData>)
        ensures
            r@.len() == self.mqtt_records().len(),
            forall|i: int| 0 <= i < r@.len() ==> same_mqtt_record(#[trigger] r@[i], self.mqtt_records()[i]),
    {
        let mut out: Vec<MqttClientData> = Vec::new();
        let mut i: usize = 0;
        while i < self.mqtt.len()
            invariant
                i <= self.mqtt@.len(),
                out@.len() == i,
                forall|j: int| 0 <= j < i ==> same_mqtt_record(#[trigger] out@[j], self.mqtt@[j]),
            decreases self.mqtt@.len() - i,
        {
            out.push(self.mqtt[i].duplicate());
            i = i + 1;
        }
        out
    }

    /// Copies of the TCP records, in order.
    pub fn get_tcp_client_list(&self) -> (r: Vec<TcpClient>)
        ensures
            r@.len() == self.tcp_records().len(),
            forall|i: int|
                0 <= i < r@.len() ==> (#[trigger] r@[i]).mac@ == self.tcp_records()[i].mac@
                    && r@[i].connection_state == self.tcp_records()[i].connection_state,
    {
        let mut out: Vec<TcpClient> = Vec::new();
        let mut i: usize = 0;
        while i < self.tcp.len()
            invariant
                i <= self.tcp@.len(),
                out@.len() == i,
                forall|j: int|
                    0 <= j < i ==> (#[trigger] out@[j]).mac@ == self.tcp@[j].mac@
                        && out@[j].connection_state == self.tcp@[j].connection_state,
            decreases self.tcp@.len() - i,
        {
            out.push(self.tcp[i].duplicate());
            i = i + 1;
        }
        out
    }

    /// The identifiers of the MQTT clients, in order.
    pub fn mqtt_client_ids(&self) -> (r: Vec<String>)
        ensures
            r@.len() == self.mqtt_records().len(),
            forall|i: int| 0 <= i < r@.len() ==> (#[trigger] r@[i])@ == self.mqtt_records()[i].client_id@,
    {
        let mut out: Vec<String> = Vec::new();
        let mut i: usize = 0;
        while i < self.mqtt.len()
            invariant
                i <= self.mqtt@.len(),
                out@.len() == i,
                forall|j: int| 0 <= j < i ==> (#[trigger] out@[j])@ == self.mqtt@[j].client_id@,
            decreases self.mqtt@.len() - i,
        {
            out.push(self.mqtt[i].client_id.clone());
            i = i + 1;
        }
        out
    }

    /// Removes every client of one protocol.
    pub fn clear_clients(&mut self, client_type: Protocol)
        requires
            old(self).wf(),
        ensures
            final(self).wf(),
            client_type == Protocol::Mqtt ==> final(self).mqtt_records().len() == 0
                && final(self).tcp_records() == old(self).tcp_records(),
            client_type == Protocol::Tcp ==> final(self).tcp_records().len() == 0
                && final(self).mqtt_records() == old(self).mqtt_records(),
    {
        match client_type {
            Protocol::Mqtt => self.mqtt.clear(),
            Protocol::Tcp => self.tcp.clear(),
        }
    }

    /// How many of the listed MQTT clients are in each state; `total` is the
    /// length of the list.
    pub fn mqtt_connection_stats(&self, ids: &Vec<String>) -> (r: ConnectionStats)
        requires
            self.wf(),
        ensures
            r.total == ids@.len(),
            r.connected == mqtt_count_in(self.mqtt_records(), ids@, ConnectionState::Connected),
            r.connecting == mqtt_count_in(self.mqtt_records(), ids@, ConnectionState::Connecting),
            r.failed == mqtt_count_in(self.mqtt_records(), ids@, ConnectionState::Failed),
    {
        let mut connected: usize = 0;
        let mut connecting: usize = 0;
        let mut failed: usize = 0;
        let mut i: usize = 0;
        while i < ids.len()
            invariant
                self.wf(),
                i <= ids@.len(),
                connected + connecting + failed <= i,
                connected == mqtt_count_in(self.mqtt@, ids@.subrange(0, i as int), ConnectionState::Connected),
                connecting == mqtt_count_in(self.mqtt@, ids@.subrange(0, i as int), ConnectionState::Connecting),
                failed == mqtt_count_in(self.mqtt@, ids@.subrange(0, i as int), ConnectionState::Failed),
            decreases ids@.len() - i,
        {
            proof {
                assert(ids@.subrange(0, i + 1).drop_last() =~= ids@.subrange(0, i as int));
            }
            match self.mqtt_state(ids[i].as_str()) {
                Some(ConnectionState::Connected) => connected = connected + 1,
                Some(ConnectionState::Connecting) => connecting = connecting + 1,
                Some(ConnectionState::Failed) => failed = failed + 1,
                None => {},
            }
            i = i + 1;
        }
        proof {
            assert(ids@.subrange(0, ids@.len() as int) =~= ids@);
        }
        ConnectionStats { total: ids.len(), connected, connecting, failed }
    }

    /// How many of the listed TCP clients are in each state; `total` is the
    /// length of the list.
    pub fn tcp_connection_stats(&self, macs: &Vec<String>) -> (r: TcpConnectionStats)
        requires
            self.wf(),
        ensures
            r.total == macs@.len(),
            r.connected == tcp_count_in(self.tcp_records(), macs@, ConnectionState::Connected),
            r.connecting == tcp_count_in(self.tcp_records(), macs@, ConnectionState::Connecting),
            r.failed == tcp_count_in(self.tcp_records(), macs@, ConnectionState::Failed),
    {
        let mut connected: usize = 0;
        let mut connecting: usize = 0;
        let mut failed: usize = 0;
        let mut i: usize = 0;
        while i < macs.len()
            invariant
                self.wf(),
                i <= macs@.len(),
                connected + connecting + failed <= i,
                connected == tcp_count_in(self.tcp@, macs@.subrange(0, i as int), ConnectionState::Connected),
                connecting == tcp_count_in(self.tcp@, macs@.subrange(0, i as int), ConnectionState::Connecting),
                failed == tcp_count_in(self.tcp@, macs@.subrange(0, i as int), ConnectionState::Failed),
            decreases macs@.len() - i,
        {
            proof {
                assert(macs@.subrange(0, i + 1).drop_last() =~= macs@.subrange(0, i as int));
            }
            match self.tcp_state(macs[i].as_str()) {
                Some(ConnectionState::Connected) => connected = connected + 1,
                Some(ConnectionState::Connecting) => connecting = connecting + 1,
                Some(ConnectionState::Failed) => failed = failed + 1,
                None => {},
            }
            i = i + 1;
        }
        proof {
            assert(macs@.subrange(0, macs@.len() as int) =~= macs@);
        }
        TcpConnectionStats { total: macs.len(), connected, connecting, failed }
    }
}

} // verus!
