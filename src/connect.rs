use vstd::prelude::*;
use vstd::string::*;

use crate::client::{ConnectionState, TcpClient};
use crate::fleet::{
    FleetState, has_mqtt, has_tcp, mqtt_ids_unique, mqtt_index, mqtt_state_of, tcp_index, tcp_state_of,
    with_disconnecting, with_state,
};

verus! {

/// How many times a client's state is polled before it counts as failed.
pub const MAX_CONNECT_POLLS: u32 = 100;

/// The pause between two polls of a client's state, in milliseconds.
pub const CONNECT_POLL_INTERVAL_MS: u64 = 100;

/// What a connection wait does after one poll.
#[derive(Debug, Clone, Copy, PartialEq, Eq, Structural)]
pub enum WaitStep {
    /// The client is connected: the wait is over.
    Connected,
    /// Not yet: pause for the poll interval and poll again.
    Retry,
    /// The budget is spent: the client has been marked failed.
    TimedOut,
}

/// The step that a wait takes after `polls` polls, seeing the state `seen`.
pub open spec fn wait_step_of(polls: nat, seen: Option<ConnectionState>) -> WaitStep {
    if polls >= MAX_CONNECT_POLLS {
        WaitStep::TimedOut
    } else if seen == Some(ConnectionState::Connected) {
        WaitStep::Connected
    } else {
        WaitStep::Retry
    }
}

/// The wait of one client for its connection, one poll at a time; the
/// caller pauses for `CONNECT_POLL_INTERVAL_MS` after each `Retry`.
pub struct ConnectWait {
    polls: u32,
}

impl ConnectWait {
    /// The number of polls that answered `Retry` so far.
    pub closed spec fn polls(&self) -> nat {
        self.polls as nat
    }

    pub fn new() -> (r: Self)
        ensures
            r.polls() == 0,
    {
        ConnectWait { polls: 0 }
    }

    fn step(&mut self, seen: Option<ConnectionState>) -> (r: WaitStep)
        requires
            old(self).polls() <= MAX_CONNECT_POLLS,
        ensures
            r == wait_step_of(old(self).polls(), seen),
            r == WaitStep::Retry ==> final(self).polls() == old(self).polls() + 1,
            r != WaitStep::Retry ==> final(self).polls() == old(self).polls(),
            final(self).polls() <= MAX_CONNECT_POLLS,
    {
        if self.polls >= MAX_CONNECT_POLLS {
            WaitStep::TimedOut
        } else {
            match seen {
                Some(ConnectionState::Connected) => WaitStep::Connected,
                _ => {
                    self.polls = self.polls + 1;
                    WaitStep::Retry
                },
            }
        }
    }

    /// Polls the MQTT client `id`. When the budget is spent the client is
    /// marked failed; otherwise the fleet is left as it is.
    pub fn poll_mqtt(&mut self, fleet: &mut FleetState, id: &str) -> (r: WaitStep)
        requires
            old(self).polls() <= MAX_CONNECT_POLLS,
            old(fleet).wf(),
        ensures
            final(fleet).wf(),
            r == wait_step_of(old(self).polls(), mqtt_state_of(old(fleet).mqtt_records(), id@)),
            r == WaitStep::Retry ==> final(self).polls() == old(self).polls() + 1,
            r != WaitStep::Retry ==> final(self).polls() == old(self).polls(),
            final(self).polls() <= MAX_CONNECT_POLLS,
            final(fleet).tcp_records() == old(fleet).tcp_records(),
            r != WaitStep::TimedOut ==> final(fleet).mqtt_records() == old(fleet).mqtt_records(),
            r == WaitStep::TimedOut && has_mqtt(old(fleet).mqtt_records(), id@) ==> final(fleet).mqtt_records() == old(fleet).mqtt_records().update(
                mqtt_index(old(fleet).mqtt_records(), id@),
                with_state(
                    old(fleet).mqtt_records()[mqtt_index(old(fleet).mqtt_records(), id@)],
                    ConnectionState::Failed,
                ),
            ),
            r == WaitStep::TimedOut && !has_mqtt(old(fleet).mqtt_records(), id@) ==> final(fleet).mqtt_records() == old(fleet).mqtt_records(),
    {
        let seen = fleet.mqtt_state(id);
        let r = self.step(seen);
        if r == WaitStep::TimedOut {
            fleet.set_mqtt_state(id, ConnectionState::Failed);
        }
        r
    }

    /// Polls the TCP client `mac`. When the budget is spent the client is
    /// marked failed; otherwise the fleet is left as it is.
    pub fn poll_tcp(&mut self, fleet: &mut FleetState, mac: &str) -> (r: WaitStep)
        requires
            old(self).polls() <= MAX_CONNECT_POLLS,
            old(fleet).wf(),
        ensures
            final(fleet).wf(),
            r == wait_step_of(old(self).polls(), tcp_state_of(old(fleet).tcp_records(), mac@)),
            r == WaitStep::Retry ==> final(self).polls() == old(self).polls() + 1,
            r != WaitStep::Retry ==> final(self).polls() == old(self).polls(),
            final(self).polls() <= MAX_CONNECT_POLLS,
            final(fleet).mqtt_records() == old(fleet).mqtt_records(),
            r != WaitStep::TimedOut ==> final(fleet).tcp_records() == old(fleet).tcp_records(),
            r == WaitStep::TimedOut && has_tcp(old(fleet).tcp_records(), mac@) ==> final(fleet).tcp_records() == old(fleet).tcp_records().update(
                tcp_index(old(fleet).tcp_records(), mac@),
                TcpClient {
                    connection_state: ConnectionState::Failed,
                    ..old(fleet).tcp_records()[tcp_index(old(fleet).tcp_records(), mac@)]
                },
            ),
            r == WaitStep::TimedOut && !has_tcp(old(fleet).tcp_records(), mac@) ==> final(fleet).tcp_records() == old(fleet).tcp_records(),
    {
        let seen = fleet.tcp_state(mac);
        let r = self.step(seen);
        if r == WaitStep::TimedOut {
            fleet.set_tcp_state(mac, ConnectionState::Failed);
        }
        r
    }
}

/// A wait never answers `Retry` more than `MAX_CONNECT_POLLS` times: each
/// `Retry` takes one poll of the budget, and a wait whose budget is spent
/// times out at its next poll whatever it sees, after which the client is
/// failed. With a pause of `CONNECT_POLL_INTERVAL_MS` after each `Retry`, a
/// client that never connects is given up after ten seconds of pauses.
pub proof fn lemma_wait_ends_within_budget(polls: nat, seen: Option<ConnectionState>)
    ensures
        wait_step_of(polls, seen) == WaitStep::Retry ==> polls + 1 <= MAX_CONNECT_POLLS,
        polls >= MAX_CONNECT_POLLS ==> wait_step_of(polls, seen) == WaitStep::TimedOut,
        MAX_CONNECT_POLLS * CONNECT_POLL_INTERVAL_MS == 10_000,
{
}

// ---------------------------------------------------------------------------
// The event loop of one MQTT connection.
// ---------------------------------------------------------------------------

/// The pause after a transient poll error, in milliseconds.
pub const POLL_BACKOFF_MS: u64 = 2000;

/// What one poll of a connection's event loop brought.
#[derive(Debug, Clone, Copy, PartialEq, Eq, Structural)]
pub enum PollEvent {
    /// The broker acknowledged the connection.
    ConnAck,
    /// Any other event.
    Other,
    /// The poll failed; a fatal failure ends the connection.
    Error { fatal: bool },
}

/// What the event loop does next.
#[derive(Debug, Clone, Copy, PartialEq, Eq, Structural)]
pub enum LoopAction {
    /// Poll again.
    Continue,
    /// Pause for `POLL_BACKOFF_MS`, then poll again.
    BackOff,
    /// Leave the loop; close the connection first when `disconnect` says so.
    Stop { disconnect: bool },
}

/// Handles the outcome of one poll of the event loop of client `id`. A
/// client that is no longer in the fleet ends its loop. An acknowledged
/// connection makes the client connected. A transient error asks for a
/// pause. A fatal error fails the client and ends the loop, closing the
/// connection if no one else has claimed that already.
pub fn on_poll(fleet: &mut FleetState, id: &str, event: PollEvent) -> (r: LoopAction)
    requires
        old(fleet).wf(),
    ensures
        final(fleet).wf(),
        final(fleet).tcp_records() == old(fleet).tcp_records(),
        ({
            let recs = old(fleet).mqtt_records();
            let i = mqtt_index(recs, id@);
            if !has_mqtt(recs, id@) {
                r == (LoopAction::Stop { disconnect: false }) && final(fleet).mqtt_records() == recs
            } else {
                match event {
                    PollEvent::ConnAck => r == LoopAction::Continue && final(fleet).mqtt_records()
                        == recs.update(i, with_state(recs[i], ConnectionState::Connected)),
                    PollEvent::Other => r == LoopAction::Continue && final(fleet).mqtt_records() == recs,
                    PollEvent::Error { fatal } => if fatal {
                        r == (LoopAction::Stop { disconnect: !recs[i].disconnecting })
                            && final(fleet).mqtt_records() == recs.update(
                            i,
                            with_disconnecting(with_state(recs[i], ConnectionState::Failed)),
                        )
                    } else {
                        r == LoopAction::BackOff && final(fleet).mqtt_records() == recs
                    },
                }
            }
        }),
{
    if !fleet.contains_mqtt(id) {
        return LoopAction::Stop { disconnect: false };
    }
    match event {
        PollEvent::ConnAck => {
            fleet.set_mqtt_state(id, ConnectionState::Connected);
            LoopAction::Continue
        },
        PollEvent::Other => LoopAction::Continue,
        PollEvent::Error { fatal } => {
            if fatal {
                let ghost recs = fleet.mqtt_records();
                let ghost i = mqtt_index(recs, id@);
                fleet.set_mqtt_state(id, ConnectionState::Failed);
                proof {
                    let recs2 = fleet.mqtt_records();
                    assert(recs2[i].client_id@ == id@);
                    let j = mqtt_index(recs2, id@);
                    assert(recs2[j].client_id@ == id@);
                    assert(mqtt_ids_unique(recs2));
                    assert(j == i);
                }
                let first = fleet.claim_disconnect(id);
                LoopAction::Stop { disconnect: first }
            } else {
                LoopAction::BackOff
            }
        },
    }
}

// ---------------------------------------------------------------------------
// Broker addresses.
// ---------------------------------------------------------------------------

/// The port used when the broker address names none, or none that parses.
pub const DEFAULT_MQTT_PORT: u16 = 1883;

/// The value of a text of decimal digits, if it is one.
pub open spec fn decimal_value(s: Seq<char>) -> Option<nat>
    decreases s.len(),
{
    if s.len() == 0 {
        None
    } else {
        let c = s.last();
        if '0' <= c && c <= '9' {
            let d = (c as nat - '0' as nat) as nat;
            if s.len() == 1 {
                Some(d)
            } else {
                match decimal_value(s.drop_last()) {
                    Some(v) => Some(10 * v + d),
                    None => None,
                }
            }
        } else {
            None
        }
    }
}

/// The port that a text names: its decimal value when that fits a port,
/// else the default.
pub open spec fn port_of(s: Seq<char>) -> u16 {
    match decimal_value(s) {
        Some(v) => if v <= 65535 {
            v as u16
        } else {
            DEFAULT_MQTT_PORT
        },
        None => DEFAULT_MQTT_PORT,
    }
}

/// The address without a leading `tcp://`.
pub open spec fn without_scheme(b: Seq<char>) -> Seq<char> {
    if b.len() >= 6 && b.subrange(0, 6) == "tcp://"@ {
        b.subrange(6, b.len() as int)
    } else {
        b
    }
}

/// The position of the first `:` of `s`, or its length when it has none.
pub open spec fn first_colon(s: Seq<char>) -> int
    decreases s.len(),
{
    if s.len() == 0 {
        0
    } else if s[0] == ':' {
        0
    } else {
        1 + first_colon(s.drop_first())
    }
}

/// Host and port of a broker address `host:port`, with an optional
/// `tcp://` in front; the port is the default when it is missing or does
/// not parse.
pub open spec fn broker_parts(b: Seq<char>) -> (Seq<char>, u16) {
    let a = without_scheme(b);
    let c = first_colon(a);
    if c < a.len() {
        (a.subrange(0, c), port_of(a.subrange(c + 1, a.len() as int)))
    } else {
        (a, DEFAULT_MQTT_PORT)
    }
}

proof fn lemma_first_colon_bounds(s: Seq<char>)
    ensures
        0 <= first_colon(s) <= s.len(),
        first_colon(s) < s.len() ==> s[first_colon(s)] == ':',
        forall|j: int| 0 <= j < first_colon(s) ==> s[j] != ':',
    decreases s.len(),
{
    if s.len() > 0 && s[0] != ':' {
        lemma_first_colon_bounds(s.drop_first());
        assert forall|j: int| 0 <= j < first_colon(s) implies s[j] != ':' by {
            if j > 0 {
                assert(s[j] == s.drop_first()[j - 1]);
            }
        }
    }
}

proof fn lemma_first_colon_at(s: Seq<char>, i: int)
    requires
        0 <= i <= s.len(),
        forall|j: int| 0 <= j < i ==> s[j] != ':',
        i == s.len() || s[i] == ':',
    ensures
        first_colon(s) == i,
    decreases s.len(),
{
    if s.len() > 0 && i > 0 {
        assert forall|j: int| 0 <= j < i - 1 implies s.drop_first()[j] != ':' by {
            assert(s.drop_first()[j] == s[j + 1]);
        }
        lemma_first_colon_at(s.drop_first(), i - 1);
    }
}

/// The port named by `s`.
fn parse_port(s: &str) -> (r: u16)
    ensures
        r == port_of(s@),
{
    let n = s.unicode_len();
    if n == 0 {
        return DEFAULT_MQTT_PORT;
    }
    let mut value: u32 = 0;
    let mut i: usize = 0;
    while i < n
        invariant
            n == s@.len(),
            0 < n,
            i <= n,
            i > 0 ==> decimal_value(s@.subrange(0, i as int)) == Some(value as nat),
            i == 0 ==> value == 0,
            value <= 65535,
        decreases n - i,
    {
        let c = s.get_char(i);
        let ghost p = s@.subrange(0, i + 1);
        proof {
            assert(p.drop_last() =~= s@.subrange(0, i as int));
            assert(p.last() == c);
        }
        if c < '0' || c > '9' {
            proof {
                lemma_no_value_beyond(s@, i as int + 1);
            }
            return DEFAULT_MQTT_PORT;
        }
        let d = (c as u32) - ('0' as u32);
        let next = value * 10 + d;
        proof {
            assert(d as nat == (c as nat - '0' as nat) as nat);
            if i == 0 {
                assert(decimal_value(p) == Some(d as nat));
            } else {
                assert(decimal_value(p) == Some(10 * (value as nat) + d as nat));
            }
            assert(decimal_value(p) == Some(next as nat));
        }
        if next > 65535 {
            proof {
                lemma_value_grows(s@, i as int + 1, next as nat);
            }
            return DEFAULT_MQTT_PORT;
        }
        value = next;
        i = i + 1;
    }
    proof {
        assert(s@.subrange(0, n as int) =~= s@);
    }
    value as u16
}

/// Digits after a prefix that is no number leave the whole no number.
proof fn lemma_no_value_beyond(s: Seq<char>, m: int)
    requires
        1 <= m <= s.len(),
        decimal_value(s.subrange(0, m)) is None,
    ensures
        decimal_value(s) is None,
    decreases s.len() - m,
{
    if m < s.len() {
        assert(s.subrange(0, m + 1).drop_last() =~= s.subrange(0, m));
        lemma_no_value_beyond(s, m + 1);
    } else {
        assert(s.subrange(0, m) =~= s);
    }
}

/// A prefix whose value is already too large for a port leaves the whole
/// text too large, or no number.
proof fn lemma_value_grows(s: Seq<char>, m: int, v: nat)
    requires
        1 <= m <= s.len(),
        decimal_value(s.subrange(0, m)) == Some(v),
        v > 65535,
    ensures
        port_of(s) == DEFAULT_MQTT_PORT,
    decreases s.len() - m,
{
    if m < s.len() {
        let p = s.subrange(0, m + 1);
        assert(p.drop_last() =~= s.subrange(0, m));
        match decimal_value(p) {
            Some(w) => {
                lemma_value_grows(s, m + 1, w);
            },
            None => {
                lemma_no_value_beyond(s, m + 1);
            },
        }
    } else {
        assert(s.subrange(0, m) =~= s);
    }
}

/// Splits a broker address into host and port.
pub fn parse_broker(broker: &str) -> (r: (String, u16))
    ensures
        r.0@ == broker_parts(broker@).0,
        r.1 == broker_parts(broker@).1,
{
    let n = broker.unicode_len();
    let mut start: usize = 0;
    proof {
        reveal_strlit("tcp://");
    }
    if n >= 6 && same_prefix(broker, "tcp://") {
        start = 6;
    }
    let ghost a = without_scheme(broker@);
    assert(a == broker@.subrange(start as int, n as int));
    let mut i: usize = start;
    while i < n
        invariant
            n == broker@.len(),
            start <= i <= n,
            a == broker@.subrange(start as int, n as int),
            a == without_scheme(broker@),
            forall|j: int| 0 <= j < i - start ==> a[j] != ':',
        decreases n - i,
    {
        if broker.get_char(i) == ':' {
            proof {
                assert(a[i - start] == broker@[i as int]);
                lemma_first_colon_at(a, i - start);
            }
            let host = broker.substring_char(start, i).to_owned();
            let port = parse_port(broker.substring_char(i + 1, n));
            proof {
                assert(host@ =~= a.subrange(0, i - start));
                assert(broker@.subrange(i + 1, n as int) =~= a.subrange(i - start + 1, a.len() as int));
            }
            return (host, port);
        }
        assert(a[i - start] == broker@[i as int]);
        i = i + 1;
    }
    proof {
        lemma_first_colon_at(a, i - start);
    }
    (broker.substring_char(start, n).to_owned(), DEFAULT_MQTT_PORT)
}

/// Whether `s` starts with `p`.
fn same_prefix(s: &str, p: &str) -> (r: bool)
    ensures
        r == (p@.len() <= s@.len() && s@.subrange(0, p@.len() as int) == p@),
{
    let n = p.unicode_len();
    if n > s.unicode_len() {
        return false;
    }
    let mut i: usize = 0;
    while i < n
        invariant
            n == p@.len(),
            n <= s@.len(),
            i <= n,
            s@.subrange(0, i as int) == p@.subrange(0, i as int),
        decreases n - i,
    {
        if s.get_char(i) != p.get_char(i) {
            assert(s@.subrange(0, n as int)[i as int] != p@[i as int]);
            return false;
        }
        assert(s@.subrange(0, i + 1) =~= s@.subrange(0, i as int).push(s@[i as int]));
        assert(p@.subrange(0, i + 1) =~= p@.subrange(0, i as int).push(p@[i as int]));
        i = i + 1;
    }
    assert(p@.subrange(0, n as int) =~= p@);
    true
}

} // verus!
