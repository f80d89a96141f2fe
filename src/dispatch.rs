use vstd::prelude::*;

use crate::client::{ConnectionState, MqttClientData};
use crate::fleet::{
    FleetState, has_mqtt, mqtt_ids_unique, mqtt_index, mqtt_state_of, tcp_state_of, with_device_key,
};
use crate::topic::{TopicWrap, identify_topic_of, real_topic_of};

verus! {

// ---------------------------------------------------------------------------
// Worker groups.
// ---------------------------------------------------------------------------

/// The size of the worker groups for `n` clients and `t` groups at most:
/// `n / t` rounded up.
pub open spec fn group_size_of(n: nat, t: nat) -> nat {
    if t == 0 {
        0
    } else {
        ((n + t - 1) as int / t as int) as nat
    }
}

/// The clients of a list of groups, group after group.
pub open spec fn joined(groups: Seq<Vec<String>>) -> Seq<String>
    decreases groups.len(),
{
    if groups.len() == 0 {
        Seq::empty()
    } else {
        joined(groups.drop_last()) + groups.last()@
    }
}

proof fn lemma_group_size_covers(n: nat, t: nat)
    requires
        t >= 1,
    ensures
        n <= group_size_of(n, t) * t,
        n >= 1 ==> group_size_of(n, t) >= 1,
{
    let s = group_size_of(n, t);
    let x = (n + t - 1) as int;
    vstd::arithmetic::div_mod::lemma_fundamental_div_mod(x, t as int);
    vstd::arithmetic::div_mod::lemma_mod_bound(x, t as int);
    assert(x == t * s + x % (t as int));
    assert(n <= s * t) by (nonlinear_arith)
        requires
            x == t * s + x % (t as int),
            x % (t as int) < t,
            x == n + t - 1,
    ;
    if n >= 1 {
        vstd::arithmetic::div_mod::lemma_div_is_ordered(t as int, x, t as int);
        vstd::arithmetic::div_mod::lemma_div_by_self(t as int);
    }
}

/// Splits the clients into consecutive groups of `group_size_of(n,
/// thread_size)`, the last one possibly shorter: no more groups than
/// `thread_size`, none empty, and together the clients in their order.
pub fn partition_clients(ids: Vec<String>, thread_size: usize) -> (r: Vec<Vec<String>>)
    requires
        thread_size >= 1,
    ensures
        joined(r@) == ids@,
        r@.len() <= thread_size,
        forall|g: int| 0 <= g < r@.len() ==> 1 <= (#[trigger] r@[g])@.len() <= group_size_of(ids@.len(), thread_size as nat),
        forall|g: int| 0 <= g < r@.len() - 1 ==> (#[trigger] r@[g])@.len() == group_size_of(ids@.len(), thread_size as nat),
{
    let n = ids.len();
    let size: usize = if n == 0 { 0 } else { (n - 1) / thread_size + 1 };
    proof {
        if n > 0 {
            vstd::arithmetic::div_mod::lemma_div_plus_one((n - 1) as int, thread_size as int);
            assert(thread_size + (n - 1) == n + thread_size - 1);
        } else {
            vstd::arithmetic::div_mod::lemma_basic_div((thread_size - 1) as int, thread_size as int);
        }
        lemma_group_size_covers(n as nat, thread_size as nat);
    }
    let ghost all = ids@;
    let mut groups: Vec<Vec<String>> = Vec::new();
    let mut rest: Vec<String> = ids;
    let mut start: usize = 0;
    while rest.len() > 0
        invariant
            n == all.len(),
            size == group_size_of(n as nat, thread_size as nat),
            n > 0 ==> size >= 1,
            n <= size * thread_size,
            start <= n,
            rest@ == all.subrange(start as int, n as int),
            joined(groups@) == all.subrange(0, start as int),
            start < n ==> start == groups@.len() * size,
            groups@.len() > 0 ==> (groups@.len() - 1) * size < n,
            forall|g: int| 0 <= g < groups@.len() ==> 1 <= (#[trigger] groups@[g])@.len() <= size,
            forall|g: int| 0 <= g < groups@.len() - 1 ==> (#[trigger] groups@[g])@.len() == size,
            start < n ==> forall|g: int| 0 <= g < groups@.len() ==> (#[trigger] groups@[g])@.len() == size,
        decreases n - start,
    {
        let take: usize = if rest.len() > size { size } else { rest.len() };
        let tail = rest.split_off(take);
        let ghost before = groups@;
        let end = start + take;
        proof {
            assert(rest@ =~= all.subrange(start as int, end as int));
            assert(tail@ =~= all.subrange(end as int, n as int));
            assert(all.subrange(0, start as int) + all.subrange(start as int, end as int) =~= all.subrange(0, end as int));
            if end < n {
                assert(take == size);
                assert((before.len() as int) * size == start);
                assert((before.len() as int + 1) * size == (before.len() as int) * size + size) by (nonlinear_arith);
            }
        }
        groups.push(rest);
        proof {
            assert(groups@.drop_last() =~= before);
        }
        rest = tail;
        start = end;
    }
    proof {
        assert(all.subrange(0, n as int) =~= all);
        if groups@.len() > 0 {
            let k = groups@.len() as int;
            assert((k - 1) * size < size * thread_size);
            assert(k - 1 < thread_size) by (nonlinear_arith)
                requires
                    (k - 1) * size < size * thread_size,
                    size >= 1,
            ;
        }
    }
    groups
}

// ---------------------------------------------------------------------------
// One tick of a worker group.
// ---------------------------------------------------------------------------

/// What a worker group does for one of its clients on a tick.
#[derive(Debug, Clone)]
pub enum TickAction {
    /// The client is not connected: nothing is sent.
    Skip,
    /// The client still waits for its device key: the registration
    /// handshake is run again instead of a publish.
    Register,
    /// A payload goes out on this topic.
    Publish { topic: String },
}

/// The topic on which a client publishes: its identify key inserted, when it
/// has one, else its device key.
pub open spec fn publish_topic_of(rec: MqttClientData, wrap: TopicWrap) -> Seq<char> {
    match rec.identify_key {
        Some(k) => identify_topic_of(wrap.publish.topic@, wrap.publish.key_index, k@),
        None => real_topic_of(wrap.publish.topic@, wrap.publish.key_index, Some(rec.device_key@)),
    }
}

/// The action of a tick for the client `id`: skip one that is not connected;
/// with registration on, run the handshake for one without a device key;
/// publish for every other one.
pub open spec fn is_tick_action(
    a: TickAction,
    recs: Seq<MqttClientData>,
    id: Seq<char>,
    enable_register: bool,
    wrap: TopicWrap,
) -> bool {
    if mqtt_state_of(recs, id) == Some(ConnectionState::Connected) {
        let rec = recs[mqtt_index(recs, id)];
        if enable_register && rec.device_key@.len() == 0 {
            a is Register
        } else {
            a matches TickAction::Publish { topic } && topic@ == publish_topic_of(rec, wrap)
        }
    } else {
        a is Skip
    }
}

/// The actions of one tick of a worker group, one per client of the group
/// and in its order.
pub fn plan_mqtt_tick(fleet: &FleetState, group: &Vec<String>, enable_register: bool, wrap: &TopicWrap) -> (r:
    Vec<TickAction>)
    requires
        fleet.wf(),
    ensures
        r@.len() == group@.len(),
        forall|i: int|
            0 <= i < r@.len() ==> is_tick_action(
                #[trigger] r@[i],
                fleet.mqtt_records(),
                group@[i]@,
                enable_register,
                *wrap,
            ),
{
    let mut out: Vec<TickAction> = Vec::new();
    let mut i: usize = 0;
    while i < group.len()
        invariant
            fleet.wf(),
            i <= group@.len(),
            out@.len() == i,
            forall|j: int|
                0 <= j < i ==> is_tick_action(
                    #[trigger] out@[j],
                    fleet.mqtt_records(),
                    group@[j]@,
                    enable_register,
                    *wrap,
                ),
        decreases group@.len() - i,
    {
        let id = group[i].as_str();
        let action = match fleet.get_mqtt_client(id) {
            None => TickAction::Skip,
            Some(rec) => {
                if !rec.is_connected() {
                    TickAction::Skip
                } else if enable_register && rec.device_key.as_str().is_empty() {
                    TickAction::Register
                } else {
                    let topic = match &rec.identify_key {
                        Some(k) => wrap.get_pushlish_real_topic_identify_key(k.clone()),
                        None => wrap.get_publish_real_topic(Some(rec.device_key.as_str())),
                    };
                    TickAction::Publish { topic }
                }
            },
        };
        out.push(action);
        i = i + 1;
    }
    out
}

/// Whether each client of a TCP worker group is sent the payload on a tick:
/// exactly the connected ones.
pub fn plan_tcp_tick(fleet: &FleetState, group: &Vec<String>) -> (r: Vec<bool>)
    requires
        fleet.wf(),
    ensures
        r@.len() == group@.len(),
        forall|i: int|
            0 <= i < r@.len() ==> #[trigger] r@[i] == (tcp_state_of(fleet.tcp_records(), group@[i]@)
                == Some(ConnectionState::Connected)),
{
    let mut out: Vec<bool> = Vec::new();
    let mut i: usize = 0;
    while i < group.len()
        invariant
            fleet.wf(),
            i <= group@.len(),
            out@.len() == i,
            forall|j: int|
                0 <= j < i ==> #[trigger] out@[j] == (tcp_state_of(fleet.tcp_records(), group@[j]@)
                    == Some(ConnectionState::Connected)),
        decreases group@.len() - i,
    {
        let send = match fleet.tcp_state(group[i].as_str()) {
            Some(ConnectionState::Connected) => true,
            _ => false,
        };
        out.push(send);
        i = i + 1;
    }
    out
}

/// Registration gates publishing: with registration on, a tick never
/// publishes for a client without a device key; and once a connected
/// client's device key is set to a non-empty key, the next tick publishes
/// for it.
pub proof fn lemma_registration_gates_publishing(
    recs: Seq<MqttClientData>,
    id: Seq<char>,
    key: String,
    wrap: TopicWrap,
    before: TickAction,
    after: TickAction,
)
    requires
        mqtt_ids_unique(recs),
        is_tick_action(before, recs, id, true, wrap),
        is_tick_action(
            after,
            if has_mqtt(recs, id) {
                recs.update(mqtt_index(recs, id), with_device_key(recs[mqtt_index(recs, id)], key))
            } else {
                recs
            },
            id,
            true,
            wrap,
        ),
    ensures
        has_mqtt(recs, id) && recs[mqtt_index(recs, id)].device_key@.len() == 0 ==> !(before is Publish),
        mqtt_state_of(recs, id) == Some(ConnectionState::Connected) && key@.len() > 0 ==> after is Publish,
{
    if has_mqtt(recs, id) {
        let i = mqtt_index(recs, id);
        let recs2 = recs.update(i, with_device_key(recs[i], key));
        assert(recs2[i].client_id@ == id);
        assert(has_mqtt(recs2, id));
        let j = mqtt_index(recs2, id);
        assert(recs2[j].client_id@ == id);
        if j != i {
            assert(recs[j].client_id@ == recs2[j].client_id@);
        }
        assert(j == i);
    }
}

} // verus!
