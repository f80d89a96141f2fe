use vstd::prelude::*;
use vstd::string::*;

use crate::text::same_text;
use crate::topic::{TopicConfig, TopicInfo, is_separator, nth_separator, separator_positions};

verus! {

/// Why a registration handshake cannot run.
#[derive(Debug, Clone, Copy, PartialEq, Eq, Structural)]
pub enum RegistrationError {
    /// Registration is on but no registration topics are configured.
    MissingRegisterTopic,
    /// The registration topics give no topic for the answer.
    MissingAckTopic,
    /// The answer topic names no payload field for the device key.
    MissingExtraKey,
}

/// What a handshake needs: the topic to announce on, the topic on which the
/// answer comes back, and the payload field that carries the device key.
pub struct RegistrationSettings {
    pub announce: TopicInfo,
    pub ack: TopicInfo,
    pub extra_key: String,
}

/// The settings of the handshake from the configured topics; which one is
/// missing, if any.
pub fn registration_settings(topics: &TopicConfig) -> (r: Result<RegistrationSettings, RegistrationError>)
    ensures
        topics.register is None ==> r == Err::<RegistrationSettings, RegistrationError>(
            RegistrationError::MissingRegisterTopic,
        ),
        topics.register is Some && topics.register->Some_0.subscribe is None ==> r == Err::<
            RegistrationSettings,
            RegistrationError,
        >(RegistrationError::MissingAckTopic),
        topics.register is Some && topics.register->Some_0.subscribe is Some
            && topics.register->Some_0.subscribe->Some_0.extra_key is None ==> r == Err::<
            RegistrationSettings,
            RegistrationError,
        >(RegistrationError::MissingExtraKey),
        topics.register is Some && topics.register->Some_0.subscribe is Some
            && topics.register->Some_0.subscribe->Some_0.extra_key is Some ==> ({
            let w = topics.register->Some_0;
            let a = w.subscribe->Some_0;
            &&& r is Ok
            &&& r->Ok_0.announce.topic@ == w.publish.topic@
            &&& r->Ok_0.announce.key_index == w.publish.key_index
            &&& r->Ok_0.announce.qos == w.publish.qos
            &&& r->Ok_0.ack.topic@ == a.topic@
            &&& r->Ok_0.ack.key_index == a.key_index
            &&& r->Ok_0.ack.qos == a.qos
            &&& r->Ok_0.extra_key@ == a.extra_key->Some_0@
        }),
{
    match &topics.register {
        None => Err(RegistrationError::MissingRegisterTopic),
        Some(w) => match &w.subscribe {
            None => Err(RegistrationError::MissingAckTopic),
            Some(a) => match &a.extra_key {
                None => Err(RegistrationError::MissingExtraKey),
                Some(k) => Ok(
                    RegistrationSettings {
                        announce: copy_topic(&w.publish),
                        ack: copy_topic(a),
                        extra_key: k.clone(),
                    },
                ),
            },
        },
    }
}

fn copy_topic(t: &TopicInfo) -> (r: TopicInfo)
    ensures
        r.topic@ == t.topic@,
        r.key_index == t.key_index,
        r.qos == t.qos,
{
    TopicInfo {
        key_index: t.key_index,
        topic: t.topic.clone(),
        extra_key: match &t.extra_key {
            Some(k) => Some(k.clone()),
            None => None,
        },
        qos: t.qos,
    }
}

/// Segment `k` of a topic (counting from zero) and the topic without it, if
/// the topic has that segment and `k` is not zero.
pub open spec fn removed_segment(topic: Seq<char>, k: int) -> Option<(Seq<char>, Seq<char>)> {
    let seps = separator_positions(topic);
    if 1 <= k <= seps.len() {
        let start = seps[k - 1];
        let end = if k < seps.len() {
            seps[k]
        } else {
            topic.len() as int
        };
        Some((topic.subrange(start + 1, end), topic.subrange(0, start) + topic.subrange(end, topic.len() as int)))
    } else {
        None
    }
}

/// The key that an answer topic carries: the segment at the answer
/// pattern's key index, when it is not empty and the topic without it is the
/// pattern exactly.
pub open spec fn ack_key_of(topic: Seq<char>, pattern: Seq<char>, key_index: Option<usize>) -> Option<Seq<char>> {
    match key_index {
        Some(k) => match removed_segment(topic, k as int) {
            Some((seg, rest)) => if rest == pattern && seg.len() > 0 {
                Some(seg)
            } else {
                None
            },
            None => None,
        },
        None => None,
    }
}

/// The client key that an incoming topic carries, if it is an answer on the
/// registration answer topic.
pub fn ack_client_key(topic: &str, ack: &TopicInfo) -> (r: Option<String>)
    ensures
        ack_key_of(topic@, ack.topic@, ack.key_index) is None ==> r is None,
        ack_key_of(topic@, ack.topic@, ack.key_index) matches Some(k) ==> (r matches Some(s) && s@ == k),
{
    let k = match ack.key_index {
        Some(k) => k,
        None => return None,
    };
    let n = topic.unicode_len();
    let start = match nth_separator(topic, k) {
        Some(p) => p,
        None => return None,
    };
    let end = if k < usize::MAX {
        match nth_separator(topic, k + 1) {
            Some(p) => p,
            None => n,
        }
    } else {
        n
    };
    proof {
        let seps = separator_positions(topic@);
        crate::topic::lemma_separators_ordered(topic@);
        if k < seps.len() {
            assert(seps[k - 1] < seps[k as int]);
        }
    }
    let segment = topic.substring_char(start + 1, end).to_owned();
    let mut rest = topic.substring_char(0, start).to_owned();
    rest.append(topic.substring_char(end, n));
    if segment.as_str().unicode_len() > 0 && same_text(rest.as_str(), ack.topic.as_str()) {
        Some(segment)
    } else {
        None
    }
}

/// The separators of two texts put together: those of the first, then those
/// of the second, moved along by the length of the first.
proof fn lemma_separators_concat(a: Seq<char>, b: Seq<char>)
    ensures
        separator_positions(a + b) == separator_positions(a) + separator_positions(b).map_values(
            |x: int| x + a.len(),
        ),
    decreases b.len(),
{
    if b.len() == 0 {
        assert(a + b =~= a);
        assert(separator_positions(b).map_values(|x: int| x + a.len()) =~= Seq::<int>::empty());
    } else {
        lemma_separators_concat(a, b.drop_last());
        assert((a + b).drop_last() =~= a + b.drop_last());
        let sb = separator_positions(b.drop_last()).map_values(|x: int| x + a.len());
        if is_separator(b.last()) {
            assert(separator_positions(b).map_values(|x: int| x + a.len()) =~= sb.push(b.len() - 1 + a.len()));
            assert(separator_positions(a) + sb.push(b.len() - 1 + a.len()) =~= (separator_positions(a)
                + sb).push(b.len() - 1 + a.len()));
        } else {
            assert(separator_positions(b).map_values(|x: int| x + a.len()) =~= sb);
        }
    }
}

/// Each separator position holds a separator.
proof fn lemma_separators_are_separators(s: Seq<char>)
    ensures
        forall|j: int|
            0 <= j < separator_positions(s).len() ==> is_separator(s[#[trigger] separator_positions(s)[j]]),
    decreases s.len(),
{
    if s.len() > 0 {
        lemma_separators_are_separators(s.drop_last());
        crate::topic::lemma_separators_ordered(s.drop_last());
        let prev = separator_positions(s.drop_last());
        let cur = separator_positions(s);
        assert forall|j: int| 0 <= j < cur.len() implies is_separator(s[#[trigger] cur[j]]) by {
            if j < prev.len() {
                assert(cur[j] == prev[j]);
                assert(s[prev[j]] == s.drop_last()[prev[j]]);
            }
        }
    }
}

/// A text without separators has none.
proof fn lemma_no_separators(s: Seq<char>)
    requires
        forall|i: int| 0 <= i < s.len() ==> !is_separator(#[trigger] s[i]),
    ensures
        separator_positions(s).len() == 0,
    decreases s.len(),
{
    if s.len() > 0 {
        lemma_no_separators(s.drop_last());
    }
}

/// A text that starts with a separator has its first separator at zero.
proof fn lemma_leading_separator(s: Seq<char>)
    requires
        s.len() > 0,
        is_separator(s[0]),
    ensures
        separator_positions(s).len() > 0,
        separator_positions(s)[0] == 0,
{
    let one = s.subrange(0, 1);
    let rest = s.subrange(1, s.len() as int);
    assert(one + rest =~= s);
    lemma_separators_concat(one, rest);
    assert(one.drop_last() =~= Seq::<char>::empty());
    reveal_with_fuel(separator_positions, 2);
    assert(separator_positions(one) =~= seq![0int]);
}

/// The text before separator number `k` holds `k - 1` separators, and the
/// text from there on starts with a separator.
proof fn lemma_split_at_separator(pattern: Seq<char>, k: int)
    requires
        1 <= k <= separator_positions(pattern).len(),
    ensures
        ({
            let p = separator_positions(pattern)[k - 1];
            &&& 0 <= p < pattern.len()
            &&& separator_positions(pattern.subrange(0, p)).len() == k - 1
            &&& separator_positions(pattern.subrange(p, pattern.len() as int)).len() > 0
            &&& separator_positions(pattern.subrange(p, pattern.len() as int))[0] == 0
        }),
{
    let seps = separator_positions(pattern);
    let p = seps[k - 1];
    crate::topic::lemma_separators_ordered(pattern);
    lemma_separators_are_separators(pattern);
    let head = pattern.subrange(0, p);
    let tail = pattern.subrange(p, pattern.len() as int);
    assert(head + tail =~= pattern);
    lemma_separators_concat(head, tail);
    assert(tail[0] == pattern[p]);
    lemma_leading_separator(tail);
    let sh = separator_positions(head);
    assert(seps[sh.len() as int] == p);
    if sh.len() < k - 1 {
        assert(seps[sh.len() as int] < seps[k - 1]);
    } else if sh.len() > k - 1 {
        assert(seps[k - 1] < seps[sh.len() as int]);
    }
}

/// A separator followed by a key without separators has one separator, at
/// its start.
proof fn lemma_slash_key(key: Seq<char>)
    requires
        forall|i: int| 0 <= i < key.len() ==> !is_separator(#[trigger] key[i]),
    ensures
        separator_positions(seq!['/'] + key) == seq![0int],
{
    lemma_no_separators(key);
    lemma_separators_concat(seq!['/'], key);
    assert(seq!['/'].drop_last() =~= Seq::<char>::empty());
    reveal_with_fuel(separator_positions, 2);
    assert(separator_positions(seq!['/']) =~= seq![0int]);
    assert(separator_positions(key).map_values(|x: int| x + 1) =~= Seq::<int>::empty());
    assert(separator_positions(seq!['/']) + Seq::<int>::empty() =~= seq![0int]);
}

/// An answer topic made by inserting a key into the answer pattern gives
/// that key back: the broker and the fleet agree on where the key goes.
pub proof fn lemma_ack_key_round_trip(pattern: Seq<char>, k: usize, key: Seq<char>)
    requires
        1 <= k <= separator_positions(pattern).len(),
        key.len() > 0,
        forall|i: int| 0 <= i < key.len() ==> !is_separator(#[trigger] key[i]),
    ensures
        ack_key_of(crate::topic::insert_segment(pattern, k as int, key), pattern, Some(k)) == Some(key),
{
    let seps = separator_positions(pattern);
    let p = seps[k - 1];
    lemma_split_at_separator(pattern, k as int);
    let head = pattern.subrange(0, p);
    let tail = pattern.subrange(p, pattern.len() as int);
    let mid = seq!['/'] + key;
    lemma_slash_key(key);
    let front = head + mid;
    lemma_separators_concat(head, mid);
    let u = front + tail;
    assert(crate::topic::insert_segment(pattern, k as int, key) =~= u);
    lemma_separators_concat(front, tail);
    assert(head + tail =~= pattern);
    lemma_separators_concat(head, tail);
    let su = separator_positions(u);
    assert(separator_positions(front).len() == k);
    assert(su[k - 1] == p);
    assert(su[k as int] == front.len());
    assert(su.len() == seps.len() + 1);
    assert(u.subrange(p + 1, front.len() as int) =~= key);
    assert(u.subrange(0, p) + u.subrange(front.len() as int, u.len() as int) =~= pattern);
}

} // verus!
