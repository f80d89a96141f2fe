use vstd::prelude::*;
use vstd::string::*;

verus! {

/// The character that separates the segments of a topic.
pub open spec fn is_separator(c: char) -> bool {
    c == '/'
}

/// The positions of the separators of `s`, in increasing order.
pub open spec fn separator_positions(s: Seq<char>) -> Seq<int>
    decreases s.len(),
{
    if s.len() == 0 {
        Seq::empty()
    } else {
        let before = separator_positions(s.drop_last());
        if is_separator(s.last()) {
            before.push(s.len() - 1)
        } else {
            before
        }
    }
}

/// The topic with `key` inserted as segment `index`, the segments from
/// `index` on moving one place further: split on the separator, insert, join.
/// A topic with no segment at `index` is kept as it is.
pub open spec fn insert_segment(topic: Seq<char>, index: int, key: Seq<char>) -> Seq<char> {
    let seps = separator_positions(topic);
    if 1 <= index <= seps.len() {
        let p = seps[index - 1];
        topic.subrange(0, p) + seq!['/'] + key + topic.subrange(p, topic.len() as int)
    } else {
        topic
    }
}

/// The real topic for a client: the key inserted at the configured index,
/// unless the index is unset or zero, or the key is missing or empty.
pub open spec fn real_topic_of(topic: Seq<char>, key_index: Option<usize>, key: Option<Seq<char>>) -> Seq<char> {
    match (key_index, key) {
        (Some(i), Some(k)) => if i == 0 || k.len() == 0 {
            topic
        } else {
            insert_segment(topic, i as int, k)
        },
        _ => topic,
    }
}

/// The topic with a client's identify key inserted at the configured index,
/// unless the index is unset or zero or the key is blank.
pub open spec fn identify_topic_of(topic: Seq<char>, key_index: Option<usize>, key: Seq<char>) -> Seq<char> {
    match key_index {
        Some(i) => if i == 0 || key.len() == 0 || is_blank_text(key) {
            topic
        } else {
            insert_segment(topic, i as int, key)
        },
        None => topic,
    }
}

/// The text with its leading and trailing white space taken off.
pub uninterp spec fn trimmed_of(s: Seq<char>) -> Seq<char>;

/// Whether the text holds nothing but white space.
pub open spec fn is_blank_text(s: Seq<char>) -> bool {
    trimmed_of(s).len() == 0
}

/// Relies on str::trim: the text without leading and trailing white space,
/// a function of the characters alone; the empty text stays empty.
#[verifier::external_body]
fn trimmed<'a>(s: &'a str) -> (r: &'a str)
    ensures
        r@ == trimmed_of(s@),
        s@.len() == 0 ==> r@.len() == 0,
{
    s.trim()
}

/// Whether the text is blank: nothing is left once white space is trimmed.
fn is_blank(s: &str) -> (r: bool)
    ensures
        r == is_blank_text(s@),
        s@.len() == 0 ==> r,
{
    trimmed(s).is_empty()
}

pub(crate) proof fn lemma_separator_positions_step(s: Seq<char>, i: int)
    requires
        0 <= i < s.len(),
    ensures
        separator_positions(s.subrange(0, i + 1)) == if is_separator(s[i]) {
            separator_positions(s.subrange(0, i)).push(i)
        } else {
            separator_positions(s.subrange(0, i))
        },
{
    assert(s.subrange(0, i + 1).drop_last() =~= s.subrange(0, i));
}

/// Inserts `key` as segment `index` of `topic` (see `insert_segment`).
fn insert_key_segment(topic: &str, index: usize, key: &str) -> (r: String)
    ensures
        r@ == insert_segment(topic@, index as int, key@),
{
    let n = topic.unicode_len();
    if index == 0 {
        return topic.to_owned();
    }
    let mut count: usize = 0;
    let mut i: usize = 0;
    while i < n
        invariant
            n == topic@.len(),
            i <= n,
            count == separator_positions(topic@.subrange(0, i as int)).len(),
            count < index,
        decreases n - i,
    {
        proof {
            lemma_separator_positions_step(topic@, i as int);
        }
        let c = topic.get_char(i);
        if c == '/' {
            count = count + 1;
            if count == index {
                proof {
                    let s = topic@;
                    let whole = separator_positions(s);
                    lemma_prefix_positions(s, i as int + 1);
                    assert(whole[index - 1] == i);
                }
                let mut r = topic.substring_char(0, i).to_owned();
                r.append("/");
                r.append(key);
                r.append(topic.substring_char(i, n));
                proof {
                    reveal_strlit("/");
                }
                return r;
            }
        }
        i = i + 1;
    }
    proof {
        assert(topic@.subrange(0, n as int) =~= topic@);
    }
    topic.to_owned()
}

/// The separators of a prefix are the first separators of the whole text.
pub(crate) proof fn lemma_prefix_positions(s: Seq<char>, m: int)
    requires
        0 <= m <= s.len(),
    ensures
        separator_positions(s.subrange(0, m)).len() <= separator_positions(s).len(),
        forall|j: int|
            0 <= j < separator_positions(s.subrange(0, m)).len() ==> #[trigger] separator_positions(
                s,
            )[j] == separator_positions(s.subrange(0, m))[j],
    decreases s.len() - m,
{
    if m < s.len() {
        lemma_prefix_positions(s, m + 1);
        lemma_separator_positions_step(s, m);
    } else {
        assert(s.subrange(0, m) =~= s);
    }
}

/// Separator positions lie inside the text, in increasing order.
pub(crate) proof fn lemma_separators_ordered(s: Seq<char>)
    ensures
        forall|i: int| 0 <= i < separator_positions(s).len() ==> 0 <= #[trigger] separator_positions(s)[i] < s.len(),
        forall|i: int, j: int|
            0 <= i < j < separator_positions(s).len() ==> separator_positions(s)[i] < separator_positions(s)[j],
        separator_positions(s).len() <= s.len(),
    decreases s.len(),
{
    if s.len() > 0 {
        let prev = separator_positions(s.drop_last());
        lemma_separators_ordered(s.drop_last());
        let cur = separator_positions(s);
        assert forall|i: int| 0 <= i < cur.len() implies 0 <= #[trigger] cur[i] < s.len() by {
            if i < prev.len() {
                assert(cur[i] == prev[i]);
            }
        }
        assert forall|i: int, j: int| 0 <= i < j < cur.len() implies cur[i] < cur[j] by {
            assert(cur[i] == prev[i]);
            if j < prev.len() {
                assert(cur[j] == prev[j]);
            } else {
                assert(cur[j] == s.len() - 1);
                assert(prev[i] < s.drop_last().len());
            }
        }
    }
}

/// The position of separator number `k` of `topic` (counting from one), if
/// it has that many.
pub(crate) fn nth_separator(topic: &str, k: usize) -> (r: Option<usize>)
    ensures
        1 <= k <= separator_positions(topic@).len() ==> r == Some(separator_positions(topic@)[k - 1] as usize),
        !(1 <= k <= separator_positions(topic@).len()) ==> r is None,
{
    let n = topic.unicode_len();
    if k == 0 {
        return None;
    }
    let mut count: usize = 0;
    let mut i: usize = 0;
    while i < n
        invariant
            n == topic@.len(),
            i <= n,
            count == separator_positions(topic@.subrange(0, i as int)).len(),
            count < k,
        decreases n - i,
    {
        proof {
            lemma_separator_positions_step(topic@, i as int);
        }
        if topic.get_char(i) == '/' {
            count = count + 1;
            if count == k {
                proof {
                    lemma_prefix_positions(topic@, i as int + 1);
                }
                return Some(i);
            }
        }
        i = i + 1;
    }
    proof {
        assert(topic@.subrange(0, n as int) =~= topic@);
    }
    None
}

/// One publish or subscribe topic: its pattern, the index at which a
/// client's key is inserted, the payload field that carries a registration
/// answer, and its quality of service.
#[derive(Debug, Clone)]
pub struct TopicInfo {
    pub key_index: Option<usize>,
    pub topic: String,
    pub extra_key: Option<String>,
    pub qos: i32,
}

/// The quality of service of a topic that does not give one.
pub fn default_qos() -> (r: i32)
    ensures
        r == 0,
{
    0
}

/// MQTT delivery guarantees.
#[derive(Debug, Clone, Copy, PartialEq, Eq, Structural)]
pub enum QosLevel {
    AtMostOnce,
    AtLeastOnce,
    ExactlyOnce,
}

/// The delivery guarantee that a configured number stands for; an unknown
/// number means at most once.
pub open spec fn qos_level_of(q: i32) -> QosLevel {
    if q == 1 {
        QosLevel::AtLeastOnce
    } else if q == 2 {
        QosLevel::ExactlyOnce
    } else {
        QosLevel::AtMostOnce
    }
}

fn qos_level(q: i32) -> (r: QosLevel)
    ensures
        r == qos_level_of(q),
{
    if q == 1 {
        QosLevel::AtLeastOnce
    } else if q == 2 {
        QosLevel::ExactlyOnce
    } else {
        QosLevel::AtMostOnce
    }
}

impl TopicInfo {
    pub fn get_topic(&self) -> (r: &str)
        ensures
            r@ == self.topic@,
    {
        self.topic.as_str()
    }

    pub fn get_qos(&self) -> (r: i32)
        ensures
            r == self.qos,
    {
        self.qos
    }
}

/// A publish topic and, optionally, the topic on which answers come back.
#[derive(Debug, Clone)]
pub struct TopicWrap {
    pub publish: TopicInfo,
    pub subscribe: Option<TopicInfo>,
}

impl TopicWrap {
    pub fn is_exist_subscribe(&self) -> (r: bool)
        ensures
            r == self.subscribe.is_some(),
    {
        self.subscribe.is_some()
    }

    pub fn get_publish_topic(&self) -> (r: &str)
        ensures
            r@ == self.publish.topic@,
    {
        self.publish.get_topic()
    }

    pub fn get_subscribe_topic(&self) -> (r: Option<&str>)
        ensures
            self.subscribe is None ==> r is None,
            self.subscribe matches Some(s) ==> (r matches Some(t) && t@ == s.topic@),
    {
        match &self.subscribe {
            Some(s) => Some(s.get_topic()),
            None => None,
        }
    }

    pub fn get_publish_qos(&self) -> (r: QosLevel)
        ensures
            r == qos_level_of(self.publish.qos),
    {
        qos_level(self.publish.qos)
    }

    /// The delivery guarantee of the subscribe topic; at most once when
    /// there is none.
    pub fn get_subscribe_qos(&self) -> (r: QosLevel)
        ensures
            self.subscribe is Some ==> r == qos_level_of(self.subscribe->Some_0.qos),
            self.subscribe is None ==> r == QosLevel::AtMostOnce,
    {
        match &self.subscribe {
            Some(s) => qos_level(s.qos),
            None => QosLevel::AtMostOnce,
        }
    }

    /// The publish topic with the client's key inserted.
    pub fn get_publish_real_topic(&self, key_value: Option<&str>) -> (r: String)
        ensures
            r@ == real_topic_of(
                self.publish.topic@,
                self.publish.key_index,
                match key_value {
                    Some(k) => Some(k@),
                    None => None,
                },
            ),
    {
        wrap_real_topic(&self.publish, key_value)
    }

    /// The publish topic with a client's identify key inserted; a blank key
    /// leaves the topic as it is.
    pub fn get_pushlish_real_topic_identify_key(&self, identify_key: String) -> (r: String)
        ensures
            r@ == identify_topic_of(self.publish.topic@, self.publish.key_index, identify_key@),
    {
        let topic = &self.publish;
        match topic.key_index {
            None => topic.topic.as_str().to_owned(),
            Some(index) => {
                if index == 0 || is_blank(identify_key.as_str()) {
                    topic.topic.as_str().to_owned()
                } else {
                    insert_key_segment(topic.topic.as_str(), index, identify_key.as_str())
                }
            },
        }
    }

    /// The subscribe topic with the client's key inserted; the empty text
    /// when there is no subscribe topic.
    pub fn get_subscribe_real_topic(&self, key_value: Option<&str>) -> (r: String)
        ensures
            self.subscribe is None ==> r@.len() == 0,
            self.subscribe matches Some(s) ==> r@ == real_topic_of(
                s.topic@,
                s.key_index,
                match key_value {
                    Some(k) => Some(k@),
                    None => None,
                },
            ),
    {
        match &self.subscribe {
            Some(s) => wrap_real_topic(s, key_value),
            None => String::new(),
        }
    }
}

/// The topic of `topic` with the client's key inserted at its key index.
pub fn wrap_real_topic(topic: &TopicInfo, key_value: Option<&str>) -> (r: String)
    ensures
        r@ == real_topic_of(
            topic.topic@,
            topic.key_index,
            match key_value {
                Some(k) => Some(k@),
                None => None,
            },
        ),
{
    match (topic.key_index, key_value) {
        (Some(index), Some(key)) => {
            if index == 0 || key.unicode_len() == 0 {
                topic.topic.as_str().to_owned()
            } else {
                insert_key_segment(topic.topic.as_str(), index, key)
            }
        },
        _ => topic.topic.as_str().to_owned(),
    }
}

/// The topics of a run: registration and data.
#[derive(Debug, Clone)]
pub struct TopicConfig {
    pub register: Option<TopicWrap>,
    pub data: Option<TopicWrap>,
}

impl TopicConfig {
    pub fn get_register_topic(&self) -> (r: Option<&str>)
        ensures
            self.register is None ==> r is None,
            self.register matches Some(w) ==> (r matches Some(t) && t@ == w.publish.topic@),
    {
        match &self.register {
            Some(w) => Some(w.get_publish_topic()),
            None => None,
        }
    }
}

impl Default for TopicConfig {
    /// Registration on `/pub/register`, answered on `/sub/register/ack` with
    /// the key at index 2; data on `/pub/long_freq/data` with the key at
    /// index 2.
    fn default() -> (r: Self)
        ensures
            r.register is Some,
            r.register->Some_0.publish.topic@ == "/pub/register"@,
            r.register->Some_0.publish.key_index is None,
            r.register->Some_0.subscribe is Some,
            r.register->Some_0.subscribe->Some_0.topic@ == "/sub/register/ack"@,
            r.register->Some_0.subscribe->Some_0.key_index == Some(2usize),
            r.register->Some_0.publish.qos == 0,
            r.register->Some_0.publish.extra_key is None,
            r.register->Some_0.subscribe->Some_0.qos == 0,
            r.register->Some_0.subscribe->Some_0.extra_key is None,
            r.data is Some,
            r.data->Some_0.publish.topic@ == "/pub/long_freq/data"@,
            r.data->Some_0.publish.key_index == Some(2usize),
            r.data->Some_0.subscribe is None,
            r.data->Some_0.publish.qos == 0,
            r.data->Some_0.publish.extra_key is None,
    {
        TopicConfig {
            register: Some(
                TopicWrap {
                    publish: TopicInfo {
                        key_index: None,
                        topic: "/pub/register".to_owned(),
                        extra_key: None,
                        qos: default_qos(),
                    },
                    subscribe: Some(
                        TopicInfo {
                            key_index: Some(2),
                            topic: "/sub/register/ack".to_owned(),
                            extra_key: None,
                            qos: default_qos(),
                        },
                    ),
                },
            ),
            data: Some(
                TopicWrap {
                    publish: TopicInfo {
                        key_index: Some(2),
                        topic: "/pub/long_freq/data".to_owned(),
                        extra_key: None,
                        qos: default_qos(),
                    },
                    subscribe: None,
                },
            ),
        }
    }
}

} // verus!
