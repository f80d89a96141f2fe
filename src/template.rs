use vstd::prelude::*;

use rand::Rng;

verus! {

// ---------------------------------------------------------------------------
// Values of a payload.
// ---------------------------------------------------------------------------

/// A JSON value as the payload templates hold it. Numbers that the
/// templates give are kept as written; numbers that templating draws are
/// integers, or decimals held in thousandths.
#[derive(Debug)]
pub enum JsonValue {
    Null,
    Bool(bool),
    Int(i64),
    /// A decimal number, in thousandths.
    Milli(i64),
    /// A number as it was written.
    Number(String),
    Str(String),
    Array(Vec<JsonValue>),
    Object(Vec<(String, JsonValue)>),
    /// Any JSON value, as JSON text.
    Raw(String),
}

/// A value that a table of possible values can hold: a scalar, or any other
/// JSON value as its text.
#[derive(Debug, Clone)]
pub enum ScalarValue {
    Null,
    Bool(bool),
    Int(i64),
    Milli(i64),
    Number(String),
    Str(String),
    /// Any other JSON value, as JSON text.
    Raw(String),
}

/// A payload value that is a copy of a table value.
pub open spec fn copies_scalar(v: JsonValue, s: ScalarValue) -> bool {
    match s {
        ScalarValue::Null => v is Null,
        ScalarValue::Bool(b) => v == JsonValue::Bool(b),
        ScalarValue::Int(x) => v == JsonValue::Int(x),
        ScalarValue::Milli(x) => v == JsonValue::Milli(x),
        ScalarValue::Number(t) => v matches JsonValue::Number(u) && u@ == t@,
        ScalarValue::Str(t) => v matches JsonValue::Str(u) && u@ == t@,
        ScalarValue::Raw(t) => v matches JsonValue::Raw(u) && u@ == t@,
    }
}

impl ScalarValue {
    /// The payload value that this table value stands for.
    pub fn to_json(&self) -> (r: JsonValue)
        ensures
            copies_scalar(r, *self),
    {
        match self {
            ScalarValue::Null => JsonValue::Null,
            ScalarValue::Bool(b) => JsonValue::Bool(*b),
            ScalarValue::Int(x) => JsonValue::Int(*x),
            ScalarValue::Milli(x) => JsonValue::Milli(*x),
            ScalarValue::Number(t) => JsonValue::Number(t.clone()),
            ScalarValue::Str(t) => JsonValue::Str(t.clone()),
            ScalarValue::Raw(t) => JsonValue::Raw(t.clone()),
        }
    }
}

// ---------------------------------------------------------------------------
// Weighted choice.
// ---------------------------------------------------------------------------

/// The sum of the first `n` weights.
pub open spec fn weight_prefix(ws: Seq<u64>, n: int) -> nat
    decreases n,
{
    if n <= 0 {
        0
    } else {
        (weight_prefix(ws, n - 1) + ws[n - 1]) as nat
    }
}

/// The sum of all weights.
pub open spec fn weight_total(ws: Seq<u64>) -> nat {
    weight_prefix(ws, ws.len() as int)
}

/// The bucket that a draw in `[0, total)` falls into: the first index whose
/// running sum of weights passes the draw.
pub open spec fn is_pick(ws: Seq<u64>, draw: nat, i: int) -> bool {
    0 <= i < ws.len() && weight_prefix(ws, i) <= draw < weight_prefix(ws, i + 1)
}

proof fn lemma_prefix_monotone(ws: Seq<u64>, a: int, b: int)
    requires
        0 <= a <= b <= ws.len(),
    ensures
        weight_prefix(ws, a) <= weight_prefix(ws, b),
    decreases b - a,
{
    if a < b {
        lemma_prefix_monotone(ws, a, b - 1);
    }
}

/// The bucket of a draw under the given weights: the first whose running sum
/// passes the draw, or none when the draw is not below the total. A value of
/// weight zero is never picked.
pub fn pick_weighted(weights: &Vec<u64>, draw: u64) -> (r: Option<usize>)
    requires
        weight_total(weights@) <= u64::MAX,
    ensures
        draw < weight_total(weights@) ==> (r matches Some(i) && is_pick(weights@, draw as nat, i as int)),
        draw >= weight_total(weights@) ==> r is None,
{
    let n = weights.len();
    let mut sum: u64 = 0;
    let mut i: usize = 0;
    while i < n
        invariant
            n == weights@.len(),
            i <= n,
            sum == weight_prefix(weights@, i as int),
            draw >= sum,
            weight_total(weights@) <= u64::MAX,
        decreases n - i,
    {
        proof {
            lemma_prefix_monotone(weights@, i as int + 1, n as int);
        }
        let next = sum + weights[i];
        if draw < next {
            return Some(i);
        }
        sum = next;
        i = i + 1;
    }
    None
}

/// With weights `[0, w]` and `w > 0`, every draw below the total picks the
/// second value.
pub proof fn lemma_zero_weight_never_picked(w: u64, draw: nat)
    requires
        w > 0,
        draw < weight_total(seq![0u64, w]),
    ensures
        is_pick(seq![0u64, w], draw, 1),
        !is_pick(seq![0u64, w], draw, 0),
{
    let ws = seq![0u64, w];
    assert(weight_prefix(ws, 0) == 0);
    assert(weight_prefix(ws, 1) == 0);
    assert(weight_prefix(ws, 2) == w);
}

// ---------------------------------------------------------------------------
// Field rules.
// ---------------------------------------------------------------------------

/// The kinds of field that a rule can fill.
#[derive(Debug, Clone, Copy, PartialEq, Eq, Structural)]
pub enum FieldType {
    Timestamp,
    String,
    Integer,
    Float,
    Boolean,
    DateTime,
    Date,
    Time,
    Enum,
    Array,
    Object,
    Null,
    Unknown,
}

/// One value of a weighted table, with its weight in millionths.
#[derive(Debug, Clone)]
pub struct PossibleValue {
    pub value: ScalarValue,
    pub weight: u64,
}

/// How one field of a payload is filled: its name and kind, the bounds of a
/// random number (for Float rules in thousandths), a weighted table of
/// values, and the rules of the fields of a nested object.
#[derive(Debug)]
pub struct MqttFieldStruct {
    pub field_name: String,
    pub field_type: FieldType,
    pub min_value: Option<i64>,
    pub max_value: Option<i64>,
    pub possible_values: Option<Vec<PossibleValue>>,
    pub child: Option<Vec<MqttFieldStruct>>,
}

/// A payload template and the rules that fill it.
#[derive(Debug)]
pub struct MqttSendData {
    pub data: JsonValue,
    pub fields: Vec<MqttFieldStruct>,
}

impl MqttSendData {
    pub fn get_data(&self) -> (r: &JsonValue)
        ensures
            *r == self.data,
    {
        &self.data
    }

    pub fn set_fields(&mut self, fields: Vec<MqttFieldStruct>)
        ensures
            final(self).fields == fields,
            final(self).data == old(self).data,
    {
        self.fields = fields;
    }
}

// ---------------------------------------------------------------------------
// Object fields.
// ---------------------------------------------------------------------------

/// The position of the first entry with this key, or the number of entries.
pub open spec fn entry_pos(es: Seq<(String, JsonValue)>, key: Seq<char>) -> int
    decreases es.len(),
{
    if es.len() == 0 {
        0
    } else if es[0].0@ == key {
        0
    } else {
        1 + entry_pos(es.drop_first(), key)
    }
}

/// `after` is `before` with the field `key` set to `v`: in an object the
/// first entry with that key takes the value, or a new entry goes at the
/// end; anything but an object is left as it is.
pub open spec fn is_field_set(before: JsonValue, after: JsonValue, key: Seq<char>, v: JsonValue) -> bool {
    match before {
        JsonValue::Object(es) => {
            let p = entry_pos(es@, key);
            after matches JsonValue::Object(es2) && if p < es@.len() {
                es2@ == es@.update(p, (es@[p].0, v))
            } else {
                es2@.len() == es@.len() + 1 && es2@.subrange(0, es@.len() as int) == es@
                    && es2@.last().0@ == key && es2@.last().1 == v
            }
        },
        _ => after == before,
    }
}

proof fn lemma_entry_pos_bounds(es: Seq<(String, JsonValue)>, key: Seq<char>)
    ensures
        0 <= entry_pos(es, key) <= es.len(),
        entry_pos(es, key) < es.len() ==> es[entry_pos(es, key)].0@ == key,
        forall|j: int| 0 <= j < entry_pos(es, key) ==> es[j].0@ != key,
    decreases es.len(),
{
    if es.len() > 0 && es[0].0@ != key {
        lemma_entry_pos_bounds(es.drop_first(), key);
        assert forall|j: int| 0 <= j < entry_pos(es, key) implies es[j].0@ != key by {
            if j > 0 {
                assert(es[j] == es.drop_first()[j - 1]);
            }
        }
    }
}

proof fn lemma_entry_pos_at(es: Seq<(String, JsonValue)>, key: Seq<char>, i: int)
    requires
        0 <= i <= es.len(),
        forall|j: int| 0 <= j < i ==> es[j].0@ != key,
        i == es.len() || es[i].0@ == key,
    ensures
        entry_pos(es, key) == i,
    decreases es.len(),
{
    if es.len() > 0 && i > 0 {
        assert forall|j: int| 0 <= j < i - 1 implies es.drop_first()[j].0@ != key by {
            assert(es.drop_first()[j] == es[j + 1]);
        }
        lemma_entry_pos_at(es.drop_first(), key, i - 1);
    }
}

/// The position of the entry with this key among object entries.
fn find_entry(es: &Vec<(String, JsonValue)>, key: &str) -> (r: usize)
    ensures
        r == entry_pos(es@, key@),
{
    let mut i: usize = 0;
    while i < es.len()
        invariant
            i <= es@.len(),
            forall|j: int| 0 <= j < i ==> es@[j].0@ != key@,
        decreases es@.len() - i,
    {
        if crate::text::same_text(es[i].0.as_str(), key) {
            proof {
                lemma_entry_pos_at(es@, key@, i as int);
            }
            return i;
        }
        i = i + 1;
    }
    proof {
        lemma_entry_pos_at(es@, key@, i as int);
    }
    i
}

/// Sets a field of an object; anything but an object is left as it is.
pub fn set_field_value(data: &mut JsonValue, field_name: &str, value: JsonValue)
    ensures
        is_field_set(*old(data), *final(data), field_name@, value),
{
    match data {
        JsonValue::Object(es) => {
            let p = find_entry(es, field_name);
            if p < es.len() {
                let (k, _) = es.remove(p);
                es.insert(p, (k, value));
                proof {
                    assert(es@ =~= old(data)->Object_0@.update(p as int, (old(data)->Object_0@[p as int].0, value)));
                }
            } else {
                es.push((field_name.to_owned(), value));
                proof {
                    assert(es@.subrange(0, es@.len() - 1) =~= old(data)->Object_0@);
                }
            }
        },
        _ => {},
    }
}

/// Whether the value is an object with a field of this name.
pub fn has_field(data: &JsonValue, field_name: &str) -> (r: bool)
    ensures
        r == (data matches JsonValue::Object(es) && entry_pos(es@, field_name@) < es@.len()),
{
    match data {
        JsonValue::Object(es) => find_entry(es, field_name) < es.len(),
        _ => false,
    }
}

/// The value of the field of this name, when `data` is an object that has
/// one (the first such entry).
pub fn field_value<'a>(data: &'a JsonValue, field_name: &str) -> (r: Option<&'a JsonValue>)
    ensures
        ({
            match *data {
                JsonValue::Object(es) => {
                    let p = entry_pos(es@, field_name@);
                    if p < es@.len() {
                        r is Some && *r->Some_0 == es@[p].1
                    } else {
                        r is None
                    }
                },
                _ => r is None,
            }
        }),
{
    match data {
        JsonValue::Object(es) => {
            let p = find_entry(es, field_name);
            if p < es.len() {
                Some(&es[p].1)
            } else {
                None
            }
        },
        _ => None,
    }
}

/// The object under `field_name`, taken out of `data` (an empty object is
/// left in its place), or a new empty object when there is none.
fn take_or_create_object(data: &mut JsonValue, field_name: &str) -> (r: JsonValue)
    ensures
        r is Object,
        is_child_start(*old(data), field_name@, r),
        ({
            match *old(data) {
                JsonValue::Object(es) => {
                    let p = entry_pos(es@, field_name@);
                    if p < es@.len() && es@[p].1 is Object {
                        *final(data) matches JsonValue::Object(es2) && es2@.len() == es@.len() && (forall|j: int|
                            0 <= j < es@.len() && j != p ==> es2@[j] == es@[j]) && es2@[p].0 == es@[p].0
                    } else {
                        *final(data) == *old(data)
                    }
                },
                _ => *final(data) == *old(data),
            }
        }),
{
    match data {
        JsonValue::Object(es) => {
            let p = find_entry(es, field_name);
            if p < es.len() {
                let is_object = match &es[p].1 {
                    JsonValue::Object(_) => true,
                    _ => false,
                };
                if is_object {
                    let (k, v) = es.remove(p);
                    es.insert(p, (k, JsonValue::Object(Vec::new())));
                    proof {
                        let oe = old(data)->Object_0@;
                        assert(es@.len() == oe.len());
                        assert forall|j: int| 0 <= j < oe.len() && j != p implies es@[j] == oe[j] by {
                            if j < p {
                                assert(es@[j] == oe.remove(p as int)[j]);
                            } else {
                                assert(es@[j] == oe.remove(p as int)[j - 1]);
                            }
                        }
                    }
                    match v {
                        JsonValue::Object(inner) => {
                            return JsonValue::Object(inner);
                        },
                        _ => {},
                    }
                }
            }
            JsonValue::Object(Vec::new())
        },
        _ => JsonValue::Object(Vec::new()),
    }
}

// ---------------------------------------------------------------------------
// Outside sources of values: randomness and the clock.
// ---------------------------------------------------------------------------

/// Relies on rand's `thread_rng().gen_range(min..=max)`: some integer of the
/// closed range (it panics on an empty range, which `requires` rules out).
#[verifier::external_body]
fn draw_in_range(min: i64, max: i64) -> (r: i64)
    requires
        min <= max,
    ensures
        min <= r <= max,
{
    rand::thread_rng().gen_range(min..=max)
}

/// Relies on rand's `thread_rng().gen_range(0..n)`: some integer below `n`
/// (it panics when `n` is zero, which `requires` rules out).
#[verifier::external_body]
fn draw_below(n: u64) -> (r: u64)
    requires
        n > 0,
    ensures
        r < n,
{
    rand::thread_rng().gen_range(0..n)
}

/// Relies on rand's `thread_rng().gen::<bool>()`: a fair coin.
#[verifier::external_body]
fn draw_bool() -> (r: bool) {
    rand::thread_rng().gen::<bool>()
}

/// Relies on chrono's `Local::now().timestamp_millis()`: the time now, in
/// milliseconds since the epoch.
#[verifier::external_body]
fn now_millis() -> (r: i64) {
    chrono::Local::now().timestamp_millis()
}


// ---------------------------------------------------------------------------
// Filling a payload.
// ---------------------------------------------------------------------------

/// The weights of a table of values.
pub open spec fn weights_of(vs: Seq<PossibleValue>) -> Seq<u64> {
    Seq::new(vs.len(), |i: int| vs[i].weight)
}

/// `after` is `before` with the field `key` set to a copy of a value of the
/// table that some draw below the total weight picks.
pub open spec fn is_weighted_pick(before: JsonValue, after: JsonValue, key: Seq<char>, vs: Seq<PossibleValue>) -> bool {
    let ws = weights_of(vs);
    exists|d: nat, i: int, v: JsonValue|
        #![trigger is_pick(ws, d, i), copies_scalar(v, vs[i].value)]
        d < weight_total(ws) && is_pick(ws, d, i) && copies_scalar(v, vs[i].value) && is_field_set(
            before,
            after,
            key,
            v,
        )
}

/// The bounds of a random number, when the rule has both in order.
pub open spec fn bounds_of(f: MqttFieldStruct) -> Option<(i64, i64)> {
    match (f.min_value, f.max_value) {
        (Some(lo), Some(hi)) => if lo <= hi {
            Some((lo, hi))
        } else {
            None
        },
        _ => None,
    }
}

/// What one rule does to a payload, whatever the random draws and the clock
/// give: a timestamp or a date-time is set; with randomisation on, an
/// integer or a decimal within the bounds, a coin flip, or a weighted pick
/// from the table is set; an array field is created empty if it is missing;
/// an object field is set to the object already there (or a new empty
/// one) with the nested rules applied to it in their order; any
/// other kind leaves the payload as it is, as does a random rule when
/// randomisation is off, its bounds are missing or out of order, or its
/// table has no weight.
pub open spec fn field_outcome(before: JsonValue, after: JsonValue, f: MqttFieldStruct, enable_random: bool) -> bool
    decreases f,
{
    let key = f.field_name@;
    match f.field_type {
        FieldType::Timestamp => exists|t: i64| #[trigger] is_field_set(before, after, key, JsonValue::Int(t)),
        FieldType::DateTime => exists|t: String| #[trigger] is_field_set(before, after, key, JsonValue::Str(t)),
        FieldType::Integer => if enable_random && bounds_of(f) is Some {
            let (lo, hi) = bounds_of(f)->Some_0;
            exists|x: i64| lo <= x <= hi && #[trigger] is_field_set(before, after, key, JsonValue::Int(x))
        } else {
            after == before
        },
        FieldType::Float => if enable_random && bounds_of(f) is Some {
            let (lo, hi) = bounds_of(f)->Some_0;
            exists|x: i64| lo <= x <= hi && #[trigger] is_field_set(before, after, key, JsonValue::Milli(x))
        } else {
            after == before
        },
        FieldType::Boolean => if enable_random {
            exists|b: bool| #[trigger] is_field_set(before, after, key, JsonValue::Bool(b))
        } else {
            after == before
        },
        FieldType::Enum | FieldType::String => match f.possible_values {
            Some(vs) => if enable_random && 0 < weight_total(weights_of(vs@)) <= u64::MAX {
                is_weighted_pick(before, after, key, vs@)
            } else {
                after == before
            },
            None => after == before,
        },
        FieldType::Array => match before {
            JsonValue::Object(es) => if entry_pos(es@, key) < es@.len() {
                after == before
            } else {
                after matches JsonValue::Object(es2) && es2@.len() == es@.len() + 1 && es2@.subrange(
                    0,
                    es@.len() as int,
                ) == es@ && es2@.last().0@ == key && (es2@.last().1 matches JsonValue::Array(a) && a@.len() == 0)
            },
            _ => after == before,
        },
        FieldType::Object => exists|s: JsonValue, c: JsonValue|
            #![trigger is_child_start(before, key, s), is_field_set(before, after, key, c)]
            is_child_start(before, key, s) && is_field_set(before, after, key, c) && match f.child {
                Some(children) => fields_applied(s, c, children@, enable_random),
                None => c == s,
            },
        _ => after == before,
    }
}

/// The rules, applied in their order, take `before` to `after`.
pub open spec fn fields_applied(
    before: JsonValue,
    after: JsonValue,
    fields: Seq<MqttFieldStruct>,
    enable_random: bool,
) -> bool
    decreases fields,
{
    exists|states: Seq<JsonValue>|
        states.len() == fields.len() + 1 && states[0] == before && states.last() == after && forall|i: int|
            #![trigger fields[i]]
            0 <= i < fields.len() ==> field_outcome(states[i], states[i + 1], fields[i], enable_random)
}

/// The object with which the rules of an object field start: the object
/// already under `key`, or else an empty one.
pub open spec fn is_child_start(before: JsonValue, key: Seq<char>, s: JsonValue) -> bool {
    match before {
        JsonValue::Object(es) => {
            let p = entry_pos(es@, key);
            if p < es@.len() && es@[p].1 is Object {
                s == es@[p].1
            } else {
                s matches JsonValue::Object(v) && v@.len() == 0
            }
        },
        _ => (s matches JsonValue::Object(v) && v@.len() == 0),
    }
}

/// Setting a field of an object whose entry was first replaced by a
/// placeholder, keys unchanged, is setting it in the object itself.
proof fn lemma_replace_through_placeholder(
    before: JsonValue,
    mid: JsonValue,
    after: JsonValue,
    key: Seq<char>,
    v: JsonValue,
)
    requires
        is_field_set(mid, after, key, v),
        ({
            match before {
                JsonValue::Object(es) => {
                    let p = entry_pos(es@, key);
                    if p < es@.len() && es@[p].1 is Object {
                        mid matches JsonValue::Object(es2) && es2@.len() == es@.len() && (forall|j: int|
                            0 <= j < es@.len() && j != p ==> es2@[j] == es@[j]) && es2@[p].0 == es@[p].0
                    } else {
                        mid == before
                    }
                },
                _ => mid == before,
            }
        }),
    ensures
        is_field_set(before, after, key, v),
{
    match before {
        JsonValue::Object(es) => {
            let p = entry_pos(es@, key);
            if p < es@.len() && es@[p].1 is Object {
                let es2 = mid->Object_0;
                lemma_entry_pos_bounds(es@, key);
                assert forall|j: int| 0 <= j < p implies es2@[j].0@ != key by {
                    assert(es2@[j] == es@[j]);
                }
                lemma_entry_pos_at(es2@, key, p);
                assert(es2@.update(p, (es2@[p].0, v)) =~= es@.update(p, (es@[p].0, v)));
            }
        },
        _ => {},
    }
}

/// A rule applied to an object leaves an object.
proof fn lemma_outcome_keeps_object(before: JsonValue, after: JsonValue, f: MqttFieldStruct, enable_random: bool)
    requires
        before is Object,
        field_outcome(before, after, f, enable_random),
    ensures
        after is Object,
{
}

/// The total weight of a table, when it fits in 64 bits.
fn table_weight(vs: &Vec<PossibleValue>) -> (r: Option<u64>)
    ensures
        weight_total(weights_of(vs@)) <= u64::MAX ==> r == Some(weight_total(weights_of(vs@)) as u64),
        weight_total(weights_of(vs@)) > u64::MAX ==> r is None,
{
    let ghost ws = weights_of(vs@);
    let mut total: u64 = 0;
    let mut j: usize = 0;
    while j < vs.len()
        invariant
            ws == weights_of(vs@),
            j <= vs@.len(),
            total == weight_prefix(ws, j as int),
        decreases vs@.len() - j,
    {
        let w = vs[j].weight;
        if total > u64::MAX - w {
            proof {
                lemma_prefix_monotone(ws, j as int + 1, ws.len() as int);
            }
            return None;
        }
        total = total + w;
        j = j + 1;
    }
    Some(total)
}

/// Sets the field to a value picked from the weighted table.
fn apply_weighted(data: &mut JsonValue, key: &str, vs: &Vec<PossibleValue>, total: u64)
    requires
        0 < weight_total(weights_of(vs@)) <= u64::MAX,
        total == weight_total(weights_of(vs@)),
    ensures
        is_weighted_pick(*old(data), *final(data), key@, vs@),
{
    let mut ws: Vec<u64> = Vec::new();
    let mut i: usize = 0;
    while i < vs.len()
        invariant
            i <= vs@.len(),
            ws@ == weights_of(vs@).subrange(0, i as int),
        decreases vs@.len() - i,
    {
        ws.push(vs[i].weight);
        assert(ws@ =~= weights_of(vs@).subrange(0, i + 1));
        i = i + 1;
    }
    assert(ws@ =~= weights_of(vs@));
    let d = draw_below(total);
    match pick_weighted(&ws, d) {
        Some(k) => {
            let v = vs[k].value.to_json();
            set_field_value(data, key, v);
            proof {
                assert(is_pick(weights_of(vs@), d as nat, k as int));
            }
        },
        None => {},
    }
}

/// Applies one rule to a payload.
pub fn process_single_field(data: &mut JsonValue, field: &MqttFieldStruct, enable_random: bool)
    ensures
        field_outcome(*old(data), *final(data), *field, enable_random),
    decreases *field,
{
    let key = field.field_name.as_str();
    match field.field_type {
        FieldType::Timestamp => {
            let t = now_millis();
            set_field_value(data, key, JsonValue::Int(t));
            assert(is_field_set(*old(data), *data, key@, JsonValue::Int(t)));
        },
        FieldType::DateTime => {
            proof {
                reveal_strlit("%Y-%m-%d %H:%M:%S%.3f");
            }
            let t = crate::events::local_time_text("%Y-%m-%d %H:%M:%S%.3f");
            let ghost v = JsonValue::Str(t);
            set_field_value(data, key, JsonValue::Str(t));
            assert(is_field_set(*old(data), *data, key@, v));
        },
        FieldType::Integer => {
            if enable_random {
                match (field.min_value, field.max_value) {
                    (Some(lo), Some(hi)) => {
                        if lo <= hi {
                            let x = draw_in_range(lo, hi);
                            set_field_value(data, key, JsonValue::Int(x));
                            assert(is_field_set(*old(data), *data, key@, JsonValue::Int(x)));
                        }
                    },
                    _ => {},
                }
            }
        },
        FieldType::Float => {
            if enable_random {
                match (field.min_value, field.max_value) {
                    (Some(lo), Some(hi)) => {
                        if lo <= hi {
                            let x = draw_in_range(lo, hi);
                            set_field_value(data, key, JsonValue::Milli(x));
                            assert(is_field_set(*old(data), *data, key@, JsonValue::Milli(x)));
                        }
                    },
                    _ => {},
                }
            }
        },
        FieldType::Boolean => {
            if enable_random {
                let b = draw_bool();
                set_field_value(data, key, JsonValue::Bool(b));
                assert(is_field_set(*old(data), *data, key@, JsonValue::Bool(b)));
            }
        },
        FieldType::Enum | FieldType::String => {
            if enable_random {
                match &field.possible_values {
                    Some(vs) => {
                        match table_weight(vs) {
                            Some(total) => {
                                if total > 0 {
                                    apply_weighted(data, key, vs, total);
                                }
                            },
                            None => {},
                        }
                    },
                    None => {},
                }
            }
        },
        FieldType::Array => {
            if !has_field(data, key) {
                set_field_value(data, key, JsonValue::Array(Vec::new()));
            }
        },
        FieldType::Object => {
            let mut object = take_or_create_object(data, key);
            let ghost mid = *data;
            let ghost start = object;
            match &field.child {
                Some(children) => {
                    let ghost mut states: Seq<JsonValue> = seq![object];
                    let mut i: usize = 0;
                    while i < children.len()
                        invariant
                            field.child == Some(*children),
                            i <= children@.len(),
                            object is Object,
                            states.len() == i + 1,
                            states[0] == start,
                            states.last() == object,
                            forall|j: int|
                                0 <= j < i ==> #[trigger] field_outcome(
                                    states[j],
                                    states[j + 1],
                                    children@[j],
                                    enable_random,
                                ),
                        decreases children@.len() - i,
                    {
                        proof {
                            assert(decreases_to!(*field => field.child));
                            assert(decreases_to!(field.child => field.child->Some_0));
                            assert(decreases_to!(*children => children@));
                            assert(decreases_to!(children@ => children@[i as int]));
                        }
                        let ghost prev = object;
                        process_single_field(&mut object, &children[i], enable_random);
                        proof {
                            lemma_outcome_keeps_object(prev, object, children@[i as int], enable_random);
                            let before_states = states;
                            states = states.push(object);
                            assert forall|j: int| 0 <= j < i + 1 implies #[trigger] field_outcome(
                                states[j],
                                states[j + 1],
                                children@[j],
                                enable_random,
                            ) by {
                                if j < i {
                                    assert(states[j] == before_states[j]);
                                    assert(states[j + 1] == before_states[j + 1]);
                                }
                            }
                        }
                        i = i + 1;
                    }
                    proof {
                        assert forall|j: int| 0 <= j < children@.len() implies field_outcome(
                            states[j],
                            states[j + 1],
                            children@[j],
                            enable_random,
                        ) by {}
                        assert(fields_applied(start, object, children@, enable_random));
                    }
                },
                None => {},
            }
            let ghost obj = object;
            set_field_value(data, key, object);
            proof {
                lemma_replace_through_placeholder(*old(data), mid, *data, key@, obj);
                assert(is_child_start(*old(data), key@, start));
                assert(is_field_set(*old(data), *data, key@, obj));
            }
        },
        _ => {},
    }
}

/// Applies the rules to a payload, one after another in their order.
pub fn process_fields(data: &mut JsonValue, fields: &Vec<MqttFieldStruct>, enable_random: bool)
    ensures
        fields_applied(*old(data), *final(data), fields@, enable_random),
{
    let ghost mut states: Seq<JsonValue> = seq![*data];
    let mut i: usize = 0;
    while i < fields.len()
        invariant
            i <= fields@.len(),
            states.len() == i + 1,
            states[0] == *old(data),
            states.last() == *data,
            forall|j: int| 0 <= j < i ==> #[trigger] field_outcome(states[j], states[j + 1], fields@[j], enable_random),
        decreases fields@.len() - i,
    {
        process_single_field(data, &fields[i], enable_random);
        proof {
            let prev = states;
            states = states.push(*data);
            assert forall|j: int| 0 <= j < i + 1 implies #[trigger] field_outcome(states[j], states[j + 1], fields@[j], enable_random) by {
                if j < i {
                    assert(states[j] == prev[j]);
                    assert(states[j + 1] == prev[j + 1]);
                }
            }
        }
        i = i + 1;
    }
    assert(states.len() == fields@.len() + 1);
    assert forall|j: int| 0 <= j < fields@.len() implies field_outcome(
        states[j],
        states[j + 1],
        fields@[j],
        enable_random,
    ) by {}
}

/// A table value of weight zero is never drawn: with randomisation on, an
/// enumeration rule whose table holds a value of weight zero followed by one
/// of positive weight always sets its field to a copy of the second value.
pub proof fn lemma_enum_rule_skips_zero_weight(
    before: JsonValue,
    after: JsonValue,
    f: MqttFieldStruct,
    vs: Seq<PossibleValue>,
)
    requires
        f.field_type == FieldType::Enum,
        f.possible_values is Some,
        f.possible_values->Some_0@ == vs,
        vs.len() == 2,
        vs[0].weight == 0,
        vs[1].weight > 0,
        field_outcome(before, after, f, true),
    ensures
        exists|v: JsonValue| copies_scalar(v, vs[1].value) && is_field_set(before, after, f.field_name@, v),
{
    let ws = weights_of(vs);
    assert(ws =~= seq![0u64, vs[1].weight]);
    assert(weight_prefix(ws, 0) == 0);
    assert(weight_prefix(ws, 1) == 0);
    assert(weight_prefix(ws, 2) == vs[1].weight);
    assert(weight_total(ws) == vs[1].weight);
    assert(is_weighted_pick(before, after, f.field_name@, vs));
    let (d, i, v) = choose|d: nat, i: int, v: JsonValue|
        #![trigger is_pick(ws, d, i), copies_scalar(v, vs[i].value)]
        d < weight_total(ws) && is_pick(ws, d, i) && copies_scalar(v, vs[i].value) && is_field_set(
            before,
            after,
            f.field_name@,
            v,
        );
    assert(i == 1);
    assert(copies_scalar(v, vs[1].value) && is_field_set(before, after, f.field_name@, v));
}

} // verus!
