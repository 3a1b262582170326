//! JSON values as the tools, the store and the event stream exchange them.
//!
//! The values are `serde_json::Value`s. What such a value holds is named by
//! [`json_of`]; the contracts below say over that name what the methods of
//! `serde_json` do.
use crate::text::chars_of;
use vstd::prelude::*;

verus! {

/// What a JSON value holds.
///
/// A number carries its value as an unsigned integer, where it has one, and the
/// literal it is written with.
pub enum Json {
    Null,
    Bool(bool),
    Number { unsigned: Option<u64>, literal: Seq<char> },
    Text(Seq<char>),
    Array(Seq<Json>),
    Object(Map<Seq<char>, Json>),
}

impl Json {
    pub open spec fn text(self) -> Option<Seq<char>> {
        match self {
            Json::Text(s) => Some(s),
            _ => None,
        }
    }

    pub open spec fn unsigned(self) -> Option<u64> {
        match self {
            Json::Number { unsigned, .. } => unsigned,
            _ => None,
        }
    }

    pub open spec fn array(self) -> Option<Seq<Json>> {
        match self {
            Json::Array(a) => Some(a),
            _ => None,
        }
    }

    /// The member called `key`, where this is an object that has one.
    pub open spec fn member(self, key: Seq<char>) -> Option<Json> {
        match self {
            Json::Object(m) => if m.contains_key(key) {
                Some(m[key])
            } else {
                None
            },
            _ => None,
        }
    }

    /// The text of the member called `key`.
    pub open spec fn text_member(self, key: Seq<char>) -> Option<Seq<char>> {
        match self.member(key) {
            Some(j) => j.text(),
            None => None,
        }
    }

    /// The elements of the member called `key`.
    pub open spec fn array_member(self, key: Seq<char>) -> Option<Seq<Json>> {
        match self.member(key) {
            Some(j) => j.array(),
            None => None,
        }
    }
}

// ---------------------------------------------------------------------------
// Trusted parts of serde_json
// ---------------------------------------------------------------------------

/// `serde_json::Value`, a JSON value.
#[verifier::external_type_specification]
#[verifier::external_body]
pub struct ExValue(serde_json::Value);

/// What a `serde_json::Value` holds.
pub uninterp spec fn json_of(value: serde_json::Value) -> Json;

pub open spec fn jsons(values: Seq<serde_json::Value>) -> Seq<Json> {
    Seq::new(values.len(), |i: int| json_of(values[i]))
}

pub open spec fn opt_json(value: Option<serde_json::Value>) -> Option<Json> {
    match value {
        Some(v) => Some(json_of(v)),
        None => None,
    }
}

/// `Value::as_str` of serde_json: the text of a string value, nothing of any other.
pub assume_specification[ serde_json::Value::as_str ](v: &serde_json::Value) -> (r: Option<&str>)
    ensures
        match r {
            Some(s) => json_of(*v).text() == Some(s@),
            None => json_of(*v).text() is None,
        },
;

/// `Value::as_u64` of serde_json: the number, where the value is one that is
/// stored as an unsigned integer.
pub assume_specification[ serde_json::Value::as_u64 ](v: &serde_json::Value) -> (r: Option<u64>)
    ensures
        r == json_of(*v).unsigned(),
;

/// `Value::as_array` of serde_json: the elements of an array, nothing of any
/// other value.
pub assume_specification[ serde_json::Value::as_array ](v: &serde_json::Value) -> (r: Option<
    &Vec<serde_json::Value>,
>)
    ensures
        match r {
            Some(a) => json_of(*v).array() == Some(jsons(a@)),
            None => json_of(*v).array() is None,
        },
;

/// `Value::is_null` of serde_json.
pub assume_specification[ serde_json::Value::is_null ](v: &serde_json::Value) -> (r: bool)
    ensures
        r == (json_of(*v) is Null),
;

/// `Value::clone` of serde_json copies what the value holds.
pub assume_specification[ <serde_json::Value as Clone>::clone ](v: &serde_json::Value) -> (r:
    serde_json::Value)
    ensures
        json_of(r) == json_of(*v),
;

/// `Value::get` of serde_json with a string index: the member of an object, and
/// nothing where the key is absent or the value is no object.
#[verifier::external_body]
pub(crate) fn member<'a>(v: &'a serde_json::Value, key: &str) -> (r: Option<&'a serde_json::Value>)
    ensures
        match r {
            Some(x) => json_of(*v).member(key@) == Some(json_of(*x)),
            None => json_of(*v).member(key@) is None,
        },
{
    v.get(key)
}

/// What `serde_json::from_str` makes of a text; nothing where it reports an error.
pub uninterp spec fn parsed(text: Seq<char>) -> Option<Json>;

/// `serde_json::from_str` into a `Value`. The result depends on the text alone
/// and is named by [`parsed`].
#[verifier::external_body]
pub(crate) fn parse(text: &str) -> (r: Option<serde_json::Value>)
    ensures
        opt_json(r) == parsed(text@),
{
    serde_json::from_str(text).ok()
}

/// The compact JSON text of a value.
pub uninterp spec fn rendered(json: Json) -> Seq<char>;

/// `Value::to_string` of serde_json: the compact JSON text, which depends on
/// what the value holds alone and is named by [`rendered`]. An object's members are
/// written in the order of their keys, as serde_json keeps them unless it is built to
/// preserve another order.
#[verifier::external_body]
pub(crate) fn render(v: &serde_json::Value) -> (r: String)
    ensures
        r@ == rendered(json_of(*v)),
{
    v.to_string()
}

/// `Value::Null` of serde_json.
#[verifier::external_body]
pub(crate) fn null() -> (r: serde_json::Value)
    ensures
        json_of(r) == Json::Null,
{
    serde_json::Value::Null
}

/// `Value::Bool` of serde_json.
#[verifier::external_body]
pub(crate) fn boolean(b: bool) -> (r: serde_json::Value)
    ensures
        json_of(r) == Json::Bool(b),
{
    serde_json::Value::Bool(b)
}

/// `Value::String` of serde_json.
#[verifier::external_body]
pub(crate) fn string(s: String) -> (r: serde_json::Value)
    ensures
        json_of(r) == Json::Text(s@),
{
    serde_json::Value::String(s)
}

/// `Value::Array` of serde_json.
#[verifier::external_body]
pub(crate) fn array(items: Vec<serde_json::Value>) -> (r: serde_json::Value)
    ensures
        json_of(r) == Json::Array(jsons(items@)),
{
    serde_json::Value::Array(items)
}

/// `serde_json::Map`, the members of an object.
#[verifier::external_type_specification]
#[verifier::external_body]
#[verifier::reject_recursive_types(K)]
#[verifier::reject_recursive_types(V)]
pub struct ExMap<K, V>(serde_json::Map<K, V>);

/// What a `serde_json::Map` holds.
pub uninterp spec fn map_of(map: serde_json::Map<String, serde_json::Value>) -> Map<
    Seq<char>,
    Json,
>;

/// `Map::new` of serde_json: a map without members.
pub assume_specification[ serde_json::Map::<String, serde_json::Value>::new ]() -> (r:
    serde_json::Map<String, serde_json::Value>)
    ensures
        map_of(r) == members(Seq::empty()),
;

/// `Map::insert` of serde_json: the key has the given value afterwards. The value that it
/// had before is given back, if there was one.
pub assume_specification[ serde_json::Map::<String, serde_json::Value>::insert ](
    m: &mut serde_json::Map<String, serde_json::Value>,
    k: String,
    v: serde_json::Value,
) -> (r: Option<serde_json::Value>)
    ensures
        map_of(*final(m)) == map_of(*old(m)).insert(k@, json_of(v)),
        match r {
            Some(x) => map_of(*old(m)).contains_key(k@) && map_of(*old(m))[k@] == json_of(x),
            None => !map_of(*old(m)).contains_key(k@),
        },
;

/// `Value::Object` of serde_json.
#[verifier::external_body]
fn object_of_map(map: serde_json::Map<String, serde_json::Value>) -> (r: serde_json::Value)
    ensures
        json_of(r) == Json::Object(map_of(map)),
{
    serde_json::Value::Object(map)
}

// ---------------------------------------------------------------------------
// Objects
// ---------------------------------------------------------------------------

/// The members that a list of fields gives an object; of two fields with the
/// same key the later one counts.
pub open spec fn members(fields: Seq<(String, serde_json::Value)>) -> Map<Seq<char>, Json>
    decreases fields.len(),
{
    if fields.len() == 0 {
        Map::empty()
    } else {
        members(fields.drop_last()).insert(fields.last().0@, json_of(fields.last().1))
    }
}

/// One more field adds its member.
pub broadcast proof fn lemma_members_push(
    fields: Seq<(String, serde_json::Value)>,
    field: (String, serde_json::Value),
)
    ensures
        #[trigger] members(fields.push(field)) == members(fields).insert(
            field.0@,
            json_of(field.1),
        ),
{
    assert(fields.push(field).drop_last() =~= fields);
}

/// No field, no member.
pub broadcast proof fn lemma_members_empty(fields: Seq<(String, serde_json::Value)>)
    requires
        fields.len() == 0,
    ensures
        #[trigger] members(fields) == Map::<Seq<char>, Json>::empty(),
{
}

pub broadcast group group_members {
    lemma_members_push,
    lemma_members_empty,
}

/// The object of some fields.
#[verifier::loop_isolation(false)]
pub(crate) fn object(fields: Vec<(String, serde_json::Value)>) -> (r: serde_json::Value)
    ensures
        json_of(r) == Json::Object(members(fields@)),
{
    let ghost all = fields@;
    let mut left = fields;
    let mut rest: Vec<(String, serde_json::Value)> = Vec::new();
    while left.len() > 0
        invariant
            left@ + rest@.reverse() == all,
        decreases left.len(),
    {
        let ghost before = left@;
        let ghost after = rest@;
        if let Some(field) = left.pop() {
            rest.push(field);
            assert(rest@.reverse() =~= seq![field] + after.reverse());
            assert(left@ + rest@.reverse() =~= before + after.reverse());
        }
    }
    assert(rest@.reverse() =~= all);
    let mut map = serde_json::Map::new();
    assert(all.take(0) =~= Seq::<(String, serde_json::Value)>::empty());
    while rest.len() > 0
        invariant
            rest.len() <= all.len(),
            rest@.reverse() == all.skip(all.len() - rest.len()),
            map_of(map) == members(all.take(all.len() - rest.len())),
        decreases rest.len(),
    {
        let ghost n = all.len() - rest.len();
        assert(rest@.last() == rest@.reverse()[0]);
        assert(all.take(n + 1).drop_last() =~= all.take(n));
        let ghost before = rest@;
        if let Some((key, value)) = rest.pop() {
            let _ = map.insert(key, value);
            assert(rest@.reverse() =~= before.reverse().drop_first());
            assert(rest@.reverse() =~= all.skip(n + 1));
        }
    }
    assert(all.take(all.len() as int) =~= all);
    object_of_map(map)
}

// ---------------------------------------------------------------------------
// Reading
// ---------------------------------------------------------------------------

/// The text of a string member.
pub fn text_member<'a>(v: &'a serde_json::Value, key: &str) -> (r: Option<&'a str>)
    ensures
        match r {
            Some(s) => json_of(*v).text_member(key@) == Some(s@),
            None => json_of(*v).text_member(key@) is None,
        },
{
    match member(v, key) {
        Some(x) => x.as_str(),
        None => None,
    }
}

/// The text of a string member, as a string of its own.
pub fn owned_text_member(v: &serde_json::Value, key: &str) -> (r: Option<String>)
    ensures
        match r {
            Some(s) => json_of(*v).text_member(key@) == Some(s@),
            None => json_of(*v).text_member(key@) is None,
        },
{
    match text_member(v, key) {
        Some(s) => Some(s.to_string()),
        None => None,
    }
}

/// The texts among `items`, in order; what is no string is left out.
pub open spec fn texts_in(items: Seq<Json>) -> Seq<Seq<char>>
    decreases items.len(),
{
    if items.len() == 0 {
        Seq::empty()
    } else {
        match items.last().text() {
            Some(s) => texts_in(items.drop_last()).push(s),
            None => texts_in(items.drop_last()),
        }
    }
}

pub fn collect_texts(items: &Vec<serde_json::Value>) -> (r: Vec<String>)
    ensures
        crate::text::views(r@) == texts_in(jsons(items@)),
{
    broadcast use crate::text::group_views;

    let mut r: Vec<String> = Vec::new();
    let mut i: usize = 0;
    let ghost all = jsons(items@);
    while i < items.len()
        invariant
            i <= items.len(),
            all == jsons(items@),
            crate::text::views(r@) == texts_in(all.take(i as int)),
        decreases items.len() - i,
    {
        assert(all.take(i + 1).drop_last() =~= all.take(i as int));
        assert(all.take(i + 1).last() == json_of(items@[i as int]));
        match items[i].as_str() {
            Some(s) => {
                r.push(s.to_string());
            },
            None => {},
        }
        i += 1;
    }
    assert(all.take(i as int) =~= all);
    r
}

/// The texts in an array member.
pub fn text_array_member(v: &serde_json::Value, key: &str) -> (r: Option<Vec<String>>)
    ensures
        match r {
            Some(a) => json_of(*v).array_member(key@) is Some && crate::text::views(a@) == texts_in(
                json_of(*v).array_member(key@)->0,
            ),
            None => json_of(*v).array_member(key@) is None,
        },
{
    match member(v, key) {
        Some(x) => match x.as_array() {
            Some(a) => Some(collect_texts(a)),
            None => None,
        },
        None => None,
    }
}

// ---------------------------------------------------------------------------
// Numbers given as text
// ---------------------------------------------------------------------------

pub open spec fn is_digit(c: char) -> bool {
    '0' <= c <= '9'
}

pub open spec fn all_digits(s: Seq<char>) -> bool {
    forall|i: int| 0 <= i < s.len() ==> is_digit(#[trigger] s[i])
}

/// The number that decimal digits stand for.
pub open spec fn digits_value(s: Seq<char>) -> nat
    decreases s.len(),
{
    if s.len() == 0 {
        0
    } else {
        digits_value(s.drop_last()) * 10 + (s.last() as nat - 48) as nat
    }
}

/// The digits of an unsigned number: all of `s` but one leading `+`.
pub open spec fn unsigned_digits(s: Seq<char>) -> Seq<char> {
    if s.len() > 0 && s[0] == '+' {
        s.drop_first()
    } else {
        s
    }
}

/// The number that `s` reads as: an optional `+` and one or more digits, no
/// larger than a `u64` can be.
pub open spec fn unsigned_text(s: Seq<char>) -> Option<u64> {
    let d = unsigned_digits(s);
    if d.len() > 0 && all_digits(d) && digits_value(d) <= u64::MAX {
        Some(digits_value(d) as u64)
    } else {
        None
    }
}

proof fn lemma_digits_value_grows(s: Seq<char>, n: int)
    requires
        all_digits(s),
        0 <= n <= s.len(),
    ensures
        digits_value(s.take(n)) <= digits_value(s),
    decreases s.len() - n,
{
    if n < s.len() {
        lemma_digits_value_grows(s, n + 1);
        assert(s.take(n + 1).drop_last() =~= s.take(n));
        assert(is_digit(s[n]));
    } else {
        assert(s.take(n) =~= s);
    }
}

#[verifier::loop_isolation(false)]
pub fn parse_unsigned(s: &str) -> (r: Option<u64>)
    ensures
        r == unsigned_text(s@),
{
    let chars = chars_of(s);
    let start: usize = if chars.len() > 0 && chars[0] == '+' {
        1
    } else {
        0
    };
    let ghost d = unsigned_digits(s@);
    assert(d =~= chars@.skip(start as int));
    if start == chars.len() {
        return None;
    }
    let mut value: u64 = 0;
    let mut i: usize = start;
    assert(d.take(0) =~= Seq::<char>::empty());
    while i < chars.len()
        invariant
            start <= i <= chars.len(),
            all_digits(d.take(i - start)),
            value == digits_value(d.take(i - start)),
        decreases chars.len() - i,
    {
        let c = chars[i];
        assert(c == d[i - start]);
        if c < '0' || c > '9' {
            assert(!is_digit(d[i - start]));
            return None;
        }
        let k: u64 = (c as u64) - 48;
        assert(d.take(i - start + 1).drop_last() =~= d.take(i - start));
        assert(all_digits(d.take(i - start + 1))) by {
            assert forall|j: int| 0 <= j < i - start + 1 implies is_digit(
                #[trigger] d.take(i - start + 1)[j],
            ) by {
                if j < i - start {
                    assert(d.take(i - start)[j] == d[j]);
                    assert(is_digit(d.take(i - start)[j]));
                }
            }
        }
        if value > (u64::MAX - k) / 10 {
            proof {
                assert(digits_value(d.take(i - start + 1)) > u64::MAX);
                if all_digits(d) {
                    lemma_digits_value_grows(d, i - start + 1);
                }
            }
            return None;
        }
        value = value * 10 + k;
        i += 1;
    }
    assert(d.take(i - start) =~= d);
    Some(value)
}

/// The unsigned number that `json` gives, as a number or as text.
pub open spec fn unsigned_of(json: Json) -> Option<u64> {
    match json.unsigned() {
        Some(n) => Some(n),
        None => match json.text() {
            Some(s) => unsigned_text(s),
            None => None,
        },
    }
}

pub fn lenient_unsigned(v: &serde_json::Value) -> (r: Option<u64>)
    ensures
        r == unsigned_of(json_of(*v)),
{
    match v.as_u64() {
        Some(n) => Some(n),
        None => match v.as_str() {
            Some(s) => parse_unsigned(s),
            None => None,
        },
    }
}

// ---------------------------------------------------------------------------
// Building
// ---------------------------------------------------------------------------

/// An object of one member.
pub fn object_of_one(key: &str, value: serde_json::Value) -> (r: serde_json::Value)
    ensures
        json_of(r) == Json::Object(map![key@ => json_of(value)]),
{
    let mut fields: Vec<(String, serde_json::Value)> = Vec::new();
    fields.push((key.to_string(), value));
    proof {
        reveal_with_fuel(members, 2);
        assert(members(fields@) =~= map![key@ => json_of(value)]);
    }
    object(fields)
}

/// An object of two members.
pub fn object_of_two(
    key_a: &str,
    value_a: serde_json::Value,
    key_b: &str,
    value_b: serde_json::Value,
) -> (r: serde_json::Value)
    ensures
        json_of(r) == Json::Object(map![key_a@ => json_of(value_a), key_b@ => json_of(value_b)]),
{
    let mut fields: Vec<(String, serde_json::Value)> = Vec::new();
    fields.push((key_a.to_string(), value_a));
    fields.push((key_b.to_string(), value_b));
    proof {
        reveal_with_fuel(members, 3);
        assert(fields@.drop_last() =~= seq![fields@[0]]);
        assert(fields@.drop_last().drop_last() =~= Seq::empty());
        assert(members(fields@) =~= map![
            key_a@ => json_of(value_a),
            key_b@ => json_of(value_b),
        ]);
    }
    object(fields)
}

pub open spec fn text_json(s: Seq<char>) -> Json {
    Json::Text(s)
}

/// The array of some texts.
pub open spec fn text_array(items: Seq<Seq<char>>) -> Json {
    Json::Array(items.map_values(|s: Seq<char>| text_json(s)))
}

pub fn array_of_texts(items: &Vec<String>) -> (r: serde_json::Value)
    ensures
        json_of(r) == text_array(crate::text::views(items@)),
{
    let mut values: Vec<serde_json::Value> = Vec::new();
    let mut i: usize = 0;
    while i < items.len()
        invariant
            i <= items.len(),
            values.len() == i,
            forall|j: int| 0 <= j < i ==> json_of(#[trigger] values@[j]) == Json::Text(items@[j]@),
        decreases items.len() - i,
    {
        values.push(string(items[i].clone()));
        i += 1;
    }
    assert(jsons(values@) =~= crate::text::views(items@).map_values(
        |s: Seq<char>| text_json(s),
    ));
    array(values)
}

} // verus!
