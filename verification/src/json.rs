//! JSON documents as plain data.
//!
//! `Json` is what the library reads and builds; `JsonValue` is what a document
//! means: an object is a map from names to values, so the order of its
//! members does not matter and a later member of the same name replaces an
//! earlier one. A number with a fraction or an exponent is kept as its
//! text.

use crate::text::same_text;
use vstd::prelude::*;

verus! {

/// A JSON document.
#[derive(Debug)]
pub enum Json {
    Null,
    Bool(bool),
    /// A number that is not negative.
    UInt(u64),
    /// A whole number of either sign.
    Int(i64),
    /// A number with a fraction or an exponent, as it is written.
    Real(String),
    Text(String),
    Array(Vec<Json>),
    /// The members in the order in which they were given.
    Object(Vec<(String, Json)>),
}

/// The mathematical value of a JSON document.
pub enum JsonValue {
    Null,
    Bool(bool),
    Number(int),
    /// A number with a fraction or an exponent, as it is written.
    Real(Seq<char>),
    Text(Seq<char>),
    Array(Seq<JsonValue>),
    Object(Map<Seq<char>, JsonValue>),
}

/// The map that a list of members stands for: a later member of the same
/// name replaces an earlier one.
pub open spec fn members_map(pairs: Seq<(Seq<char>, JsonValue)>) -> Map<Seq<char>, JsonValue>
    decreases pairs.len(),
{
    if pairs.len() == 0 {
        Map::empty()
    } else {
        members_map(pairs.drop_last()).insert(pairs.last().0, pairs.last().1)
    }
}

/// An object with the given members.
pub open spec fn object_of(pairs: Seq<(Seq<char>, JsonValue)>) -> JsonValue {
    JsonValue::Object(members_map(pairs))
}

impl JsonValue {
    /// The member of an object by name.
    pub open spec fn member(self, key: Seq<char>) -> Option<JsonValue> {
        match self {
            JsonValue::Object(m) => if m.contains_key(key) {
                Some(m[key])
            } else {
                None
            },
            _ => None,
        }
    }

    /// The characters of a text value.
    pub open spec fn as_text(self) -> Option<Seq<char>> {
        match self {
            JsonValue::Text(s) => Some(s),
            _ => None,
        }
    }

    /// The truth value held.
    pub open spec fn as_bool(self) -> Option<bool> {
        match self {
            JsonValue::Bool(b) => Some(b),
            _ => None,
        }
    }

    /// The number held, where it fits a signed 64-bit integer.
    pub open spec fn as_int(self) -> Option<i64> {
        match self {
            JsonValue::Number(n) => if i64::MIN <= n <= i64::MAX {
                Some(n as i64)
            } else {
                None
            },
            _ => None,
        }
    }

    /// The number held, where it fits an unsigned 64-bit integer.
    pub open spec fn as_uint(self) -> Option<u64> {
        match self {
            JsonValue::Number(n) => if 0 <= n <= u64::MAX {
                Some(n as u64)
            } else {
                None
            },
            _ => None,
        }
    }

    /// The text held by the member `key`, if there is such a member and it
    /// is a text.
    pub open spec fn text_member(self, key: Seq<char>) -> Option<Seq<char>> {
        match self.member(key) {
            Some(v) => v.as_text(),
            None => None,
        }
    }

    /// The unsigned number held by the member `key`.
    pub open spec fn uint_member(self, key: Seq<char>) -> Option<u64> {
        match self.member(key) {
            Some(v) => v.as_uint(),
            None => None,
        }
    }

    /// The signed number held by the member `key`.
    pub open spec fn int_member(self, key: Seq<char>) -> Option<i64> {
        match self.member(key) {
            Some(v) => v.as_int(),
            None => None,
        }
    }

    /// The size held by the member `key`: an unsigned number that fits
    /// `usize`.
    pub open spec fn size_member(self, key: Seq<char>) -> Option<usize> {
        match self.uint_member(key) {
            Some(n) => if n <= usize::MAX {
                Some(n as usize)
            } else {
                None
            },
            None => None,
        }
    }

    /// The items of an array.
    pub open spec fn items(self) -> Option<Seq<JsonValue>> {
        match self {
            JsonValue::Array(items) => Some(items),
            _ => None,
        }
    }

    /// The member `key` where it is there and is not `null`.
    pub open spec fn present(self, key: Seq<char>) -> Option<JsonValue> {
        match self.member(key) {
            Some(JsonValue::Null) => None,
            Some(v) => Some(v),
            None => None,
        }
    }
}

/// The members of an object without members.
pub open spec fn no_members() -> Map<Seq<char>, JsonValue> {
    Map::empty()
}

/// The values of a list of documents.
pub open spec fn values_of(items: Seq<Json>) -> Seq<JsonValue>
    decreases items,
{
    Seq::new(
        items.len(),
        |i: int|
            if 0 <= i < items.len() {
                json_value(items[i])
            } else {
                JsonValue::Null
            },
    )
}

/// The names and values of a list of members.
pub open spec fn pairs_of(members: Seq<(String, Json)>) -> Seq<(Seq<char>, JsonValue)>
    decreases members,
{
    Seq::new(
        members.len(),
        |i: int|
            if 0 <= i < members.len() {
                (members[i].0@, json_value(members[i].1))
            } else {
                (Seq::empty(), JsonValue::Null)
            },
    )
}

/// The value of a document.
pub open spec fn json_value(j: Json) -> JsonValue
    decreases j,
{
    match j {
        Json::Null => JsonValue::Null,
        Json::Bool(b) => JsonValue::Bool(b),
        Json::UInt(n) => JsonValue::Number(n as int),
        Json::Int(n) => JsonValue::Number(n as int),
        Json::Real(s) => JsonValue::Real(s@),
        Json::Text(s) => JsonValue::Text(s@),
        Json::Array(items) => JsonValue::Array(values_of(items@)),
        Json::Object(members) => JsonValue::Object(members_map(pairs_of(members@))),
    }
}

impl DeepView for Json {
    type V = JsonValue;

    open spec fn deep_view(&self) -> JsonValue {
        json_value(*self)
    }
}

impl View for Json {
    type V = JsonValue;

    open spec fn view(&self) -> JsonValue {
        self.deep_view()
    }
}

/// What an array of documents holds.
pub proof fn lemma_array_view(items: Vec<Json>)
    ensures
        Json::Array(items)@ == JsonValue::Array(items.deep_view()),
{
    assert(values_of(items@) =~= items.deep_view());
}

/// What an object holds, over the views of its members.
pub proof fn lemma_object_view(members: Vec<(String, Json)>)
    ensures
        Json::Object(members)@ == object_of(members.deep_view()),
{
    assert(pairs_of(members@) =~= members.deep_view());
}

/// The members of a list are finitely many.
pub proof fn lemma_members_map_finite(pairs: Seq<(Seq<char>, JsonValue)>)
    ensures
        members_map(pairs).dom().finite(),
    decreases pairs.len(),
{
    if pairs.len() > 0 {
        lemma_members_map_finite(pairs.drop_last());
    }
}

/// A name that no later member bears is bound to the member that bears it.
pub proof fn lemma_members_map_found(pairs: Seq<(Seq<char>, JsonValue)>, key: Seq<char>, i: int)
    requires
        0 <= i < pairs.len(),
        pairs[i].0 == key,
        forall|j: int| i < j < pairs.len() ==> pairs[j].0 != key,
    ensures
        members_map(pairs).contains_key(key),
        members_map(pairs)[key] == pairs[i].1,
    decreases pairs.len(),
{
    if i < pairs.len() - 1 {
        lemma_members_map_found(pairs.drop_last(), key, i);
    }
}

/// A name that no member bears is not bound.
pub proof fn lemma_members_map_absent(pairs: Seq<(Seq<char>, JsonValue)>, key: Seq<char>)
    requires
        forall|j: int| 0 <= j < pairs.len() ==> pairs[j].0 != key,
    ensures
        !members_map(pairs).contains_key(key),
    decreases pairs.len(),
{
    if pairs.len() > 0 {
        lemma_members_map_absent(pairs.drop_last(), key);
    }
}

impl Clone for Json {
    #[verifier::loop_isolation(false)]
    fn clone(&self) -> (r: Self)
        ensures
            r@ == self@,
        decreases self,
    {
        match self {
            Json::Null => Json::Null,
            Json::Bool(b) => Json::Bool(*b),
            Json::UInt(n) => Json::UInt(*n),
            Json::Int(n) => Json::Int(*n),
            Json::Real(s) => Json::Real(s.clone()),
            Json::Text(s) => Json::Text(s.clone()),
            Json::Array(items) => {
                let mut out: Vec<Json> = Vec::new();
                let mut i: usize = 0;
                while i < items.len()
                    invariant
                        i <= items.len(),
                        out.len() == i,
                        forall|j: int| 0 <= j < i ==> out@[j]@ == items@[j]@,
                    decreases items.len() - i,
                {
                    let c = items[i].clone();
                    out.push(c);
                    i += 1;
                }
                proof {
                    lemma_array_view(out);
                    lemma_array_view(*items);
                    assert(out.deep_view() =~= items.deep_view());
                }
                Json::Array(out)
            },
            Json::Object(members) => {
                let mut out: Vec<(String, Json)> = Vec::new();
                let mut i: usize = 0;
                while i < members.len()
                    invariant
                        i <= members.len(),
                        out.len() == i,
                        forall|j: int|
                            0 <= j < i ==> out@[j].0@ == members@[j].0@ && out@[j].1@
                                == members@[j].1@,
                    decreases members.len() - i,
                {
                    let c = members[i].1.clone();
                    out.push((members[i].0.clone(), c));
                    i += 1;
                }
                proof {
                    lemma_object_view(out);
                    lemma_object_view(*members);
                    assert(out.deep_view() =~= members.deep_view());
                }
                Json::Object(out)
            },
        }
    }
}

impl Json {
    /// A text value.
    pub fn text(s: &str) -> (r: Json)
        ensures
            r@ == JsonValue::Text(s@),
    {
        Json::Text(s.to_owned())
    }

    /// An object with the given members.
    pub fn object(members: Vec<(String, Json)>) -> (r: Json)
        ensures
            r@ == object_of(members.deep_view()),
    {
        proof {
            lemma_object_view(members);
        }
        Json::Object(members)
    }

    /// An object without members.
    pub fn empty_object() -> (r: Json)
        ensures
            r@ == JsonValue::Object(Map::empty()),
    {
        let members: Vec<(String, Json)> = Vec::new();
        assert(members.deep_view() =~= Seq::empty());
        Json::object(members)
    }

    /// An array of the given items.
    pub fn array(items: Vec<Json>) -> (r: Json)
        ensures
            r@ == JsonValue::Array(items.deep_view()),
    {
        proof {
            lemma_array_view(items);
        }
        Json::Array(items)
    }

    /// The member of an object by name; `None` for a missing member and for
    /// a document that is no object.
    #[verifier::loop_isolation(false)]
    pub fn get(&self, key: &str) -> (r: Option<&Json>)
        ensures
            r.deep_view() == self@.member(key@),
    {
        match self {
            Json::Object(members) => {
                proof {
                    lemma_object_view(*members);
                }
                let mut i: usize = members.len();
                while i > 0
                    invariant
                        i <= members.len(),
                        forall|j: int| i <= j < members.len() ==> members@[j].0@ != key@,
                    decreases i,
                {
                    i -= 1;
                    if same_text(members[i].0.as_str(), key) {
                        proof {
                            let pairs = members.deep_view();
                            assert(pairs[i as int].0 == key@);
                            assert forall|j: int| i < j < pairs.len() implies pairs[j].0 != key@ by {
                                assert(pairs[j].0 == members@[j].0@);
                            }
                            lemma_members_map_found(pairs, key@, i as int);
                        }
                        return Some(&members[i].1);
                    }
                }
                proof {
                    let pairs = members.deep_view();
                    assert forall|j: int| 0 <= j < pairs.len() implies pairs[j].0 != key@ by {
                        assert(pairs[j].0 == members@[j].0@);
                    }
                    lemma_members_map_absent(pairs, key@);
                }
                None
            },
            _ => None,
        }
    }

    /// The characters of a text value.
    pub fn as_str(&self) -> (r: Option<&str>)
        ensures
            r.deep_view() == self@.as_text(),
    {
        match self {
            Json::Text(s) => Some(s.as_str()),
            _ => None,
        }
    }

    /// The number held, where it fits an unsigned 64-bit integer.
    pub fn as_u64(&self) -> (r: Option<u64>)
        ensures
            r == self@.as_uint(),
    {
        match self {
            Json::UInt(n) => Some(*n),
            Json::Int(n) => if *n >= 0 {
                Some(*n as u64)
            } else {
                None
            },
            _ => None,
        }
    }

    /// The items of an array.
    pub fn as_array(&self) -> (r: Option<&Vec<Json>>)
        ensures
            r.deep_view() == self@.items(),
    {
        match self {
            Json::Array(items) => {
                proof {
                    lemma_array_view(*items);
                }
                Some(items)
            },
            _ => None,
        }
    }

    /// The member `key` where it is there and is not `null`.
    pub fn get_present(&self, key: &str) -> (r: Option<&Json>)
        ensures
            r.deep_view() == self@.present(key@),
    {
        match self.get(key) {
            Some(Json::Null) => None,
            Some(v) => Some(v),
            None => None,
        }
    }

    /// The size of the member `key`.
    pub fn get_usize(&self, key: &str) -> (r: Option<usize>)
        ensures
            r == self@.size_member(key@),
    {
        match self.get_u64(key) {
            Some(n) => if n <= usize::MAX as u64 {
                Some(n as usize)
            } else {
                None
            },
            None => None,
        }
    }

    /// The number held, where it fits a signed 64-bit integer.
    pub fn as_i64(&self) -> (r: Option<i64>)
        ensures
            r == self@.as_int(),
    {
        match self {
            Json::UInt(n) => if *n <= i64::MAX as u64 {
                Some(*n as i64)
            } else {
                None
            },
            Json::Int(n) => Some(*n),
            _ => None,
        }
    }

    /// The signed number of the member `key`.
    pub fn get_i64(&self, key: &str) -> (r: Option<i64>)
        ensures
            r == self@.int_member(key@),
    {
        match self.get(key) {
            Some(v) => v.as_i64(),
            None => None,
        }
    }

    /// The text of the member `key`.
    pub fn get_str(&self, key: &str) -> (r: Option<&str>)
        ensures
            r.deep_view() == self@.text_member(key@),
    {
        match self.get(key) {
            Some(v) => v.as_str(),
            None => None,
        }
    }

    /// The unsigned number of the member `key`.
    pub fn get_u64(&self, key: &str) -> (r: Option<u64>)
        ensures
            r == self@.uint_member(key@),
    {
        match self.get(key) {
            Some(v) => v.as_u64(),
            None => None,
        }
    }
}

/// Collects the members of an object, one after the other.
#[derive(Debug)]
pub struct ObjectBuilder {
    pub members: Vec<(String, Json)>,
}

impl ObjectBuilder {
    /// The members so far, by name.
    pub open spec fn map(&self) -> Map<Seq<char>, JsonValue> {
        members_map(self.members.deep_view())
    }

    /// A builder without members.
    pub fn new() -> (b: ObjectBuilder)
        ensures
            b.map() == no_members(),
    {
        let members: Vec<(String, Json)> = Vec::new();
        assert(members.deep_view() =~= Seq::empty());
        ObjectBuilder { members }
    }

    /// Adds the member `key`, in place of a member of that name.
    pub fn put(&mut self, key: &str, value: Json)
        ensures
            final(self).map() == old(self).map().insert(key@, value@),
    {
        let ghost before = self.members.deep_view();
        self.members.push((key.to_owned(), value));
        assert(self.members.deep_view().drop_last() =~= before);
        assert(self.members.deep_view().last() == (key@, value@));
    }

    /// The object with the members.
    pub fn build(self) -> (j: Json)
        ensures
            j@ == JsonValue::Object(self.map()),
    {
        Json::object(self.members)
    }
}

/// `serde_json::Value`, the document type of the JSON crate.
#[verifier::external_type_specification]
#[verifier::external_body]
pub struct ExValue(serde_json::Value);

/// `serde_json::Error`.
#[verifier::external_type_specification]
#[verifier::external_body]
pub struct ExJsonError(serde_json::Error);

/// `serde_json::Map`, the map that an object of the JSON crate holds.
#[verifier::external_type_specification]
#[verifier::external_body]
#[verifier::reject_recursive_types(K)]
#[verifier::reject_recursive_types(V)]
pub struct ExJsonMap<K, V>(serde_json::Map<K, V>);

/// What a `serde_json::Value` holds.
pub uninterp spec fn outside_value(v: serde_json::Value) -> JsonValue;

/// What a `serde_json::Map` holds: for each of its keys, what the value
/// under the key holds.
pub uninterp spec fn outside_entries(m: serde_json::Map<String, serde_json::Value>) -> Map<
    Seq<char>,
    JsonValue,
>;

/// The compact JSON text of a value, as `serde_json::to_string` prints a
/// `serde_json::Value`: it depends on the value alone, since an object there
/// is a map ordered by its keys.
pub uninterp spec fn json_text(v: JsonValue) -> Seq<char>;

/// The pretty-printed JSON text of a value, as `serde_json::to_string_pretty`
/// prints a `serde_json::Value`.
pub uninterp spec fn json_pretty_text(v: JsonValue) -> Seq<char>;

/// The value that the JSON crate reads from the text of a number, and
/// `Null` where the text is no number.
pub uninterp spec fn number_read(text: Seq<char>) -> JsonValue;

/// The value that a JSON text holds, as `serde_json::from_str` reads it,
/// or `None` where the text is no JSON.
pub uninterp spec fn json_read(text: Seq<char>) -> Option<JsonValue>;

/// A value as it is printed: every number that is kept as its text is
/// read by the JSON crate, and everything else stays as it is.
pub open spec fn settled(v: JsonValue) -> JsonValue
    decreases v,
{
    match v {
        JsonValue::Real(t) => number_read(t),
        JsonValue::Array(items) => JsonValue::Array(
            Seq::new(
                items.len(),
                |i: int|
                    if 0 <= i < items.len() {
                        settled(items[i])
                    } else {
                        JsonValue::Null
                    },
            ),
        ),
        JsonValue::Object(m) => JsonValue::Object(
            Map::new(
                |k: Seq<char>| m.contains_key(k),
                |k: Seq<char>|
                    if m.contains_key(k) {
                        settled(m[k])
                    } else {
                        JsonValue::Null
                    },
            ),
        ),
        _ => v,
    }
}

/// The values of a map, each as it is printed.
pub open spec fn settled_map(m: Map<Seq<char>, JsonValue>) -> Map<Seq<char>, JsonValue> {
    Map::new(|k: Seq<char>| m.contains_key(k), |k: Seq<char>| settled(m[k]))
}

/// The compact JSON text that a value is printed as.
pub open spec fn printed(v: JsonValue) -> Seq<char> {
    json_text(settled(v))
}

/// The pretty-printed JSON text that a value is printed as.
pub open spec fn pretty_printed(v: JsonValue) -> Seq<char> {
    json_pretty_text(settled(v))
}

/// A list of members with every value as it is printed.
pub open spec fn settled_pairs(pairs: Seq<(Seq<char>, JsonValue)>) -> Seq<(Seq<char>, JsonValue)> {
    Seq::new(pairs.len(), |i: int| (pairs[i].0, settled(pairs[i].1)))
}

/// Printing the values of the members of an object is printing the values
/// of the map that they stand for.
pub proof fn lemma_settled_members(pairs: Seq<(Seq<char>, JsonValue)>)
    ensures
        members_map(settled_pairs(pairs)) == settled_map(members_map(pairs)),
    decreases pairs.len(),
{
    if pairs.len() == 0 {
        assert(members_map(settled_pairs(pairs)) =~= settled_map(members_map(pairs)));
    } else {
        lemma_settled_members(pairs.drop_last());
        assert(settled_pairs(pairs).drop_last() =~= settled_pairs(pairs.drop_last()));
        assert(members_map(settled_pairs(pairs)) =~= settled_map(members_map(pairs)));
    }
}

/// `serde_json::Value::Null`.
#[verifier::external_body]
fn outside_null() -> (v: serde_json::Value)
    ensures
        outside_value(v) == JsonValue::Null,
{
    serde_json::Value::Null
}

/// `serde_json::Value::Bool`.
#[verifier::external_body]
fn outside_bool(b: bool) -> (v: serde_json::Value)
    ensures
        outside_value(v) == JsonValue::Bool(b),
{
    serde_json::Value::Bool(b)
}

/// `serde_json::Value::from` on a `u64`: the number itself.
#[verifier::external_body]
fn outside_uint(n: u64) -> (v: serde_json::Value)
    ensures
        outside_value(v) == JsonValue::Number(n as int),
{
    serde_json::Value::from(n)
}

/// `serde_json::Value::from` on an `i64`: the number itself.
#[verifier::external_body]
fn outside_int(n: i64) -> (v: serde_json::Value)
    ensures
        outside_value(v) == JsonValue::Number(n as int),
{
    serde_json::Value::from(n)
}

/// `serde_json::Value::String`.
#[verifier::external_body]
fn outside_text(s: &str) -> (v: serde_json::Value)
    ensures
        outside_value(v) == JsonValue::Text(s@),
{
    serde_json::Value::String(s.to_owned())
}

/// `serde_json::Value::Array`: the items in their order.
#[verifier::external_body]
fn outside_array(items: Vec<serde_json::Value>) -> (v: serde_json::Value)
    ensures
        outside_value(v) == JsonValue::Array(
            Seq::new(items@.len(), |i: int| outside_value(items@[i])),
        ),
{
    serde_json::Value::Array(items)
}

/// `serde_json::Map::new`: a map without keys.
#[verifier::external_body]
fn outside_map_new() -> (m: serde_json::Map<String, serde_json::Value>)
    ensures
        outside_entries(m) == no_members(),
{
    serde_json::Map::new()
}

/// `serde_json::Map::insert`: the map holds the value under the key; where
/// the key was present, its value is updated.
#[verifier::external_body]
fn outside_map_insert(
    m: &mut serde_json::Map<String, serde_json::Value>,
    key: String,
    value: serde_json::Value,
)
    ensures
        outside_entries(*final(m)) == outside_entries(*old(m)).insert(key@, outside_value(value)),
{
    m.insert(key, value);
}

/// `serde_json::Value::Object`: the object that holds what the map holds.
#[verifier::external_body]
fn outside_object(m: serde_json::Map<String, serde_json::Value>) -> (v: serde_json::Value)
    ensures
        outside_value(v) == JsonValue::Object(outside_entries(m)),
{
    serde_json::Value::Object(m)
}

/// `serde_json::from_str` for a `serde_json::Number`, made a
/// `serde_json::Value`: the number that the text is read as, and
/// `serde_json::Value::Null` where the text is no number.
#[verifier::external_body]
fn outside_real(text: &str) -> (v: serde_json::Value)
    ensures
        outside_value(v) == number_read(text@),
{
    match serde_json::from_str::<serde_json::Number>(text) {
        Ok(n) => serde_json::Value::Number(n),
        Err(_) => serde_json::Value::Null,
    }
}

/// `serde_json::to_string_pretty` on a `serde_json::Value`: the
/// pretty-printed text of what the value holds. The call succeeds: it is
/// documented to fail where the `Serialize` impl of the argument fails or a
/// map has keys that are no strings, and the impl of `Value` only hands its
/// parts to the printer, which writes into a `Vec`, and its maps are keyed
/// by `String`.
#[verifier::external_body]
fn outside_to_string_pretty(v: &serde_json::Value) -> (r: Result<String, serde_json::Error>)
    ensures
        match r {
            Ok(s) => s@ == json_pretty_text(outside_value(*v)),
            Err(_) => false,
        },
{
    serde_json::to_string_pretty(v)
}

/// `serde_json::to_string` on a `serde_json::Value`: the compact text of
/// what the value holds. The call succeeds, for the reasons given at
/// `outside_to_string_pretty`.
#[verifier::external_body]
fn outside_to_string(v: &serde_json::Value) -> (r: Result<String, serde_json::Error>)
    ensures
        match r {
            Ok(s) => s@ == json_text(outside_value(*v)),
            Err(_) => false,
        },
{
    serde_json::to_string(v)
}

/// `serde_json::from_str` for a `serde_json::Value`: the value that the
/// text holds, or the failure to read it.
#[verifier::external_body]
fn outside_parse(text: &str) -> (r: Result<serde_json::Value, serde_json::Error>)
    ensures
        match r {
            Ok(v) => json_read(text@) == Some(outside_value(v)),
            Err(_) => json_read(text@) is None,
        },
{
    serde_json::from_str(text)
}

/// `serde_json::Value::as_bool`: the truth value of a Boolean.
#[verifier::external_body]
fn outside_as_bool(v: &serde_json::Value) -> (r: Option<bool>)
    ensures
        r == outside_value(*v).as_bool(),
{
    v.as_bool()
}

/// `serde_json::Value::as_u64`: the number, where the value is a whole
/// number that fits `u64`.
#[verifier::external_body]
fn outside_as_u64(v: &serde_json::Value) -> (r: Option<u64>)
    ensures
        r == outside_value(*v).as_uint(),
{
    v.as_u64()
}

/// `serde_json::Value::as_i64`: the number, where the value is a whole
/// number that fits `i64`.
#[verifier::external_body]
fn outside_as_i64(v: &serde_json::Value) -> (r: Option<i64>)
    ensures
        r == outside_value(*v).as_int(),
{
    v.as_i64()
}

/// `serde_json::Value::as_number`, printed by the `Display` of
/// `serde_json::Number`: the text of a number. A whole number is held as
/// a `u64` or an `i64`; every other number is held by its text.
#[verifier::external_body]
fn outside_number_text(v: &serde_json::Value) -> (r: Option<String>)
    ensures
        match r {
            Some(t) => (outside_value(*v) matches JsonValue::Number(n) && i64::MIN <= n
                <= u64::MAX) || outside_value(*v) == JsonValue::Real(t@),
            None => !(outside_value(*v) is Number) && !(outside_value(*v) is Real),
        },
{
    v.as_number().map(|n| n.to_string())
}

/// `serde_json::Value::as_str`: the characters of a string.
#[verifier::external_body]
fn outside_as_str(v: &serde_json::Value) -> (r: Option<&str>)
    ensures
        r.deep_view() == outside_value(*v).as_text(),
{
    v.as_str()
}

/// `serde_json::Value::as_array`: the items of an array.
#[verifier::external_body]
fn outside_as_array(v: &serde_json::Value) -> (r: Option<&Vec<serde_json::Value>>)
    ensures
        match r {
            Some(items) => outside_value(*v) == JsonValue::Array(
                Seq::new(items@.len(), |i: int| outside_value(items@[i])),
            ),
            None => !(outside_value(*v) is Array),
        },
{
    v.as_array()
}

/// `serde_json::Value::as_object` and `serde_json::Map::iter`: the
/// members of an object. No name occurs twice among them.
#[verifier::external_body]
fn outside_members(v: &serde_json::Value) -> (r: Option<Vec<(&String, &serde_json::Value)>>)
    ensures
        match r {
            Some(members) => outside_value(*v) == JsonValue::Object(
                members_map(
                    Seq::new(
                        members@.len(),
                        |i: int| (members@[i].0@, outside_value(*members@[i].1)),
                    ),
                ),
            ) && forall|a: int, b: int|
                0 <= a < b < members@.len() ==> (#[trigger] members@[a]).0@ != (
                #[trigger] members@[b]).0@,
            None => !(outside_value(*v) is Object),
        },
{
    v.as_object().map(|m| m.iter().collect())
}

/// The message of a `serde_json::Error`, as its `Display` prints it.
#[verifier::external_body]
fn outside_error_text(e: &serde_json::Error) -> String {
    e.to_string()
}

impl Json {
    /// The same document as a value of the JSON crate.
    #[verifier::loop_isolation(false)]
    fn to_outside(&self) -> (v: serde_json::Value)
        ensures
            outside_value(v) == settled(self@),
        decreases self,
    {
        match self {
            Json::Null => outside_null(),
            Json::Bool(b) => outside_bool(*b),
            Json::UInt(n) => outside_uint(*n),
            Json::Int(n) => outside_int(*n),
            Json::Real(s) => outside_real(s.as_str()),
            Json::Text(s) => outside_text(s.as_str()),
            Json::Array(items) => {
                let mut out: Vec<serde_json::Value> = Vec::new();
                let mut i: usize = 0;
                while i < items.len()
                    invariant
                        i <= items.len(),
                        out.len() == i,
                        forall|j: int| 0 <= j < i ==> outside_value(out@[j]) == settled(items@[j]@),
                    decreases items.len() - i,
                {
                    let c = items[i].to_outside();
                    out.push(c);
                    i += 1;
                }
                proof {
                    lemma_array_view(*items);
                    let a = items.deep_view();
                    assert(self@ == JsonValue::Array(a));
                    assert(Seq::new(out@.len(), |i: int| outside_value(out@[i])) =~= settled(
                        JsonValue::Array(a),
                    )->Array_0);
                }
                outside_array(out)
            },
            Json::Object(members) => {
                let ghost pairs = settled_pairs(members.deep_view());
                let mut out = outside_map_new();
                let mut i: usize = 0;
                assert(pairs.take(0) =~= Seq::<(Seq<char>, JsonValue)>::empty());
                while i < members.len()
                    invariant
                        i <= members.len(),
                        pairs == settled_pairs(members.deep_view()),
                        outside_entries(out) == members_map(pairs.take(i as int)),
                    decreases members.len() - i,
                {
                    let c = members[i].1.to_outside();
                    let key = members[i].0.clone();
                    proof {
                        let next = pairs.take(i + 1);
                        assert(next.drop_last() =~= pairs.take(i as int));
                        assert(members.deep_view()[i as int] == (members@[i as int].0@, members@[i as int].1@));
                        assert(next.last() == (key@, outside_value(c)));
                    }
                    outside_map_insert(&mut out, key, c);
                    i += 1;
                }
                proof {
                    assert(pairs.take(i as int) =~= pairs);
                    lemma_object_view(*members);
                    lemma_settled_members(members.deep_view());
                    let m = members_map(members.deep_view());
                    assert(settled_map(m) =~= settled(JsonValue::Object(m))->Object_0);
                }
                outside_object(out)
            },
        }
    }

    /// The compact JSON text of the document. The printer does not fail
    /// on a document; the error is there for its message if it ever did.
    pub fn to_text(&self) -> (r: Result<String, String>)
        ensures
            r matches Ok(s) && s@ == printed(self@),
    {
        let v = self.to_outside();
        match outside_to_string(&v) {
            Ok(s) => Ok(s),
            Err(e) => Err(outside_error_text(&e)),
        }
    }

    /// The pretty-printed JSON text of the document. The printer does not
    /// fail on a document; the error is there for its message if it ever did.
    pub fn to_text_pretty(&self) -> (r: Result<String, String>)
        ensures
            r matches Ok(s) && s@ == pretty_printed(self@),
    {
        let v = self.to_outside();
        match outside_to_string_pretty(&v) {
            Ok(s) => Ok(s),
            Err(e) => Err(outside_error_text(&e)),
        }
    }
}

impl Json {
    /// The document that a value of the JSON crate holds.
    #[verifier::loop_isolation(false)]
    fn from_outside(v: &serde_json::Value) -> (j: Json)
        ensures
            j@ == outside_value(*v),
        decreases outside_value(*v),
    {
        if let Some(b) = outside_as_bool(v) {
            return Json::Bool(b);
        }
        if let Some(n) = outside_as_u64(v) {
            return Json::UInt(n);
        }
        if let Some(n) = outside_as_i64(v) {
            return Json::Int(n);
        }
        if let Some(t) = outside_number_text(v) {
            return Json::Real(t);
        }
        if let Some(s) = outside_as_str(v) {
            return Json::Text(s.to_owned());
        }
        if let Some(items) = outside_as_array(v) {
            let ghost values = Seq::new(items@.len(), |i: int| outside_value(items@[i]));
            let mut out: Vec<Json> = Vec::new();
            let mut i: usize = 0;
            while i < items.len()
                invariant
                    i <= items.len(),
                    out.len() == i,
                    forall|k: int| 0 <= k < i ==> out@[k]@ == outside_value(items@[k]),
                decreases items.len() - i,
            {
                proof {
                    assert(values[i as int] == outside_value(items@[i as int]));
                    let whole = outside_value(*v);
                    assert(whole == JsonValue::Array(values));
                    assert(decreases_to!(whole => whole->Array_0));
                    assert(decreases_to!(whole->Array_0 => whole->Array_0[i as int]));
                    assert(decreases_to!(whole => whole->Array_0[i as int]));
                }
                out.push(Json::from_outside(&items[i]));
                i += 1;
            }
            assert(out.deep_view() =~= values);
            return Json::array(out);
        }
        if let Some(members) = outside_members(v) {
            let ghost pairs = Seq::new(
                members@.len(),
                |i: int| (members@[i].0@, outside_value(*members@[i].1)),
            );
            let mut out: Vec<(String, Json)> = Vec::new();
            let mut i: usize = 0;
            while i < members.len()
                invariant
                    i <= members.len(),
                    out.len() == i,
                    forall|k: int|
                        0 <= k < i ==> out@[k].0@ == members@[k].0@ && out@[k].1@ == outside_value(
                            *members@[k].1,
                        ),
                decreases members.len() - i,
            {
                proof {
                    assert(pairs[i as int] == (members@[i as int].0@, outside_value(*members@[i as int].1)));
                    assert forall|k: int| i < k < pairs.len() implies pairs[k].0 != pairs[i as int].0 by {
                        assert(members@[i as int].0@ != members@[k].0@);
                    }
                    lemma_members_map_found(pairs, pairs[i as int].0, i as int);
                    let m = members_map(pairs);
                    assert(outside_value(*v) == JsonValue::Object(m));
                    assert(m.contains_key(pairs[i as int].0));
                    assert(m[pairs[i as int].0] == outside_value(*members@[i as int].1));
                    let whole = outside_value(*v);
                    let key = pairs[i as int].0;
                    assert(whole->Object_0 == m);
                    lemma_members_map_finite(pairs);
                    assert(decreases_to!(whole => whole->Object_0));
                    assert(decreases_to!(whole->Object_0 => whole->Object_0[key]));
                    assert(decreases_to!(whole => whole->Object_0[key]));
                }
                let value = Json::from_outside(members[i].1);
                out.push((members[i].0.clone(), value));
                i += 1;
            }
            assert(out.deep_view() =~= pairs);
            return Json::object(out);
        }
        Json::Null
    }

    /// The document that a JSON text holds, or the reader's message where
    /// the text is no JSON.
    pub fn parse(text: &str) -> (r: Result<Json, String>)
        ensures
            match json_read(text@) {
                Some(v) => r matches Ok(j) && j@ == v,
                None => r is Err,
            },
    {
        match outside_parse(text) {
            Ok(v) => Ok(Json::from_outside(&v)),
            Err(e) => Err(outside_error_text(&e)),
        }
    }
}

} // verus!
