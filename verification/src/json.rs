//! JSON values: a tree of the library's own, what it denotes, and the way to
//! and from the values of `serde_json`.

use serde_json::{Number, Value};

use crate::members::spelled;
use crate::text::{
    lemma_less_total, lemma_less_transitive, less, opt_slice, opt_str, same, text_less, trimmed,
};
use vstd::prelude::*;

verus! {

/// A JSON tree as `serde_json` holds it.
#[verifier::external_type_specification]
#[verifier::external_body]
pub struct ExValue(Value);

/// A JSON number as `serde_json` holds it.
#[verifier::external_type_specification]
#[verifier::external_body]
pub struct ExNumber(Number);

/// What a JSON number denotes: an integer, or a number that is no integer.
pub enum NumView {
    Int(int),
    Float(Number),
}

/// What a JSON value denotes. An object is a map: it has no order, and each key
/// occurs once.
pub enum JsonView {
    Null,
    Bool(bool),
    Num(NumView),
    Str(Seq<char>),
    Arr(Seq<JsonView>),
    Obj(Map<Seq<char>, JsonView>),
}

/// A JSON value. Of two members with the same key the later one counts.
#[derive(Debug, PartialEq)]
pub enum Json {
    Null,
    Bool(bool),
    Uint(u64),
    Int(i64),
    Num(Number),
    Str(String),
    Arr(Vec<Json>),
    Obj(Vec<(String, Json)>),
}

/// One level of a `serde_json` tree.
pub enum JsonPart {
    Null,
    Bool(bool),
    Uint(u64),
    Int(i64),
    Num(Number),
    Str(String),
    Arr(Vec<Value>),
    Obj(Vec<(String, Value)>),
}

/// What a `serde_json::Value` holds.
pub uninterp spec fn value_view(v: Value) -> JsonView;

/// What a `serde_json::Number` holds.
pub uninterp spec fn number_view(n: Number) -> NumView;

/// What `serde_json::from_str` makes of a text: the value, or the text of the
/// error.
pub uninterp spec fn serde_parse(text: Seq<char>) -> Result<JsonView, Seq<char>>;

/// The compact text that `serde_json` writes for a value.
pub uninterp spec fn serde_print(v: JsonView) -> Seq<char>;

/// The indented text that `serde_json` writes for a value.
pub uninterp spec fn serde_pretty(v: JsonView) -> Seq<char>;

/// Whether a value is an object with a member.
pub open spec fn has_member(v: JsonView) -> bool {
    v matches JsonView::Obj(m) && exists|k: Seq<char>| m.contains_key(k)
}

/// Whether a text begins like an object with a member.
pub open spec fn opens_object(s: Seq<char>) -> bool {
    s.len() >= 2 && s[0] == '{' && s[1] == '"'
}

/// A value without fractions, nested at most so deep.
pub open spec fn plain(v: JsonView, depth: nat) -> bool
    decreases depth,
{
    match v {
        JsonView::Null | JsonView::Bool(_) | JsonView::Str(_) => true,
        JsonView::Num(n) => n is Int,
        JsonView::Arr(s) => depth > 0 && forall|i: int|
            0 <= i < s.len() ==> plain(#[trigger] s[i], (depth - 1) as nat),
        JsonView::Obj(m) => depth > 0 && forall|k: Seq<char>|
            m.contains_key(k) ==> plain(#[trigger] m[k], (depth - 1) as nat),
    }
}

/// The nesting that `serde_json` reads back.
pub const MAX_DEPTH: u8 = 127;

/// The text that `Debug` writes for a `serde_json::Value`.
pub uninterp spec fn serde_debug(v: JsonView) -> Seq<char>;

/// A number with four places after the point; nothing for a value that is none.
pub uninterp spec fn four_places(v: JsonView) -> Option<Seq<char>>;

/// The members of an object, in the order in which they were set.
pub open spec fn value_members(s: Seq<(String, Value)>) -> Map<Seq<char>, JsonView>
    decreases s.len(),
{
    if s.len() == 0 {
        Map::empty()
    } else {
        value_members(s.drop_last()).insert(s.last().0@, value_view(s.last().1))
    }
}

/// No two members have the same key.
pub open spec fn distinct_keys(s: Seq<(String, Value)>) -> bool {
    forall|i: int, j: int| 0 <= i < j < s.len() ==> (#[trigger] s[i]).0@ != (#[trigger] s[j]).0@
}

/// What one level of a tree denotes.
pub open spec fn part_view(p: JsonPart) -> JsonView {
    match p {
        JsonPart::Null => JsonView::Null,
        JsonPart::Bool(b) => JsonView::Bool(b),
        JsonPart::Uint(u) => JsonView::Num(NumView::Int(u as int)),
        JsonPart::Int(i) => JsonView::Num(NumView::Int(i as int)),
        JsonPart::Num(n) => JsonView::Num(number_view(n)),
        JsonPart::Str(s) => JsonView::Str(s@),
        JsonPart::Arr(v) => JsonView::Arr(v@.map_values(|x: Value| value_view(x))),
        JsonPart::Obj(v) => JsonView::Obj(value_members(v@)),
    }
}

/// What a JSON value denotes.
pub open spec fn json_view(j: Json) -> JsonView
    decreases j,
{
    match j {
        Json::Null => JsonView::Null,
        Json::Bool(b) => JsonView::Bool(b),
        Json::Uint(u) => JsonView::Num(NumView::Int(u as int)),
        Json::Int(i) => JsonView::Num(NumView::Int(i as int)),
        Json::Num(n) => JsonView::Num(number_view(n)),
        Json::Str(s) => JsonView::Str(s@),
        Json::Arr(v) => JsonView::Arr(items_view(v@)),
        Json::Obj(v) => JsonView::Obj(members_view(v@)),
    }
}

/// What the items of an array denote.
pub open spec fn items_view(s: Seq<Json>) -> Seq<JsonView>
    decreases s,
{
    Seq::new(
        s.len(),
        |i: int|
            if 0 <= i < s.len() {
                json_view(s[i])
            } else {
                JsonView::Null
            },
    )
}

/// What the members of an object denote.
pub open spec fn members_view(s: Seq<(String, Json)>) -> Map<Seq<char>, JsonView>
    decreases s,
{
    if s.len() == 0 {
        Map::empty()
    } else {
        members_view(s.drop_last()).insert(s.last().0@, json_view(s.last().1))
    }
}

impl View for Json {
    type V = JsonView;

    open spec fn view(&self) -> JsonView {
        json_view(*self)
    }
}

/// `serde_json::from_str` into a `Value`: the value that the text denotes, or
/// the text of the error. Both are a function of the text.
#[verifier::external_body]
fn parse_value(text: &str) -> (r: Result<Value, String>)
    ensures
        match r {
            Ok(v) => serde_parse(text@) == Ok::<JsonView, Seq<char>>(value_view(v)),
            Err(e) => serde_parse(text@) == Err::<JsonView, Seq<char>>(e@),
        },
{
    serde_json::from_str::<Value>(text).map_err(|e| e.to_string())
}

/// Takes one level off a `Value`: its variant with the fields in it. The members
/// of an object come out of `serde_json::Map` as pairs, each key once.
#[verifier::external_body]
fn open_value(v: Value) -> (p: JsonPart)
    ensures
        part_view(p) == value_view(v),
        p is Obj ==> distinct_keys(p->Obj_0@),
{
    match v {
        Value::Null => JsonPart::Null,
        Value::Bool(b) => JsonPart::Bool(b),
        Value::Number(n) => JsonPart::Num(n),
        Value::String(s) => JsonPart::Str(s),
        Value::Array(a) => JsonPart::Arr(a),
        Value::Object(m) => JsonPart::Obj(m.into_iter().collect()),
    }
}

/// Puts one level on: the `Value` with these fields. An empty `serde_json::Map` is
/// extended by the members in order, so that a later one updates the entry of an
/// earlier one with the same key.
#[verifier::external_body]
fn close_value(p: JsonPart) -> (v: Value)
    ensures
        value_view(v) == part_view(p),
{
    match p {
        JsonPart::Null => Value::Null,
        JsonPart::Bool(b) => Value::Bool(b),
        JsonPart::Uint(u) => Value::from(u),
        JsonPart::Int(i) => Value::from(i),
        JsonPart::Num(n) => Value::Number(n),
        JsonPart::Str(s) => Value::String(s),
        JsonPart::Arr(a) => Value::Array(a),
        JsonPart::Obj(m) => {
            let mut members = serde_json::Map::new();
            members.extend(m);
            Value::Object(members)
        },
    }
}

/// The `Display` of a `Value`: its compact JSON text, which is never blank. That of an
/// object with a member begins with a brace and the quote of a key.
/// `serde_json::from_str` reads the same value out of it where the value holds no
/// fraction, which may lose its last digit, and is not nested deeper than the parser
/// goes.
#[verifier::external_body]
fn print_value(v: &Value) -> (r: String)
    ensures
        r@ == serde_print(value_view(*v)),
        trimmed(r@).len() > 0,
        opens_object(r@) || !has_member(value_view(*v)),
        match serde_parse(r@) {
            Ok(w) => plain(value_view(*v), MAX_DEPTH as nat) ==> w == value_view(*v),
            Err(_) => !plain(value_view(*v), MAX_DEPTH as nat),
        },
{
    v.to_string()
}

/// `Number::as_u64` gives the integer where it fits in a `u64`.
pub assume_specification[ Number::as_u64 ](n: &Number) -> (r: Option<u64>)
    ensures
        r == number_u64(number_view(*n)),
;

/// `Number::as_i64` gives the integer where it fits in an `i64`.
pub assume_specification[ Number::as_i64 ](n: &Number) -> (r: Option<i64>)
    ensures
        r == number_i64(number_view(*n)),
;

/// A cloned `Number` is the same number.
pub assume_specification[ <Number as Clone>::clone ](n: &Number) -> (r: Number)
    ensures
        r == *n,
;

/// The number as a `u64`, where it is an integer in that range.
pub open spec fn number_u64(n: NumView) -> Option<u64> {
    match n {
        NumView::Int(k) if 0 <= k <= u64::MAX => Some(k as u64),
        _ => None,
    }
}

/// The number as an `i64`, where it is an integer in that range.
pub open spec fn number_i64(n: NumView) -> Option<i64> {
    match n {
        NumView::Int(k) if i64::MIN <= k <= i64::MAX => Some(k as i64),
        _ => None,
    }
}

impl JsonView {
    /// The member of an object.
    pub open spec fn get(self, key: Seq<char>) -> Option<JsonView> {
        match self {
            JsonView::Obj(m) if m.dom().contains(key) => Some(m[key]),
            _ => None,
        }
    }

    /// The text of a string.
    pub open spec fn as_str(self) -> Option<Seq<char>> {
        match self {
            JsonView::Str(s) => Some(s),
            _ => None,
        }
    }

    /// The value of a boolean.
    pub open spec fn as_bool(self) -> Option<bool> {
        match self {
            JsonView::Bool(b) => Some(b),
            _ => None,
        }
    }

    /// The value of an integer that fits in a `u64`.
    pub open spec fn as_u64(self) -> Option<u64> {
        match self {
            JsonView::Num(n) => number_u64(n),
            _ => None,
        }
    }

    /// The value of an integer that fits in an `i64`.
    pub open spec fn as_i64(self) -> Option<i64> {
        match self {
            JsonView::Num(n) => number_i64(n),
            _ => None,
        }
    }

    /// The items of an array.
    pub open spec fn as_arr(self) -> Option<Seq<JsonView>> {
        match self {
            JsonView::Arr(s) => Some(s),
            _ => None,
        }
    }

    /// The value that stands for a missing one.
    pub open spec fn or_null(v: Option<JsonView>) -> JsonView {
        match v {
            Some(x) => x,
            None => JsonView::Null,
        }
    }

    /// The member with this key, or null.
    pub open spec fn at(self, key: Seq<char>) -> JsonView {
        JsonView::or_null(self.get(key))
    }

    /// The text of a member, or a text in place of it.
    pub open spec fn str_or(self, key: Seq<char>, default: Seq<char>) -> Seq<char> {
        match self.at(key).as_str() {
            Some(s) => s,
            None => default,
        }
    }

    /// The natural number in a member, or zero.
    pub open spec fn u64_or_zero(self, key: Seq<char>) -> u64 {
        match self.at(key).as_u64() {
            Some(n) => n,
            None => 0,
        }
    }

    /// The integer in a member, or a number in place of it.
    pub open spec fn i64_or(self, key: Seq<char>, default: i64) -> i64 {
        match self.at(key).as_i64() {
            Some(n) => n,
            None => default,
        }
    }

    /// Whether a member is the boolean true.
    pub open spec fn true_at(self, key: Seq<char>) -> bool {
        self.at(key).as_bool() == Some(true)
    }
}

impl Clone for Json {
    fn clone(&self) -> (r: Json)
        ensures
            r@ == self@,
    {
        self.copy()
    }
}

/// A string.
pub open spec fn jstr(s: Seq<char>) -> JsonView {
    JsonView::Str(s)
}

/// An integer.
pub open spec fn jint(n: int) -> JsonView {
    JsonView::Num(NumView::Int(n))
}

/// Strings as the items of an array.
pub open spec fn str_items(s: Seq<String>) -> Seq<JsonView> {
    s.map_values(|x: String| JsonView::Str(x@))
}

/// What a borrowed value denotes.
pub open spec fn opt_json(o: Option<&Json>) -> Option<JsonView> {
    match o {
        Some(j) => Some(j@),
        None => None,
    }
}

/// A later member with another key does not hide an earlier one.
proof fn lemma_members_step(s: Seq<(String, Json)>, i: int)
    requires
        0 <= i < s.len(),
    ensures
        members_view(s.take(i + 1)) == members_view(s.take(i)).insert(s[i].0@, json_view(s[i].1)),
{
    assert(s.take(i + 1).drop_last() =~= s.take(i));
}

/// The last member with a key is the one that counts.
proof fn lemma_last_member(s: Seq<(String, Json)>, i: int, key: Seq<char>)
    requires
        0 <= i < s.len(),
        s[i].0@ == key,
        forall|j: int| i < j < s.len() ==> (#[trigger] s[j]).0@ != key,
    ensures
        members_view(s).dom().contains(key),
        members_view(s)[key] == json_view(s[i].1),
    decreases s.len(),
{
    if i < s.len() - 1 {
        let t = s.drop_last();
        assert forall|j: int| i < j < t.len() implies (#[trigger] t[j]).0@ != key by {
            assert(t[j] == s[j]);
        }
        lemma_last_member(t, i, key);
        assert(s[s.len() - 1].0@ != key);
    }
}

/// A key that no member has is not in the object.
proof fn lemma_no_member(s: Seq<(String, Json)>, key: Seq<char>)
    requires
        forall|j: int| 0 <= j < s.len() ==> (#[trigger] s[j]).0@ != key,
    ensures
        !members_view(s).dom().contains(key),
    decreases s.len(),
{
    if s.len() > 0 {
        let t = s.drop_last();
        assert forall|j: int| 0 <= j < t.len() implies (#[trigger] t[j]).0@ != key by {
            assert(t[j] == s[j]);
        }
        lemma_no_member(t, key);
        assert(s[s.len() - 1].0@ != key);
    }
}

/// Taking out a member that is set again changes nothing.
proof fn lemma_reset_member(s: Seq<(String, Json)>, i: int, key: Seq<char>, v: JsonView)
    requires
        0 <= i < s.len(),
        s[i].0@ == key,
    ensures
        members_view(s.remove(i)).insert(key, v) == members_view(s).insert(key, v),
    decreases s.len(),
{
    if i == s.len() - 1 {
        assert(s.remove(i) =~= s.drop_last());
        assert(members_view(s.remove(i)).insert(key, v) =~= members_view(s).insert(key, v));
    } else {
        let t = s.drop_last();
        lemma_reset_member(t, i, key, v);
        assert(s.remove(i).drop_last() =~= t.remove(i));
        assert(s.remove(i).last() == s.last());
        let a = members_view(t.remove(i));
        let b = members_view(t);
        let k = s.last().0@;
        let w = json_view(s.last().1);
        assert(a.insert(key, v) == b.insert(key, v));
        assert forall|x: Seq<char>| x != key implies a.dom().contains(x) == b.dom().contains(x) by {
            assert(a.insert(key, v).dom().contains(x) == b.insert(key, v).dom().contains(x));
        }
        assert forall|x: Seq<char>| x != key && a.dom().contains(x) implies a[x] == b[x] by {
            assert(a.insert(key, v)[x] == b.insert(key, v)[x]);
        }
        let c = a.insert(k, w).insert(key, v);
        let d = b.insert(k, w).insert(key, v);
        assert forall|x: Seq<char>| c.dom().contains(x) == d.dom().contains(x) by {
            if x != key && x != k {
                assert(a.dom().contains(x) == b.dom().contains(x));
            }
        }
        assert(c =~= d);
    }
}

/// What an array denotes, item by item.
pub proof fn lemma_items(s: Seq<Json>)
    ensures
        items_view(s).len() == s.len(),
        forall|i: int| 0 <= i < s.len() ==> #[trigger] items_view(s)[i] == json_view(s[i]),
{
}

/// One more item.
pub proof fn lemma_items_push(s: Seq<Json>, j: Json)
    ensures
        items_view(s.push(j)) == items_view(s).push(json_view(j)),
{
    lemma_items(s);
    lemma_items(s.push(j));
    assert(items_view(s.push(j)) =~= items_view(s).push(json_view(j)));
}

/// The position of the last member with this key.
fn find_member(members: &Vec<(String, Json)>, key: &str) -> (r: Option<usize>)
    ensures
        match r {
            Some(i) => i < members@.len() && members@[i as int].0@ == key@ && members_view(
                members@,
            ).dom().contains(key@) && members_view(members@)[key@] == members@[i as int].1@,
            None => !members_view(members@).dom().contains(key@),
        },
{
    let mut i: usize = members.len();
    while i > 0
        invariant
            i <= members@.len(),
            forall|j: int| i <= j < members@.len() ==> (#[trigger] members@[j]).0@ != key@,
        decreases i,
    {
        i -= 1;
        if same(members[i].0.as_str(), key) {
            proof {
                lemma_last_member(members@, i as int, key@);
            }
            return Some(i);
        }
    }
    proof {
        lemma_no_member(members@, key@);
    }
    None
}

impl Json {
    /// The member of an object.
    pub fn get(&self, key: &str) -> (r: Option<&Json>)
        ensures
            opt_json(r) == self@.get(key@),
    {
        match self {
            Json::Obj(members) => match find_member(members, key) {
                Some(i) => Some(&members[i].1),
                None => None,
            },
            _ => None,
        }
    }

    /// The text of a string.
    pub fn as_str(&self) -> (r: Option<&str>)
        ensures
            crate::text::opt_slice(r) == self@.as_str(),
    {
        match self {
            Json::Str(s) => Some(s.as_str()),
            _ => None,
        }
    }

    /// The value of a boolean.
    pub fn as_bool(&self) -> (r: Option<bool>)
        ensures
            r == self@.as_bool(),
    {
        match self {
            Json::Bool(b) => Some(*b),
            _ => None,
        }
    }

    /// The value of an integer that fits in a `u64`.
    pub fn as_u64(&self) -> (r: Option<u64>)
        ensures
            r == self@.as_u64(),
    {
        match self {
            Json::Uint(u) => Some(*u),
            Json::Int(i) => if *i >= 0 {
                Some(*i as u64)
            } else {
                None
            },
            Json::Num(n) => n.as_u64(),
            _ => None,
        }
    }

    /// The value of an integer that fits in an `i64`.
    pub fn as_i64(&self) -> (r: Option<i64>)
        ensures
            r == self@.as_i64(),
    {
        match self {
            Json::Uint(u) => if *u <= 0x7fff_ffff_ffff_ffff {
                Some(*u as i64)
            } else {
                None
            },
            Json::Int(i) => Some(*i),
            Json::Num(n) => n.as_i64(),
            _ => None,
        }
    }

    /// The items of an array.
    pub fn as_arr(&self) -> (r: Option<&Vec<Json>>)
        ensures
            match r {
                Some(v) => self@.as_arr() == Some(items_view(v@)),
                None => self@.as_arr() is None,
            },
    {
        match self {
            Json::Arr(v) => Some(v),
            _ => None,
        }
    }

    /// Whether the value is an object.
    pub fn is_object(&self) -> (r: bool)
        ensures
            r == (self@ is Obj),
    {
        match self {
            Json::Obj(_) => true,
            _ => false,
        }
    }

    /// Sets a member of an object. Another value is left as it is.
    pub fn set(&mut self, key: &str, value: Json)
        ensures
            final(self)@ == (match old(self)@ {
                JsonView::Obj(m) => JsonView::Obj(m.insert(key@, value@)),
                other => other,
            }),
    {
        let mut whole: Json = Json::Null;
        core::mem::swap(self, &mut whole);
        match whole {
            Json::Obj(mut members) => {
                let ghost before = members@;
                match find_member(&members, key) {
                    Some(i) => {
                        proof {
                            lemma_reset_member(before, i as int, key@, value@);
                        }
                        members.remove(i);
                        members.push((key.to_owned(), value));
                        assert(members@.drop_last() =~= before.remove(i as int));
                    },
                    None => {
                        members.push((key.to_owned(), value));
                        assert(members@.drop_last() =~= before);
                    },
                }
                *self = Json::Obj(members);
            },
            other => {
                *self = other;
            },
        }
    }

    /// An object without members.
    pub fn object() -> (r: Json)
        ensures
            r@ == JsonView::Obj(Map::empty()),
    {
        Json::Obj(Vec::new())
    }

    /// A string.
    pub fn text(s: &str) -> (r: Json)
        ensures
            r@ == JsonView::Str(s@),
    {
        Json::Str(s.to_owned())
    }

    /// The object with one more member set.
    pub fn with(self, key: &str, value: Json) -> (r: Json)
        requires
            self@ is Obj,
        ensures
            r@ == JsonView::Obj(self@->Obj_0.insert(key@, value@)),
    {
        let mut whole: Json = self;
        whole.set(key, value);
        whole
    }

    /// The text of a member.
    pub fn str_at(&self, key: &str) -> (r: Option<&str>)
        ensures
            crate::text::opt_slice(r) == self@.at(key@).as_str(),
    {
        match self.get(key) {
            Some(j) => j.as_str(),
            None => None,
        }
    }

    /// The text of a member, or a text in place of it.
    pub fn str_or(&self, key: &str, default: &str) -> (r: String)
        ensures
            r@ == self@.str_or(key@, default@),
    {
        match self.str_at(key) {
            Some(s) => s.to_owned(),
            None => default.to_owned(),
        }
    }

    /// The natural number in a member, or zero.
    pub fn u64_or_zero(&self, key: &str) -> (r: u64)
        ensures
            r == self@.u64_or_zero(key@),
    {
        match self.get(key) {
            Some(j) => match j.as_u64() {
                Some(n) => n,
                None => 0,
            },
            None => 0,
        }
    }

    /// The integer in a member, or a number in place of it.
    pub fn i64_or(&self, key: &str, default: i64) -> (r: i64)
        ensures
            r == self@.i64_or(key@, default),
    {
        match self.get(key) {
            Some(j) => match j.as_i64() {
                Some(n) => n,
                None => default,
            },
            None => default,
        }
    }

    /// Whether a member is the boolean true.
    pub fn true_at(&self, key: &str) -> (r: bool)
        ensures
            r == self@.true_at(key@),
    {
        match self.get(key) {
            Some(j) => match j.as_bool() {
                Some(b) => b,
                None => false,
            },
            None => false,
        }
    }

    /// A copy of the value.
    fn copy(&self) -> (r: Json)
        ensures
            r@ == self@,
        decreases self,
    {
        match self {
            Json::Null => Json::Null,
            Json::Bool(b) => Json::Bool(*b),
            Json::Uint(u) => Json::Uint(*u),
            Json::Int(i) => Json::Int(*i),
            Json::Num(n) => Json::Num(n.clone()),
            Json::Str(s) => Json::Str(s.clone()),
            Json::Arr(v) => {
                let mut out: Vec<Json> = Vec::new();
                let mut i: usize = 0;
                while i < v.len()
                    invariant
                        i <= v@.len(),
                        *self == Json::Arr(*v),
                        items_view(out@) == items_view(v@).take(i as int),
                    decreases v@.len() - i,
                {
                    assert(decreases_to!(*self => self->Arr_0));
                    assert(decreases_to!(*v => v@));
                    assert(decreases_to!(v@ => v@[i as int]));
                    let item: Json = v[i].copy();
                    proof {
                        lemma_items_push(out@, item);
                        lemma_items(v@);
                        assert(items_view(v@).take(i + 1) =~= items_view(v@).take(i as int).push(
                            json_view(v@[i as int]),
                        ));
                    }
                    out.push(item);
                    i += 1;
                }
                assert(items_view(v@).take(v@.len() as int) =~= items_view(v@));
                Json::Arr(out)
            },
            Json::Obj(v) => {
                let mut out: Vec<(String, Json)> = Vec::new();
                let mut i: usize = 0;
                while i < v.len()
                    invariant
                        i <= v@.len(),
                        *self == Json::Obj(*v),
                        members_view(out@) == members_view(v@.take(i as int)),
                    decreases v@.len() - i,
                {
                    assert(decreases_to!(*self => self->Obj_0));
                    assert(decreases_to!(*v => v@));
                    assert(decreases_to!(v@ => v@[i as int]));
                    assert(decreases_to!(v@[i as int] => v@[i as int].1));
                    let item: Json = v[i].1.copy();
                    let ghost before = out@;
                    out.push((v[i].0.clone(), item));
                    assert(out@.drop_last() =~= before);
                    proof {
                        lemma_members_step(v@, i as int);
                    }
                    i += 1;
                }
                assert(v@.take(v@.len() as int) =~= v@);
                Json::Obj(out)
            },
        }
    }
}

/// What the values in an array hold.
spec fn values_view(s: Seq<Value>) -> Seq<JsonView> {
    s.map_values(|x: Value| value_view(x))
}

/// Where the keys are distinct, each member is in the object.
proof fn lemma_value_member(s: Seq<(String, Value)>, i: int)
    requires
        0 <= i < s.len(),
        distinct_keys(s),
    ensures
        value_members(s).dom().contains(s[i].0@),
        value_members(s)[s[i].0@] == value_view(s[i].1),
        value_members(s).dom().finite(),
    decreases s.len(),
{
    let t = s.drop_last();
    assert(distinct_keys(t));
    lemma_value_members_finite(t);
    if i < s.len() - 1 {
        assert(t[i] == s[i]);
        lemma_value_member(t, i);
        assert(s[i].0@ != s[s.len() - 1].0@);
    }
}

/// An object has finitely many members.
proof fn lemma_value_members_finite(s: Seq<(String, Value)>)
    ensures
        value_members(s).dom().finite(),
    decreases s.len(),
{
    if s.len() > 0 {
        lemma_value_members_finite(s.drop_last());
    }
}

/// Reads a whole tree, level by level.
fn from_value(v: Value) -> (r: Json)
    ensures
        r@ == value_view(v),
    decreases value_view(v),
{
    let ghost whole = value_view(v);
    match open_value(v) {
        JsonPart::Null => Json::Null,
        JsonPart::Bool(b) => Json::Bool(b),
        JsonPart::Uint(u) => Json::Uint(u),
        JsonPart::Int(i) => Json::Int(i),
        JsonPart::Num(n) => {
            if let Some(u) = n.as_u64() {
                Json::Uint(u)
            } else if let Some(i) = n.as_i64() {
                Json::Int(i)
            } else {
                Json::Num(n)
            }
        },
        JsonPart::Str(s) => Json::Str(s),
        JsonPart::Arr(items) => {
            let ghost all = items@;
            let mut out: Vec<Json> = Vec::new();
            assert(values_view(all).take(0) =~= items_view(out@));
            for x in it: items
                invariant
                    it.seq() == all,
                    whole == value_view(v),
                    whole == JsonView::Arr(values_view(all)),
                    items_view(out@) == values_view(all).take(it.index() as int),
            {
                let ghost k = it.index() as int;
                assert(x == all[k]);
                assert(values_view(all)[k] == value_view(x));
                assert(decreases_to!(whole => whole->Arr_0));
                assert(decreases_to!(values_view(all) => values_view(all)[k]));
                let item: Json = from_value(x);
                proof {
                    lemma_items_push(out@, item);
                    assert(values_view(all).take(k + 1) =~= values_view(all).take(k).push(item@));
                }
                out.push(item);
            }
            assert(values_view(all).take(all.len() as int) =~= values_view(all));
            Json::Arr(out)
        },
        JsonPart::Obj(members) => {
            let ghost all = members@;
            let mut out: Vec<(String, Json)> = Vec::new();
            for m in it: members
                invariant
                    it.seq() == all,
                    whole == value_view(v),
                    whole == JsonView::Obj(value_members(all)),
                    distinct_keys(all),
                    members_view(out@) == value_members(all.take(it.index() as int)),
            {
                let ghost k = it.index() as int;
                assert(m == all[k]);
                let ghost before = out@;
                assert(all.take(k + 1).drop_last() =~= all.take(k));
                proof {
                    lemma_value_member(all, k);
                }
                assert(decreases_to!(whole => whole->Obj_0));
                assert(decreases_to!(value_members(all) => value_members(all)[m.0@]));
                let item: Json = from_value(m.1);
                out.push((m.0, item));
                assert(out@.drop_last() =~= before);
            }
            assert(all.take(all.len() as int) =~= all);
            Json::Obj(out)
        },
    }
}

/// Builds a whole tree, level by level.
fn to_value(j: &Json) -> (r: Value)
    ensures
        value_view(r) == j@,
    decreases j,
{
    match j {
        Json::Null => close_value(JsonPart::Null),
        Json::Bool(b) => close_value(JsonPart::Bool(*b)),
        Json::Uint(u) => close_value(JsonPart::Uint(*u)),
        Json::Int(i) => close_value(JsonPart::Int(*i)),
        Json::Num(n) => close_value(JsonPart::Num(n.clone())),
        Json::Str(s) => close_value(JsonPart::Str(s.clone())),
        Json::Arr(v) => {
            let mut out: Vec<Value> = Vec::new();
            let mut i: usize = 0;
            assert(values_view(out@) =~= items_view(v@).take(0));
            while i < v.len()
                invariant
                    i <= v@.len(),
                    *j == Json::Arr(*v),
                    values_view(out@) == items_view(v@).take(i as int),
                decreases v@.len() - i,
            {
                assert(decreases_to!(*j => j->Arr_0));
                assert(decreases_to!(*v => v@));
                assert(decreases_to!(v@ => v@[i as int]));
                let item: Value = to_value(&v[i]);
                let ghost before = out@;
                out.push(item);
                proof {
                    lemma_items(v@);
                    assert(values_view(out@) =~= values_view(before).push(value_view(item)));
                    assert(items_view(v@).take(i + 1) =~= items_view(v@).take(i as int).push(
                        json_view(v@[i as int]),
                    ));
                }
                i += 1;
            }
            assert(items_view(v@).take(v@.len() as int) =~= items_view(v@));
            close_value(JsonPart::Arr(out))
        },
        Json::Obj(v) => {
            let mut out: Vec<(String, Value)> = Vec::new();
            let mut i: usize = 0;
            while i < v.len()
                invariant
                    i <= v@.len(),
                    *j == Json::Obj(*v),
                    value_members(out@) == members_view(v@.take(i as int)),
                decreases v@.len() - i,
            {
                assert(decreases_to!(*j => j->Obj_0));
                assert(decreases_to!(*v => v@));
                assert(decreases_to!(v@ => v@[i as int]));
                assert(decreases_to!(v@[i as int] => v@[i as int].1));
                let item: Value = to_value(&v[i].1);
                let ghost before = out@;
                out.push((v[i].0.clone(), item));
                assert(out@.drop_last() =~= before);
                proof {
                    lemma_members_step(v@, i as int);
                }
                i += 1;
            }
            assert(v@.take(v@.len() as int) =~= v@);
            close_value(JsonPart::Obj(out))
        },
    }
}

/// A member, or the value that stands for a missing one.
pub fn at<'a>(v: &'a Json, key: &str, missing: &'a Json) -> (r: &'a Json)
    requires
        missing@ == JsonView::Null,
    ensures
        r@ == v@.at(key@),
{
    match v.get(key) {
        Some(j) => j,
        None => missing,
    }
}

/// Appends an item.
pub fn push_item(out: &mut Vec<Json>, j: Json)
    ensures
        items_view(final(out)@) == items_view(old(out)@).push(j@),
{
    proof {
        lemma_items_push(out@, j);
    }
    out.push(j);
}

/// An array of strings.
pub fn str_array(v: &Vec<String>) -> (r: Json)
    ensures
        r@ == JsonView::Arr(str_items(v@)),
{
    let mut out: Vec<Json> = Vec::new();
    let mut i: usize = 0;
    assert(items_view(out@) =~= str_items(v@).take(0));
    while i < v.len()
        invariant
            i <= v@.len(),
            items_view(out@) == str_items(v@).take(i as int),
        decreases v@.len() - i,
    {
        push_item(&mut out, Json::Str(v[i].clone()));
        assert(str_items(v@).take(i + 1) =~= str_items(v@).take(i as int).push(
            JsonView::Str(v@[i as int]@),
        ));
        i += 1;
    }
    assert(str_items(v@).take(v@.len() as int) =~= str_items(v@));
    Json::Arr(out)
}

/// A member of a record, which is an object that has it under a name, or a list that
/// has it at a place. One that is missing is null.
pub open spec fn record_member(v: JsonView, key: Seq<char>, place: int) -> JsonView {
    match v {
        JsonView::Arr(s) => if 0 <= place < s.len() {
            s[place]
        } else {
            JsonView::Null
        },
        _ => v.at(key),
    }
}

/// Whether a value can be a record of so many members.
pub open spec fn is_record(v: JsonView, count: nat) -> bool {
    match v {
        JsonView::Arr(s) => s.len() <= count,
        JsonView::Obj(_) => true,
        _ => false,
    }
}

/// A member of a record; `missing` where there is none.
pub fn record_at<'a>(v: &'a Json, key: &str, place: usize, missing: &'a Json) -> (r: &'a Json)
    requires
        missing@ == JsonView::Null,
    ensures
        r@ == record_member(v@, key@, place as int),
{
    match v {
        Json::Arr(s) => {
            proof {
                lemma_items(s@);
            }
            if place < s.len() {
                &s[place]
            } else {
                missing
            }
        },
        _ => at(v, key, missing),
    }
}

/// Whether a value can be a record of so many members.
pub fn fits_record(v: &Json, count: usize) -> (r: bool)
    ensures
        r == is_record(v@, count as nat),
{
    match v {
        Json::Arr(s) => {
            proof {
                lemma_items(s@);
            }
            s.len() <= count
        },
        Json::Obj(_) => true,
        _ => false,
    }
}

/// An array of one value.
pub fn one_item(j: Json) -> (r: Json)
    ensures
        r@ == JsonView::Arr(seq![j@]),
{
    let mut out: Vec<Json> = Vec::new();
    assert(items_view(out@) =~= seq![]);
    push_item(&mut out, j);
    assert(items_view(out@) =~= seq![j@]);
    Json::Arr(out)
}

/// Reads a JSON text. The error is the text of what `serde_json` reports. A member that
/// an object repeats counts once.
pub fn parse_json(text: &str) -> (r: Result<Json, String>)
    ensures
        match r {
            Ok(j) => serde_parse(text@) == Ok::<JsonView, Seq<char>>(j@),
            Err(e) => serde_parse(text@) == Err::<JsonView, Seq<char>>(e@),
        },
{
    match parse_value(text) {
        Ok(v) => Ok(from_value(v)),
        Err(e) => Err(e),
    }
}

/// The compact JSON text of a value.
pub fn print_json(j: &Json) -> (r: String)
    ensures
        r@ == serde_print(j@),
        trimmed(r@).len() > 0,
        has_member(j@) ==> opens_object(r@),
        plain(j@, MAX_DEPTH as nat) ==> serde_parse(r@) == Ok::<JsonView, Seq<char>>(j@),
{
    print_value(&to_value(j))
}

/// `serde_json::to_string_pretty` of a `Value`, which has no way to fail: the
/// indented text. `serde_json::from_str` reads the same value out of it where the
/// value holds no fraction, which may lose its last digit, and is not nested
/// deeper than the parser goes. The text then writes out each member of an object
/// once.
#[verifier::external_body]
fn pretty_value(v: &Value) -> (r: String)
    ensures
        r@ == serde_pretty(value_view(*v)),
        spelled(r@, value_view(*v), 2) || !plain(value_view(*v), MAX_DEPTH as nat),
        match serde_parse(r@) {
            Ok(w) => plain(value_view(*v), MAX_DEPTH as nat) ==> w == value_view(*v),
            Err(_) => !plain(value_view(*v), MAX_DEPTH as nat),
        },
{
    serde_json::to_string_pretty(v).unwrap_or_default()
}

/// The indented JSON text of a value.
pub fn pretty_json(j: &Json) -> (r: String)
    ensures
        r@ == serde_pretty(j@),
        plain(j@, MAX_DEPTH as nat) ==> serde_parse(r@) == Ok::<JsonView, Seq<char>>(j@)
            && spelled(r@, j@, 2),
{
    pretty_value(&to_value(j))
}

/// The `Debug` of a `serde_json::Value`: a function of what it holds.
#[verifier::external_body]
fn debug_value(v: &Value) -> (r: String)
    ensures
        r@ == serde_debug(value_view(*v)),
{
    format!("{v:?}")
}

/// `serde_json::Value::as_f64`, written with four places after the point: nothing for
/// a value that is no number. The text is a function of what the value holds.
#[verifier::external_body]
fn fixed_value(v: &Value) -> (r: Option<String>)
    ensures
        opt_str(r) == four_places(value_view(*v)),
{
    v.as_f64().map(|n| format!("{n:.4}"))
}

/// The text that `Debug` writes for a value.
pub fn debug_json(j: &Json) -> (r: String)
    ensures
        r@ == serde_debug(j@),
{
    debug_value(&to_value(j))
}

/// A number with four places after the point; nothing for a value that is none.
pub fn fixed_json(j: &Json) -> (r: Option<String>)
    ensures
        opt_str(r) == four_places(j@),
{
    fixed_value(&to_value(j))
}

/// The value of a text, or null where the text is no JSON.
pub open spec fn parse_or_null(text: Seq<char>) -> JsonView {
    match serde_parse(text) {
        Ok(v) => v,
        Err(_) => JsonView::Null,
    }
}

/// Reads a JSON text, or null where the text is no JSON.
pub fn parse_lenient(text: &str) -> (r: Json)
    ensures
        r@ == parse_or_null(text@),
{
    match parse_json(text) {
        Ok(j) => j,
        Err(_) => Json::Null,
    }
}

/// Whether a key is the first of an object, in the order of texts.
pub open spec fn is_first_key(m: Map<Seq<char>, JsonView>, k: Seq<char>) -> bool {
    m.contains_key(k) && forall|other: Seq<char>| #[trigger]
        m.contains_key(other) && other != k ==> text_less(k, other)
}

/// The first key of an object, in the order of texts.
pub open spec fn first_key(v: JsonView) -> Option<Seq<char>> {
    match v {
        JsonView::Obj(m) => if exists|k: Seq<char>| is_first_key(m, k) {
            Some(choose|k: Seq<char>| is_first_key(m, k))
        } else {
            None
        },
        _ => None,
    }
}

/// No object has two first keys.
proof fn lemma_first_key_unique(m: Map<Seq<char>, JsonView>, k: Seq<char>)
    requires
        is_first_key(m, k),
    ensures
        first_key(JsonView::Obj(m)) == Some(k),
{
    assert(exists|x: Seq<char>| is_first_key(m, x));
    let c = first_key(JsonView::Obj(m))->0;
    assert(is_first_key(m, c));
    if c != k {
        assert(m.contains_key(c) && m.contains_key(k));
        lemma_less_total(c, k);
    }
}

/// The keys of an object are those of its members.
pub proof fn lemma_member_keys(s: Seq<(String, Json)>)
    ensures
        forall|k: Seq<char>| #[trigger] members_view(s).contains_key(k) ==> exists|i: int|
            0 <= i < s.len() && (#[trigger] s[i]).0@ == k,
        forall|i: int| 0 <= i < s.len() ==> members_view(s).contains_key((#[trigger] s[i]).0@),
    decreases s.len(),
{
    if s.len() > 0 {
        let front = s.drop_last();
        lemma_member_keys(front);
        assert forall|k: Seq<char>| #[trigger] members_view(s).contains_key(k) implies exists|i: int|
            0 <= i < s.len() && (#[trigger] s[i]).0@ == k by {
            if k == s.last().0@ {
                assert(s[s.len() - 1].0@ == k);
            } else {
                assert(members_view(front).contains_key(k));
                let i = choose|i: int| 0 <= i < front.len() && (#[trigger] front[i]).0@ == k;
                assert(s[i] == front[i]);
                assert(s[i].0@ == k);
            }
        }
        assert forall|i: int| 0 <= i < s.len() implies members_view(s).contains_key(
            (#[trigger] s[i]).0@,
        ) by {
            if i < s.len() - 1 {
                assert(front[i] == s[i]);
            }
        }
    }
}

impl Json {
    /// The first key of an object, in the order of texts.
    pub fn first_key(&self) -> (r: Option<&str>)
        ensures
            opt_slice(r) == first_key(self@),
    {
        match self {
            Json::Obj(v) => {
                let ghost m = members_view(v@);
                proof {
                    lemma_member_keys(v@);
                }
                if v.len() == 0 {
                    assert(!exists|k: Seq<char>| is_first_key(m, k)) by {
                        assert forall|k: Seq<char>| !is_first_key(m, k) by {
                            if m.contains_key(k) {
                                let i = choose|i: int| 0 <= i < v@.len() && (#[trigger] v@[i]).0@ == k;
                            }
                        }
                    }
                    return None;
                }
                let mut best: usize = 0;
                let mut i: usize = 1;
                while i < v.len()
                    invariant
                        best < i <= v@.len(),
                        forall|j: int|
                            0 <= j < i && (#[trigger] v@[j]).0@ != v@[best as int].0@ ==> text_less(
                                v@[best as int].0@,
                                v@[j].0@,
                            ),
                    decreases v@.len() - i,
                {
                    let ghost old_best = v@[best as int].0@;
                    proof {
                        lemma_less_total(v@[best as int].0@, v@[i as int].0@);
                    }
                    if less(v[i].0.as_str(), v[best].0.as_str()) {
                        proof {
                            assert forall|j: int|
                                0 <= j < i + 1 && (#[trigger] v@[j]).0@
                                    != v@[i as int].0@ implies text_less(
                                v@[i as int].0@,
                                v@[j].0@,
                            ) by {
                                if v@[j].0@ != old_best {
                                    lemma_less_transitive(v@[i as int].0@, old_best, v@[j].0@);
                                }
                            }
                        }
                        best = i;
                    }
                    i += 1;
                }
                let ghost k = v@[best as int].0@;
                assert(is_first_key(m, k)) by {
                    assert(m.contains_key(v@[best as int].0@));
                    assert forall|other: Seq<char>| #[trigger]
                        m.contains_key(other) && other != k implies text_less(k, other) by {
                        let j = choose|j: int| 0 <= j < v@.len() && (#[trigger] v@[j]).0@ == other;
                    }
                }
                proof {
                    lemma_first_key_unique(m, k);
                }
                Some(v[best].0.as_str())
            },
            _ => None,
        }
    }
}

impl Json {
    /// An object without a member; any other value as it is.
    pub fn without(&self, key: &str) -> (r: Json)
        ensures
            r@ == (match self@ {
                JsonView::Obj(m) => JsonView::Obj(m.remove(key@)),
                other => other,
            }),
    {
        match self {
            Json::Obj(v) => {
                let mut out: Vec<(String, Json)> = Vec::new();
                let mut i: usize = 0;
                assert(members_view(out@) =~= members_view(v@.take(0)).remove(key@));
                while i < v.len()
                    invariant
                        i <= v@.len(),
                        members_view(out@) == members_view(v@.take(i as int)).remove(key@),
                    decreases v@.len() - i,
                {
                    proof {
                        lemma_members_step(v@, i as int);
                    }
                    let ghost before = out@;
                    if !same(v[i].0.as_str(), key) {
                        out.push((v[i].0.clone(), v[i].1.clone()));
                        assert(out@.drop_last() =~= before);
                    }
                    assert(members_view(out@) =~= members_view(v@.take(i + 1)).remove(key@));
                    i += 1;
                }
                assert(v@.take(v@.len() as int) =~= v@);
                Json::Obj(out)
            },
            _ => self.clone(),
        }
    }
}

} // verus!
