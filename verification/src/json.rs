//! A JSON document as a tree of plain values.
//!
//! The text itself is read by `serde_json`; what comes out is copied one for
//! one into [`Json`], which the decoders of this crate take apart. Where the
//! order of an object's members matters, [`OrderedMembers`] puts them in
//! order.

use crate::common::LuciaError;
use crate::text::{
    compare_str, join, lemma_str_lt_irreflexive, lemma_str_lt_transitive, str_lt, views, ByteOrder,
};
use serde_json::Value;
use vstd::prelude::*;
use vstd::string::*;

verus! {

/// `serde_json::Value`, whose inside is not looked at from here: a value of
/// it is only handed from the parser to the function that copies it.
#[verifier::external_type_specification]
#[verifier::external_body]
pub struct ExValue(Value);

/// `serde_json::Error`, of which only its presence is read.
#[verifier::external_type_specification]
#[verifier::external_body]
pub struct ExError(serde_json::Error);

/// The document that `serde_json` reads from the bytes, or `None` where it
/// rejects them.
pub uninterp spec fn json_parse(bytes: Seq<u8>) -> Option<Json>;

/// The tree that a `serde_json::Value` holds, copied one for one: booleans,
/// strings and the items of arrays as they stand, a number as `serde_json`
/// gives it out, the members of an object in the order of its `iter`.
pub uninterp spec fn value_json(value: Value) -> Json;

/// The JSON string literal that `serde_json` writes for a string: the text
/// between double quotes, with its escapes.
pub uninterp spec fn json_quoted(text: Seq<char>) -> Seq<char>;

/// The compact text of a JSON object whose members, each already written as
/// `"key":value`, are given in order.
pub open spec fn object_text(members: Seq<Seq<char>>) -> Seq<char> {
    "{"@ + join(members, ","@) + "}"@
}

/// A JSON number as `serde_json` gives it out.
#[derive(Clone, Debug, PartialEq, Eq)]
pub struct JsonNumber {
    /// The number, where it is an integer from zero up that fits sixty-four
    /// bits.
    pub unsigned: Option<u64>,
    /// The number, where it is an integer that fits sixty-four signed bits.
    pub signed: Option<i64>,
    /// The number in the decimal notation that `serde_json` prints it in.
    pub text: String,
}

/// A JSON value. An object holds its members in the order in which
/// `serde_json` hands them out.
#[derive(Debug, PartialEq, Eq)]
pub enum Json {
    Null,
    Bool(bool),
    Number(JsonNumber),
    String(String),
    Array(Vec<Json>),
    Object(Vec<(String, Json)>),
}

/// The members of an object put in order: each key once, in ascending byte
/// order of the keys.
#[derive(Debug, PartialEq, Eq)]
pub struct OrderedMembers {
    members: Vec<(String, Json)>,
}

/// Whether each key precedes all keys after it.
pub open spec fn keys_ascend(members: Seq<(String, Json)>) -> bool {
    forall|i: int, j: int|
        0 <= i < j < members.len() ==> str_lt(#[trigger] members[i].0@, #[trigger] members[j].0@)
}

/// Whether some member has the key.
pub open spec fn has_key(members: Seq<(String, Json)>, key: Seq<char>) -> bool {
    exists|i: int| 0 <= i < members.len() && #[trigger] members[i].0@ == key
}

/// The value of the member with the key, if there is one.
pub open spec fn lookup(members: Seq<(String, Json)>, key: Seq<char>) -> Option<Json> {
    if has_key(members, key) {
        let i = choose|i: int| 0 <= i < members.len() && #[trigger] members[i].0@ == key;
        Some(members[i].1)
    } else {
        None
    }
}

/// In ascending members a key stands at one index only, so `lookup` finds the
/// member at `i`.
pub proof fn lemma_lookup_at(members: Seq<(String, Json)>, i: int)
    requires
        keys_ascend(members),
        0 <= i < members.len(),
    ensures
        lookup(members, members[i].0@) == Some(members[i].1),
{
    let key = members[i].0@;
    let c = choose|c: int| 0 <= c < members.len() && #[trigger] members[c].0@ == key;
    lemma_str_lt_irreflexive(key);
    if c < i {
        assert(str_lt(members[c].0@, members[i].0@));
    } else if i < c {
        assert(str_lt(members[i].0@, members[c].0@));
    }
}

/// The string that a required member holds.
pub open spec fn text_of(member: Option<Json>) -> Option<String> {
    match member {
        Some(Json::String(text)) => Some(text),
        _ => None,
    }
}

/// The string that an optional member holds: a member that is absent or
/// `null` holds none, one of another type does not fit.
pub open spec fn optional_text_of(member: Option<Json>) -> Option<Option<String>> {
    match member {
        None => Some(None),
        Some(Json::Null) => Some(None),
        Some(Json::String(text)) => Some(Some(text)),
        _ => None,
    }
}

/// The truth value that a required member holds.
pub open spec fn flag_of(member: Option<Json>) -> Option<bool> {
    match member {
        Some(Json::Bool(flag)) => Some(flag),
        _ => None,
    }
}

/// The integer that a number is, if it is one that fits sixty-four bits.
pub open spec fn whole(number: JsonNumber) -> Option<int> {
    match number.unsigned {
        Some(n) => Some(n as int),
        None => match number.signed {
            Some(n) => Some(n as int),
            None => None,
        },
    }
}

/// The integer that a required member holds, if it lies in `low..=high`.
pub open spec fn int_of(member: Option<Json>, low: int, high: int) -> Option<int> {
    match member {
        Some(Json::Number(number)) => match whole(number) {
            Some(n) => if low <= n <= high {
                Some(n)
            } else {
                None
            },
            None => None,
        },
        _ => None,
    }
}

/// The value of the last member with the key, if there is one.
pub open spec fn last_with_key(members: Seq<(String, Json)>, key: Seq<char>) -> Option<Json>
    decreases members.len(),
{
    if members.len() == 0 {
        None
    } else if members.last().0@ == key {
        Some(members.last().1)
    } else {
        last_with_key(members.drop_last(), key)
    }
}

/// `last_with_key` finds a value exactly for the keys that some member has,
/// and the value is that of a member with the key.
pub proof fn lemma_last_with_key(members: Seq<(String, Json)>, key: Seq<char>)
    ensures
        has_key(members, key) <==> last_with_key(members, key) is Some,
        last_with_key(members, key) matches Some(value) ==> exists|i: int|
            0 <= i < members.len() && (#[trigger] members[i]).0@ == key && members[i].1 == value,
    decreases members.len(),
{
    if members.len() > 0 {
        let rest = members.drop_last();
        lemma_last_with_key(rest, key);
        if members.last().0@ == key {
            assert(members[members.len() - 1].0@ == key);
        } else {
            if has_key(members, key) {
                let i = choose|i: int| 0 <= i < members.len() && #[trigger] members[i].0@ == key;
                assert(rest[i].0@ == key);
            }
            if has_key(rest, key) {
                let i = choose|i: int| 0 <= i < rest.len() && #[trigger] rest[i].0@ == key;
                assert(members[i].0@ == key);
            }
            if let Some(value) = last_with_key(rest, key) {
                let i = choose|i: int|
                    0 <= i < rest.len() && (#[trigger] rest[i]).0@ == key && rest[i].1 == value;
                assert(members[i] == rest[i]);
            }
        }
    }
}

/// The integer that an optional member holds, if it lies in `low..=high`.
pub open spec fn optional_int_of(member: Option<Json>, low: int, high: int) -> Option<Option<int>> {
    match member {
        None => Some(None),
        Some(Json::Null) => Some(None),
        Some(other) => match int_of(Some(other), low, high) {
            Some(n) => Some(Some(n)),
            None => None,
        },
    }
}

/// The strings that a required member holds: it is an array of strings.
pub open spec fn text_list_of(member: Option<Json>) -> Option<Seq<String>> {
    match member {
        Some(Json::Array(items)) => if forall|i: int|
            0 <= i < items@.len() ==> #[trigger] items@[i] is String {
            Some(Seq::new(items@.len(), |i: int| items@[i]->String_0))
        } else {
            None
        },
        _ => None,
    }
}

/// Whether an optional member is absent, `null` or an array of numbers.
pub open spec fn number_list_or_absent(member: Option<Json>) -> bool {
    match member {
        None => true,
        Some(Json::Null) => true,
        Some(other) => is_number_list(other),
    }
}

/// Whether an optional member is absent, `null` or an array of arrays of
/// numbers.
pub open spec fn number_table_or_absent(member: Option<Json>) -> bool {
    match member {
        None => true,
        Some(Json::Null) => true,
        Some(other) => is_number_table(other),
    }
}

/// Whether the value is an array of numbers.
pub open spec fn is_number_list(json: Json) -> bool {
    json matches Json::Array(items) && forall|i: int|
        0 <= i < items@.len() ==> #[trigger] items@[i] is Number
}

/// Whether the value is an array of arrays of numbers.
pub open spec fn is_number_table(json: Json) -> bool {
    json matches Json::Array(rows) && forall|i: int|
        0 <= i < rows@.len() ==> is_number_list(#[trigger] rows@[i])
}

/// What `lookup` finds once the member at `at` is replaced by one of the same
/// key.
proof fn lemma_lookup_replaced(
    before: Seq<(String, Json)>,
    after: Seq<(String, Json)>,
    at: int,
    key: String,
    value: Json,
)
    requires
        keys_ascend(before),
        0 <= at < before.len(),
        before[at].0@ == key@,
        after == before.update(at, (key, value)),
    ensures
        keys_ascend(after),
        forall|k: Seq<char>| #[trigger]
            lookup(after, k) == if k == key@ {
                Some(value)
            } else {
                lookup(before, k)
            },
{
    assert forall|i: int, j: int| 0 <= i < j < after.len() implies str_lt(
        #[trigger] after[i].0@,
        #[trigger] after[j].0@,
    ) by {
        assert(str_lt(before[i].0@, before[j].0@));
    }
    assert forall|k: Seq<char>| #[trigger]
        lookup(after, k) == if k == key@ {
            Some(value)
        } else {
            lookup(before, k)
        } by {
        if k == key@ {
            lemma_lookup_at(after, at);
        } else if has_key(before, k) {
            let c = choose|c: int| 0 <= c < before.len() && #[trigger] before[c].0@ == k;
            lemma_lookup_at(before, c);
            assert(after[c].0@ == k);
            lemma_lookup_at(after, c);
        } else if has_key(after, k) {
            let c = choose|c: int| 0 <= c < after.len() && #[trigger] after[c].0@ == k;
            assert(before[c].0@ == k);
        }
    }
}

/// What `lookup` finds once a member with a new key is put in at its place.
proof fn lemma_lookup_inserted(
    before: Seq<(String, Json)>,
    after: Seq<(String, Json)>,
    at: int,
    key: String,
    value: Json,
)
    requires
        keys_ascend(before),
        0 <= at <= before.len(),
        forall|j: int| 0 <= j < at ==> str_lt(#[trigger] before[j].0@, key@),
        at < before.len() ==> str_lt(key@, before[at].0@),
        after == before.insert(at, (key, value)),
    ensures
        keys_ascend(after),
        !has_key(before, key@),
        forall|k: Seq<char>| #[trigger]
            lookup(after, k) == if k == key@ {
                Some(value)
            } else {
                lookup(before, k)
            },
{
    assert forall|j: int| at <= j < before.len() implies str_lt(key@, #[trigger] before[j].0@) by {
        if at < j {
            assert(str_lt(before[at].0@, before[j].0@));
            lemma_str_lt_transitive(key@, before[at].0@, before[j].0@);
        }
    }
    assert forall|i: int, j: int| 0 <= i < j < after.len() implies str_lt(
        #[trigger] after[i].0@,
        #[trigger] after[j].0@,
    ) by {
        let a: int = if i < at { i } else { i - 1 };
        let b: int = if j < at { j } else { j - 1 };
        if i != at && j != at {
            assert(str_lt(before[a].0@, before[b].0@));
        } else if i == at {
            assert(str_lt(key@, before[b].0@));
        } else {
            assert(str_lt(before[a].0@, key@));
        }
    }
    lemma_str_lt_irreflexive(key@);
    if has_key(before, key@) {
        let c = choose|c: int| 0 <= c < before.len() && #[trigger] before[c].0@ == key@;
        if c < at {
            assert(str_lt(before[c].0@, key@));
        } else {
            assert(str_lt(key@, before[c].0@));
        }
    }
    assert forall|k: Seq<char>| #[trigger]
        lookup(after, k) == if k == key@ {
            Some(value)
        } else {
            lookup(before, k)
        } by {
        if k == key@ {
            lemma_lookup_at(after, at);
        } else if has_key(before, k) {
            let c = choose|c: int| 0 <= c < before.len() && #[trigger] before[c].0@ == k;
            lemma_lookup_at(before, c);
            let d: int = if c < at { c } else { c + 1 };
            assert(after[d] == before[c]);
            lemma_lookup_at(after, d);
        } else if has_key(after, k) {
            let d = choose|d: int| 0 <= d < after.len() && #[trigger] after[d].0@ == k;
            let c: int = if d < at { d } else { d - 1 };
            assert(before[c] == after[d]);
        }
    }
}

impl JsonNumber {
    /// The number as an integer, if it is one and lies in `low..=high`.
    pub fn within(&self, low: i64, high: i64) -> (n: Option<i64>)
        ensures
            n == match whole(*self) {
                Some(found) => if low <= found <= high {
                    Some(found as i64)
                } else {
                    None
                },
                None => None,
            },
    {
        match self.unsigned {
            Some(found) => if high >= 0 && found <= high as u64 && (low < 0 || low as u64
                <= found) {
                Some(found as i64)
            } else {
                None
            },
            None => match self.signed {
                Some(found) => if low <= found && found <= high {
                    Some(found)
                } else {
                    None
                },
                None => None,
            },
        }
    }
}

impl OrderedMembers {
    #[verifier::type_invariant]
    spec fn ascending(&self) -> bool {
        keys_ascend(self.members@)
    }

    /// The members in order.
    pub closed spec fn members(&self) -> Seq<(String, Json)> {
        self.members@
    }

    /// No members.
    pub fn new() -> (ordered: OrderedMembers)
        ensures
            ordered.members() == Seq::<(String, Json)>::empty(),
    {
        OrderedMembers { members: Vec::new() }
    }

    /// The given members in order. Of members with the same key the last one
    /// stays.
    pub fn from_members(members: Vec<(String, Json)>) -> (ordered: OrderedMembers)
        ensures
            forall|k: Seq<char>| #[trigger]
                lookup(ordered.members(), k) == last_with_key(members@, k),
    {
        let mut ordered = OrderedMembers::new();
        let mut rest = members;
        let ghost mut done: int = 0;
        assert(members@.take(0) =~= Seq::<(String, Json)>::empty());
        assert forall|k: Seq<char>| #[trigger]
            lookup(ordered.members(), k) == last_with_key(members@.take(0), k) by {
            assert(!has_key(ordered.members(), k));
        }
        while rest.len() > 0
            invariant
                0 <= done <= members@.len(),
                rest@ == members@.skip(done),
                forall|k: Seq<char>| #[trigger]
                    lookup(ordered.members(), k) == last_with_key(members@.take(done), k),
            decreases rest@.len(),
        {
            let (key, value) = rest.remove(0);
            proof {
                assert(members@.take(done + 1).drop_last() =~= members@.take(done));
                assert(members@.take(done + 1).last() == (key, value));
                assert(rest@ =~= members@.skip(done + 1));
            }
            let ghost before = ordered.members();
            ordered.insert(key, value);
            proof {
                assert forall|k: Seq<char>| #[trigger]
                    lookup(ordered.members(), k) == last_with_key(members@.take(done + 1), k) by {
                    assert(lookup(before, k) == last_with_key(members@.take(done), k));
                }
                done = done + 1;
            }
        }
        assert(members@.take(done) =~= members@);
        ordered
    }

    /// The number of members; they stand in ascending order of their keys.
    pub fn len(&self) -> (n: usize)
        ensures
            n == self.members().len(),
            keys_ascend(self.members()),
    {
        proof {
            use_type_invariant(self);
        }
        self.members.len()
    }

    /// The key of the member at `index`.
    pub fn key_at(&self, index: usize) -> (key: &String)
        requires
            index < self.members().len(),
        ensures
            *key == self.members()[index as int].0,
    {
        &self.members[index].0
    }

    /// The value of the member at `index`.
    pub fn value_at(&self, index: usize) -> (value: &Json)
        requires
            index < self.members().len(),
        ensures
            *value == self.members()[index as int].1,
    {
        &self.members[index].1
    }

    /// Puts `value` under `key`, in place of what was there.
    pub fn insert(&mut self, key: String, value: Json)
        ensures
            forall|k: Seq<char>| #[trigger]
                lookup(final(self).members(), k) == if k == key@ {
                    Some(value)
                } else {
                    lookup(old(self).members(), k)
                },
            final(self).members().len() == old(self).members().len() + if has_key(
                old(self).members(),
                key@,
            ) {
                0int
            } else {
                1int
            },
    {
        proof {
            use_type_invariant(&*self);
        }
        let mut members: Vec<(String, Json)> = Vec::new();
        core::mem::swap(&mut self.members, &mut members);
        let mut i: usize = 0;
        let mut found: bool = false;
        while i < members.len()
            invariant_except_break
                !found,
            invariant
                i <= members@.len(),
                forall|j: int| 0 <= j < i ==> str_lt(#[trigger] members@[j].0@, key@),
            ensures
                i <= members@.len(),
                forall|j: int| 0 <= j < i ==> str_lt(#[trigger] members@[j].0@, key@),
                found ==> i < members@.len() && members@[i as int].0@ == key@,
                !found && i < members@.len() ==> str_lt(key@, members@[i as int].0@),
            decreases members@.len() - i,
        {
            match compare_str(members[i].0.as_str(), key.as_str()) {
                ByteOrder::Before => {
                    i += 1;
                },
                ByteOrder::Same => {
                    found = true;
                    break ;
                },
                ByteOrder::After => {
                    break ;
                },
            }
        }
        if found {
            proof {
                lemma_lookup_replaced(
                    members@,
                    members@.update(i as int, (key, value)),
                    i as int,
                    key,
                    value,
                );
                assert(has_key(members@, key@));
            }
            members.set(i, (key, value));
        } else {
            proof {
                lemma_lookup_inserted(
                    members@,
                    members@.insert(i as int, (key, value)),
                    i as int,
                    key,
                    value,
                );
            }
            members.insert(i, (key, value));
        }
        core::mem::swap(&mut self.members, &mut members);
    }
}

/// `serde_json::from_slice`, reading a `serde_json::Value`. What it returns
/// depends on the bytes alone; the contract gives that result its name and
/// says nothing of which bytes are JSON.
#[verifier::external_body]
fn parse_value(bytes: &[u8]) -> (parsed: Result<Value, serde_json::Error>)
    ensures
        match parsed {
            Ok(value) => json_parse(bytes@) == Some(value_json(value)),
            Err(_) => json_parse(bytes@) is None,
        },
{
    serde_json::from_slice::<Value>(bytes)
}

/// The `Display` of a `serde_json::Value::String`, which writes the string as
/// a JSON string literal. The result depends on the text alone; the contract
/// gives it its name.
#[verifier::external_body]
pub(crate) fn json_quote(text: &str) -> (quoted: String)
    ensures
        quoted@ == json_quoted(text@),
{
    Value::String(text.to_owned()).to_string()
}

/// Copies a `serde_json::Value` into a [`Json`], one arm for each variant.
/// Of a number it takes what `as_u64`, `as_i64` and `Display` give, of an
/// object the members in the order of `serde_json::Map::iter`.
#[verifier::external_body]
fn json_from_value(value: &Value) -> (json: Json)
    ensures
        json == value_json(*value),
{
    match value {
        Value::Null => Json::Null,
        Value::Bool(flag) => Json::Bool(*flag),
        Value::Number(n) => Json::Number(
            JsonNumber { unsigned: n.as_u64(), signed: n.as_i64(), text: n.to_string() },
        ),
        Value::String(text) => Json::String(text.clone()),
        Value::Array(items) => Json::Array(items.iter().map(json_from_value).collect()),
        Value::Object(map) => Json::Object(
            map.iter().map(|(key, item)| (key.clone(), json_from_value(item))).collect(),
        ),
    }
}

impl Json {
    /// The value under `key`, if this is an object with that key: of members
    /// with the same key, the last one.
    pub open spec fn spec_get(&self, key: Seq<char>) -> Option<Json> {
        match *self {
            Json::Object(members) => last_with_key(members@, key),
            _ => None,
        }
    }

    /// The value under `key`, if this is an object with that key.
    pub fn get(&self, key: &str) -> (value: Option<&Json>)
        ensures
            value == match self.spec_get(key@) {
                Some(found) => Some(&found),
                None => None,
            },
    {
        match self {
            Json::Object(members) => {
                let mut i: usize = members.len();
                assert(members@.take(i as int) =~= members@);
                while i > 0
                    invariant
                        *self == Json::Object(*members),
                        i <= members@.len(),
                        last_with_key(members@, key@) == last_with_key(
                            members@.take(i as int),
                            key@,
                        ),
                    decreases i,
                {
                    i -= 1;
                    proof {
                        assert(members@.take(i + 1).last() == members@[i as int]);
                        assert(members@.take(i + 1).drop_last() =~= members@.take(i as int));
                    }
                    if compare_str(members[i].0.as_str(), key) == ByteOrder::Same {
                        return Some(&members[i].1);
                    }
                }
                None
            },
            _ => None,
        }
    }

    /// The string under `key`.
    pub fn text(&self, key: &str) -> (text: Option<String>)
        ensures
            text == text_of(self.spec_get(key@)),
    {
        match self.get(key) {
            Some(Json::String(text)) => Some(text.clone()),
            _ => None,
        }
    }

    /// The string under `key`, where the member may be absent or `null`.
    pub fn optional_text(&self, key: &str) -> (text: Option<Option<String>>)
        ensures
            text == optional_text_of(self.spec_get(key@)),
    {
        match self.get(key) {
            None => Some(None),
            Some(Json::Null) => Some(None),
            Some(Json::String(text)) => Some(Some(text.clone())),
            _ => None,
        }
    }

    /// The truth value under `key`.
    pub fn flag(&self, key: &str) -> (flag: Option<bool>)
        ensures
            flag == flag_of(self.spec_get(key@)),
    {
        match self.get(key) {
            Some(Json::Bool(flag)) => Some(*flag),
            _ => None,
        }
    }

    /// The integer under `key`, if it lies in `low..=high`.
    pub fn integer(&self, key: &str, low: i64, high: i64) -> (n: Option<i64>)
        ensures
            n matches Some(found) ==> int_of(self.spec_get(key@), low as int, high as int) == Some(
                found as int,
            ),
            n is None ==> int_of(self.spec_get(key@), low as int, high as int) is None,
    {
        match self.get(key) {
            Some(Json::Number(number)) => number.within(low, high),
            _ => None,
        }
    }

    /// The integer under `key`, if it lies in `low..=high`, where the member
    /// may be absent or `null`.
    pub fn optional_integer(&self, key: &str, low: i64, high: i64) -> (n: Option<Option<i64>>)
        ensures
            match n {
                Some(Some(found)) => optional_int_of(self.spec_get(key@), low as int, high as int)
                    == Some(Some(found as int)),
                Some(None) => optional_int_of(self.spec_get(key@), low as int, high as int) == Some(
                    None::<int>,
                ),
                None => optional_int_of(self.spec_get(key@), low as int, high as int) is None,
            },
    {
        match self.get(key) {
            None => Some(None),
            Some(Json::Null) => Some(None),
            Some(Json::Number(number)) => match number.within(low, high) {
                Some(found) => Some(Some(found)),
                None => None,
            },
            _ => None,
        }
    }

    /// The strings under `key`, which must be an array of strings.
    pub fn text_list(&self, key: &str) -> (list: Option<Vec<String>>)
        ensures
            match list {
                Some(found) => text_list_of(self.spec_get(key@)) == Some(found@),
                None => text_list_of(self.spec_get(key@)) is None,
            },
    {
        match self.get(key) {
            Some(Json::Array(items)) => {
                let mut list: Vec<String> = Vec::new();
                let mut i: usize = 0;
                while i < items.len()
                    invariant
                        self.spec_get(key@) == Some(Json::Array(*items)),
                        i <= items@.len(),
                        list@.len() == i,
                        forall|j: int| 0 <= j < i ==> #[trigger] items@[j] is String,
                        forall|j: int| 0 <= j < i ==> list@[j] == items@[j]->String_0,
                    decreases items@.len() - i,
                {
                    match &items[i] {
                        Json::String(text) => {
                            list.push(text.clone());
                        },
                        _ => {
                            assert(!(items@[i as int] is String));
                            return None;
                        },
                    }
                    i += 1;
                }
                assert(list@ =~= Seq::new(items@.len(), |i: int| items@[i]->String_0));
                Some(list)
            },
            _ => None,
        }
    }

    /// Whether the member under `key` is absent, `null` or an array of
    /// numbers.
    pub fn number_list_or_absent(&self, key: &str) -> (fits: bool)
        ensures
            fits == number_list_or_absent(self.spec_get(key@)),
    {
        match self.get(key) {
            None => true,
            Some(Json::Null) => true,
            Some(other) => other.is_number_list(),
        }
    }

    /// Whether the member under `key` is absent, `null` or an array of arrays
    /// of numbers.
    pub fn number_table_or_absent(&self, key: &str) -> (fits: bool)
        ensures
            fits == number_table_or_absent(self.spec_get(key@)),
    {
        match self.get(key) {
            None => true,
            Some(Json::Null) => true,
            Some(other) => other.is_number_table(),
        }
    }

    /// Whether the value is an array of numbers.
    pub fn is_number_list(&self) -> (fits: bool)
        ensures
            fits == is_number_list(*self),
    {
        match self {
            Json::Array(items) => {
                let mut i: usize = 0;
                while i < items.len()
                    invariant
                        *self == Json::Array(*items),
                        i <= items@.len(),
                        forall|j: int| 0 <= j < i ==> #[trigger] items@[j] is Number,
                    decreases items@.len() - i,
                {
                    match &items[i] {
                        Json::Number(_) => {},
                        _ => {
                            assert(!(items@[i as int] is Number));
                            return false;
                        },
                    }
                    i += 1;
                }
                true
            },
            _ => false,
        }
    }

    /// Whether the value is an array of arrays of numbers.
    pub fn is_number_table(&self) -> (fits: bool)
        ensures
            fits == is_number_table(*self),
    {
        match self {
            Json::Array(rows) => {
                let mut i: usize = 0;
                while i < rows.len()
                    invariant
                        *self == Json::Array(*rows),
                        i <= rows@.len(),
                        forall|j: int| 0 <= j < i ==> is_number_list(#[trigger] rows@[j]),
                    decreases rows@.len() - i,
                {
                    if !rows[i].is_number_list() {
                        assert(!is_number_list(self->Array_0@[i as int]));
                        return false;
                    }
                    i += 1;
                }
                true
            },
            _ => false,
        }
    }

    /// Reads a JSON document.
    pub fn parse(bytes: &[u8]) -> (parsed: Result<Json, LuciaError>)
        ensures
            parsed == match json_parse(bytes@) {
                Some(json) => Ok::<Json, LuciaError>(json),
                None => Err(LuciaError::JsonError),
            },
    {
        match parse_value(bytes) {
            Ok(value) => Ok(json_from_value(&value)),
            Err(_) => Err(LuciaError::JsonError),
        }
    }
}

/// Writes a JSON object in compact form from its members, each already
/// written as `"key":value`.
pub fn write_object(members: &Vec<String>) -> (text: String)
    ensures
        text@ == object_text(views(members@)),
{
    let mut text = "{".to_owned();
    let ghost opening = text@;
    let mut i: usize = 0;
    while i < members.len()
        invariant
            i <= members@.len(),
            opening == "{"@,
            text@ == opening + join(views(members@).take(i as int), ","@),
        decreases members@.len() - i,
    {
        proof {
            let parts = views(members@);
            assert(parts.take(i + 1).drop_last() =~= parts.take(i as int));
            assert(parts.take(i + 1).last() == members@[i as int]@);
        }
        if i > 0 {
            text.append(",");
        }
        text.append(members[i].as_str());
        proof {
            let parts = views(members@);
            if i == 0 {
                assert(join(parts.take(0), ","@) =~= Seq::<char>::empty());
                assert(text@ =~= opening + join(parts.take(1), ","@));
            } else {
                assert(text@ =~= opening + join(parts.take(i + 1), ","@));
            }
        }
        i += 1;
    }
    proof {
        assert(views(members@).take(i as int) =~= views(members@));
    }
    text.append("}");
    text
}

} // verus!
