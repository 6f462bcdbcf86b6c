//! The JSON documents that the payload builders produce.

use vstd::prelude::*;

verus! {

/// A JSON document. Object members keep the order in which they were written.
#[derive(Debug, PartialEq, Eq)]
pub enum JsonValue {
    Null,
    Bool(bool),
    Integer(i64),
    String(String),
    Array(Vec<JsonValue>),
    Object(Vec<(String, JsonValue)>),
}

/// The mathematical form of a JSON document, with strings as character sequences.
#[verifier::ext_equal]
pub ghost enum Json {
    Null,
    Bool(bool),
    Int(int),
    Str(Seq<char>),
    Arr(Seq<Json>),
    Obj(Seq<(Seq<char>, Json)>),
}

impl JsonValue {
    /// The document that this value holds.
    pub open spec fn json(&self) -> Json
        decreases self, 0nat,
    {
        match self {
            JsonValue::Null => Json::Null,
            JsonValue::Bool(b) => Json::Bool(*b),
            JsonValue::Integer(n) => Json::Int(*n as int),
            JsonValue::String(s) => Json::Str(s@),
            JsonValue::Array(items) => Json::Arr(JsonValue::json_items(items@, items@.len())),
            JsonValue::Object(members) => Json::Obj(JsonValue::json_members(members@, members@.len())),
        }
    }

    /// The documents of the first `n` items.
    pub open spec fn json_items(items: Seq<JsonValue>, n: nat) -> Seq<Json>
        decreases items, n,
    {
        if n == 0 || n > items.len() {
            Seq::empty()
        } else {
            JsonValue::json_items(items, (n - 1) as nat).push(items[n - 1].json())
        }
    }

    /// The names and documents of the first `n` members.
    pub open spec fn json_members(members: Seq<(String, JsonValue)>, n: nat) -> Seq<(Seq<char>, Json)>
        decreases members, n,
    {
        if n == 0 || n > members.len() {
            Seq::empty()
        } else {
            JsonValue::json_members(members, (n - 1) as nat).push(
                (members[n - 1].0@, members[n - 1].1.json()),
            )
        }
    }
}


/// The items' documents, one per item.
pub proof fn lemma_json_items(items: Seq<JsonValue>, n: nat)
    requires
        n <= items.len(),
    ensures
        JsonValue::json_items(items, n) =~~= Seq::new(n, |i: int| items[i].json()),
    decreases n,
{
    if n > 0 {
        lemma_json_items(items, (n - 1) as nat);
    }
}

/// The members' names and documents, one per member.
pub proof fn lemma_json_members(members: Seq<(String, JsonValue)>, n: nat)
    requires
        n <= members.len(),
    ensures
        JsonValue::json_members(members, n) =~~= Seq::new(
            n,
            |i: int| (members[i].0@, members[i].1.json()),
        ),
    decreases n,
{
    if n > 0 {
        lemma_json_members(members, (n - 1) as nat);
    }
}

} // verus!
