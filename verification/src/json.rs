//! JSON values, as the `serde_json` crate reads them.

use serde_json::{Error, Value};

use vstd::prelude::*;

use crate::num::scalar::Scalar;

verus! {

/// A number, in each form in which it can be read.
#[derive(Clone, Copy, Debug, PartialEq, Eq, Structural)]
pub struct JsonNumber {
    pub unsigned: Option<u64>,
    pub signed: Option<i64>,
    pub real: Option<Scalar>,
}

/// A JSON value. The entries of an object are in the order in which the crate keeps them, which is
/// that of their names.
#[derive(Debug)]
pub enum Json {
    Null,
    Bool(bool),
    Number(JsonNumber),
    Text(String),
    List(Vec<Json>),
    Object(Vec<(String, Json)>),
}

/// The values of [`Json`].
pub enum JsonTree {
    Null,
    Bool(bool),
    Number(JsonNumber),
    Text(Seq<char>),
    List(Seq<JsonTree>),
    Object(Seq<(Seq<char>, JsonTree)>),
}

/// `serde_json::Value`, a JSON value of any shape.
#[verifier::external_type_specification]
#[verifier::external_body]
pub struct ExValue(Value);

/// `serde_json::Error`, why a text is not JSON.
#[verifier::external_type_specification]
#[verifier::external_body]
pub struct ExError(Error);

/// What a `serde_json::Value` holds.
pub uninterp spec fn held_tree(value: Value) -> JsonTree;

/// What `serde_json::from_str` makes of a text when asked for a value of any shape; nothing where
/// the text is not JSON.
pub uninterp spec fn parsed_json(text: Seq<char>) -> Option<JsonTree>;

/// `serde_json::from_str`. Which texts are JSON is the crate's to say: the contract names its
/// answer, which depends on the text alone.
#[verifier::external_body]
fn read_value(text: &str) -> (r: Result<Value, Error>)
    ensures
        match r {
            Ok(value) => parsed_json(text@) == Some(held_tree(value)),
            Err(_) => parsed_json(text@) is None,
        },
{
    serde_json::from_str::<Value>(text)
}

/// One level of a JSON value.
enum JsonNode<'a> {
    Null,
    Bool(bool),
    Number(JsonNumber),
    Text(String),
    List(Vec<&'a Value>),
    Object(Vec<(String, &'a Value)>),
}

/// The variants of `serde_json::Value`: the contract says that the node has the values of that
/// variant, with the members of lists and objects left as they are.
#[verifier::external_body]
fn open_value(value: &Value) -> (r: JsonNode<'_>)
    ensures
        match r {
            JsonNode::Null => held_tree(*value) == JsonTree::Null,
            JsonNode::Bool(b) => held_tree(*value) == JsonTree::Bool(b),
            JsonNode::Number(n) => held_tree(*value) == JsonTree::Number(n),
            JsonNode::Text(t) => held_tree(*value) == JsonTree::Text(t@),
            JsonNode::List(l) => held_tree(*value) == JsonTree::List(
                l@.map_values(|v: &Value| held_tree(*v)),
            ),
            JsonNode::Object(o) => held_tree(*value) == JsonTree::Object(
                o@.map_values(|e: (String, &Value)| (e.0@, held_tree(*e.1))),
            ),
        },
{
    match value {
        Value::Null => JsonNode::Null,
        Value::Bool(b) => JsonNode::Bool(*b),
        Value::Number(n) => JsonNode::Number(JsonNumber {
            unsigned: n.as_u64(),
            signed: n.as_i64(),
            real: n.as_f64().map(|x| Scalar { bits: x.to_bits() }),
        }),
        Value::String(t) => JsonNode::Text(t.clone()),
        Value::Array(l) => JsonNode::List(l.iter().collect()),
        Value::Object(o) => JsonNode::Object(o.iter().map(|(k, v)| (k.clone(), v)).collect()),
    }
}

impl Json {
    /// The values of a JSON value.
    pub open spec fn tree(self) -> JsonTree
        decreases self,
    {
        match self {
            Json::Null => JsonTree::Null,
            Json::Bool(b) => JsonTree::Bool(b),
            Json::Number(n) => JsonTree::Number(n),
            Json::Text(t) => JsonTree::Text(t@),
            Json::List(l) => JsonTree::List(
                Seq::new(
                    l@.len(),
                    |i: int|
                        if 0 <= i < l@.len() {
                            l@[i].tree()
                        } else {
                            JsonTree::Null
                        },
                ),
            ),
            Json::Object(o) => JsonTree::Object(
                Seq::new(
                    o@.len(),
                    |i: int|
                        if 0 <= i < o@.len() {
                            (o@[i].0@, o@[i].1.tree())
                        } else {
                            (Seq::empty(), JsonTree::Null)
                        },
                ),
            ),
        }
    }
}

/// Takes a value of the crate over, level by level.
fn take_over(value: &Value) -> (r: Json)
    ensures
        r.tree() == held_tree(*value),
    decreases held_tree(*value),
{
    match open_value(value) {
        JsonNode::Null => Json::Null,
        JsonNode::Bool(b) => Json::Bool(b),
        JsonNode::Number(n) => Json::Number(n),
        JsonNode::Text(t) => Json::Text(t),
        JsonNode::List(members) => {
            let ghost trees = members@.map_values(|v: &Value| held_tree(*v));
            let mut out: Vec<Json> = Vec::new();
            let mut i: usize = 0;
            while i < members.len()
                invariant
                    i <= members.len(),
                    out.len() == i,
                    trees == members@.map_values(|v: &Value| held_tree(*v)),
                    held_tree(*value) == JsonTree::List(trees),
                    forall|k: int| 0 <= k < i ==> (#[trigger] out[k]).tree() == trees[k],
                decreases members.len() - i,
            {
                assert(held_tree(*members@[i as int]) == trees[i as int]);
                assert(decreases_to!(held_tree(*value) => held_tree(*value)->List_0));
                assert(decreases_to!(trees => trees[i as int]));
                out.push(take_over(members[i]));
                i = i + 1;
            }
            let r = Json::List(out);
            assert(r.tree()->List_0 =~= trees);
            r
        },
        JsonNode::Object(members) => {
            let ghost trees = members@.map_values(
                |e: (String, &Value)| (e.0@, held_tree(*e.1)),
            );
            let mut out: Vec<(String, Json)> = Vec::new();
            let mut i: usize = 0;
            while i < members.len()
                invariant
                    i <= members.len(),
                    out.len() == i,
                    trees == members@.map_values(
                        |e: (String, &Value)| (e.0@, held_tree(*e.1)),
                    ),
                    held_tree(*value) == JsonTree::Object(trees),
                    forall|k: int|
                        0 <= k < i ==> (#[trigger] out[k]).0@ == trees[k].0 && out[k].1.tree()
                            == trees[k].1,
                decreases members.len() - i,
            {
                let member = &members[i];
                assert((member.0@, held_tree(*member.1)) == trees[i as int]);
                assert(decreases_to!(held_tree(*value) => held_tree(*value)->Object_0));
                assert(decreases_to!(trees => trees[i as int]));
                assert(decreases_to!(trees[i as int] => trees[i as int].1));
                let name = member.0.clone();
                let inner = take_over(member.1);
                out.push((name, inner));
                i = i + 1;
            }
            let r = Json::Object(out);
            assert(r.tree()->Object_0 =~= trees);
            r
        },
    }
}

/// Reads a JSON text.
pub fn parse_json(text: &str) -> (r: Option<Json>)
    ensures
        match r {
            Some(json) => parsed_json(text@) == Some(json.tree()),
            None => parsed_json(text@) is None,
        },
{
    match read_value(text) {
        Ok(value) => Some(take_over(&value)),
        Err(_) => None,
    }
}

} // verus!
