//! JSON text: reading a document and printing one, both by `serde_json`.

use crate::json::{
    by_name, distinct_names, items_view, lemma_by_name_last, lemma_by_name_names,
    lemma_by_name_replace, lemma_items_view_push, lemma_members_view_push, members_view, Json,
    JsonView,
};
use vstd::prelude::*;

verus! {

/// `serde_json::Value`, the tree that `serde_json` reads and prints.
#[verifier::external_type_specification]
#[verifier::external_body]
pub struct ExValue(serde_json::Value);

/// The document that a `serde_json::Value` holds.
pub uninterp spec fn value_json(value: serde_json::Value) -> JsonView;

/// The outermost layer of a `serde_json::Value`.
pub(crate) enum Node {
    Null,
    Bool(bool),
    Number(serde_json::Number),
    Text(String),
    Array(Vec<serde_json::Value>),
    Object(Vec<(String, serde_json::Value)>),
}

/// The documents that `values` hold, one by one.
pub(crate) open spec fn values_view(values: Seq<serde_json::Value>) -> Seq<JsonView> {
    values.map_values(|value: serde_json::Value| value_json(value))
}

/// The members that `members` hold, one by one.
pub(crate) open spec fn value_members_view(members: Seq<(String, serde_json::Value)>) -> Seq<
    (Seq<char>, JsonView),
> {
    members.map_values(|member: (String, serde_json::Value)| (member.0@, value_json(member.1)))
}

/// The document whose outermost layer is `node`.
pub(crate) open spec fn node_json(node: Node) -> JsonView {
    match node {
        Node::Null => JsonView::Null,
        Node::Bool(b) => JsonView::Bool(b),
        Node::Number(n) => JsonView::Number(n),
        Node::Text(s) => JsonView::Text(s@),
        Node::Array(values) => JsonView::Array(values_view(values@)),
        Node::Object(members) => JsonView::Object(by_name(value_members_view(members@))),
    }
}

/// If `node` is an object, no name occurs twice in it.
pub(crate) open spec fn node_names_distinct(node: Node) -> bool {
    node matches Node::Object(members) ==> distinct_names(value_members_view(members@))
}

/// Takes a `serde_json::Value` apart by its variant.
///
/// The claim is that the layer is the value's own: the same scalar, the array's elements in
/// order, or the map's entries, each name once.
#[verifier::external_body]
pub(crate) fn value_node(value: serde_json::Value) -> (node: Node)
    ensures
        node_json(node) == value_json(value),
        node_names_distinct(node),
{
    match value {
        serde_json::Value::Null => Node::Null,
        serde_json::Value::Bool(b) => Node::Bool(b),
        serde_json::Value::Number(n) => Node::Number(n),
        serde_json::Value::String(s) => Node::Text(s),
        serde_json::Value::Array(values) => Node::Array(values),
        serde_json::Value::Object(members) => Node::Object(members.into_iter().collect()),
    }
}

/// Builds a `serde_json::Value` from its outermost layer.
///
/// The claim is that the value holds what the layer shows. The names of an object are to be
/// distinct: which of two entries `serde_json::Map` would keep is not said.
#[verifier::external_body]
pub(crate) fn node_value(node: Node) -> (value: serde_json::Value)
    requires
        node_names_distinct(node),
    ensures
        value_json(value) == node_json(node),
{
    match node {
        Node::Null => serde_json::Value::Null,
        Node::Bool(b) => serde_json::Value::Bool(b),
        Node::Number(n) => serde_json::Value::Number(n),
        Node::Text(s) => serde_json::Value::String(s),
        Node::Array(values) => serde_json::Value::Array(values),
        Node::Object(members) => serde_json::Value::Object(members.into_iter().collect()),
    }
}

/// Copies a `serde_json::Value` into the library's own tree.
fn json_of_value(value: serde_json::Value) -> (json: Json)
    ensures
        json@ == value_json(value),
    decreases value_json(value),
{
    let ghost whole = value_json(value);
    match value_node(value) {
        Node::Null => Json::Null,
        Node::Bool(b) => Json::Bool(b),
        Node::Number(n) => Json::Number(n),
        Node::Text(s) => Json::Text(s),
        Node::Array(values) => {
            let mut items: Vec<Json> = Vec::new();
            let ghost views = values_view(values@);
            for v in it: values
                invariant
                    it.seq() == values@,
                    views == values_view(values@),
                    value_json(value) == JsonView::Array(views),
                    items_view(items@) == views.take(it.index() as int),
            {
                proof {
                    let i = it.index() as int;
                    assert(views[i] == value_json(v));
                    assert(decreases_to!(value_json(value) => value_json(value)->Array_0));
                    assert(decreases_to!(views => views[i]));
                }
                let item = json_of_value(v);
                proof {
                    lemma_items_view_push(items@, item);
                }
                items.push(item);
                assert(items_view(items@) =~= views.take(it.index() + 1));
            }
            assert(views.take(views.len() as int) == views);
            Json::Array(items)
        },
        Node::Object(members) => {
            let mut copies: Vec<(String, Json)> = Vec::new();
            let ghost views = value_members_view(members@);
            for (name, v) in it: members
                invariant
                    it.seq() == members@,
                    views == value_members_view(members@),
                    distinct_names(views),
                    value_json(value) == JsonView::Object(by_name(views)),
                    members_view(copies@) == views.take(it.index() as int),
            {
                proof {
                    let i = it.index() as int;
                    assert(views[i] == (name@, value_json(v)));
                    lemma_by_name_last(views, i);
                    lemma_by_name_names(views, name@);
                    assert(decreases_to!(value_json(value) => value_json(value)->Object_0));
                    assert(decreases_to!(by_name(views) => by_name(views)[name@]));
                }
                let copy = json_of_value(v);
                proof {
                    lemma_members_view_push(copies@, (name, copy));
                }
                copies.push((name, copy));
                assert(members_view(copies@) =~= views.take(it.index() + 1));
            }
            assert(views.take(views.len() as int) == views);
            Json::Object(copies)
        },
    }
}

/// The place of `name` among `members`.
fn find_name(members: &Vec<(String, serde_json::Value)>, name: &String) -> (place: Option<usize>)
    ensures
        match place {
            Some(k) => k < members@.len() && members@[k as int].0@ == name@,
            None => forall|k: int| 0 <= k < members@.len() ==> (#[trigger] members@[k]).0@ != name@,
        },
{
    for k in 0..members.len()
        invariant
            forall|j: int| 0 <= j < k ==> (#[trigger] members@[j]).0@ != name@,
    {
        if members[k].0 == *name {
            return Some(k);
        }
    }
    None
}

/// Copies the library's own tree into a `serde_json::Value`.
fn value_of_json(json: &Json) -> (value: serde_json::Value)
    ensures
        value_json(value) == json@,
    decreases json,
{
    match json {
        Json::Null => node_value(Node::Null),
        Json::Bool(b) => node_value(Node::Bool(*b)),
        Json::Number(n) => node_value(Node::Number(n.clone())),
        Json::Text(s) => node_value(Node::Text(s.clone())),
        Json::Array(items) => {
            let mut values: Vec<serde_json::Value> = Vec::new();
            let ghost views = items_view(items@);
            for i in 0..items.len()
                invariant
                    json == Json::Array(*items),
                    views == items_view(items@),
                    values_view(values@) == views.take(i as int),
            {
                let ghost before = values_view(values@);
                assert(decreases_to!(*json => json->Array_0));
                assert(decreases_to!(items@ => items@[i as int]));
                let value = value_of_json(&items[i]);
                assert(views[i as int] == value_json(value));
                values.push(value);
                assert(values_view(values@) =~= before.push(value_json(value)));
                assert(views.take(i + 1) =~= before.push(value_json(value)));
            }
            assert(views.take(views.len() as int) =~= views);
            node_value(Node::Array(values))
        },
        Json::Object(members) => {
            let mut copies: Vec<(String, serde_json::Value)> = Vec::new();
            let ghost views = members_view(members@);
            for i in 0..members.len()
                invariant
                    json == Json::Object(*members),
                    views == members_view(members@),
                    distinct_names(value_members_view(copies@)),
                    by_name(value_members_view(copies@)) == by_name(views.take(i as int)),
            {
                let ghost before = value_members_view(copies@);
                assert(decreases_to!(*json => json->Object_0));
                assert(decreases_to!(members@ => members@[i as int]));
                assert(decreases_to!(members@[i as int] => members@[i as int].1));
                let name = members[i].0.clone();
                let value = value_of_json(&members[i].1);
                proof {
                    assert(views[i as int] == (name@, value_json(value)));
                    assert(views.take(i + 1).drop_last() =~= views.take(i as int));
                    assert(views.take(i + 1).last() == (name@, value_json(value)));
                }
                match find_name(&copies, &name) {
                    Some(k) => {
                        proof {
                            lemma_by_name_replace(before, k as int, value_json(value));
                        }
                        copies.set(k, (name, value));
                        assert(value_members_view(copies@) =~= before.update(
                            k as int,
                            (before[k as int].0, value_json(value)),
                        ));
                    },
                    None => {
                        copies.push((name, value));
                        let ghost after = value_members_view(copies@);
                        assert(after.drop_last() =~= before);
                        assert forall|a: int, b: int| 0 <= a < b < after.len() implies (
                        #[trigger] after[a]).0 != (#[trigger] after[b]).0 by {
                            if b < before.len() {
                                assert(before[a].0 != before[b].0);
                            } else {
                                assert(copies@[a].0@ != name@);
                            }
                        }
                    },
                }
            }
            assert(views.take(views.len() as int) =~= views);
            node_value(Node::Object(copies))
        },
    }
}

/// What `serde_json::from_reader` makes of `bytes`: the document, or the text of its error.
pub uninterp spec fn read_document(bytes: Seq<u8>) -> Result<JsonView, Seq<char>>;

/// What `serde_json::from_str` makes of `text`, if it takes it.
pub uninterp spec fn parse_document(text: Seq<char>) -> Option<JsonView>;

/// What `serde_json` prints for a document on one line.
pub uninterp spec fn compact_text(json: JsonView) -> Seq<char>;

/// What `serde_json::to_string_pretty` gives for a document, if it does not fail.
pub uninterp spec fn pretty_text(json: JsonView) -> Option<Seq<char>>;

/// `serde_json::from_reader`, for a `serde_json::Value`: what comes back, the value or the text of
/// the error, depends on the bytes alone.
#[verifier::external_body]
fn value_from_reader(bytes: &[u8]) -> (outcome: Result<serde_json::Value, String>)
    ensures
        match outcome {
            Ok(value) => read_document(bytes@) == Ok::<JsonView, Seq<char>>(value_json(value)),
            Err(text) => read_document(bytes@) == Err::<JsonView, Seq<char>>(text@),
        },
{
    serde_json::from_reader(bytes).map_err(|e| e.to_string())
}

/// `serde_json::from_str`, for a `serde_json::Value`: whether it takes the text, and the value,
/// depend on the text alone.
#[verifier::external_body]
fn value_from_str(text: &str) -> (outcome: Option<serde_json::Value>)
    ensures
        match outcome {
            Some(value) => parse_document(text@) == Some(value_json(value)),
            None => parse_document(text@) is None,
        },
{
    serde_json::from_str(text).ok()
}

/// The `Display` form of a `serde_json::Value`, which depends on the document alone.
#[verifier::external_body]
fn value_to_string(value: &serde_json::Value) -> (text: String)
    ensures
        text@ == compact_text(value_json(*value)),
{
    value.to_string()
}

/// `serde_json::to_string_pretty`, whose outcome depends on the document alone.
#[verifier::external_body]
fn value_to_string_pretty(value: &serde_json::Value) -> (text: Option<String>)
    ensures
        match text {
            Some(t) => pretty_text(value_json(*value)) == Some(t@),
            None => pretty_text(value_json(*value)) is None,
        },
{
    serde_json::to_string_pretty(value).ok()
}

/// The pretty form of a document, or nothing where it cannot be printed.
pub open spec fn pretty_or_empty(json: JsonView) -> Seq<char> {
    match pretty_text(json) {
        Some(text) => text,
        None => Seq::empty(),
    }
}

impl Json {
    /// Reads the document that `bytes` spell.
    pub fn read(bytes: &[u8]) -> (outcome: Result<Json, String>)
        ensures
            match outcome {
                Ok(json) => read_document(bytes@) == Ok::<JsonView, Seq<char>>(json@),
                Err(text) => read_document(bytes@) == Err::<JsonView, Seq<char>>(text@),
            },
    {
        match value_from_reader(bytes) {
            Ok(value) => Ok(json_of_value(value)),
            Err(text) => Err(text),
        }
    }

    /// Reads the document that `text` spells, if it spells one.
    pub fn parse(text: &str) -> (outcome: Option<Json>)
        ensures
            match outcome {
                Some(json) => parse_document(text@) == Some(json@),
                None => parse_document(text@) is None,
            },
    {
        match value_from_str(text) {
            Some(value) => Some(json_of_value(value)),
            None => None,
        }
    }

    /// The document on one line.
    pub fn compact(&self) -> (text: String)
        ensures
            text@ == compact_text(self@),
    {
        value_to_string(&value_of_json(self))
    }

    /// The document over several lines, indented.
    pub fn pretty(&self) -> (text: String)
        ensures
            text@ == pretty_or_empty(self@),
    {
        match value_to_string_pretty(&value_of_json(self)) {
            Some(text) => text,
            None => String::new(),
        }
    }
}

/// The pretty form is what can be printed, and empty only where nothing can.
pub proof fn law_pretty_form(json: JsonView)
    ensures
        pretty_text(json) matches Some(text) ==> pretty_or_empty(json) == text,
        pretty_text(json) is None ==> pretty_or_empty(json) == Seq::<char>::empty(),
{
}

} // verus!
