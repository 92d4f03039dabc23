//! Documents as trees of plain values: what a JSON or a YAML text holds,
//! in a form that the rest of the library reads.

use vstd::prelude::*;
use crate::text::str_eq;

verus! {

broadcast use vstd::std_specs::vec::group_vec_axioms;

/// A number of a document: a whole number in one of two ranges, or the bits
/// of a double-precision number that is not whole or fits neither range.
#[derive(Clone, Copy, Debug, PartialEq, Eq, Structural)]
pub enum Numeral {
    Unsigned(u64),
    /// Always below zero.
    Negative(i64),
    /// The IEEE 754 bits of the number.
    Real(u64),
}

/// A document, or a part of one.
#[derive(Debug, PartialEq, Eq)]
pub enum Node {
    Null,
    Bool(bool),
    Numeral(Numeral),
    Text(String),
    List(Vec<Node>),
    /// The entries in the order of the document.
    Mapping(Vec<(Node, Node)>),
    /// A value that carries a tag of its own.
    Tagged(String, Box<Node>),
}

/// A document as a mathematical value.
pub enum NodeView {
    Null,
    Bool(bool),
    Numeral(Numeral),
    Text(Seq<char>),
    List(Seq<NodeView>),
    Mapping(Seq<(NodeView, NodeView)>),
    Tagged(Seq<char>, Box<NodeView>),
}

/// The mathematical value of a document.
pub open spec fn tree_of(node: Node) -> NodeView
    decreases node,
{
    match node {
        Node::Null => NodeView::Null,
        Node::Bool(b) => NodeView::Bool(b),
        Node::Numeral(n) => NodeView::Numeral(n),
        Node::Text(s) => NodeView::Text(s@),
        Node::List(items) => NodeView::List(
            Seq::new(
                items.len() as nat,
                |i: int|
                    if 0 <= i < items.len() {
                        tree_of(items[i])
                    } else {
                        NodeView::Null
                    },
            ),
        ),
        Node::Mapping(entries) => NodeView::Mapping(
            Seq::new(
                entries.len() as nat,
                |i: int|
                    if 0 <= i < entries.len() {
                        (tree_of(entries[i].0), tree_of(entries[i].1))
                    } else {
                        (NodeView::Null, NodeView::Null)
                    },
            ),
        ),
        Node::Tagged(tag, inner) => NodeView::Tagged(tag@, Box::new(tree_of(*inner))),
    }
}

impl View for Node {
    type V = NodeView;

    open spec fn view(&self) -> NodeView {
        tree_of(*self)
    }
}

/// `serde_json::Value`, a JSON value of any kind. Nothing of its inside
/// is known here.
#[verifier::external_type_specification]
#[verifier::external_body]
pub struct ExJsonValue(serde_json::Value);

/// `serde_json::Number`, a JSON number. Nothing of its inside is known
/// here.
#[verifier::external_type_specification]
#[verifier::external_body]
pub struct ExJsonNumber(serde_json::Number);

/// The document that `serde_json::from_str` reads from a text; none where
/// the text is not one JSON value.
pub uninterp spec fn json_document(text: Seq<char>) -> Option<NodeView>;

/// Tells the three forms of a `serde_json::Number` apart by `as_u64`,
/// `as_i64` and `as_f64`, and keeps the value of the form that answers.
#[verifier::external_body]
fn number_of_json(n: &serde_json::Number) -> Numeral {
    match (n.as_u64(), n.as_i64()) {
        (Some(u), _) => Numeral::Unsigned(u),
        (_, Some(i)) => Numeral::Negative(i),
        _ => Numeral::Real(n.as_f64().map_or(0, |x| x.to_bits())),
    }
}

/// Moves a `serde_json::Value` into a `Node`, variant by variant. An
/// object's entries come in the order in which the object hands them out.
#[verifier::external_body]
fn node_of_json(value: serde_json::Value) -> Node {
    match value {
        serde_json::Value::Null => Node::Null,
        serde_json::Value::Bool(b) => Node::Bool(b),
        serde_json::Value::Number(n) => Node::Numeral(number_of_json(&n)),
        serde_json::Value::String(s) => Node::Text(s),
        serde_json::Value::Array(v) => Node::List(v.into_iter().map(node_of_json).collect()),
        serde_json::Value::Object(m) => Node::Mapping(
            m.into_iter().map(|(k, v)| (Node::Text(k), node_of_json(v))).collect(),
        ),
    }
}

/// Calls `serde_json::from_str` for a `serde_json::Value`. The contract
/// names what the text holds; it says nothing of which texts are JSON.
#[verifier::external_body]
fn parse_json(text: &str) -> (r: Option<Node>)
    ensures
        r is Some <==> json_document(text@) is Some,
        r matches Some(node) ==> node@ == json_document(text@)->0,
{
    serde_json::from_str::<serde_json::Value>(text).ok().map(node_of_json)
}

/// `serde_yaml::Value`, a YAML value of any kind. Nothing of its inside
/// is known here.
#[verifier::external_type_specification]
#[verifier::external_body]
pub struct ExYamlValue(serde_yaml::Value);

/// `serde_yaml::Number`, a YAML number. Nothing of its inside is known
/// here.
#[verifier::external_type_specification]
#[verifier::external_body]
pub struct ExYamlNumber(serde_yaml::Number);

/// What `serde_yaml::from_str` reads from a text: the document, or the
/// words in which the crate says why the text is not one YAML document.
pub uninterp spec fn yaml_document(text: Seq<char>) -> Result<NodeView, Seq<char>>;

/// Tells the three forms of a `serde_yaml::Number` apart by `as_u64`,
/// `as_i64` and `as_f64`, and keeps the value of the form that answers.
#[verifier::external_body]
fn number_of_yaml(n: &serde_yaml::Number) -> Numeral {
    match (n.as_u64(), n.as_i64()) {
        (Some(u), _) => Numeral::Unsigned(u),
        (_, Some(i)) => Numeral::Negative(i),
        _ => Numeral::Real(n.as_f64().map_or(0, |x| x.to_bits())),
    }
}

/// Moves a `serde_yaml::Value` into a `Node`, variant by variant. A
/// mapping's entries come in the order of the document; of a tagged value
/// the tag is kept as the crate writes it.
#[verifier::external_body]
fn node_of_yaml(value: serde_yaml::Value) -> Node {
    match value {
        serde_yaml::Value::Null => Node::Null,
        serde_yaml::Value::Bool(b) => Node::Bool(b),
        serde_yaml::Value::Number(n) => Node::Numeral(number_of_yaml(&n)),
        serde_yaml::Value::String(s) => Node::Text(s),
        serde_yaml::Value::Sequence(v) => Node::List(v.into_iter().map(node_of_yaml).collect()),
        serde_yaml::Value::Mapping(m) => Node::Mapping(
            m.into_iter().map(|(k, v)| (node_of_yaml(k), node_of_yaml(v))).collect(),
        ),
        serde_yaml::Value::Tagged(t) => Node::Tagged(t.tag.to_string(), Box::new(node_of_yaml(t.value))),
    }
}

/// Calls `serde_yaml::from_str` for a `serde_yaml::Value`. The contract
/// names what the text holds; it says nothing of which texts are YAML.
#[verifier::external_body]
fn parse_yaml(text: &str) -> (r: Result<Node, String>)
    ensures
        r is Ok <==> yaml_document(text@) is Ok,
        r matches Ok(node) ==> yaml_document(text@)->Ok_0 == node@,
        r matches Err(why) ==> yaml_document(text@)->Err_0 == why@,
{
    match serde_yaml::from_str::<serde_yaml::Value>(text) {
        Ok(value) => Ok(node_of_yaml(value)),
        Err(e) => Err(e.to_string()),
    }
}

/// The value of the first entry from index `from` on whose key is the
/// text `key`.
pub open spec fn entry_from(entries: Seq<(NodeView, NodeView)>, key: Seq<char>, from: int) -> Option<
    NodeView,
>
    decreases entries.len() - from,
{
    if from >= entries.len() {
        None
    } else if entries[from].0 == NodeView::Text(key) {
        Some(entries[from].1)
    } else {
        entry_from(entries, key, from + 1)
    }
}

impl NodeView {
    /// What a mapping holds under the text `key`; none for a node that is
    /// no mapping.
    pub open spec fn field(self, key: Seq<char>) -> Option<NodeView> {
        match self {
            NodeView::Mapping(entries) => entry_from(entries, key, 0),
            _ => None,
        }
    }

    /// The text that the node is, if it is one.
    pub open spec fn text(self) -> Option<Seq<char>> {
        match self {
            NodeView::Text(s) => Some(s),
            _ => None,
        }
    }

    /// The number that the node is, if it is one.
    pub open spec fn numeral(self) -> Option<Numeral> {
        match self {
            NodeView::Numeral(n) => Some(n),
            _ => None,
        }
    }

    /// What a mapping holds under the text `key`, unless that is nothing:
    /// a key with a null value counts as a key that is not there.
    pub open spec fn child(self, key: Seq<char>) -> Option<NodeView> {
        match self.field(key) {
            Some(NodeView::Null) => None,
            other => other,
        }
    }
}

impl Node {
    /// Reads a JSON text; none where the text is not one JSON value.
    pub fn from_json(text: &str) -> (r: Option<Node>)
        ensures
            r is Some <==> json_document(text@) is Some,
            r matches Some(node) ==> node@ == json_document(text@)->0,
    {
        parse_json(text)
    }

    /// Reads a YAML text, or tells why the text is not one YAML document.
    pub fn from_yaml(text: &str) -> (r: Result<Node, String>)
        ensures
            r is Ok <==> yaml_document(text@) is Ok,
            r matches Ok(node) ==> yaml_document(text@)->Ok_0 == node@,
            r matches Err(why) ==> yaml_document(text@)->Err_0 == why@,
    {
        parse_yaml(text)
    }

    /// What a mapping holds under the text `key`.
    pub fn field(&self, key: &str) -> (r: Option<&Node>)
        ensures
            r is Some <==> self@.field(key@) is Some,
            r matches Some(node) ==> node@ == self@.field(key@)->0,
    {
        match self {
            Node::Mapping(entries) => {
                let ghost all = self@->Mapping_0;
                let mut i: usize = 0;
                while i < entries.len()
                    invariant
                        i <= entries.len(),
                        self@ == NodeView::Mapping(all),
                        all.len() == entries.len(),
                        forall|j: int|
                            0 <= j < entries.len() ==> all[j] == (entries[j].0@, entries[j].1@),
                        entry_from(all, key@, 0) == entry_from(all, key@, i as int),
                    decreases entries.len() - i,
                {
                    let found = match &entries[i].0 {
                        Node::Text(k) => str_eq(k.as_str(), key),
                        _ => false,
                    };
                    if found {
                        return Some(&entries[i].1);
                    }
                    i += 1;
                }
                None
            },
            _ => None,
        }
    }

    /// The text that the node is, if it is one.
    pub fn text(&self) -> (r: Option<&str>)
        ensures
            r is Some <==> self@.text() is Some,
            r matches Some(s) ==> s@ == self@.text()->0,
    {
        match self {
            Node::Text(s) => Some(s.as_str()),
            _ => None,
        }
    }

    /// The number that the node is, if it is one.
    pub fn numeral(&self) -> (r: Option<Numeral>)
        ensures
            r == self@.numeral(),
    {
        match self {
            Node::Numeral(n) => Some(*n),
            _ => None,
        }
    }

    /// What a mapping holds under the text `key`, unless that is null.
    pub fn child(&self, key: &str) -> (r: Option<&Node>)
        ensures
            r is Some <==> self@.child(key@) is Some,
            r matches Some(node) ==> node@ == self@.child(key@)->0,
    {
        match self.field(key) {
            Some(Node::Null) => None,
            other => other,
        }
    }

    /// The items of a list, or the entries of a mapping, are as many as
    /// the vector that holds them, and each is the view of its node.
    pub proof fn lemma_parts(&self)
        ensures
            self matches Node::List(items) ==> self@ matches NodeView::List(views)
                && views.len() == items.len() && forall|i: int|
                0 <= i < items.len() ==> #[trigger] views[i] == items[i]@,
            self matches Node::Mapping(entries) ==> self@ matches NodeView::Mapping(views)
                && views.len() == entries.len() && forall|i: int|
                0 <= i < entries.len() ==> #[trigger] views[i] == (entries[i].0@, entries[i].1@),
            self is Null <==> self@ is Null,
            self is List <==> self@ is List,
            self is Mapping <==> self@ is Mapping,
            self is Text <==> self@ is Text,
            self is Bool <==> self@ is Bool,
            self is Numeral <==> self@ is Numeral,
            self is Tagged <==> self@ is Tagged,
    {
    }
}

} // verus!
