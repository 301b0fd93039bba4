//! A parsed TOML document as plain data, and the call that parses one.

use vstd::prelude::*;
use vstd::string::*;

verus! {

/// One value of a TOML document. Floats and datetimes keep only their kind:
/// nothing in this crate reads what they hold.
#[derive(Debug, PartialEq, Eq)]
pub enum Node {
    Text(String),
    Integer(i64),
    Boolean(bool),
    Float,
    Datetime,
    Array(Vec<Node>),
    /// The entries of a table, in the order in which the table yields them.
    Table(Vec<(String, Node)>),
}

/// Whether `index` is the first entry of `entries` whose key is `key`.
pub open spec fn is_first_with_key(entries: Seq<(String, Node)>, key: Seq<char>, index: int) -> bool {
    &&& 0 <= index < entries.len()
    &&& entries[index].0@ == key
    &&& forall|j: int| 0 <= j < index ==> (#[trigger] entries[j]).0@ != key
}

/// The value of the first entry of `entries` whose key is `key`.
pub open spec fn lookup(entries: Seq<(String, Node)>, key: Seq<char>) -> Option<Node> {
    if exists|i: int| is_first_with_key(entries, key, i) {
        Some(entries[choose|i: int| is_first_with_key(entries, key, i)].1)
    } else {
        None
    }
}

/// At most one index is the first with a given key.
pub proof fn lemma_first_with_key_unique(
    entries: Seq<(String, Node)>,
    key: Seq<char>,
    i: int,
    j: int,
)
    requires
        is_first_with_key(entries, key, i),
        is_first_with_key(entries, key, j),
    ensures
        i == j,
{
}

impl Node {
    /// The member `key` of a table; `None` for a key that is absent and for a
    /// value that is not a table.
    pub open spec fn spec_get(self, key: Seq<char>) -> Option<Node> {
        match self {
            Node::Table(entries) => lookup(entries@, key),
            _ => None,
        }
    }

    /// The text of a string value.
    pub open spec fn spec_as_str(self) -> Option<Seq<char>> {
        match self {
            Node::Text(text) => Some(text@),
            _ => None,
        }
    }

    /// The number of an integer value.
    pub open spec fn spec_as_integer(self) -> Option<i64> {
        match self {
            Node::Integer(number) => Some(number),
            _ => None,
        }
    }

    /// Looks up `key` in a table.
    pub fn get(&self, key: &str) -> (found: Option<&Node>)
        ensures
            match found {
                Some(node) => self.spec_get(key@) == Some(*node),
                None => self.spec_get(key@) is None,
            },
    {
        match self {
            Node::Table(entries) => {
                let wanted = String::from_str(key);
                let mut i: usize = 0;
                while i < entries.len()
                    invariant
                        i <= entries.len(),
                        *self == Node::Table(*entries),
                        wanted@ == key@,
                        forall|j: int| 0 <= j < i ==> (#[trigger] entries@[j]).0@ != key@,
                    decreases entries.len() - i,
                {
                    if entries[i].0.eq(&wanted) {
                        proof {
                            let first = i as int;
                            assert(is_first_with_key(entries@, key@, first));
                            let chosen = choose|c: int| is_first_with_key(entries@, key@, c);
                            lemma_first_with_key_unique(entries@, key@, first, chosen);
                        }
                        return Some(&entries[i].1);
                    }
                    i += 1;
                }
                None
            },
            _ => None,
        }
    }

    /// The text of a string value.
    pub fn as_str(&self) -> (text: Option<&str>)
        ensures
            match text {
                Some(t) => self.spec_as_str() == Some(t@),
                None => self.spec_as_str() is None,
            },
    {
        match self {
            Node::Text(text) => Some(text.as_str()),
            _ => None,
        }
    }

    /// The number of an integer value.
    pub fn as_integer(&self) -> (number: Option<i64>)
        ensures
            number == self.spec_as_integer(),
    {
        match self {
            Node::Integer(number) => Some(*number),
            _ => None,
        }
    }
}

/// `toml::Value`, read only through `node_of_value`.
#[verifier::external_type_specification]
#[verifier::external_body]
pub struct ExTomlValue(toml::Value);

/// `toml::de::Error`, of which nothing is read but that it occurred.
#[verifier::external_type_specification]
#[verifier::external_body]
pub struct ExTomlError(toml::de::Error);

/// The value that `toml::from_str` reads from `text`, or `None` where it
/// rejects the text.
pub uninterp spec fn parsed_value(text: Seq<char>) -> Option<toml::Value>;

/// The `Node` that holds what `value` holds.
pub uninterp spec fn value_node(value: toml::Value) -> Node;

/// The document that `text` stands for, if it is well-formed TOML.
pub open spec fn parsed_document(text: Seq<char>) -> Option<Node> {
    match parsed_value(text) {
        Some(value) => Some(value_node(value)),
        None => None,
    }
}

/// Calls `toml::from_str` for a `toml::Value`. The parser reads nothing but
/// its argument, so the contract names what it returns as a function of the
/// text; it says nothing of which texts are accepted.
#[verifier::external_body]
fn parse_value(text: &str) -> (parsed: Result<toml::Value, toml::de::Error>)
    ensures
        match parsed {
            Ok(value) => parsed_value(text@) == Some(value),
            Err(_) => parsed_value(text@) is None,
        },
{
    toml::from_str::<toml::Value>(text)
}

/// Copies a `toml::Value` into a `Node`, variant by variant; a table's
/// entries come in the order of `toml::map::Map::iter`. The contract names the
/// copy.
#[verifier::external_body]
fn node_of_value(value: &toml::Value) -> (node: Node)
    ensures
        node == value_node(*value),
{
    match value {
        toml::Value::String(s) => Node::Text(s.clone()),
        toml::Value::Integer(i) => Node::Integer(*i),
        toml::Value::Float(_) => Node::Float,
        toml::Value::Boolean(b) => Node::Boolean(*b),
        toml::Value::Datetime(_) => Node::Datetime,
        toml::Value::Array(a) => Node::Array(a.iter().map(node_of_value).collect()),
        toml::Value::Table(t) => {
            Node::Table(t.iter().map(|(k, v)| (k.clone(), node_of_value(v))).collect())
        },
    }
}

/// Parses `text` as a TOML document.
pub fn parse_document(text: &str) -> (document: Option<Node>)
    ensures
        document == parsed_document(text@),
{
    match parse_value(text) {
        Ok(value) => Some(node_of_value(&value)),
        Err(_) => None,
    }
}

} // verus!
