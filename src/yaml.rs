//! A YAML document as a flat arena of values addressed by index, and the call
//! that reads one.

use vstd::prelude::*;
use serde_yaml::Value;

verus! {

/// One YAML value. Numbers keep the decimal text that the YAML reader gives
/// them; lists and mappings refer to their members by index in the document;
/// mappings keep their entries in document order.
#[derive(Debug)]
pub enum Node {
    Null,
    Bool(bool),
    Number(String),
    Str(String),
    List(Vec<usize>),
    Mapping(Vec<(usize, usize)>),
    Tagged(String, usize),
}

/// A YAML document: its values, and the index of the top one. The YAML
/// reader refuses a mapping with a repeated key; lookups take the first
/// matching entry.
#[derive(Debug)]
pub struct Document {
    pub nodes: Vec<Node>,
    pub root: usize,
}

/// Whether every member of node `i` stands before it.
pub open spec fn members_before(n: Node, i: int) -> bool {
    match n {
        Node::List(v) => forall|k: int| 0 <= k < v@.len() ==> v@[k] < i,
        Node::Mapping(v) => forall|k: int| 0 <= k < v@.len() ==> v@[k].0 < i && v@[k].1 < i,
        Node::Tagged(_, x) => x < i,
        _ => true,
    }
}

impl Document {
    /// The root is a node, and every node's members stand before it, so that
    /// the document is a finite tree walked from the root down.
    pub open spec fn wf(&self) -> bool {
        &&& self.root < self.nodes@.len()
        &&& forall|i: int| 0 <= i < self.nodes@.len() ==> members_before(#[trigger] self.nodes@[i], i)
    }

    /// Tells whether the document is well formed.
    pub fn check(&self) -> (r: bool)
        ensures
            r == self.wf(),
    {
        if self.root >= self.nodes.len() {
            return false;
        }
        let mut i: usize = 0;
        while i < self.nodes.len()
            invariant
                i <= self.nodes@.len(),
                forall|m: int| 0 <= m < i ==> members_before(#[trigger] self.nodes@[m], m),
            decreases self.nodes@.len() - i,
        {
            let ok = match &self.nodes[i] {
                Node::List(v) => {
                    let mut k: usize = 0;
                    let mut good = true;
                    while k < v.len()
                        invariant
                            k <= v@.len(),
                            good == (forall|q: int| 0 <= q < k ==> v@[q] < i),
                        decreases v@.len() - k,
                    {
                        if v[k] >= i {
                            good = false;
                        }
                        k = k + 1;
                    }
                    good
                },
                Node::Mapping(v) => {
                    let mut k: usize = 0;
                    let mut good = true;
                    while k < v.len()
                        invariant
                            k <= v@.len(),
                            good == (forall|q: int| 0 <= q < k ==> v@[q].0 < i && v@[q].1 < i),
                        decreases v@.len() - k,
                    {
                        if v[k].0 >= i || v[k].1 >= i {
                            good = false;
                        }
                        k = k + 1;
                    }
                    good
                },
                Node::Tagged(_, x) => *x < i,
                _ => true,
            };
            if !ok {
                return false;
            }
            i = i + 1;
        }
        true
    }
}

/// What a YAML reader makes of a text, where it accepts it.
pub uninterp spec fn yaml_document_of(text: Seq<char>) -> Option<Document>;

/// The text of the scalar at index `i`, read as a string: a string as it
/// is, a number as its decimal text, a boolean as `true` or `false`.
pub open spec fn str_at(d: Document, i: int) -> Option<Seq<char>> {
    if 0 <= i < d.nodes@.len() {
        match d.nodes@[i] {
            Node::Str(s) => Some(s@),
            Node::Number(s) => Some(s@),
            Node::Bool(b) => Some(if b { "true"@ } else { "false"@ }),
            _ => None,
        }
    } else {
        None
    }
}

/// The text by which the mapping key at index `i` is looked up: a string, or
/// a number's decimal text.
pub open spec fn key_at(d: Document, i: int) -> Option<Seq<char>> {
    if 0 <= i < d.nodes@.len() {
        match d.nodes@[i] {
            Node::Str(s) => Some(s@),
            Node::Number(s) => Some(s@),
            _ => None,
        }
    } else {
        None
    }
}

/// The value index of the first entry from position `k` on whose key reads
/// `key`.
pub open spec fn lookup_from(d: Document, entries: Seq<(usize, usize)>, key: Seq<char>, k: int) -> Option<usize>
    decreases entries.len() - k,
{
    if k < 0 || k >= entries.len() {
        None
    } else if key_at(d, entries[k].0 as int) == Some(key) {
        Some(entries[k].1)
    } else {
        lookup_from(d, entries, key, k + 1)
    }
}

/// The value index that the mapping at index `i` holds under `key`.
pub open spec fn field(d: Document, i: int, key: Seq<char>) -> Option<usize> {
    if 0 <= i < d.nodes@.len() {
        match d.nodes@[i] {
            Node::Mapping(es) => lookup_from(d, es@, key, 0),
            _ => None,
        }
    } else {
        None
    }
}

/// Reads a YAML text into a document. The error holds the reader's message
/// where it refuses the text, or says that the value is no finite tree.
pub fn read_yaml(text: &str) -> (r: Result<Document, String>)
    ensures
        match r {
            Ok(d) => yaml_document_of(text@) == Some(d) && d.wf(),
            Err(_) => yaml_document_of(text@) is None || !yaml_document_of(text@)->0.wf(),
        },
{
    match load_yaml(text) {
        Ok(d) => {
            if d.check() {
                Ok(d)
            } else {
                Err("the value is not a finite tree".to_owned())
            }
        },
        Err(e) => Err(e),
    }
}

/// Relies on serde_yaml::from_str into serde_yaml::Value: the value depends on
/// the text alone; a refusal comes with the reader's message.
#[verifier::external_body]
fn load_yaml(text: &str) -> (r: Result<Document, String>)
    ensures
        r is Ok <==> yaml_document_of(text@) is Some,
        r matches Ok(d) ==> yaml_document_of(text@) == Some(d),
{
    match serde_yaml::from_str::<Value>(text) {
        Ok(v) => {
            let mut nodes = Vec::new();
            let root = push_value(&v, &mut nodes);
            Ok(Document { nodes, root })
        },
        Err(e) => Err(e.to_string()),
    }
}

/// serde_yaml's value tree, carried only from the reader into `push_value`.
#[verifier::external_type_specification]
#[verifier::external_body]
pub struct ExYamlValue(Value);

/// Relies on serde_yaml::Value: appends the value's members, then the value
/// itself, turning each variant into the matching `Node` and a number into
/// its `Display` text; returns the value's index.
#[verifier::external_body]
fn push_value(v: &Value, out: &mut Vec<Node>) -> usize {
    let n = match v {
        Value::Null => Node::Null,
        Value::Bool(b) => Node::Bool(*b),
        Value::Number(n) => Node::Number(n.to_string()),
        Value::String(s) => Node::Str(s.clone()),
        Value::Sequence(s) => Node::List(s.iter().map(|x| push_value(x, out)).collect()),
        Value::Mapping(m) => Node::Mapping(m.iter().map(|(k, x)| (push_value(k, out), push_value(x, out))).collect()),
        Value::Tagged(t) => Node::Tagged(t.tag.to_string(), push_value(&t.value, out)),
    };
    let index = out.len();
    out.push(n);
    index
}

/// Looks up `key` in a mapping's entries, the first matching entry winning.
pub fn lookup(d: &Document, entries: &Vec<(usize, usize)>, key: &str) -> (r: Option<usize>)
    ensures
        r == lookup_from(*d, entries@, key@, 0),
{
    let mut k: usize = 0;
    while k < entries.len()
        invariant
            k <= entries@.len(),
            lookup_from(*d, entries@, key@, k as int) == lookup_from(*d, entries@, key@, 0),
        decreases entries@.len() - k,
    {
        let ki = entries[k].0;
        let hit = if ki < d.nodes.len() {
            match &d.nodes[ki] {
                Node::Str(s) => crate::text::same_text(s, key),
                Node::Number(s) => crate::text::same_text(s, key),
                _ => false,
            }
        } else {
            false
        };
        if hit {
            return Some(entries[k].1);
        }
        k = k + 1;
    }
    None
}

/// The value index that the node at `i` holds under `key`, where that node
/// is a mapping.
pub fn get(d: &Document, i: usize, key: &str) -> (r: Option<usize>)
    ensures
        r == field(*d, i as int, key@),
{
    if i >= d.nodes.len() {
        return None;
    }
    match &d.nodes[i] {
        Node::Mapping(es) => lookup(d, es, key),
        _ => None,
    }
}

} // verus!
