//! The generic key-value tree that a configuration document is read into.
//!
//! The external deserializer turns document text into a tree of [`Node`]
//! values; the task-entry parser and the graph resolver then work on that
//! tree alone.  A dictionary keeps its entries in document order.

use vstd::prelude::*;

verus! {

/// One node of a parsed configuration document.
pub enum Node {
    /// A floating-point scalar, kept as its source text.
    Real(String),
    /// An integer scalar.
    Int(i64),
    /// A string scalar.
    Str(String),
    /// A boolean scalar.
    Bool(bool),
    /// An ordered list of nodes.
    List(Vec<Node>),
    /// A dictionary: key-value pairs in document order.
    Dict(Vec<(Node, Node)>),
    /// A reference to an anchor, by index.
    Alias(usize),
    /// An explicit null.
    Null,
    /// A node that could not be given a value.
    Bad,
}

/// The text of a string scalar, and nothing of any other node.
pub open spec fn str_of(n: Node) -> Option<Seq<char>> {
    match n {
        Node::Str(s) => Some(s@),
        _ => None,
    }
}

/// The elements of a list node, and nothing of any other node.
pub open spec fn list_of(n: Node) -> Option<Seq<Node>> {
    match n {
        Node::List(l) => Some(l@),
        _ => None,
    }
}

/// The entries of a dictionary node, and nothing of any other node.
pub open spec fn dict_of(n: Node) -> Option<Seq<(Node, Node)>> {
    match n {
        Node::Dict(es) => Some(es@),
        _ => None,
    }
}

/// The value under the first entry of `es` at or after position `i` whose
/// key is the string scalar `key`.
pub open spec fn lookup_from(es: Seq<(Node, Node)>, key: Seq<char>, i: int) -> Option<Node>
    decreases es.len() - i,
{
    if i < 0 || i >= es.len() {
        None
    } else if str_of(es[i].0) == Some(key) {
        Some(es[i].1)
    } else {
        lookup_from(es, key, i + 1)
    }
}

/// The value under key `key` of dictionary node `n`: `None` when `n` is no
/// dictionary or holds no entry with that string key.
pub open spec fn get_of(n: Node, key: Seq<char>) -> Option<Node> {
    match dict_of(n) {
        Some(es) => lookup_from(es, key, 0),
        None => None,
    }
}

impl Node {
    /// The text of this node if it is a string scalar.
    pub fn as_str<'a>(&'a self) -> (r: Option<&'a str>)
        ensures
            match r {
                Some(s) => str_of(*self) == Some(s@),
                None => str_of(*self) is None,
            },
    {
        match self {
            Node::Str(s) => Some(s.as_str()),
            _ => None,
        }
    }

    /// The value under `key` if this node is a dictionary with such an entry.
    pub fn get<'a>(&'a self, key: &str) -> (r: Option<&'a Node>)
        ensures
            match r {
                Some(v) => get_of(*self, key@) == Some(*v),
                None => get_of(*self, key@) is None,
            },
    {
        let key_string: String = key.to_owned();
        match self {
            Node::Dict(es) => {
                let mut i: usize = 0;
                while i < es.len()
                    invariant
                        i <= es.len(),
                        dict_of(*self) == Some(es@),
                        key_string@ == key@,
                        lookup_from(es@, key@, 0) == lookup_from(es@, key@, i as int),
                    decreases es.len() - i,
                {
                    let hit: bool = match &es[i].0 {
                        Node::Str(k) => *k == key_string,
                        _ => false,
                    };
                    if hit {
                        return Some(&es[i].1);
                    }
                    i = i + 1;
                }
                None
            },
            _ => None,
        }
    }
}

} // verus!
