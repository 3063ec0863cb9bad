//! The bridge to the external document deserializer.
//!
//! Turning document text into a generic key-value tree is the business of
//! the `yaml_rust` crate.  Its tree type is declared here as opaque, and
//! one wrapper parses text and carries the result over into the crate's
//! own [`Node`] model, on which everything else is verified.  What the
//! deserializer yields depends on the text alone, so its result is given
//! a name: [`docs_of`] for the parsed documents, [`scan_msg_of`] for the
//! message under which a text is refused.  Nothing is assumed of either
//! name beyond the wrapper's contract.

use vstd::prelude::*;

use crate::node::Node;

verus! {

/// The documents the external deserializer parses `text` into: `None`
/// when it refuses the text.  A function of the text alone.
pub uninterp spec fn docs_of(text: Seq<char>) -> Option<Seq<Node>>;

/// The diagnostic message under which the external deserializer refuses
/// `text`.  Meaningful only where [`docs_of`] is `None`.
pub uninterp spec fn scan_msg_of(text: Seq<char>) -> Seq<char>;

#[verifier::external_type_specification]
#[verifier::external_body]
pub struct ExYaml(yaml_rust::Yaml);

/// Relies on the shape of the `yaml_rust::Yaml` enumeration: each variant
/// is carried over one to one into the crate's own tree, recursively for
/// list elements and dictionary entries, with dictionary entries kept in
/// their stored order.  Nothing is assumed of the value produced; only
/// [`load_docs`] calls this.  The recursion runs to the tree's nesting
/// depth, so a pathologically nested document can exhaust the stack.
#[verifier::external_body]
fn node_of_yaml(y: &yaml_rust::Yaml) -> Node {
    match y {
        yaml_rust::Yaml::Real(s) => Node::Real(s.clone()),
        yaml_rust::Yaml::Integer(i) => Node::Int(*i),
        yaml_rust::Yaml::String(s) => Node::Str(s.clone()),
        yaml_rust::Yaml::Boolean(b) => Node::Bool(*b),
        yaml_rust::Yaml::Array(a) => Node::List(a.iter().map(node_of_yaml).collect()),
        yaml_rust::Yaml::Hash(h) => Node::Dict(
            h.iter().map(|(k, v)| (node_of_yaml(k), node_of_yaml(v))).collect(),
        ),
        yaml_rust::Yaml::Alias(u) => Node::Alias(*u),
        yaml_rust::Yaml::Null => Node::Null,
        yaml_rust::Yaml::BadValue => Node::Bad,
    }
}

/// Relies on `yaml_rust::YamlLoader::load_from_str`, which parses
/// document text into a sequence of trees or refuses the text with a
/// scan error, and on `yaml_rust::ScanError`'s `Display` implementation
/// for the refusal message.  Both results depend on the text alone, so
/// the contract states them under the names [`docs_of`] and
/// [`scan_msg_of`]; the trees are carried over by [`node_of_yaml`].
/// The deserializer's block-style parsing, like the conversion, recurses
/// to the document's nesting depth.
#[verifier::external_body]
pub(crate) fn load_docs(text: &str) -> (r: Result<Vec<Node>, String>)
    ensures
        match r {
            Ok(docs) => docs_of(text@) == Some(docs@),
            Err(m) => docs_of(text@) is None && m@ == scan_msg_of(text@),
        },
{
    match yaml_rust::YamlLoader::load_from_str(text) {
        Ok(docs) => Ok(docs.iter().map(node_of_yaml).collect()),
        Err(e) => Err(format!("{}", e)),
    }
}

} // verus!
