//! The document tree that the flattener walks.
use vstd::prelude::*;

verus! {

/// A parsed YAML node.
///
/// Floats are held as the decimal text of their value, which is all the
/// flattener ever reads of them.
#[derive(Debug)]
pub enum Node {
    Bool(bool),
    Integer(i64),
    Float(String),
    Str(String),
    Sequence(Vec<Node>),
    Mapping(Vec<(Node, Node)>),
    /// Null, and any other node that carries no scalar the flattener emits.
    Unsupported,
}

/// Why a document could not be flattened.
#[derive(Debug, Clone, Copy, PartialEq, Eq, Structural)]
pub enum FlattenError {
    /// The root of the document is not a mapping.
    RootNotMapping,
    /// A mapping key on the way to a leaf is not a string.
    NonStringKey,
}

} // verus!
