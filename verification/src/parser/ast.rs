//! The syntax tree of a dialogue source.

use vstd::prelude::*;

verus! {

/// A dialogue: its nodes in the order of the source.
#[derive(Debug)]
pub struct Dialogue {
    pub nodes: Vec<Node>,
}

/// A node: its headers and its body.
#[derive(Debug)]
pub struct Node {
    pub headers: Vec<Header>,
    pub body: Body,
}

/// A header line: a key and a value.
#[derive(Debug)]
pub struct Header {
    pub key: String,
    pub value: String,
}

/// The body of a node.
#[derive(Debug)]
pub struct Body {
    pub statements: Vec<String>,
}

impl Body {
    /// The body without statements.
    pub fn new() -> (body: Body)
        ensures
            body.statements@.len() == 0,
    {
        Body { statements: Vec::new() }
    }
}

} // verus!
