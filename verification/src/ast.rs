//! The parse tree consumed by the translator.
//!
//! The parser (an external collaborator) produces an ordered tree of typed
//! nodes; the translator borrows it read-only for the duration of one compile.

use vstd::prelude::*;

verus! {

/// The radix a number literal was written in.
#[derive(Clone, Copy, Debug, PartialEq, Eq, Structural)]
pub enum Radix {
    Base10,
    Base16,
    Base8,
    Base2,
}

/// An arithmetic operator of the language.
#[derive(Clone, Copy, Debug, PartialEq, Eq, Structural)]
pub enum Op {
    Add,
    Sub,
    Mul,
}

/// One node of the parse tree.
///
/// `File` and `SExpr` hold their children in source order. An `Atom` wraps a
/// single child (a boolean, a number, or a parenthesized grouping). A
/// `Number` carries the radix it was declared with and the literal text as
/// bytes, prefix included for the non-decimal radixes. An `Operation` holds
/// its operator and its operands in source order.
#[derive(Debug)]
pub enum ParseNode {
    File(Vec<ParseNode>),
    SExpr(Vec<ParseNode>),
    Atom(Box<ParseNode>),
    Boolean(bool),
    Number(Radix, Vec<u8>),
    Operation(Op, Vec<ParseNode>),
    EndOfInput,
}

/// An operand is atomic when evaluating it opens no fresh value thread of its
/// own: it is an `Atom`, or an `SExpr` whose last child is an `Atom`.
pub open spec fn spec_atomic(n: ParseNode) -> bool {
    match n {
        ParseNode::Atom(_) => true,
        ParseNode::SExpr(cs) => cs@.len() > 0 && cs@.last() is Atom,
        _ => false,
    }
}

/// Runtime atomicity test, the classifier for the operand partition.
pub fn is_atomic(n: &ParseNode) -> (r: bool)
    ensures
        r == spec_atomic(*n),
{
    match n {
        ParseNode::Atom(_) => true,
        ParseNode::SExpr(cs) => {
            if cs.len() > 0 {
                match &cs[cs.len() - 1] {
                    ParseNode::Atom(_) => true,
                    _ => false,
                }
            } else {
                false
            }
        },
        _ => false,
    }
}

} // verus!
