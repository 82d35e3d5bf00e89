//! What a translated program computes.
//!
//! Every value the translator produces is a signed integer carried at one of
//! the widths 8, 16, 32 or 64 bits. Arithmetic wraps at the width it is
//! performed at; combining values of unequal width first sign-extends the
//! narrower one, which preserves its signed value. An operation folds its
//! operands left-to-right in their original source order and reports its
//! result at the canonical 64-bit return width.

use vstd::prelude::*;

use crate::ast::{Op, ParseNode, spec_atomic};
use crate::literal::lit_value;

verus! {

/// The widths a translated value can be carried at.
pub open spec fn valid_width(w: nat) -> bool {
    w == 8 || w == 16 || w == 32 || w == 64
}

/// Half the number of values of a `w`-bit integer: the magnitude bound of
/// the signed range.
pub open spec fn half_range(w: nat) -> int {
    if w == 8 {
        0x80
    } else if w == 16 {
        0x8000
    } else if w == 32 {
        0x8000_0000
    } else {
        0x8000_0000_0000_0000
    }
}

/// The number of distinct values of a `w`-bit integer.
pub open spec fn full_range(w: nat) -> int {
    2 * half_range(w)
}

/// Whether `x` is representable as a signed `w`-bit integer.
pub open spec fn fits(x: int, w: nat) -> bool {
    -half_range(w) <= x && x < half_range(w)
}

/// `x` reduced to the signed `w`-bit value congruent to it modulo `2^w`:
/// the result of a `w`-bit machine operation that produced `x` exactly.
pub open spec fn wrap(x: int, w: nat) -> int {
    let r = x % full_range(w);
    if r < half_range(w) {
        r
    } else {
        r - full_range(w)
    }
}

/// The exact integer an operator computes.
pub open spec fn apply_op(op: Op, a: int, b: int) -> int {
    match op {
        Op::Add => a + b,
        Op::Sub => a - b,
        Op::Mul => a * b,
    }
}

/// The wider of two widths.
pub open spec fn max_width(a: nat, b: nat) -> nat {
    if a >= b {
        a
    } else {
        b
    }
}

/// One fold step: the narrower side is sign-extended to the wider width,
/// the operator is applied there, and the machine result wraps at that
/// width.
pub open spec fn step(op: Op, acc: (nat, int), v: (nat, int)) -> (nat, int) {
    let w = max_width(acc.0, v.0);
    (w, wrap(apply_op(op, acc.1, v.1), w))
}

/// The left-to-right fold of an operand list under `op`. An empty list
/// yields the additive identity at the widest width; a single operand is
/// its own result; otherwise each further operand is combined onto the
/// accumulator in source order.
pub open spec fn fold_vals(op: Op, vs: Seq<(nat, int)>) -> (nat, int)
    decreases vs.len(),
{
    if vs.len() == 0 {
        (64 as nat, 0 as int)
    } else if vs.len() == 1 {
        vs[0]
    } else {
        step(op, fold_vals(op, vs.drop_last()), vs.last())
    }
}

/// What translating one node yields: a value computed in place
/// (`SingleT`), the value live at the end of a block the translation just
/// closed (`BlockT`), no value at all (`NoneT`), a number literal whose
/// text does not fit its radix (`LitErrT`), or a broken internal contract,
/// an operand that produces no value (`StructErrT`).
pub enum STrans {
    SingleT(nat, int),
    BlockT(nat, int),
    NoneT,
    LitErrT,
    StructErrT,
}

/// The width of a produced value.
pub open spec fn st_width(t: STrans) -> nat {
    match t {
        STrans::SingleT(w, _) => w,
        STrans::BlockT(w, _) => w,
        _ => 0,
    }
}

/// The produced value itself.
pub open spec fn st_val(t: STrans) -> int {
    match t {
        STrans::SingleT(_, x) => x,
        STrans::BlockT(_, x) => x,
        _ => 0,
    }
}

/// Whether a node's translation produces a value.
pub open spec fn arg_ok(n: ParseNode) -> bool
    decreases n, 4int,
{
    spec_trans(n) is SingleT || spec_trans(n) is BlockT
}

/// Whether every operand of a list produces a value.
pub open spec fn args_all_ok(s: Seq<ParseNode>) -> bool
    decreases s, 1int,
{
    forall|i: int| 0 <= i < s.len() ==> arg_ok(s[i])
}

/// The (width, value) pair an operand contributes to the fold.
pub open spec fn arg_val(n: ParseNode) -> (nat, int)
    decreases n, 4int,
{
    (st_width(spec_trans(n)), st_val(spec_trans(n)))
}

/// The operands' contributions, in source order.
pub open spec fn arg_vals(s: Seq<ParseNode>) -> Seq<(nat, int)>
    decreases s, 1int,
{
    if s.len() == 0 {
        Seq::empty()
    } else {
        arg_vals(s.drop_last()).push(arg_val(s.last()))
    }
}

/// The error an operand raises when consumed: a literal failure keeps its
/// identity, anything else that fails to produce a value breaks the
/// translator's internal contract.
pub open spec fn err_of(n: ParseNode) -> STrans
    decreases n, 4int,
{
    if spec_trans(n) is LitErrT {
        STrans::LitErrT
    } else {
        STrans::StructErrT
    }
}

/// The first failing operand among those whose atomicity matches
/// `want_atomic`, scanning left to right; `NoneT` when none fails. This
/// mirrors the translator's two passes: non-atomic operands are consumed
/// before atomic ones.
pub open spec fn first_err(s: Seq<ParseNode>, want_atomic: bool) -> STrans
    decreases s, 0int,
{
    if s.len() == 0 {
        STrans::NoneT
    } else if spec_atomic(s.first()) == want_atomic && !arg_ok(s.first()) {
        err_of(s.first())
    } else {
        first_err(s.drop_first(), want_atomic)
    }
}

/// The error an operand list raises, honoring the two-pass consumption
/// order.
pub open spec fn op_err(s: Seq<ParseNode>) -> STrans
    decreases s, 1int,
{
    if !(first_err(s, false) is NoneT) {
        first_err(s, false)
    } else {
        first_err(s, true)
    }
}

/// What translating an `Operation` yields: when every operand produces a
/// value, the left-to-right fold of those values reported at the 64-bit
/// return width; otherwise the first error in consumption order.
pub open spec fn op_trans(op: Op, args: Seq<ParseNode>) -> STrans
    decreases args, 2int,
{
    if args_all_ok(args) {
        STrans::BlockT(64, fold_vals(op, arg_vals(args)).1)
    } else {
        op_err(args)
    }
}

/// What translating a node yields.
///
/// A boolean is an 8-bit constant 1 or 0. A number is a constant of the
/// narrowest width that holds it. An atom forwards its child. A file or an
/// s-expression yields whatever its last value-producing child yields,
/// aborting at the first failing child. End of input yields nothing.
pub open spec fn spec_trans(n: ParseNode) -> STrans
    decreases n, 3int,
{
    match n {
        ParseNode::File(cs) => seq_trans(cs@),
        ParseNode::SExpr(cs) => seq_trans(cs@),
        ParseNode::Atom(c) => spec_trans(*c),
        ParseNode::Boolean(b) => STrans::SingleT(8, if b { 1 as int } else { 0 }),
        ParseNode::Number(r, text) => match lit_value(r, text@) {
            Some(x) => STrans::SingleT(width_for(x), x),
            None => STrans::LitErrT,
        },
        ParseNode::Operation(op, args) => op_trans(op, args@),
        ParseNode::EndOfInput => STrans::NoneT,
    }
}

/// What translating a run of sibling nodes in order yields: the first
/// error if any child fails, else the last produced value, else nothing.
pub open spec fn seq_trans(s: Seq<ParseNode>) -> STrans
    decreases s, 0int,
{
    if s.len() == 0 {
        STrans::NoneT
    } else {
        let prefix = seq_trans(s.drop_last());
        if prefix is LitErrT || prefix is StructErrT {
            prefix
        } else {
            let last = spec_trans(s.last());
            if last is NoneT {
                prefix
            } else {
                last
            }
        }
    }
}

/// The narrowest of the supported widths whose signed range holds `x`.
pub open spec fn width_for(x: int) -> nat {
    if fits(x, 8) {
        8
    } else if fits(x, 16) {
        16
    } else if fits(x, 32) {
        32
    } else {
        64
    }
}

/// The exact mathematical left-to-right fold of `op` over plain integers,
/// with no machine wrapping: an empty list folds to the additive identity.
pub open spec fn math_fold(op: Op, xs: Seq<int>) -> int
    decreases xs.len(),
{
    if xs.len() == 0 {
        0
    } else if xs.len() == 1 {
        xs[0]
    } else {
        apply_op(op, math_fold(op, xs.drop_last()), xs.last())
    }
}

/// The values alone of a width-value list.
pub open spec fn just_vals(vs: Seq<(nat, int)>) -> Seq<int> {
    vs.map_values(|p: (nat, int)| p.1)
}

/// No fold step leaves the signed range of the width it is carried at:
/// every intermediate result is exact.
pub open spec fn no_overflow(op: Op, vs: Seq<(nat, int)>) -> bool
    decreases vs.len(),
{
    if vs.len() <= 1 {
        true
    } else {
        let acc = fold_vals(op, vs.drop_last());
        no_overflow(op, vs.drop_last()) && fits(
            apply_op(op, acc.1, vs.last().1),
            max_width(acc.0, vs.last().0),
        )
    }
}

} // verus!
