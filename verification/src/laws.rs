//! The library's laws: what holds of every translation, stated and proved
//! once, over the same spec functions the translator's contracts use.

use vstd::prelude::*;

use crate::ast::{Op, ParseNode, Radix};
use crate::literal::lit_value;
use crate::semantics::{
    STrans, apply_op, arg_vals, args_all_ok, fits, fold_vals, full_range, just_vals, math_fold,
    max_width, no_overflow, op_trans, spec_trans, step, valid_width, width_for, wrap,
};

verus! {

/// Reducing a value that already fits a width leaves it untouched.
proof fn lemma_wrap_id(x: int, w: nat)
    requires
        fits(x, w),
    ensures
        wrap(x, w) == x,
{
    let f = full_range(w);
    if x >= 0 {
        vstd::arithmetic::div_mod::lemma_small_mod(x as nat, f as nat);
    } else {
        vstd::arithmetic::div_mod::lemma_mod_add_multiples_vanish(x, f);
        vstd::arithmetic::div_mod::lemma_small_mod((f + x) as nat, f as nat);
    }
}

/// The width chosen for a literal's value is a supported width, holds the
/// value exactly, and no narrower supported width does: round-tripping a
/// literal through parsing and constant emission reproduces it at the
/// minimal sufficient width.
pub proof fn lemma_width_for_minimal(x: int)
    ensures
        valid_width(width_for(x)),
        (-0x8000_0000_0000_0000 <= x < 0x8000_0000_0000_0000) ==> fits(x, width_for(x)),
        forall|w: nat| valid_width(w) && fits(x, w) ==> width_for(x) <= w,
{
}

/// A number node whose text denotes a value translates to a constant
/// holding exactly that value, at the minimal width that holds it.
pub proof fn lemma_literal_round_trip(r: Radix, text: Vec<u8>)
    requires
        (lit_value(r, text@) is Some),
    ensures
        spec_trans(ParseNode::Number(r, text)) == STrans::SingleT(
            width_for(lit_value(r, text@)->Some_0),
            lit_value(r, text@)->Some_0,
        ),
{
}

/// When no fold step overflows its width, the machine fold computes the
/// exact mathematical left-to-right fold.
proof fn lemma_fold_exact(op: Op, vs: Seq<(nat, int)>)
    requires
        no_overflow(op, vs),
    ensures
        fold_vals(op, vs).1 == math_fold(op, just_vals(vs)),
    decreases vs.len(),
{
    if vs.len() <= 1 {
    } else {
        lemma_fold_exact(op, vs.drop_last());
        assert(just_vals(vs).drop_last() =~= just_vals(vs.drop_last()));
        let acc = fold_vals(op, vs.drop_last());
        lemma_wrap_id_applies(op, vs, acc);
    }
}

/// The final fold step of a non-overflowing list wraps nothing.
proof fn lemma_wrap_id_applies(op: Op, vs: Seq<(nat, int)>, acc: (nat, int))
    requires
        vs.len() >= 2,
        no_overflow(op, vs),
        acc == fold_vals(op, vs.drop_last()),
    ensures
        step(op, acc, vs.last()).1 == apply_op(op, acc.1, vs.last().1),
{
    let w = max_width(acc.0, vs.last().0);
    assert(fits(apply_op(op, acc.1, vs.last().1), w));
    lemma_wrap_id(apply_op(op, acc.1, vs.last().1), w);
}

/// For every operand list whose members all produce values and whose fold
/// never overflows, the operation computes the exact mathematical
/// left-to-right fold over the operands in their original source order,
/// reported at the 64-bit return width.
pub proof fn lemma_operation_folds_in_source_order(op: Op, args: Seq<ParseNode>)
    requires
        args_all_ok(args),
        no_overflow(op, arg_vals(args)),
    ensures
        op_trans(op, args) == STrans::BlockT(64, math_fold(op, just_vals(arg_vals(args)))),
{
    lemma_fold_exact(op, arg_vals(args));
}

/// The result of an operation depends only on the width and value each
/// operand contributes, in source order: two operand lists with the same
/// contributions, whichever members happen to be atoms and whichever
/// nested expressions, translate to the same result.
pub proof fn lemma_mixture_immaterial(op: Op, args1: Seq<ParseNode>, args2: Seq<ParseNode>)
    requires
        args_all_ok(args1),
        args_all_ok(args2),
        arg_vals(args1) == arg_vals(args2),
    ensures
        op_trans(op, args1) == op_trans(op, args2),
{
}

/// Combining two values of unequal width happens at the wider width and
/// truncates neither side: both enter the operator with their exact
/// values, and a result that fits the wider width is exact.
pub proof fn lemma_widening_no_truncation(op: Op, acc: (nat, int), v: (nat, int))
    requires
        valid_width(acc.0),
        valid_width(v.0),
        fits(acc.1, acc.0),
        fits(v.1, v.0),
    ensures
        step(op, acc, v).0 == max_width(acc.0, v.0),
        fits(acc.1, max_width(acc.0, v.0)),
        fits(v.1, max_width(acc.0, v.0)),
        fits(apply_op(op, acc.1, v.1), max_width(acc.0, v.0)) ==> step(op, acc, v).1 == apply_op(
            op,
            acc.1,
            v.1,
        ),
{
    if fits(apply_op(op, acc.1, v.1), max_width(acc.0, v.0)) {
        lemma_wrap_id(apply_op(op, acc.1, v.1), max_width(acc.0, v.0));
    }
}

/// An operation with no operands at all evaluates to the additive
/// identity at the canonical 64-bit return width, whatever the operator.
pub proof fn lemma_empty_operands_identity(op: Op)
    ensures
        op_trans(op, Seq::<ParseNode>::empty()) == STrans::BlockT(64, 0),
{
    assert(args_all_ok(Seq::<ParseNode>::empty()));
    assert(arg_vals(Seq::<ParseNode>::empty()) =~= Seq::<(nat, int)>::empty());
}

/// A value carried at one supported width fits every wider supported
/// width, where it stands for itself.
pub proof fn lemma_fits_wider(x: int, w1: nat, w2: nat)
    requires
        valid_width(w1),
        valid_width(w2),
        w1 <= w2,
        fits(x, w1),
    ensures
        fits(x, w2),
        wrap(x, w2) == x,
{
    lemma_wrap_id(x, w2);
}

} // verus!
