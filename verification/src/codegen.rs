//! The AST-to-SSA translator: the core of the compiler.
//!
//! [`codegen`] walks a parse tree and emits straight-line IR through the
//! [`Builder`]. Literals become typed constants in place; an s-expression
//! that is not a trivial grouping evaluates behind a fresh block; an
//! operation translates its non-atomic operands first, threads their values
//! into a new block as typed block parameters, translates its atomic
//! operands inside that block, and then folds all operand values strictly
//! in their original left-to-right source order, sign-extending the
//! narrower side before every combination.
//!
//! The contract ties the emitted IR to [`spec_trans`]: the returned value
//! handle is defined in the builder's model and holds, at the stated width,
//! exactly the value the source semantics assigns to the node.

use vstd::prelude::*;

use cranelift_codegen::ir::Value;

use crate::ast::{Op, ParseNode, is_atomic, spec_atomic};
use crate::builder::{BuildState, Builder};
use crate::literal::parse_literal;
use crate::semantics::{
    STrans, arg_ok, arg_val, arg_vals, args_all_ok, err_of, first_err, fold_vals, op_trans,
    seq_trans, spec_trans, st_val, st_width, step,
};

verus! {

/// One computed quantity: an SSA value handle and the width it is carried
/// at, one of 8, 16, 32 or 64 bits.
#[derive(Clone, Copy, Debug)]
pub struct TypedValue {
    pub val: Value,
    pub bits: u8,
}

/// What one translator call produced: a value computed without opening a
/// new block, or the values live at the end of a block the call just
/// closed. The language's grammar makes every `BlockReturns` carry exactly
/// one value, and the translator's contract proves it.
#[derive(Debug)]
pub enum CodeChange {
    TypedValue(TypedValue),
    BlockReturns(Vec<TypedValue>),
}

/// Why a translation was aborted: a number literal whose text does not fit
/// its declared radix, or a broken internal contract (an operand that
/// produces no value, which a well-formed parse never yields).
#[derive(Clone, Copy, Debug, PartialEq, Eq, Structural)]
pub enum TranslateError {
    LiteralParse,
    StructuralInvariant,
}

/// The typed value `tv` is defined in the model: its handle holds, at
/// width `w`, the runtime value `x`, and its width tag tells the truth.
pub open spec fn tv_defined(st: BuildState, tv: TypedValue, w: nat, x: int) -> bool {
    &&& tv.bits as nat == w
    &&& st.vals.contains_key(tv.val)
    &&& st.vals[tv.val] == (w, x)
}

/// Every value defined in `a` is still defined, unchanged, in `c`.
pub open spec fn vals_preserved(a: BuildState, c: BuildState) -> bool {
    forall|k: Value|
        #[trigger] a.vals.contains_key(k) ==> c.vals.contains_key(k) && c.vals[k] == a.vals[k]
}

/// What a produced (non-error) translation result must look like under the
/// semantics `t`.
pub open spec fn opt_matches(st: BuildState, o: Option<CodeChange>, t: STrans) -> bool {
    match o {
        None => t is NoneT,
        Some(CodeChange::TypedValue(tv)) => t is SingleT && tv_defined(
            st,
            tv,
            st_width(t),
            st_val(t),
        ),
        Some(CodeChange::BlockReturns(vs)) => t is BlockT && vs@.len() == 1 && tv_defined(
            st,
            vs@[0],
            st_width(t),
            st_val(t),
        ),
    }
}

/// What a translation result, error or not, must look like under the
/// semantics `t`: the four outcomes correspond one to one.
pub open spec fn result_matches(
    st: BuildState,
    r: Result<Option<CodeChange>, TranslateError>,
    t: STrans,
) -> bool {
    match r {
        Ok(o) => opt_matches(st, o, t),
        Err(TranslateError::LiteralParse) => t is LitErrT,
        Err(TranslateError::StructuralInvariant) => t is StructErrT,
    }
}

/// Unfolds `seq_trans` one child at a time.
proof fn lemma_seq_trans_snoc(s: Seq<ParseNode>, i: int)
    requires
        0 <= i < s.len(),
    ensures
        seq_trans(s.take(i + 1)) == ({
            let prefix = seq_trans(s.take(i));
            if prefix is LitErrT || prefix is StructErrT {
                prefix
            } else {
                let produced = spec_trans(s[i]);
                if produced is NoneT {
                    prefix
                } else {
                    produced
                }
            }
        }),
{
    assert(s.take(i + 1).drop_last() =~= s.take(i));
    assert(s.take(i + 1).last() == s[i]);
}

/// A failing child decides the whole run: every longer prefix, and the run
/// itself, translates to that child's error.
proof fn lemma_seq_trans_err(s: Seq<ParseNode>, i: int, j: int)
    requires
        0 <= i < j <= s.len(),
        !(seq_trans(s.take(i)) is LitErrT),
        !(seq_trans(s.take(i)) is StructErrT),
        spec_trans(s[i]) is LitErrT || spec_trans(s[i]) is StructErrT,
    ensures
        seq_trans(s.take(j)) == spec_trans(s[i]),
    decreases j,
{
    if j == i + 1 {
        lemma_seq_trans_snoc(s, i);
    } else {
        lemma_seq_trans_err(s, i, j - 1);
        lemma_seq_trans_snoc(s, j - 1);
    }
}

/// Translate a run of sibling nodes in order; the result is the last
/// produced value, and the first failing child aborts the run.
fn translate_children(cs: &Vec<ParseNode>, b: &mut Builder) -> (r: Result<
    Option<CodeChange>,
    TranslateError,
>)
    requires
        old(b)@.wf(),
        old(b)@.positioned,
        (old(b)@.pending is None),
    ensures
        final(b)@.wf(),
        final(b)@.positioned,
        (final(b)@.pending is None),
        vals_preserved(old(b)@, final(b)@),
        result_matches(final(b)@, r, seq_trans(cs@)),
    decreases cs@, 0int,
{
    let mut produced: Option<CodeChange> = None;
    let mut i: usize = 0;
    while i < cs.len()
        invariant
            b@.wf(),
            b@.positioned,
            (b@.pending is None),
            vals_preserved(old(b)@, b@),
            0 <= i <= cs@.len(),
            !(seq_trans(cs@.take(i as int)) is LitErrT),
            !(seq_trans(cs@.take(i as int)) is StructErrT),
            opt_matches(b@, produced, seq_trans(cs@.take(i as int))),
        decreases cs@.len() - i,
    {
        let child_result = codegen(&cs[i], b);
        proof {
            lemma_seq_trans_snoc(cs@, i as int);
        }
        match child_result {
            Ok(o) => {
                match o {
                    Some(c) => {
                        produced = Some(c);
                    },
                    None => {},
                }
            },
            Err(e) => {
                proof {
                    lemma_seq_trans_err(cs@, i as int, cs@.len() as int);
                    assert(cs@.take(cs@.len() as int) =~= cs@);
                }
                return Err(e);
            },
        }
        i = i + 1;
    }
    proof {
        assert(cs@.take(cs@.len() as int) =~= cs@);
    }
    Ok(produced)
}

/// Translate one operand and hand back the single value it produces; an
/// operand that produces nothing breaks the translator's contract.
fn operand_value(n: &ParseNode, b: &mut Builder) -> (r: Result<TypedValue, TranslateError>)
    requires
        old(b)@.wf(),
        old(b)@.positioned,
        (old(b)@.pending is None),
    ensures
        final(b)@.wf(),
        final(b)@.positioned,
        (final(b)@.pending is None),
        vals_preserved(old(b)@, final(b)@),
        (match r {
            Ok(tv) => arg_ok(*n) && tv_defined(final(b)@, tv, arg_val(*n).0, arg_val(*n).1),
            Err(e) => !arg_ok(*n) && err_of(*n) == (if e is LiteralParse {
                STrans::LitErrT
            } else {
                STrans::StructErrT
            }),
        }),
    decreases *n, 2int,
{
    match codegen(n, b) {
        Ok(o) => match o {
            Some(CodeChange::TypedValue(tv)) => Ok(tv),
            Some(CodeChange::BlockReturns(vs)) => {
                assert(vs@.len() == 1);
                Ok(vs[0])
            },
            None => Err(TranslateError::StructuralInvariant),
        },
        Err(e) => Err(e),
    }
}

/// Every operand whose atomicity matches and that stands before `i` is
/// fine, so the first failure lies in the rest of the list.
proof fn lemma_first_err_skip(s: Seq<ParseNode>, want_atomic: bool, i: int)
    requires
        0 <= i <= s.len(),
        forall|k: int|
            0 <= k < i && spec_atomic(#[trigger] s[k]) == want_atomic ==> arg_ok(s[k]),
    ensures
        first_err(s, want_atomic) == first_err(s.skip(i), want_atomic),
    decreases i,
{
    if i == 0 {
        assert(s.skip(0) =~= s);
    } else {
        lemma_first_err_skip(s, want_atomic, i - 1);
        assert(s.skip(i - 1).first() == s[i - 1]);
        assert(s.skip(i - 1).drop_first() =~= s.skip(i));
    }
}

/// Unfolds `fold_vals` one operand at a time.
proof fn lemma_fold_snoc(op: Op, vs: Seq<(nat, int)>, m: int)
    requires
        1 <= m < vs.len(),
    ensures
        fold_vals(op, vs.take(m + 1)) == step(op, fold_vals(op, vs.take(m)), vs[m]),
{
    assert(vs.take(m + 1).drop_last() =~= vs.take(m));
    assert(vs.take(m + 1).last() == vs[m]);
}

/// `arg_vals` is the pointwise image of `arg_val`.
proof fn lemma_arg_vals(s: Seq<ParseNode>)
    ensures
        arg_vals(s).len() == s.len(),
        forall|m: int| 0 <= m < s.len() ==> arg_vals(s)[m] == arg_val(#[trigger] s[m]),
    decreases s.len(),
{
    if s.len() > 0 {
        lemma_arg_vals(s.drop_last());
        assert(forall|m: int|
            0 <= m < s.len() - 1 ==> s.drop_last()[m] == #[trigger] s[m]);
    }
}

/// Fold already-translated operand values left to right under `op`,
/// sign-extending the narrower side before each combination, and report
/// the result at the 64-bit return width.
fn fold_operands(
    op: Op,
    tvs: &Vec<TypedValue>,
    b: &mut Builder,
    vals_spec: Ghost<Seq<(nat, int)>>,
) -> (r: TypedValue)
    requires
        old(b)@.wf(),
        old(b)@.positioned,
        (old(b)@.pending is None),
        vals_spec@.len() == tvs@.len(),
        forall|m: int|
            0 <= m < tvs@.len() ==> tv_defined(
                old(b)@,
                #[trigger] tvs@[m],
                vals_spec@[m].0,
                vals_spec@[m].1,
            ),
    ensures
        final(b)@.wf(),
        final(b)@.positioned,
        (final(b)@.pending is None),
        vals_preserved(old(b)@, final(b)@),
        tv_defined(final(b)@, r, 64, fold_vals(op, vals_spec@).1),
{
    if tvs.len() == 0 {
        let v = b.emit_iconst(64, 0);
        return TypedValue { val: v, bits: 64 };
    }
    let mut acc = tvs[0];
    proof {
        assert(vals_spec@.take(1)[0] == vals_spec@[0]);
        assert(fold_vals(op, vals_spec@.take(1)) == vals_spec@[0]);
    }
    let mut m: usize = 1;
    while m < tvs.len()
        invariant
            b@.wf(),
            b@.positioned,
            (b@.pending is None),
            vals_preserved(old(b)@, b@),
            1 <= m <= tvs@.len(),
            vals_spec@.len() == tvs@.len(),
            forall|k: int|
                0 <= k < tvs@.len() ==> tv_defined(
                    b@,
                    #[trigger] tvs@[k],
                    vals_spec@[k].0,
                    vals_spec@[k].1,
                ),
            tv_defined(
                b@,
                acc,
                fold_vals(op, vals_spec@.take(m as int)).0,
                fold_vals(op, vals_spec@.take(m as int)).1,
            ),
        decreases tvs@.len() - m,
    {
        let mut operand = tvs[m];
        proof {
            lemma_fold_snoc(op, vals_spec@, m as int);
        }
        if acc.bits < operand.bits {
            let widened = b.emit_sextend(operand.bits, acc.val);
            acc = TypedValue { val: widened, bits: operand.bits };
        } else if operand.bits < acc.bits {
            let widened = b.emit_sextend(acc.bits, operand.val);
            operand = TypedValue { val: widened, bits: acc.bits };
        }
        let combined = b.emit_op(op, acc.val, operand.val);
        acc = TypedValue { val: combined, bits: acc.bits };
        m = m + 1;
    }
    proof {
        assert(vals_spec@.take(vals_spec@.len() as int) =~= vals_spec@);
    }
    if acc.bits < 64 {
        let widened = b.emit_sextend(64, acc.val);
        acc = TypedValue { val: widened, bits: 64 };
    }
    acc
}

/// Translate an operation: classify each operand by atomicity, translate
/// the non-atomic ones first, thread their values into a fresh block as
/// typed block parameters (unless the current block is still pristine),
/// translate the atomic ones inside that block, and fold every operand
/// value in original source order.
#[verifier::loop_isolation(false)]
fn translate_operation(op: Op, args: &Vec<ParseNode>, b: &mut Builder) -> (r: Result<
    Option<CodeChange>,
    TranslateError,
>)
    requires
        old(b)@.wf(),
        old(b)@.positioned,
        (old(b)@.pending is None),
    ensures
        final(b)@.wf(),
        final(b)@.positioned,
        (final(b)@.pending is None),
        vals_preserved(old(b)@, final(b)@),
        result_matches(final(b)@, r, op_trans(op, args@)),
    decreases args@, 0int,
{
    let n = args.len();
    // First pass: translate every non-atomic operand, in source order,
    // keeping each operand's slot aligned with its original index.
    let mut slots: Vec<Option<TypedValue>> = Vec::new();
    let mut any_nested = false;
    let mut i: usize = 0;
    while i < n
        invariant
            b@.wf(),
            b@.positioned,
            (b@.pending is None),
            vals_preserved(old(b)@, b@),
            0 <= i <= args@.len(),
            n == args@.len(),
            slots@.len() == i,
            forall|k: int|
                0 <= k < i ==> ((#[trigger] slots@[k]) is None <==> spec_atomic(args@[k])),
            forall|k: int|
                0 <= k < i && !spec_atomic(#[trigger] args@[k]) ==> arg_ok(args@[k]),
            forall|k: int|
                0 <= k < i ==> (match #[trigger] slots@[k] {
                    Some(tv) => tv_defined(b@, tv, arg_val(args@[k]).0, arg_val(args@[k]).1),
                    None => true,
                }),
            any_nested == exists|k: int| 0 <= k < i && !spec_atomic(#[trigger] args@[k]),
        decreases args@.len() - i,
    {
        if is_atomic(&args[i]) {
            slots.push(None);
        } else {
            match operand_value(&args[i], b) {
                Ok(tv) => {
                    slots.push(Some(tv));
                    proof {
                        assert(!spec_atomic(args@[i as int]));
                    }
                    any_nested = true;
                },
                Err(e) => {
                    proof {
                        lemma_first_err_skip(args@, false, i as int);
                        assert(args@.skip(i as int).first() == args@[i as int]);
                    }
                    return Err(e);
                },
            }
        }
        i = i + 1;
    }
    proof {
        lemma_first_err_skip(args@, false, n as int);
        assert(args@.skip(n as int) =~= Seq::<ParseNode>::empty());
        assert(first_err(args@, false) is NoneT);
    }

    // Thread the nested values into a fresh block as typed block
    // parameters, supplied in the same order by the entering jump, unless
    // the current block is still pristine and can host the operands as it
    // stands.
    if any_nested && !b.is_pristine() {
        let blk = b.create_block();
        let mut jump_args: Vec<Value> = Vec::new();
        let mut params: Vec<Option<TypedValue>> = Vec::new();
        let ghost entry_state = b@;
        let ghost mut k_of: Seq<int> = Seq::empty();
        let ghost mut m_of: Seq<int> = Seq::empty();
        let mut j: usize = 0;
        while j < n
            invariant
                b@.wf(),
                b@.positioned,
                n == args@.len(),
                slots@.len() == n,
                params@.len() == j,
                k_of.len() == j,
                0 <= j <= n,
                b@.vals == entry_state.vals,
                b@.positioned == entry_state.positioned,
                b@.cur == entry_state.cur,
                b@.created.contains(blk),
                !b@.targeted.contains(blk),
                !b@.visited.contains(blk),
                blk != b@.cur,
                vals_preserved(old(b)@, b@),
                forall|k: int|
                    0 <= k < n ==> ((#[trigger] slots@[k]) is None <==> spec_atomic(args@[k])),
                forall|k: int|
                    0 <= k < n ==> (match #[trigger] slots@[k] {
                        Some(tv) => tv_defined(b@, tv, arg_val(args@[k]).0, arg_val(args@[k]).1),
                        None => true,
                    }),
                forall|k: int|
                    0 <= k < j ==> ((#[trigger] params@[k]) is Some <==> slots@[k] is Some),
                (match b@.pending {
                    Some((pb, ps)) => {
                        &&& pb == blk
                        &&& ps.len() == jump_args@.len()
                        &&& m_of.len() == ps.len()
                        &&& forall|x: int|
                            0 <= x < ps.len() ==> {
                                let mm = #[trigger] m_of[x];
                                &&& 0 <= mm < j
                                &&& slots@[mm] is Some
                                &&& params@[mm] is Some
                                &&& ps[x] == (
                                    (params@[mm]->Some_0).val,
                                    (params@[mm]->Some_0).bits as nat,
                                )
                                &&& (params@[mm]->Some_0).bits == (slots@[mm]->Some_0).bits
                                &&& jump_args@[x] == (slots@[mm]->Some_0).val
                            }
                        &&& forall|k: int|
                            0 <= k < j && (#[trigger] slots@[k]) is Some ==> {
                                let x = k_of[k];
                                &&& 0 <= x < ps.len()
                                &&& ps[x] == (
                                    (params@[k]->Some_0).val,
                                    (params@[k]->Some_0).bits as nat,
                                )
                                &&& (params@[k]->Some_0).bits == (slots@[k]->Some_0).bits
                                &&& jump_args@[x] == (slots@[k]->Some_0).val
                            }
                    },
                    None => jump_args@.len() == 0 && m_of.len() == 0 && (forall|k: int|
                        0 <= k < j ==> (#[trigger] slots@[k]) is None),
                }),
            decreases n - j,
        {
            match &slots[j] {
                Some(tv) => {
                    let pv = b.append_block_param(blk, tv.bits);
                    proof {
                        m_of = m_of.push(j as int);
                        k_of = k_of.push(jump_args@.len() as int);
                    }
                    jump_args.push(tv.val);
                    params.push(Some(TypedValue { val: pv, bits: tv.bits }));
                },
                None => {
                    proof {
                        k_of = k_of.push(0int);
                    }
                    params.push(None);
                },
            }
            j = j + 1;
        }
        proof {
            if b@.pending is None {
                let k = choose|k: int| 0 <= k < n && !spec_atomic(#[trigger] args@[k]);
                assert(slots@[k] is Some);
                assert(false);
            }
        }
        let ghost pre_jump = b@;
        let ghost psj = b@.pending->Some_0.1;
        proof {
            assert forall|x: int| 0 <= x < psj.len() implies #[trigger] b@.vals.contains_key(
                jump_args@[x],
            ) && b@.vals[jump_args@[x]].0 == psj[x].1 by {
                let mm = m_of[x];
                assert(slots@[mm] is Some);
                assert(tv_defined(
                    b@,
                    slots@[mm]->Some_0,
                    arg_val(args@[mm]).0,
                    arg_val(args@[mm]).1,
                ));
            }
        }
        b.jump_to(blk, &jump_args);
        b.switch_to_block(blk);
        proof {
            assert forall|k: int|
                0 <= k < n && (#[trigger] params@[k]) is Some implies tv_defined(
                b@,
                params@[k]->Some_0,
                arg_val(args@[k]).0,
                arg_val(args@[k]).1,
            ) by {
                assert(slots@[k] is Some);
                let x = k_of[k];
                assert(psj[x].0 == (params@[k]->Some_0).val);
                assert(b@.vals.contains_key(psj[x].0));
                assert(tv_defined(
                    pre_jump,
                    slots@[k]->Some_0,
                    arg_val(args@[k]).0,
                    arg_val(args@[k]).1,
                ));
            }
        }
        slots = params;
    }

    // Second pass: translate every atomic operand, in source order, inside
    // the block now current, restoring each value to its original slot.
    let mut all_tvs: Vec<TypedValue> = Vec::new();
    let mut m: usize = 0;
    while m < n
        invariant
            b@.wf(),
            b@.positioned,
            (b@.pending is None),
            vals_preserved(old(b)@, b@),
            n == args@.len(),
            slots@.len() == n,
            all_tvs@.len() == m,
            0 <= m <= n,
            (first_err(args@, false) is NoneT),
            forall|k: int|
                0 <= k < n ==> ((#[trigger] slots@[k]) is None <==> spec_atomic(args@[k])),
            forall|k: int|
                0 <= k < n && !spec_atomic(#[trigger] args@[k]) ==> arg_ok(args@[k]),
            forall|k: int|
                0 <= k < n ==> (match #[trigger] slots@[k] {
                    Some(tv) => tv_defined(b@, tv, arg_val(args@[k]).0, arg_val(args@[k]).1),
                    None => true,
                }),
            forall|k: int|
                0 <= k < m && spec_atomic(#[trigger] args@[k]) ==> arg_ok(args@[k]),
            forall|k: int|
                0 <= k < m ==> tv_defined(
                    b@,
                    #[trigger] all_tvs@[k],
                    arg_val(args@[k]).0,
                    arg_val(args@[k]).1,
                ),
        decreases n - m,
    {
        match &slots[m] {
            Some(tv) => {
                all_tvs.push(*tv);
            },
            None => {
                match operand_value(&args[m], b) {
                    Ok(tv) => {
                        all_tvs.push(tv);
                    },
                    Err(e) => {
                        proof {
                            lemma_first_err_skip(args@, true, m as int);
                            assert(args@.skip(m as int).first() == args@[m as int]);
                        }
                        return Err(e);
                    },
                }
            },
        }
        m = m + 1;
    }
    proof {
        assert(args_all_ok(args@));
        lemma_arg_vals(args@);
    }

    // Fold every operand value strictly in source order.
    let folded = fold_operands(op, &all_tvs, b, Ghost(arg_vals(args@)));
    let mut rets: Vec<TypedValue> = Vec::new();
    rets.push(folded);
    Ok(Some(CodeChange::BlockReturns(rets)))
}

/// Translate one parse-tree node, emitting IR through `b`, and return what
/// the translation produced, exactly as [`spec_trans`] describes it.
pub fn codegen(node: &ParseNode, b: &mut Builder) -> (r: Result<
    Option<CodeChange>,
    TranslateError,
>)
    requires
        old(b)@.wf(),
        old(b)@.positioned,
        (old(b)@.pending is None),
    ensures
        final(b)@.wf(),
        final(b)@.positioned,
        (final(b)@.pending is None),
        vals_preserved(old(b)@, final(b)@),
        result_matches(final(b)@, r, spec_trans(*node)),
    decreases *node, 1int,
{
    match node {
        ParseNode::File(cs) => translate_children(cs, b),
        ParseNode::SExpr(cs) => {
            if cs.len() == 1 {
                let collapse = match &cs[0] {
                    ParseNode::Atom(_) => true,
                    _ => false,
                };
                if collapse {
                    let r = codegen(&cs[0], b);
                    proof {
                        assert(cs@.take(0int) =~= Seq::<ParseNode>::empty());
                        lemma_seq_trans_snoc(cs@, 0int);
                        assert(cs@.take(1int) =~= cs@);
                    }
                    return r;
                }
            }
            if !b.is_pristine() {
                let blk = b.create_block();
                let no_args: Vec<Value> = Vec::new();
                b.jump_to(blk, &no_args);
                b.switch_to_block(blk);
                proof {
                    assert(b@.vals == old(b)@.vals);
                }
            }
            translate_children(cs, b)
        },
        ParseNode::Atom(c) => codegen(c, b),
        ParseNode::Boolean(v) => {
            let x: i64 = if *v {
                1
            } else {
                0
            };
            let val = b.emit_iconst(8, x);
            Ok(Some(CodeChange::TypedValue(TypedValue { val, bits: 8 })))
        },
        ParseNode::Number(radix, text) => {
            match parse_literal(*radix, text) {
                Some(p) => {
                    let val = b.emit_iconst(p.bits, p.value);
                    Ok(Some(CodeChange::TypedValue(TypedValue { val, bits: p.bits })))
                },
                None => Err(TranslateError::LiteralParse),
            }
        },
        ParseNode::Operation(op, args) => translate_operation(*op, args, b),
        ParseNode::EndOfInput => Ok(None),
    }
}

} // verus!
