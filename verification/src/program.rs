//! Building one whole program function: translate the tree, then
//! materialize its last produced value as the process exit status.
//!
//! The driver owns the cranelift function and its configuration; this
//! module owns what gets emitted into it: the translated body, the
//! reduction or extension of the final value to the 32-bit status width,
//! and the terminating return.

use vstd::prelude::*;

use crate::ast::ParseNode;
use crate::builder::Builder;
use crate::codegen::{CodeChange, TranslateError, TypedValue, codegen, tv_defined};
use crate::semantics::{STrans, spec_trans, st_val, st_width, wrap};

verus! {

/// The value the emitted program exits with: its last produced value
/// reduced to the 32-bit status width, or zero when the program produces
/// no value at all.
pub open spec fn exit_status_of(n: ParseNode) -> int {
    match spec_trans(n) {
        STrans::SingleT(_, x) => wrap(x, 32),
        STrans::BlockT(_, x) => wrap(x, 32),
        _ => 0,
    }
}

/// Translate a whole tree into the function under construction and close
/// it: the last produced value, reduced or sign-extended to 32 bits,
/// becomes the return value, and a program that produces nothing returns
/// zero. On success the function's recorded return value is exactly
/// [`exit_status_of`] the tree.
pub fn build_program(tree: &ParseNode, b: &mut Builder) -> (r: Result<(), TranslateError>)
    requires
        old(b)@.wf(),
        old(b)@.positioned,
        (old(b)@.pending is None),
    ensures
        final(b)@.wf(),
        (match r {
            Ok(()) => {
                &&& !(spec_trans(*tree) is LitErrT)
                &&& !(spec_trans(*tree) is StructErrT)
                &&& final(b)@.returned == Some((32 as nat, exit_status_of(*tree)))
                &&& !final(b)@.positioned
            },
            Err(TranslateError::LiteralParse) => spec_trans(*tree) is LitErrT,
            Err(TranslateError::StructuralInvariant) => spec_trans(*tree) is StructErrT,
        }),
{
    let produced = match codegen(tree, b) {
        Ok(o) => o,
        Err(e) => {
            return Err(e);
        },
    };
    let value = match produced {
        Some(CodeChange::TypedValue(tv)) => Some(tv),
        Some(CodeChange::BlockReturns(vs)) => Some(vs[0]),
        None => None,
    };
    let status: TypedValue = match value {
        Some(tv) => {
            proof {
                assert(tv_defined(b@, tv, st_width(spec_trans(*tree)), st_val(spec_trans(*tree))));
                if tv.bits as nat <= 32 {
                    crate::laws::lemma_fits_wider(
                        st_val(spec_trans(*tree)),
                        tv.bits as nat,
                        32,
                    );
                }
            }
            if tv.bits < 32 {
                let widened = b.emit_sextend(32, tv.val);
                TypedValue { val: widened, bits: 32 }
            } else if tv.bits > 32 {
                let reduced = b.emit_ireduce(32, tv.val);
                TypedValue { val: reduced, bits: 32 }
            } else {
                tv
            }
        },
        None => {
            let zero = b.emit_iconst(32, 0);
            TypedValue { val: zero, bits: 32 }
        },
    };
    b.emit_return(status.val);
    Ok(())
}

/// Seal every block of the finished function and complete it; the builder
/// is consumed.
pub fn finish_function(mut b: Builder)
    requires
        !b@.positioned,
{
    b.seal_all();
    b.finish();
}

} // verus!
