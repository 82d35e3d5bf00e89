//! The IR builder the translator writes through.
//!
//! [`Builder`] wraps cranelift's `FunctionBuilder` and carries a ghost
//! [`BuildState`]: a map from every SSA value handed out so far to the width
//! and signed value it holds when the emitted straight-line program runs,
//! together with the block bookkeeping (created, entered, jumped-to blocks,
//! and the parameters declared on a block that has not received its entering
//! jump yet). Each method makes one cranelift call and states, over that
//! model, what the call does; the contracts are taken on trust and say only
//! what cranelift's own instruction documentation promises.
//!
//! The emitted control flow is a straight line: every block the translator
//! opens is entered by exactly one jump, emitted immediately before the
//! builder switches into the block, so a value once defined stays usable in
//! every later block.

use vstd::prelude::*;

use cranelift_codegen::ir::{Block, Function, InstBuilder, Type, Value};
use cranelift_frontend::{FunctionBuilder, FunctionBuilderContext};

use crate::semantics::{apply_op, fits, valid_width, wrap};
use crate::ast::Op;

verus! {

#[verifier::external_type_specification]
#[verifier::external_body]
pub struct ExValue(Value);

#[verifier::external_type_specification]
#[verifier::external_body]
pub struct ExBlock(Block);

#[verifier::external_type_specification]
#[verifier::external_body]
pub struct ExFunction(Function);

#[verifier::external_type_specification]
#[verifier::external_body]
pub struct ExFunctionBuilderContext(FunctionBuilderContext);

#[verifier::external_type_specification]
#[verifier::external_body]
pub struct ExFunctionBuilder<'a>(FunctionBuilder<'a>);

/// The ghost model of the function under construction.
///
/// `vals` gives, for each SSA value defined so far, the width it is carried
/// at and the signed value it holds when the program runs. `pending` holds
/// the parameters declared on a block that still awaits its one entering
/// jump, in declaration order, each with its width.
pub struct BuildState {
    /// Whether the builder stands inside a block that is not terminated yet.
    pub positioned: bool,
    /// The block the builder stands in, when `positioned`.
    pub cur: Block,
    /// Whether no instruction has been emitted into the current block yet.
    pub pristine: bool,
    /// Width and runtime value of every SSA value defined so far.
    pub vals: Map<Value, (nat, int)>,
    /// Every block created so far.
    pub created: Set<Block>,
    /// Every block the builder ever stood in.
    pub visited: Set<Block>,
    /// Every block that has received its entering jump.
    pub targeted: Set<Block>,
    /// The block whose parameters are declared but not yet supplied.
    pub pending: Option<(Block, Seq<(Value, nat)>)>,
    /// The width and runtime value handed to the emitted return
    /// instruction, once one was emitted.
    pub returned: Option<(nat, int)>,
}

impl BuildState {
    /// Well-formedness: every defined value fits its width, pending
    /// parameters are distinct fresh values on a block still open to its
    /// entering jump, and the current block exists.
    pub open spec fn wf(self) -> bool {
        &&& (forall|v: Value|
            #[trigger] self.vals.contains_key(v) ==> valid_width(self.vals[v].0) && fits(
                self.vals[v].1,
                self.vals[v].0,
            ))
        &&& match self.pending {
            Some((b, ps)) => {
                &&& self.created.contains(b)
                &&& !self.targeted.contains(b)
                &&& !self.visited.contains(b)
                &&& forall|i: int|
                    0 <= i < ps.len() ==> !self.vals.contains_key(#[trigger] ps[i].0)
                        && valid_width(ps[i].1)
                &&& forall|i: int, j: int| 0 <= i < j < ps.len() ==> ps[i].0 != ps[j].0
            },
            None => true,
        }
        &&& self.visited.subset_of(self.created)
        &&& self.targeted.subset_of(self.created)
        &&& (self.positioned ==> self.created.contains(self.cur) && self.visited.contains(
            self.cur,
        ))
    }
}

/// Whether `v` is a value handle the model has never seen.
pub open spec fn fresh_for(st: BuildState, v: Value) -> bool {
    &&& !st.vals.contains_key(v)
    &&& match st.pending {
        Some((_, ps)) => forall|i: int| 0 <= i < ps.len() ==> (#[trigger] ps[i]).0 != v,
        None => true,
    }
}

/// The cranelift function builder together with its ghost model.
pub struct Builder<'a> {
    inner: FunctionBuilder<'a>,
    pristine: bool,
    model: Ghost<BuildState>,
}

impl<'a> View for Builder<'a> {
    type V = BuildState;

    closed spec fn view(&self) -> BuildState {
        BuildState { pristine: self.pristine, ..self.model@ }
    }
}

impl<'a> Builder<'a> {
    /// Relies on `cranelift_frontend::FunctionBuilder::new`: a builder for
    /// an empty function, positioned nowhere, holding no blocks and no
    /// values yet; the fresh model beside it states exactly that.
    #[verifier::external_body]
    fn new_inner(func: &'a mut Function, ctx: &'a mut FunctionBuilderContext) -> (r:
        FunctionBuilder<'a>)
    {
        FunctionBuilder::new(func, ctx)
    }

    /// A builder for an empty function, with the empty model.
    pub fn new(func: &'a mut Function, ctx: &'a mut FunctionBuilderContext) -> (r: Builder<'a>)
        ensures
            r@.wf(),
            !r@.positioned,
            (r@.vals === Map::empty()),
            (r@.created === Set::empty()),
            (r@.visited === Set::empty()),
            (r@.targeted === Set::empty()),
            (r@.pending is None),
            (r@.returned is None),
    {
        let inner = Self::new_inner(func, ctx);
        Builder {
            inner,
            pristine: true,
            model: Ghost(
                BuildState {
                    positioned: false,
                    cur: arbitrary(),
                    pristine: true,
                    vals: Map::empty(),
                    created: Set::empty(),
                    visited: Set::empty(),
                    targeted: Set::empty(),
                    pending: None,
                    returned: None,
                },
            ),
        }
    }

    /// Whether the current block holds no instructions yet.
    pub fn is_pristine(&self) -> (r: bool)
        ensures
            r == self@.pristine,
    {
        self.pristine
    }

    /// Relies on `FunctionBuilder::create_block`: returns a brand-new empty
    /// block; nothing else about the function changes.
    #[verifier::external_body]
    pub(crate) fn create_block(&mut self) -> (b: Block)
        requires
            old(self)@.wf(),
        ensures
            final(self)@.wf(),
            !old(self)@.created.contains(b),
            (match old(self)@.pending {
                Some((pb, _)) => pb != b,
                None => true,
            }),
            (final(self)@ == BuildState { created: old(self)@.created.insert(b), ..old(self)@ }),
    {
        self.inner.create_block()
    }

    /// Relies on `FunctionBuilder::switch_to_block`: the builder moves into
    /// `b` and appends there from now on. `b` was never entered before, so
    /// it is empty; the previous block, if any, was already terminated.
    #[verifier::external_body]
    pub(crate) fn switch_to_block(&mut self, b: Block)
        requires
            old(self)@.wf(),
            !old(self)@.positioned,
            old(self)@.created.contains(b),
            !old(self)@.visited.contains(b),
            (match old(self)@.pending {
                Some((pb, _)) => pb != b,
                None => true,
            }),
        ensures
            final(self)@.wf(),
            (final(self)@ == BuildState {
                positioned: true,
                cur: b,
                pristine: true,
                visited: old(self)@.visited.insert(b),
                ..old(self)@
            }),
    {
        self.inner.switch_to_block(b);
        self.pristine = true;
    }

    /// Relies on `FunctionBuilder::append_block_param`: declares one more
    /// parameter of the given width on `b` and returns the fresh value that
    /// will hold it; the value is defined once the entering jump supplies
    /// an argument for it.
    #[verifier::external_body]
    pub(crate) fn append_block_param(&mut self, b: Block, bits: u8) -> (v: Value)
        requires
            old(self)@.wf(),
            valid_width(bits as nat),
            old(self)@.created.contains(b),
            !old(self)@.targeted.contains(b),
            !old(self)@.visited.contains(b),
            (match old(self)@.pending {
                Some((pb, _)) => pb == b,
                None => true,
            }),
        ensures
            final(self)@.wf(),
            fresh_for(old(self)@, v),
            (final(self)@ == BuildState {
                pending: Some(
                    (
                        b,
                        (match old(self)@.pending {
                            Some((_, ps)) => ps,
                            None => Seq::empty(),
                        }).push((v, bits as nat)),
                    ),
                ),
                ..old(self)@
            }),
    {
        self.inner.append_block_param(b, Type::int(bits as u16).unwrap())
    }

    /// Relies on the `jump` instruction: terminates the current block with
    /// an unconditional jump to `b`, whose declared parameters are defined
    /// by the supplied arguments, in order; argument count and widths must
    /// match the declaration. Every value defined before stays defined.
    #[verifier::external_body]
    pub(crate) fn jump_to(&mut self, b: Block, args: &Vec<Value>)
        requires
            old(self)@.wf(),
            old(self)@.positioned,
            b != old(self)@.cur,
            old(self)@.created.contains(b),
            !old(self)@.targeted.contains(b),
            (match old(self)@.pending {
                Some((pb, ps)) => {
                    &&& pb == b
                    &&& args@.len() == ps.len()
                    &&& forall|i: int|
                        0 <= i < ps.len() ==> old(self)@.vals.contains_key(#[trigger] args@[i])
                            && old(self)@.vals[args@[i]].0 == ps[i].1
                },
                None => args@.len() == 0,
            }),
        ensures
            final(self)@.wf(),
            final(self)@.positioned == false,
            (final(self)@.pending is None),
            final(self)@.targeted == old(self)@.targeted.insert(b),
            final(self)@.created == old(self)@.created,
            final(self)@.visited == old(self)@.visited,
            final(self)@.pristine == old(self)@.pristine,
            final(self)@.returned == old(self)@.returned,
            forall|k: Value|
                #[trigger] old(self)@.vals.contains_key(k) ==> final(self)@.vals.contains_key(k)
                    && final(self)@.vals[k] == old(self)@.vals[k],
            (match old(self)@.pending {
                Some((_, ps)) => forall|i: int|
                    0 <= i < ps.len() ==> final(self)@.vals.contains_key(#[trigger] ps[i].0)
                        && final(self)@.vals[ps[i].0] == (ps[i].1, old(self)@.vals[args@[i]].1),
                None => final(self)@.vals == old(self)@.vals,
            }),
    {
        let block_args: Vec<cranelift_codegen::ir::BlockArg> =
            args.iter().map(|v| cranelift_codegen::ir::BlockArg::Value(*v)).collect();
        self.inner.ins().jump(b, &block_args);
    }

    /// Relies on the `iconst` instruction: a scalar integer constant of the
    /// given width holding exactly `x`, which fits that width.
    #[verifier::external_body]
    pub(crate) fn emit_iconst(&mut self, bits: u8, x: i64) -> (v: Value)
        requires
            old(self)@.wf(),
            old(self)@.positioned,
            valid_width(bits as nat),
            fits(x as int, bits as nat),
        ensures
            final(self)@.wf(),
            fresh_for(old(self)@, v),
            (final(self)@ == BuildState {
                pristine: false,
                vals: old(self)@.vals.insert(v, (bits as nat, x as int)),
                ..old(self)@
            }),
    {
        self.pristine = false;
        self.inner.ins().iconst(Type::int(bits as u16).unwrap(), x)
    }

    /// Relies on the `sextend` instruction: converts a value to a strictly
    /// wider integer type by replicating the sign bit, which keeps its
    /// signed value.
    #[verifier::external_body]
    pub(crate) fn emit_sextend(&mut self, bits: u8, x: Value) -> (v: Value)
        requires
            old(self)@.wf(),
            old(self)@.positioned,
            valid_width(bits as nat),
            old(self)@.vals.contains_key(x),
            old(self)@.vals[x].0 < bits as nat,
        ensures
            final(self)@.wf(),
            fresh_for(old(self)@, v),
            (final(self)@ == BuildState {
                pristine: false,
                vals: old(self)@.vals.insert(v, (bits as nat, old(self)@.vals[x].1)),
                ..old(self)@
            }),
    {
        self.pristine = false;
        self.inner.ins().sextend(Type::int(bits as u16).unwrap(), x)
    }

    /// Relies on the `iadd` instruction: wrapping two's-complement
    /// addition at the common width of the two operands.
    #[verifier::external_body]
    pub(crate) fn emit_iadd(&mut self, x: Value, y: Value) -> (v: Value)
        requires
            old(self)@.wf(),
            old(self)@.positioned,
            old(self)@.vals.contains_key(x),
            old(self)@.vals.contains_key(y),
            old(self)@.vals[x].0 == old(self)@.vals[y].0,
        ensures
            final(self)@.wf(),
            fresh_for(old(self)@, v),
            (final(self)@ == BuildState {
                pristine: false,
                vals: old(self)@.vals.insert(
                    v,
                    (
                        old(self)@.vals[x].0,
                        wrap(old(self)@.vals[x].1 + old(self)@.vals[y].1, old(self)@.vals[x].0),
                    ),
                ),
                ..old(self)@
            }),
    {
        self.pristine = false;
        self.inner.ins().iadd(x, y)
    }

    /// Relies on the `isub` instruction: wrapping two's-complement
    /// subtraction at the common width of the two operands.
    #[verifier::external_body]
    pub(crate) fn emit_isub(&mut self, x: Value, y: Value) -> (v: Value)
        requires
            old(self)@.wf(),
            old(self)@.positioned,
            old(self)@.vals.contains_key(x),
            old(self)@.vals.contains_key(y),
            old(self)@.vals[x].0 == old(self)@.vals[y].0,
        ensures
            final(self)@.wf(),
            fresh_for(old(self)@, v),
            (final(self)@ == BuildState {
                pristine: false,
                vals: old(self)@.vals.insert(
                    v,
                    (
                        old(self)@.vals[x].0,
                        wrap(old(self)@.vals[x].1 - old(self)@.vals[y].1, old(self)@.vals[x].0),
                    ),
                ),
                ..old(self)@
            }),
    {
        self.pristine = false;
        self.inner.ins().isub(x, y)
    }

    /// Relies on the `imul` instruction: wrapping two's-complement
    /// multiplication at the common width of the two operands.
    #[verifier::external_body]
    pub(crate) fn emit_imul(&mut self, x: Value, y: Value) -> (v: Value)
        requires
            old(self)@.wf(),
            old(self)@.positioned,
            old(self)@.vals.contains_key(x),
            old(self)@.vals.contains_key(y),
            old(self)@.vals[x].0 == old(self)@.vals[y].0,
        ensures
            final(self)@.wf(),
            fresh_for(old(self)@, v),
            (final(self)@ == BuildState {
                pristine: false,
                vals: old(self)@.vals.insert(
                    v,
                    (
                        old(self)@.vals[x].0,
                        wrap(old(self)@.vals[x].1 * old(self)@.vals[y].1, old(self)@.vals[x].0),
                    ),
                ),
                ..old(self)@
            }),
    {
        self.pristine = false;
        self.inner.ins().imul(x, y)
    }

    /// Emit the arithmetic instruction `op` calls for.
    pub(crate) fn emit_op(&mut self, op: Op, x: Value, y: Value) -> (v: Value)
        requires
            old(self)@.wf(),
            old(self)@.positioned,
            old(self)@.vals.contains_key(x),
            old(self)@.vals.contains_key(y),
            old(self)@.vals[x].0 == old(self)@.vals[y].0,
        ensures
            final(self)@.wf(),
            fresh_for(old(self)@, v),
            (final(self)@ == BuildState {
                pristine: false,
                vals: old(self)@.vals.insert(
                    v,
                    (
                        old(self)@.vals[x].0,
                        wrap(
                            apply_op(op, old(self)@.vals[x].1, old(self)@.vals[y].1),
                            old(self)@.vals[x].0,
                        ),
                    ),
                ),
                ..old(self)@
            }),
    {
        match op {
            Op::Add => self.emit_iadd(x, y),
            Op::Sub => self.emit_isub(x, y),
            Op::Mul => self.emit_imul(x, y),
        }
    }

    /// Relies on the `ireduce` instruction: converts a value to a strictly
    /// narrower integer type by discarding its most significant bits, which
    /// reduces its signed value modulo the narrower width.
    #[verifier::external_body]
    pub(crate) fn emit_ireduce(&mut self, bits: u8, x: Value) -> (v: Value)
        requires
            old(self)@.wf(),
            old(self)@.positioned,
            valid_width(bits as nat),
            old(self)@.vals.contains_key(x),
            old(self)@.vals[x].0 > bits as nat,
        ensures
            final(self)@.wf(),
            fresh_for(old(self)@, v),
            (final(self)@ == BuildState {
                pristine: false,
                vals: old(self)@.vals.insert(
                    v,
                    (bits as nat, wrap(old(self)@.vals[x].1, bits as nat)),
                ),
                ..old(self)@
            }),
    {
        self.pristine = false;
        self.inner.ins().ireduce(Type::int(bits as u16).unwrap(), x)
    }

    /// Relies on the `return` instruction: terminates the current block and
    /// hands the given value back as the function's result; the emitted
    /// program's exit status is that value.
    #[verifier::external_body]
    pub(crate) fn emit_return(&mut self, v: Value)
        requires
            old(self)@.wf(),
            old(self)@.positioned,
            old(self)@.vals.contains_key(v),
        ensures
            final(self)@.wf(),
            (final(self)@ == BuildState {
                positioned: false,
                pristine: false,
                returned: Some(old(self)@.vals[v]),
                ..old(self)@
            }),
    {
        self.pristine = false;
        self.inner.ins().return_(&[v]);
    }

    /// Relies on `FunctionBuilder::seal_all_blocks`: marks every block's
    /// predecessor set complete; nothing about the emitted values changes.
    #[verifier::external_body]
    pub(crate) fn seal_all(&mut self)
        ensures
            (final(self)@ == old(self)@),
    {
        self.inner.seal_all_blocks();
    }

    /// Relies on `FunctionBuilder::finalize`: completes the function under
    /// construction; the builder is consumed.
    #[verifier::external_body]
    pub(crate) fn finish(self)
        requires
            !self@.positioned,
    {
        let Builder { inner, .. } = self;
        inner.finalize();
    }

    /// Create the function's entry block and move into it; the function
    /// holds no instructions or values yet.
    pub fn open_entry(&mut self)
        requires
            old(self)@.wf(),
            !old(self)@.positioned,
        ensures
            final(self)@.wf(),
            final(self)@.positioned,
            final(self)@.pristine,
            final(self)@.vals == old(self)@.vals,
            final(self)@.pending == old(self)@.pending,
            final(self)@.targeted == old(self)@.targeted,
    {
        let b = self.create_block();
        self.switch_to_block(b);
    }
}

} // verus!
