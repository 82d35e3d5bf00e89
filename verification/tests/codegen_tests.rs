use cranelift_codegen::ir::Function;
use cranelift_frontend::FunctionBuilderContext;
use pnc::ast::is_atomic;
use pnc::{Builder, CodeChange, Op, Opts, ParseNode, Radix, TranslateError, codegen};

fn num(text: &str) -> ParseNode {
    ParseNode::Number(Radix::Base10, text.as_bytes().to_vec())
}

fn hex(text: &str) -> ParseNode {
    ParseNode::Number(Radix::Base16, text.as_bytes().to_vec())
}

fn atom(inner: ParseNode) -> ParseNode {
    ParseNode::Atom(Box::new(inner))
}

fn sexpr(children: Vec<ParseNode>) -> ParseNode {
    ParseNode::SExpr(children)
}

fn operation(op: Op, operands: Vec<ParseNode>) -> ParseNode {
    ParseNode::Operation(op, operands)
}

/// Run the translator on one tree inside a fresh function positioned at its
/// entry block, handing back the result and the finished function.
fn translate(tree: ParseNode) -> (Result<Option<CodeChange>, TranslateError>, Function) {
    let mut func = Function::new();
    let mut ctx = FunctionBuilderContext::new();
    let result = {
        let mut b = Builder::new(&mut func, &mut ctx);
        b.open_entry();
        codegen(&tree, &mut b)
    };
    (result, func)
}

fn expect_block_returns(r: Result<Option<CodeChange>, TranslateError>) -> Vec<pnc::TypedValue> {
    match r {
        Ok(Some(CodeChange::BlockReturns(vs))) => vs,
        other => panic!("expected BlockReturns, got {:?}", other),
    }
}

fn expect_single(r: Result<Option<CodeChange>, TranslateError>) -> pnc::TypedValue {
    match r {
        Ok(Some(CodeChange::TypedValue(tv))) => tv,
        other => panic!("expected a single typed value, got {:?}", other),
    }
}

#[test]
fn single_literal_in_parens() {
    // (100): a single literal behind one grouping level, collapsed in place.
    let tree = sexpr(vec![atom(num("100"))]);
    let (r, func) = translate(tree);
    let tv = expect_single(r);
    assert_eq!(tv.bits, 8);
    assert!(func.dfg.num_values() > 0);
}

#[test]
fn atoms_only_addition() {
    // (+ 1 2 3): an atoms-only fold at the 64-bit return width.
    let tree = operation(Op::Add, vec![atom(num("1")), atom(num("2")), atom(num("3"))]);
    let (r, func) = translate(tree);
    let vs = expect_block_returns(r);
    assert_eq!(vs.len(), 1);
    assert_eq!(vs[0].bits, 64);
    // The constants and the fold were really emitted.
    assert!(func.dfg.num_values() >= 3);
}

#[test]
fn one_nested_operand_subtraction() {
    // (- 10 (+ 1 2)): one nested operand threaded through a block parameter.
    let nested = sexpr(vec![operation(
        Op::Add,
        vec![atom(num("1")), atom(num("2"))],
    )]);
    let tree = operation(Op::Sub, vec![atom(num("10")), nested]);
    let (r, func) = translate(tree);
    let vs = expect_block_returns(r);
    assert_eq!(vs.len(), 1);
    assert_eq!(vs[0].bits, 64);
    // The nested value crossed into a fresh block.
    let blocks: Vec<_> = func.layout.blocks().collect();
    assert!(blocks.len() >= 2, "expected a block for the nested operand");
    assert!(blocks.iter().any(|b| func.dfg.num_block_params(*b) == 1));
}

#[test]
fn two_nested_operands_interleaved() {
    // (* (+ 1 1) 3 (+ 1 1)): nested operands at indices 0 and 2, one atom
    // between them; order restoration across two block parameters.
    let n1 = sexpr(vec![operation(Op::Add, vec![atom(num("1")), atom(num("1"))])]);
    let n2 = sexpr(vec![operation(Op::Add, vec![atom(num("1")), atom(num("1"))])]);
    let tree = operation(Op::Mul, vec![n1, atom(num("3")), n2]);
    let (r, func) = translate(tree);
    let vs = expect_block_returns(r);
    assert_eq!(vs.len(), 1);
    assert_eq!(vs[0].bits, 64);
    assert!(func.layout.blocks().any(|b| func.dfg.num_block_params(b) == 2));
}

#[test]
fn empty_parens_are_falsity() {
    // (): the grammar reads empty brackets as boolean falsity.
    let (r, _) = translate(atom(ParseNode::Boolean(false)));
    let tv = expect_single(r);
    assert_eq!(tv.bits, 8);
}

#[test]
fn boolean_truth() {
    let (r, _) = translate(ParseNode::Boolean(true));
    let tv = expect_single(r);
    assert_eq!(tv.bits, 8);
}

#[test]
fn malformed_literal_aborts() {
    // 0xZZ: the compile aborts with a literal-parse failure.
    let tree = operation(Op::Add, vec![atom(hex("0xZZ")), atom(num("1"))]);
    let (r, _) = translate(tree);
    assert_eq!(r.unwrap_err(), TranslateError::LiteralParse);
}

#[test]
fn malformed_literal_alone() {
    let (r, _) = translate(hex("0xZZ"));
    assert_eq!(r.unwrap_err(), TranslateError::LiteralParse);
}

#[test]
fn operand_without_value_is_structural_error() {
    // An operand that produces no value breaks the translator's contract.
    let tree = operation(Op::Add, vec![atom(num("1")), ParseNode::EndOfInput]);
    let (r, _) = translate(tree);
    assert_eq!(r.unwrap_err(), TranslateError::StructuralInvariant);
}

#[test]
fn empty_operand_lists() {
    // (+ ), (* ), (- ): zero operands fold to the identity at 64 bits.
    for op in [Op::Add, Op::Mul, Op::Sub] {
        let (r, _) = translate(operation(op, vec![]));
        let vs = expect_block_returns(r);
        assert_eq!(vs.len(), 1);
        assert_eq!(vs[0].bits, 64);
    }
}

#[test]
fn adversarial_subtraction_order() {
    // (- 10 1 1): a reversed fold would compute something other than 8;
    // the translator folds strictly left to right (value pinned by the
    // translator's proved contract; the shape is checked here).
    let tree = operation(
        Op::Sub,
        vec![atom(num("10")), atom(num("1")), atom(num("1"))],
    );
    let (r, _) = translate(tree);
    let vs = expect_block_returns(r);
    assert_eq!(vs.len(), 1);
    assert_eq!(vs[0].bits, 64);
}

#[test]
fn width_widening_mix() {
    // An 8-bit and a 32-bit operand combine at 32 bits before the final
    // widening to the 64-bit return width.
    let tree = operation(Op::Add, vec![atom(num("5")), atom(num("100000"))]);
    let (r, func) = translate(tree);
    let vs = expect_block_returns(r);
    assert_eq!(vs[0].bits, 64);
    assert!(func.dfg.num_values() >= 4, "widening emits an extension");
}

#[test]
fn file_returns_last_expression() {
    let tree = ParseNode::File(vec![
        sexpr(vec![atom(num("1"))]),
        operation(Op::Add, vec![atom(num("2")), atom(num("3"))]),
        ParseNode::EndOfInput,
    ]);
    let (r, _) = translate(tree);
    let vs = expect_block_returns(r);
    assert_eq!(vs.len(), 1);
    assert_eq!(vs[0].bits, 64);
}

#[test]
fn empty_file_produces_nothing() {
    let tree = ParseNode::File(vec![ParseNode::EndOfInput]);
    let (r, _) = translate(tree);
    assert!(matches!(r, Ok(None)));
}

#[test]
fn atomicity_classifier() {
    assert!(is_atomic(&atom(num("1"))));
    assert!(is_atomic(&sexpr(vec![atom(num("1")), atom(num("2"))])));
    assert!(!is_atomic(&sexpr(vec![operation(Op::Add, vec![])])));
    assert!(!is_atomic(&operation(Op::Add, vec![])));
    assert!(!is_atomic(&ParseNode::EndOfInput));
}

#[test]
fn entry_block_starts_pristine() {
    let mut func = Function::new();
    let mut ctx = FunctionBuilderContext::new();
    let mut b = Builder::new(&mut func, &mut ctx);
    b.open_entry();
    assert!(b.is_pristine());
    codegen(&num("7"), &mut b).expect("a literal translates");
    assert!(!b.is_pristine(), "emitting a constant dirties the block");
}

#[test]
fn opts_carry_paths() {
    let opts = Opts::new(String::from("main.pnc"), String::from("a.out"));
    assert_eq!(opts.input, "main.pnc");
    assert_eq!(opts.output, "a.out");
}
