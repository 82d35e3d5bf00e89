use cranelift_codegen::ir::types::I32;
use cranelift_codegen::ir::{AbiParam, Function, Signature};
use cranelift_codegen::isa::CallConv;
use cranelift_codegen::settings::{self, Flags};
use cranelift_codegen::verify_function;
use cranelift_frontend::FunctionBuilderContext;
use pnc::{Builder, Op, ParseNode, Radix, TranslateError, build_program, finish_function};

fn num(text: &str) -> ParseNode {
    ParseNode::Number(Radix::Base10, text.as_bytes().to_vec())
}

fn atom(inner: ParseNode) -> ParseNode {
    ParseNode::Atom(Box::new(inner))
}

fn sexpr(children: Vec<ParseNode>) -> ParseNode {
    ParseNode::SExpr(children)
}

fn operation(op: Op, operands: Vec<ParseNode>) -> ParseNode {
    ParseNode::Operation(op, operands)
}

fn compile_function(tree: &ParseNode) -> Result<Function, TranslateError> {
    let mut sig = Signature::new(CallConv::SystemV);
    sig.returns.push(AbiParam::new(I32));
    let mut func = Function::new();
    func.signature = sig;
    let mut ctx = FunctionBuilderContext::new();
    {
        let mut b = Builder::new(&mut func, &mut ctx);
        b.open_entry();
        build_program(tree, &mut b)?;
        finish_function(b);
    }
    Ok(func)
}

/// Every end-to-end scenario produces a function cranelift's own verifier
/// accepts: the blocks, parameters, jumps and value types all line up.
#[test]
fn emitted_functions_pass_the_ir_verifier() {
    let scenarios: Vec<ParseNode> = vec![
        // (100)
        ParseNode::File(vec![sexpr(vec![atom(num("100"))]), ParseNode::EndOfInput]),
        // (+ 1 2 3)
        ParseNode::File(vec![
            operation(Op::Add, vec![atom(num("1")), atom(num("2")), atom(num("3"))]),
            ParseNode::EndOfInput,
        ]),
        // (- 10 (+ 1 2))
        ParseNode::File(vec![
            operation(
                Op::Sub,
                vec![
                    atom(num("10")),
                    sexpr(vec![operation(Op::Add, vec![atom(num("1")), atom(num("2"))])]),
                ],
            ),
            ParseNode::EndOfInput,
        ]),
        // (* (+ 1 1) 3 (+ 1 1))
        ParseNode::File(vec![
            operation(
                Op::Mul,
                vec![
                    sexpr(vec![operation(Op::Add, vec![atom(num("1")), atom(num("1"))])]),
                    atom(num("3")),
                    sexpr(vec![operation(Op::Add, vec![atom(num("1")), atom(num("1"))])]),
                ],
            ),
            ParseNode::EndOfInput,
        ]),
        // (): empty brackets parse as boolean falsity
        ParseNode::File(vec![atom(ParseNode::Boolean(false)), ParseNode::EndOfInput]),
        // an empty program
        ParseNode::File(vec![ParseNode::EndOfInput]),
        // negative and wide literals: (+ -5 -3 4294967296)
        ParseNode::File(vec![
            operation(
                Op::Add,
                vec![atom(num("-5")), atom(num("-3")), atom(num("4294967296"))],
            ),
            ParseNode::EndOfInput,
        ]),
        // mixed widths: (+ 5 100000 (- 7 900))
        ParseNode::File(vec![
            operation(
                Op::Add,
                vec![
                    atom(num("5")),
                    atom(num("100000")),
                    sexpr(vec![operation(Op::Sub, vec![atom(num("7")), atom(num("900"))])]),
                ],
            ),
            ParseNode::EndOfInput,
        ]),
    ];
    let flags = Flags::new(settings::builder());
    for tree in &scenarios {
        let func = compile_function(tree).expect("scenario compiles");
        verify_function(&func, &flags).expect("cranelift accepts the emitted function");
    }
}

#[test]
fn malformed_literal_aborts_whole_program() {
    // 0xZZ: the compile aborts before any function is finished.
    let tree = ParseNode::File(vec![
        sexpr(vec![atom(ParseNode::Number(
            Radix::Base16,
            b"0xZZ".to_vec(),
        ))]),
        ParseNode::EndOfInput,
    ]);
    assert_eq!(compile_function(&tree).unwrap_err(), TranslateError::LiteralParse);
}
