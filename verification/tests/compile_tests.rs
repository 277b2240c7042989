use squire::ast::{
    Argument, Arguments, BinaryOp, Expression, If, Journey, Literal, Nigh, Renowned, Statement,
    Statements, Whilst,
};
use squire::bytecode::{Bytecode, Opcode};
use squire::compiler::{Compiler, Error, Globals, UnsupportedFeature};
use squire::token;
use squire::value::Value;

fn num(n: i64) -> Expression {
    Expression::Literal(Literal(token::Literal::Numeral(n)))
}

fn var(name: &str) -> Expression {
    Expression::Variable(String::from(name))
}

fn no_args() -> Arguments {
    Arguments { normal: Vec::new(), vararg: None, varkwarg: None, return_type: None }
}

fn one_arg(name: &str) -> Arguments {
    Arguments {
        normal: vec![Argument { name: String::from(name), kind: None, default: None }],
        vararg: None,
        varkwarg: None,
        return_type: None,
    }
}

#[test]
fn literal_without_destination_emits_nothing() {
    let mut c = Compiler::new();
    Literal(token::Literal::Numeral(42)).compile(&mut c, None).unwrap();
    let block = c.finish();
    assert_eq!(block.code().len(), 0);
    assert_eq!(block.constants().len(), 0);
}

#[test]
fn literal_with_destination_loads_pooled_constant() {
    let mut c = Compiler::new();
    let t = c.next_target();
    Literal(token::Literal::Numeral(42)).compile(&mut c, Some(t)).unwrap();
    let block = c.finish();
    assert_eq!(
        block.code().as_slice(),
        &[Bytecode::Opcode(Opcode::LoadConstant), Bytecode::Constant(0), Bytecode::Local(1)]
    );
    assert_eq!(block.constants().as_slice(), &[Value::Numeral(42)]);
}

#[test]
fn two_equal_literals_share_one_pool_entry() {
    let mut c = Compiler::new();
    let t1 = c.next_target();
    let t2 = c.next_target();
    Literal(token::Literal::Numeral(7)).compile(&mut c, Some(t1)).unwrap();
    Literal(token::Literal::Numeral(7)).compile(&mut c, Some(t2)).unwrap();
    let block = c.finish();
    assert_eq!(block.constants().as_slice(), &[Value::Numeral(7)]);
    // both loads reference constant 0
    assert_eq!(block.code()[1], Bytecode::Constant(0));
    assert_eq!(block.code()[4], Bytecode::Constant(0));
}

#[test]
fn text_interpolation_is_rejected() {
    let mut c = Compiler::new();
    let lit = token::Literal::TextInterpolation(Vec::new(), squire::text::Text::new(String::new()));
    let r = Literal(lit).compile(&mut c, None);
    assert_eq!(r, Err(Error::Unsupported(UnsupportedFeature::TextInterpolation)));
}

fn demo_program() -> Statements {
    Statements(vec![
        Statement::Nigh(Nigh { name: String::from("a"), init: Some(num(1)) }),
        Statement::Renowned(Renowned {
            name: String::from("g"),
            init: Some(Expression::Binary(
                BinaryOp::Add,
                Box::new(var("a")),
                Box::new(num(2)),
            )),
        }),
        Statement::If(If {
            cond: var("a"),
            body: Statements(vec![Statement::Expression(num(1))]),
            alas: Some(Statements(vec![Statement::Expression(num(2))])),
        }),
    ])
}

#[test]
fn compilation_is_deterministic() {
    let mut c1 = Compiler::new();
    c1.compile_with(demo_program()).unwrap();
    let b1 = c1.finish();
    let mut c2 = Compiler::new();
    c2.compile_with(demo_program()).unwrap();
    let b2 = c2.finish();
    assert_eq!(b1, b2);
}

#[test]
fn finished_unit_contains_no_placeholder() {
    let mut c = Compiler::new();
    c.compile_with(demo_program()).unwrap();
    let block = c.finish();
    assert!(block.code().iter().all(|b| *b != Bytecode::Illegal));
    assert!(block.code().len() > 0);
}

#[test]
fn whilst_loops_patch_their_exit_and_loop_back() {
    let mut c = Compiler::new();
    let program = Statements(vec![Statement::Whilst(Whilst {
        cond: Expression::Literal(Literal(token::Literal::Boolean(false))),
        body: Statements(vec![Statement::Expression(num(1))]),
    })]);
    c.compile_with(program).unwrap();
    let block = c.finish();
    assert!(block.code().iter().all(|b| *b != Bytecode::Illegal));
    // the loop ends with an unconditional backward branch to its head
    let last = block.code()[block.code().len() - 1];
    match last {
        Bytecode::Offset(rel) => assert!(rel < 0),
        other => panic!("expected a backward offset, found {:?}", other),
    }
}

#[test]
fn journey_body_ends_with_return_of_return_register() {
    let j = Journey {
        name: String::from("f"),
        args: one_arg("a"),
        body: Statements(vec![Statement::Reward(Some(var("a")))]),
    };
    let (_, built) = j.build_journey(Globals::new(), false);
    let ud = built.unwrap();
    let code = ud.body().code();
    // parameter in register 1, return register 2
    assert_eq!(code[code.len() - 2], Bytecode::Opcode(Opcode::Return));
    assert_eq!(code[code.len() - 1], Bytecode::Local(2));
}

#[test]
fn journey_with_empty_body_still_returns() {
    let j = Journey { name: String::from("f"), args: no_args(), body: Statements(Vec::new()) };
    let (_, built) = j.build_journey(Globals::new(), false);
    let ud = built.unwrap();
    assert_eq!(
        ud.body().code().as_slice(),
        &[Bytecode::Opcode(Opcode::Return), Bytecode::Local(1)]
    );
    assert_eq!(ud.arg_names().len(), 0);
    assert!(!ud.is_method());
}

#[test]
fn method_gains_implicit_soul_parameter() {
    let j = Journey {
        name: String::from("m"),
        args: one_arg("x"),
        body: Statements(Vec::new()),
    };
    let (_, built) = j.build_journey(Globals::new(), true);
    let ud = built.unwrap();
    assert_eq!(ud.arg_names().len(), 2);
    assert_eq!(ud.arg_names()[0], String::from("soul"));
    assert_eq!(ud.arg_names()[1], String::from("x"));
    assert!(ud.is_method());
}

#[test]
fn variadic_parameters_are_rejected() {
    let j = Journey {
        name: String::from("f"),
        args: Arguments {
            normal: Vec::new(),
            vararg: Some(String::from("rest")),
            varkwarg: None,
            return_type: None,
        },
        body: Statements(Vec::new()),
    };
    let (_, built) = j.build_journey(Globals::new(), false);
    assert_eq!(built, Err(Error::Unsupported(UnsupportedFeature::VariadicArguments)));
}

#[test]
fn keyword_parameters_are_rejected() {
    let j = Journey {
        name: String::from("f"),
        args: Arguments {
            normal: Vec::new(),
            vararg: None,
            varkwarg: Some(String::from("kw")),
            return_type: None,
        },
        body: Statements(Vec::new()),
    };
    let (_, built) = j.build_journey(Globals::new(), false);
    assert_eq!(built, Err(Error::Unsupported(UnsupportedFeature::KeywordArguments)));
}

#[test]
fn declared_return_type_is_rejected() {
    let j = Journey {
        name: String::from("f"),
        args: Arguments {
            normal: Vec::new(),
            vararg: None,
            varkwarg: None,
            return_type: Some(num(1)),
        },
        body: Statements(Vec::new()),
    };
    let (_, built) = j.build_journey(Globals::new(), false);
    assert_eq!(built, Err(Error::Unsupported(UnsupportedFeature::TypedReturn)));
}

#[test]
fn typed_parameter_is_rejected() {
    let j = Journey {
        name: String::from("f"),
        args: Arguments {
            normal: vec![Argument {
                name: String::from("a"),
                kind: Some(var("Numeral")),
                default: None,
            }],
            vararg: None,
            varkwarg: None,
            return_type: None,
        },
        body: Statements(Vec::new()),
    };
    let (_, built) = j.build_journey(Globals::new(), false);
    assert_eq!(built, Err(Error::Unsupported(UnsupportedFeature::TypedArgument)));
}

#[test]
fn defaulted_parameter_is_rejected() {
    let j = Journey {
        name: String::from("f"),
        args: Arguments {
            normal: vec![Argument {
                name: String::from("a"),
                kind: None,
                default: Some(num(1)),
            }],
            vararg: None,
            varkwarg: None,
            return_type: None,
        },
        body: Statements(Vec::new()),
    };
    let (_, built) = j.build_journey(Globals::new(), false);
    assert_eq!(built, Err(Error::Unsupported(UnsupportedFeature::DefaultArgument)));
}

#[test]
fn defining_the_same_journey_twice_fails() {
    let mut c = Compiler::new();
    let mk = |name: &str| {
        Statement::Journey(Journey {
            name: String::from(name),
            args: no_args(),
            body: Statements(Vec::new()),
        })
    };
    let r = c.compile_with(Statements(vec![mk("f"), mk("f")]));
    assert_eq!(r, Err(Error::GlobalAlreadyDefined(String::from("f"))));
}

#[test]
fn local_declaration_compiles_initializer_into_its_register() {
    let mut c = Compiler::new();
    c.compile_with(Statements(vec![Statement::Nigh(Nigh {
        name: String::from("a"),
        init: Some(num(9)),
    })])).unwrap();
    let block = c.finish();
    // the initializer lands directly in the local's register, no extra move
    assert_eq!(
        block.code().as_slice(),
        &[Bytecode::Opcode(Opcode::LoadConstant), Bytecode::Constant(0), Bytecode::Local(1)]
    );
}
