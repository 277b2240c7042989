use squire::ast::{
    Argument, Arguments, BinaryOp, Expression, If, Journey, Literal, Nigh, Renowned, Statement,
    Statements, Whilst,
};
use squire::bytecode::{Bytecode, Interrupt, Opcode};
use squire::compiler::Compiler;
use squire::token;
use squire::value::{CodeBlock, Value};
use squire::vm::{Error, Vm};

const FUEL: u64 = 100_000;

fn num(n: i64) -> Expression {
    Expression::Literal(Literal(token::Literal::Numeral(n)))
}

fn var(name: &str) -> Expression {
    Expression::Variable(String::from(name))
}

fn arg(name: &str) -> Argument {
    Argument { name: String::from(name), kind: None, default: None }
}

fn args(names: &[&str]) -> Arguments {
    Arguments {
        normal: names.iter().map(|n| arg(n)).collect(),
        vararg: None,
        varkwarg: None,
        return_type: None,
    }
}

fn call(f: Expression, actuals: Vec<Expression>) -> Expression {
    Expression::Call(Box::new(f), actuals)
}

fn binary(op: BinaryOp, l: Expression, r: Expression) -> Expression {
    Expression::Binary(op, Box::new(l), Box::new(r))
}

/// Scenario: `renowned x = 5;` compiles to declare, load-constant into the
/// scratch register, store-global, and executing it leaves global `x`
/// holding numeral 5.
#[test]
fn scenario_global_declaration_with_initializer() {
    let mut c = Compiler::new();
    c.compile_with(Statements(vec![Statement::Renowned(Renowned {
        name: String::from("x"),
        init: Some(num(5)),
    })])).unwrap();
    let (block, mut vm) = c.finish_with_vm();
    assert_eq!(
        block.code().as_slice(),
        &[
            Bytecode::Opcode(Opcode::LoadConstant),
            Bytecode::Constant(0),
            Bytecode::Local(0),
            Bytecode::Opcode(Opcode::StoreGlobal),
            Bytecode::Global(0),
            Bytecode::Local(0),
        ]
    );
    let r = vm.run(&block, FUEL);
    assert_eq!(r, Ok(Value::Ni));
    assert_eq!(vm.globals().as_slice(), &[Value::Numeral(5)]);
}

/// Scenario: `journey f(a) { reward a; }` then calling `f(3)` returns
/// numeral 3.
#[test]
fn scenario_identity_journey() {
    let mut c = Compiler::new();
    c.compile_with(Statements(vec![Statement::Journey(Journey {
        name: String::from("f"),
        args: args(&["a"]),
        body: Statements(vec![Statement::Reward(Some(var("a")))]),
    })])).unwrap();
    let (_, journey) = c.get_global("f").unwrap();
    let journey = match journey {
        Some(Value::Journey(ud)) => ud,
        other => panic!("expected a journey value, found {:?}", other),
    };
    let (_, mut vm) = c.finish_with_vm();
    let r = vm.call_journey(&journey, vec![Value::Numeral(3)], FUEL);
    assert_eq!(r, Ok(Value::Numeral(3)));
}

/// Scenario: two mutually referencing top-level journeys, each calling the
/// other by name, compile (the shared global table resolves the forward
/// reference) and terminate with the expected value when invoked with a
/// depth bound carried in the argument.
#[test]
fn scenario_mutual_recursion() {
    // down(n) { if n { reward other(n - 1) } reward <base> }
    let make = |name: &str, other: &str, base: i64| {
        Statement::Journey(Journey {
            name: String::from(name),
            args: args(&["n"]),
            body: Statements(vec![
                Statement::If(If {
                    cond: var("n"),
                    body: Statements(vec![Statement::Reward(Some(call(
                        var(other),
                        vec![binary(BinaryOp::Subtract, var("n"), num(1))],
                    )))]),
                    alas: None,
                }),
                Statement::Reward(Some(num(base))),
            ]),
        })
    };
    let mut c = Compiler::new();
    c.compile_with(Statements(vec![make("even", "odd", 1), make("odd", "even", 0)])).unwrap();
    let (_, even) = c.get_global("even").unwrap();
    let even = match even {
        Some(Value::Journey(ud)) => ud,
        other => panic!("expected a journey value, found {:?}", other),
    };
    let (_, mut vm) = c.finish_with_vm();
    assert_eq!(vm.call_journey(&even, vec![Value::Numeral(4)], FUEL), Ok(Value::Numeral(1)));
    assert_eq!(vm.call_journey(&even, vec![Value::Numeral(5)], FUEL), Ok(Value::Numeral(0)));
    assert_eq!(vm.call_journey(&even, vec![Value::Numeral(0)], FUEL), Ok(Value::Numeral(1)));
}

#[test]
fn conditional_picks_the_branch_by_truthiness() {
    let mut c = Compiler::new();
    c.compile_with(Statements(vec![Statement::Journey(Journey {
        name: String::from("pick"),
        args: args(&["n"]),
        body: Statements(vec![
            Statement::If(If {
                cond: var("n"),
                body: Statements(vec![Statement::Reward(Some(num(1)))]),
                alas: Some(Statements(vec![Statement::Reward(Some(num(2)))])),
            }),
        ]),
    })])).unwrap();
    let (_, pick) = c.get_global("pick").unwrap();
    let pick = match pick {
        Some(Value::Journey(ud)) => ud,
        other => panic!("expected a journey value, found {:?}", other),
    };
    let (_, mut vm) = c.finish_with_vm();
    assert_eq!(vm.call_journey(&pick, vec![Value::Numeral(5)], FUEL), Ok(Value::Numeral(1)));
    assert_eq!(vm.call_journey(&pick, vec![Value::Numeral(0)], FUEL), Ok(Value::Numeral(2)));
    assert_eq!(vm.call_journey(&pick, vec![Value::Veracity(false)], FUEL), Ok(Value::Numeral(2)));
    assert_eq!(vm.call_journey(&pick, vec![Value::Ni], FUEL), Ok(Value::Numeral(2)));
}

#[test]
fn whilst_loop_counts_down() {
    // count(n) { nigh acc = 0; whilst n { nigh acc = acc + 1; nigh n = n - 1; } reward acc; }
    let mut c = Compiler::new();
    c.compile_with(Statements(vec![Statement::Journey(Journey {
        name: String::from("count"),
        args: args(&["n"]),
        body: Statements(vec![
            Statement::Nigh(Nigh { name: String::from("acc"), init: Some(num(0)) }),
            Statement::Whilst(Whilst {
                cond: var("n"),
                body: Statements(vec![
                    Statement::Nigh(Nigh {
                        name: String::from("acc"),
                        init: Some(binary(BinaryOp::Add, var("acc"), num(1))),
                    }),
                    Statement::Nigh(Nigh {
                        name: String::from("n"),
                        init: Some(binary(BinaryOp::Subtract, var("n"), num(1))),
                    }),
                ]),
            }),
            Statement::Reward(Some(var("acc"))),
        ]),
    })])).unwrap();
    let (_, count) = c.get_global("count").unwrap();
    let count = match count {
        Some(Value::Journey(ud)) => ud,
        other => panic!("expected a journey value, found {:?}", other),
    };
    let (_, mut vm) = c.finish_with_vm();
    assert_eq!(vm.call_journey(&count, vec![Value::Numeral(3)], FUEL), Ok(Value::Numeral(3)));
    assert_eq!(vm.call_journey(&count, vec![Value::Numeral(0)], FUEL), Ok(Value::Numeral(0)));
}

#[test]
fn comparisons_and_equality() {
    let mut c = Compiler::new();
    c.compile_with(Statements(vec![
        Statement::Renowned(Renowned {
            name: String::from("lt"),
            init: Some(binary(BinaryOp::LessThan, num(2), num(3))),
        }),
        Statement::Renowned(Renowned {
            name: String::from("eq"),
            init: Some(binary(BinaryOp::Equals, num(4), num(4))),
        }),
    ])).unwrap();
    let (block, mut vm) = c.finish_with_vm();
    vm.run(&block, FUEL).unwrap();
    assert_eq!(vm.globals().as_slice(), &[Value::Veracity(true), Value::Veracity(true)]);
}

#[test]
fn reading_an_undefined_forward_global_yields_ni() {
    let mut c = Compiler::new();
    c.compile_with(Statements(vec![Statement::Renowned(Renowned {
        name: String::from("copy"),
        init: Some(var("never_defined")),
    })])).unwrap();
    let (block, mut vm) = c.finish_with_vm();
    vm.run(&block, FUEL).unwrap();
    // globals: copy at handle 0, the placeholder at handle 1
    assert_eq!(vm.globals().as_slice(), &[Value::Ni, Value::Ni]);
}

#[test]
fn unpatched_jump_is_a_fatal_error() {
    let block = CodeBlock::new(1, vec![Bytecode::Illegal], Vec::new());
    let mut vm = Vm::new(Vec::new());
    assert_eq!(vm.run(&block, FUEL), Err(Error::UnpatchedJump));
}

#[test]
fn interrupt_marker_is_unhandled() {
    let block = CodeBlock::new(1, vec![Bytecode::Interrupt(Interrupt::Halt)], Vec::new());
    let mut vm = Vm::new(Vec::new());
    assert_eq!(vm.run(&block, FUEL), Err(Error::UnhandledInterrupt));
}

#[test]
fn truncated_stream_is_malformed() {
    let block = CodeBlock::new(1, vec![Bytecode::Opcode(Opcode::Move)], Vec::new());
    let mut vm = Vm::new(Vec::new());
    assert_eq!(vm.run(&block, FUEL), Err(Error::MalformedBytecode));
}

#[test]
fn out_of_range_register_is_fatal() {
    let block = CodeBlock::new(
        1,
        vec![Bytecode::Opcode(Opcode::Move), Bytecode::Local(5), Bytecode::Local(0)],
        Vec::new(),
    );
    let mut vm = Vm::new(Vec::new());
    assert_eq!(vm.run(&block, FUEL), Err(Error::OutOfRange));
}

#[test]
fn fuel_exhaustion_is_reported() {
    let mut c = Compiler::new();
    c.compile_with(Statements(vec![Statement::Whilst(Whilst {
        cond: Expression::Literal(Literal(token::Literal::Boolean(true))),
        body: Statements(Vec::new()),
    })])).unwrap();
    let (block, mut vm) = c.finish_with_vm();
    assert_eq!(vm.run(&block, 1_000), Err(Error::OutOfFuel));
}

#[test]
fn calling_a_non_function_fails() {
    let mut c = Compiler::new();
    c.compile_with(Statements(vec![Statement::Expression(call(num(3), Vec::new()))])).unwrap();
    let (block, mut vm) = c.finish_with_vm();
    assert_eq!(vm.run(&block, FUEL), Err(Error::NotCallable));
}

#[test]
fn wrong_argument_count_fails() {
    let mut c = Compiler::new();
    c.compile_with(Statements(vec![Statement::Journey(Journey {
        name: String::from("f"),
        args: args(&["a"]),
        body: Statements(Vec::new()),
    })])).unwrap();
    let (_, f) = c.get_global("f").unwrap();
    let f = match f {
        Some(Value::Journey(ud)) => ud,
        other => panic!("expected a journey value, found {:?}", other),
    };
    let (_, mut vm) = c.finish_with_vm();
    assert_eq!(vm.call_journey(&f, Vec::new(), FUEL), Err(Error::WrongArity));
}

#[test]
fn arithmetic_on_wrong_kinds_fails() {
    let mut c = Compiler::new();
    c.compile_with(Statements(vec![Statement::Expression(binary(
        BinaryOp::Add,
        num(1),
        Expression::Literal(Literal(token::Literal::Boolean(true))),
    ))])).unwrap();
    let (block, mut vm) = c.finish_with_vm();
    assert_eq!(vm.run(&block, FUEL), Err(Error::TypeMismatch));
}

#[test]
fn numeral_overflow_is_detected() {
    let mut c = Compiler::new();
    c.compile_with(Statements(vec![Statement::Expression(binary(
        BinaryOp::Add,
        num(i64::MAX),
        num(1),
    ))])).unwrap();
    let (block, mut vm) = c.finish_with_vm();
    assert_eq!(vm.run(&block, FUEL), Err(Error::Overflow));
}

#[test]
fn equality_at_runtime_is_structural() {
    let mut c = Compiler::new();
    let text = |s: &str| {
        Expression::Literal(Literal(token::Literal::Text(squire::text::Text::new(
            String::from(s),
        ))))
    };
    c.compile_with(Statements(vec![
        Statement::Renowned(Renowned {
            name: String::from("same"),
            init: Some(binary(BinaryOp::Equals, text("ab"), text("ab"))),
        }),
        Statement::Renowned(Renowned {
            name: String::from("mixed"),
            init: Some(binary(BinaryOp::Equals, text("ab"), num(1))),
        }),
    ])).unwrap();
    let (block, mut vm) = c.finish_with_vm();
    vm.run(&block, FUEL).unwrap();
    assert_eq!(vm.globals().as_slice(), &[Value::Veracity(true), Value::Veracity(false)]);
}

#[test]
fn same_code_block_runs_on_independent_machines() {
    let mut c = Compiler::new();
    c.compile_with(Statements(vec![Statement::Renowned(Renowned {
        name: String::from("x"),
        init: Some(num(8)),
    })])).unwrap();
    let (block, _) = c.finish_with_vm();
    let mut vm1 = Vm::new(vec![Value::Ni]);
    let mut vm2 = Vm::new(vec![Value::Ni]);
    vm1.run(&block, FUEL).unwrap();
    vm2.run(&block, FUEL).unwrap();
    assert_eq!(vm1.globals(), vm2.globals());
    assert_eq!(vm1.globals().as_slice(), &[Value::Numeral(8)]);
}

#[test]
fn empty_unit_compiles_to_empty_block_and_yields_ni() {
    let mut c = Compiler::new();
    c.compile_with(Statements(Vec::new())).unwrap();
    let (block, mut vm) = c.finish_with_vm();
    assert_eq!(block.code().len(), 0);
    assert_eq!(vm.run(&block, FUEL), Ok(Value::Ni));
}

#[test]
fn call_result_lands_in_the_requested_destination() {
    // renowned doubled = twice(21);
    let mut c = Compiler::new();
    c.compile_with(Statements(vec![
        Statement::Journey(Journey {
            name: String::from("twice"),
            args: args(&["n"]),
            body: Statements(vec![Statement::Reward(Some(binary(
                BinaryOp::Add,
                var("n"),
                var("n"),
            )))]),
        }),
        Statement::Renowned(Renowned {
            name: String::from("doubled"),
            init: Some(call(var("twice"), vec![num(21)])),
        }),
    ])).unwrap();
    let (block, mut vm) = c.finish_with_vm();
    vm.run(&block, FUEL).unwrap();
    // handle 0 is `twice`, handle 1 is `doubled`
    assert_eq!(vm.globals()[1], Value::Numeral(42));
}
