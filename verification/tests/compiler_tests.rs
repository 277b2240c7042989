use squire::bytecode::{Bytecode, Interrupt, Opcode};
use squire::compiler::{Compiler, Globals};
use squire::value::Value;

#[test]
fn fresh_compiler_reserves_scratch_register() {
    let c = Compiler::new();
    assert_eq!(c.temp_target(), c.temp_target());
    let mut c = Compiler::with_globals(Globals::new());
    let t1 = c.next_target();
    let t2 = c.next_target();
    assert_ne!(t1, t2);
    assert_ne!(t1, c.temp_target());
    let block = c.finish();
    // scratch register 0 plus the two allocated targets
    assert_eq!(block.ntargets(), 3);
}

#[test]
fn emission_primitives_append_tagged_elements() {
    let mut c = Compiler::new();
    let t = c.next_target();
    c.opcode(Opcode::Move);
    c.count(4);
    c.interrupt(Interrupt::Halt);
    c.target(t);
    let block = c.finish();
    assert_eq!(
        block.code().as_slice(),
        &[
            Bytecode::Opcode(Opcode::Move),
            Bytecode::Count(4),
            Bytecode::Interrupt(Interrupt::Halt),
            Bytecode::Local(1),
        ]
    );
}

#[test]
fn constant_pool_deduplicates_equal_values() {
    let mut c = Compiler::new();
    let c1 = c.get_constant(Value::Numeral(5));
    let c2 = c.get_constant(Value::Numeral(7));
    let c3 = c.get_constant(Value::Numeral(5));
    assert_eq!(c1, c3);
    assert_ne!(c1, c2);
    let block = c.finish();
    assert_eq!(block.constants().len(), 2);
    assert_eq!(block.constants()[0], Value::Numeral(5));
    assert_eq!(block.constants()[1], Value::Numeral(7));
}

#[test]
fn constant_pool_compares_structurally() {
    let mut c = Compiler::new();
    let a = c.get_constant(Value::Text(squire::text::Text::new(String::from("hi"))));
    let b = c.get_constant(Value::Text(squire::text::Text::new(String::from("hi"))));
    let d = c.get_constant(Value::Text(squire::text::Text::new(String::from("ho"))));
    assert_eq!(a, b);
    assert_ne!(a, d);
    assert_eq!(c.finish().constants().len(), 2);
}

#[test]
fn define_local_is_idempotent_per_name() {
    let mut c = Compiler::new();
    let t1 = c.define_local(String::from("a"));
    let t2 = c.define_local(String::from("b"));
    let t3 = c.define_local(String::from("a"));
    assert_eq!(t1, t3);
    assert_ne!(t1, t2);
    assert_eq!(c.get_local("a"), Some(t1));
    assert_eq!(c.get_local("b"), Some(t2));
    assert_eq!(c.get_local("missing"), None);
}

#[test]
fn global_single_definition() {
    let mut c = Compiler::new();
    // declare with a value, then declare again with a value: fails
    let g = c.define_global(String::from("x"), Some(Value::Numeral(1))).unwrap();
    let err = c.define_global(String::from("x"), Some(Value::Numeral(2)));
    assert_eq!(
        err,
        Err(squire::compiler::Error::GlobalAlreadyDefined(String::from("x")))
    );
    // declare without a value, then define: succeeds, same handle both times
    let g1 = c.define_global(String::from("y"), None).unwrap();
    let g2 = c.define_global(String::from("y"), Some(Value::Numeral(3))).unwrap();
    assert_eq!(g1, g2);
    assert_ne!(g, g1);
}

#[test]
fn global_redeclaration_without_value_keeps_the_definition() {
    let mut c = Compiler::new();
    let g1 = c.define_global(String::from("x"), Some(Value::Numeral(9))).unwrap();
    let g2 = c.define_global(String::from("x"), None).unwrap();
    assert_eq!(g1, g2);
    let (_, value) = c.get_global("x").unwrap();
    assert_eq!(value, Some(Value::Numeral(9)));
}

#[test]
fn forward_reference_resolves_to_the_later_handle() {
    let mut c = Compiler::new();
    // a reference resolves the name, declaring it with no value
    let g1 = c.define_global(String::from("later"), None).unwrap();
    assert_eq!(c.get_global("later"), Some((g1, None)));
    // the later declaration receives the same handle
    let g2 = c.define_global(String::from("later"), None).unwrap();
    let g3 = c.define_global(String::from("later"), Some(Value::Veracity(true))).unwrap();
    assert_eq!(g1, g2);
    assert_eq!(g1, g3);
}

#[test]
fn deferred_jump_is_patched_with_relative_offset() {
    let mut c = Compiler::new();
    c.opcode(Opcode::Jump);
    let jd = c.defer_jump();
    c.opcode(Opcode::Return);
    let t = c.temp_target();
    c.target(t);
    jd.set_jump_to_current(&mut c);
    let block = c.finish();
    // the placeholder at index 1 was overwritten with (4 - 1)
    assert_eq!(block.code()[1], Bytecode::Offset(3));
    assert!(block.code().iter().all(|b| *b != Bytecode::Illegal));
}

#[test]
fn jump_to_emits_backward_offset() {
    let mut c = Compiler::new();
    let top = c.current_pos();
    c.opcode(Opcode::Jump);
    c.jump_to(top);
    let block = c.finish();
    // the offset slot is at index 1 and branches back to index 0
    assert_eq!(block.code()[1], Bytecode::Offset(-1));
}

#[test]
fn convert_globals_materializes_values_and_placeholders() {
    let mut c = Compiler::new();
    c.define_global(String::from("a"), Some(Value::Numeral(4))).unwrap();
    c.define_global(String::from("b"), None).unwrap();
    let globals = c.convert_globals();
    assert_eq!(globals, vec![Value::Numeral(4), Value::Ni]);
}

#[test]
fn finish_freezes_state_into_code_block() {
    let mut c = Compiler::new();
    let t = c.next_target();
    let k = c.get_constant(Value::Veracity(false));
    c.opcode(Opcode::LoadConstant);
    c.constant(k);
    c.target(t);
    let (block, vm) = c.finish_with_vm();
    assert_eq!(block.ntargets(), 2);
    assert_eq!(block.code().len(), 3);
    assert_eq!(block.constants().as_slice(), &[Value::Veracity(false)]);
    assert_eq!(vm.globals().len(), 0);
}
