//! The register machine: executes a finished `CodeBlock`'s instruction
//! stream against a register file and a shared global-value vector. The
//! whole execution is pinned by the spec-level interpreter `m_run`, a pure
//! function of the code, the constant pool, the registers, the globals, the
//! instruction pointer and a step budget.

use vstd::prelude::*;
use crate::bytecode::{Bytecode, Opcode};
use crate::value::{
    const_eq, view_values, CodeBlock, JourneyV, UserDefined, Value, ValueV,
};

verus! {

broadcast use crate::value::lemma_view_values_len, crate::value::lemma_view_values_index, crate::value::lemma_view_values_push, crate::value::lemma_view_values_update;

/// A run-time failure. `UnpatchedJump` and the range errors are
/// internal-consistency failures (a malformed code block, never a fault of
/// the executed program); the executor surfaces them instead of executing a
/// corrupt stream.
#[derive(Clone, Copy, PartialEq, Eq, Structural, Debug)]
pub enum Error {
    /// The sentinel placeholder of an unresolved jump was reached.
    UnpatchedJump,
    /// The stream's shape is wrong: a missing or mis-tagged operand, or a
    /// non-opcode element at a dispatch position.
    MalformedBytecode,
    /// A register, constant or global index lies outside its range.
    OutOfRange,
    /// The step budget was exhausted.
    OutOfFuel,
    /// A call's callee is not a function value.
    NotCallable,
    /// A call's argument count differs from the callee's parameter count.
    WrongArity,
    /// An arithmetic or comparison opcode met operands of the wrong kind.
    TypeMismatch,
    /// An arithmetic result does not fit the numeral range.
    Overflow,
    /// An interrupt marker was reached; this core installs no handlers.
    UnhandledInterrupt,
}

/// The outcome of an execution: the global vector it leaves behind, and the
/// returned value or the failure.
pub struct VmRes {
    pub globals: Seq<ValueV>,
    pub res: Result<ValueV, Error>,
}

/// Which values count as true at a branch: null and false are falsey, a
/// numeral is true unless zero, a text unless empty, a function always.
pub open spec fn spec_truthy(v: ValueV) -> bool {
    match v {
        ValueV::Ni => false,
        ValueV::Veracity(b) => b,
        ValueV::Numeral(n) => n != 0,
        ValueV::Text(s) => s.len() > 0,
        ValueV::Journey(_) => true,
    }
}

/// What an arithmetic or comparison opcode returns. Equality is decided on
/// any two values (by the same structural equality the constant pool uses);
/// the arithmetic and ordering forms demand numerals, and a sum or
/// difference outside the numeral range is an overflow failure.
pub open spec fn m_binop(op: Opcode, a: ValueV, b: ValueV) -> Result<ValueV, Error> {
    if op == Opcode::Equals {
        Result::Ok(ValueV::Veracity(const_eq(a, b)))
    } else {
        match (a, b) {
            (ValueV::Numeral(x), ValueV::Numeral(y)) => {
                if op == Opcode::Add {
                    if i64::MIN <= x + y <= i64::MAX {
                        Result::Ok(ValueV::Numeral(x + y))
                    } else {
                        Result::Err(Error::Overflow)
                    }
                } else if op == Opcode::Subtract {
                    if i64::MIN <= x - y <= i64::MAX {
                        Result::Ok(ValueV::Numeral(x - y))
                    } else {
                        Result::Err(Error::Overflow)
                    }
                } else {
                    Result::Ok(ValueV::Veracity(x < y))
                }
            },
            _ => Result::Err(Error::TypeMismatch),
        }
    }
}

/// The argument values named by a run of register operands.
pub open spec fn m_read_args(code: Seq<Bytecode>, regs: Seq<ValueV>, pos: int, n: nat) -> Result<
    Seq<ValueV>,
    Error,
>
    decreases n,
{
    if n == 0 {
        Result::Ok(Seq::empty())
    } else if !(0 <= pos < code.len()) {
        Result::Err(Error::MalformedBytecode)
    } else {
        match code[pos] {
            Bytecode::Local(a) => {
                if (a as int) < regs.len() {
                    match m_read_args(code, regs, pos + 1, (n - 1) as nat) {
                        Result::Ok(rest) => Result::Ok(seq![regs[a as int]] + rest),
                        Result::Err(e) => Result::Err(e),
                    }
                } else {
                    Result::Err(Error::OutOfRange)
                }
            },
            _ => Result::Err(Error::MalformedBytecode),
        }
    }
}

/// A fresh register file of size `nt` with the call's arguments bound into
/// the low registers (register `0` stays the null scratch value).
pub open spec fn bound_regs(nt: int, args: Seq<ValueV>) -> Seq<ValueV> {
    Seq::new(
        nt as nat,
        |k: int|
            if 1 <= k <= args.len() {
                args[k - 1]
            } else {
                ValueV::Ni
            },
    )
}

/// The spec-level interpreter: what executing `code` from `ip` does, given
/// the constant pool, a register file, the global vector and a step budget.
/// Falling off the end of the stream yields null (the top-level script
/// case); a `Return` yields its operand register. Every step costs one unit
/// of budget; a call executes the callee's own code block against a fresh
/// register file and the same global vector.
pub open spec fn m_run(
    code: Seq<Bytecode>,
    constants: Seq<ValueV>,
    regs: Seq<ValueV>,
    globals: Seq<ValueV>,
    ip: int,
    fuel: nat,
) -> VmRes
    decreases fuel, 0int,
{
    if ip == code.len() {
        VmRes { globals, res: Result::Ok(ValueV::Ni) }
    } else if !(0 <= ip < code.len()) {
        VmRes { globals, res: Result::Err(Error::OutOfRange) }
    } else if fuel == 0 {
        VmRes { globals, res: Result::Err(Error::OutOfFuel) }
    } else {
        let f2 = (fuel - 1) as nat;
        match code[ip] {
            Bytecode::Opcode(op) => m_dispatch(code, constants, regs, globals, ip, f2, op),
            Bytecode::Illegal => VmRes { globals, res: Result::Err(Error::UnpatchedJump) },
            Bytecode::Interrupt(_) => VmRes {
                globals,
                res: Result::Err(Error::UnhandledInterrupt),
            },
            _ => VmRes { globals, res: Result::Err(Error::MalformedBytecode) },
        }
    }
}

/// One opcode's effect, given that `code[ip]` is `Opcode(op)` and the step's
/// budget has already been paid.
pub open spec fn m_dispatch(
    code: Seq<Bytecode>,
    constants: Seq<ValueV>,
    regs: Seq<ValueV>,
    globals: Seq<ValueV>,
    ip: int,
    f2: nat,
    op: Opcode,
) -> VmRes
    decreases f2, 3int,
{
    match op {
        Opcode::Move => {
            if ip + 3 > code.len() {
                VmRes { globals, res: Result::Err(Error::MalformedBytecode) }
            } else {
                match (code[ip + 1], code[ip + 2]) {
                    (Bytecode::Local(src), Bytecode::Local(dst)) => {
                        if (src as int) < regs.len() && (dst as int) < regs.len() {
                            m_run(
                                code,
                                constants,
                                regs.update(dst as int, regs[src as int]),
                                globals,
                                ip + 3,
                                f2,
                            )
                        } else {
                            VmRes { globals, res: Result::Err(Error::OutOfRange) }
                        }
                    },
                    _ => VmRes { globals, res: Result::Err(Error::MalformedBytecode) },
                }
            }
        },
        Opcode::LoadConstant => {
            if ip + 3 > code.len() {
                VmRes { globals, res: Result::Err(Error::MalformedBytecode) }
            } else {
                match (code[ip + 1], code[ip + 2]) {
                    (Bytecode::Constant(c), Bytecode::Local(dst)) => {
                        if (c as int) < constants.len() && (dst as int) < regs.len() {
                            m_run(
                                code,
                                constants,
                                regs.update(dst as int, constants[c as int]),
                                globals,
                                ip + 3,
                                f2,
                            )
                        } else {
                            VmRes { globals, res: Result::Err(Error::OutOfRange) }
                        }
                    },
                    _ => VmRes { globals, res: Result::Err(Error::MalformedBytecode) },
                }
            }
        },
        Opcode::LoadGlobal => {
            if ip + 3 > code.len() {
                VmRes { globals, res: Result::Err(Error::MalformedBytecode) }
            } else {
                match (code[ip + 1], code[ip + 2]) {
                    (Bytecode::Global(g), Bytecode::Local(dst)) => {
                        if (g as int) < globals.len() && (dst as int) < regs.len() {
                            m_run(
                                code,
                                constants,
                                regs.update(dst as int, globals[g as int]),
                                globals,
                                ip + 3,
                                f2,
                            )
                        } else {
                            VmRes { globals, res: Result::Err(Error::OutOfRange) }
                        }
                    },
                    _ => VmRes { globals, res: Result::Err(Error::MalformedBytecode) },
                }
            }
        },
        Opcode::StoreGlobal => {
            if ip + 3 > code.len() {
                VmRes { globals, res: Result::Err(Error::MalformedBytecode) }
            } else {
                match (code[ip + 1], code[ip + 2]) {
                    (Bytecode::Global(g), Bytecode::Local(src)) => {
                        if (g as int) < globals.len() && (src as int) < regs.len() {
                            m_run(
                                code,
                                constants,
                                regs,
                                globals.update(g as int, regs[src as int]),
                                ip + 3,
                                f2,
                            )
                        } else {
                            VmRes { globals, res: Result::Err(Error::OutOfRange) }
                        }
                    },
                    _ => VmRes { globals, res: Result::Err(Error::MalformedBytecode) },
                }
            }
        },
        Opcode::Return => {
            if ip + 2 > code.len() {
                VmRes { globals, res: Result::Err(Error::MalformedBytecode) }
            } else {
                match code[ip + 1] {
                    Bytecode::Local(src) => {
                        if (src as int) < regs.len() {
                            VmRes { globals, res: Result::Ok(regs[src as int]) }
                        } else {
                            VmRes { globals, res: Result::Err(Error::OutOfRange) }
                        }
                    },
                    _ => VmRes { globals, res: Result::Err(Error::MalformedBytecode) },
                }
            }
        },
        Opcode::Jump => {
            if ip + 2 > code.len() {
                VmRes { globals, res: Result::Err(Error::MalformedBytecode) }
            } else {
                match code[ip + 1] {
                    Bytecode::Offset(rel) => {
                        let t = ip + 1 + rel;
                        if 0 <= t <= code.len() {
                            m_run(code, constants, regs, globals, t, f2)
                        } else {
                            VmRes { globals, res: Result::Err(Error::OutOfRange) }
                        }
                    },
                    _ => VmRes { globals, res: Result::Err(Error::MalformedBytecode) },
                }
            }
        },
        Opcode::JumpIfFalse => {
            if ip + 3 > code.len() {
                VmRes { globals, res: Result::Err(Error::MalformedBytecode) }
            } else {
                match (code[ip + 1], code[ip + 2]) {
                    (Bytecode::Local(c), Bytecode::Offset(rel)) => {
                        if (c as int) < regs.len() {
                            if spec_truthy(regs[c as int]) {
                                m_run(code, constants, regs, globals, ip + 3, f2)
                            } else {
                                let t = ip + 2 + rel;
                                if 0 <= t <= code.len() {
                                    m_run(code, constants, regs, globals, t, f2)
                                } else {
                                    VmRes { globals, res: Result::Err(Error::OutOfRange) }
                                }
                            }
                        } else {
                            VmRes { globals, res: Result::Err(Error::OutOfRange) }
                        }
                    },
                    _ => VmRes { globals, res: Result::Err(Error::MalformedBytecode) },
                }
            }
        },
        Opcode::Call => {
            if ip + 3 > code.len() {
                VmRes { globals, res: Result::Err(Error::MalformedBytecode) }
            } else {
                match (code[ip + 1], code[ip + 2]) {
                    (Bytecode::Local(fr), Bytecode::Count(n)) => {
                        if !((fr as int) < regs.len()) {
                            VmRes { globals, res: Result::Err(Error::OutOfRange) }
                        } else if ip + 3 + n + 1 > code.len() {
                            VmRes { globals, res: Result::Err(Error::MalformedBytecode) }
                        } else {
                            match m_read_args(code, regs, ip + 3, n as nat) {
                                Result::Err(e) => VmRes { globals, res: Result::Err(e) },
                                Result::Ok(argv) => {
                                    match code[ip + 3 + n] {
                                        Bytecode::Local(dst) => {
                                            if !((dst as int) < regs.len()) {
                                                VmRes {
                                                    globals,
                                                    res: Result::Err(Error::OutOfRange),
                                                }
                                            } else {
                                                match regs[fr as int] {
                                                    ValueV::Journey(jv) => m_call_journey(
                                                        code,
                                                        constants,
                                                        regs,
                                                        globals,
                                                        ip,
                                                        f2,
                                                        n as int,
                                                        dst as int,
                                                        jv,
                                                        argv,
                                                    ),
                                                    _ => VmRes {
                                                        globals,
                                                        res: Result::Err(Error::NotCallable),
                                                    },
                                                }
                                            }
                                        },
                                        _ => VmRes {
                                            globals,
                                            res: Result::Err(Error::MalformedBytecode),
                                        },
                                    }
                                },
                            }
                        }
                    },
                    _ => VmRes { globals, res: Result::Err(Error::MalformedBytecode) },
                }
            }
        },
        _ => {
            // Add, Subtract, Equals, LessThan
            if ip + 4 > code.len() {
                VmRes { globals, res: Result::Err(Error::MalformedBytecode) }
            } else {
                match (code[ip + 1], code[ip + 2], code[ip + 3]) {
                    (Bytecode::Local(a), Bytecode::Local(b), Bytecode::Local(dst)) => {
                        if (a as int) < regs.len() && (b as int) < regs.len() && (dst as int)
                            < regs.len() {
                            match m_binop(op, regs[a as int], regs[b as int]) {
                                Result::Ok(v) => m_run(
                                    code,
                                    constants,
                                    regs.update(dst as int, v),
                                    globals,
                                    ip + 4,
                                    f2,
                                ),
                                Result::Err(e) => VmRes { globals, res: Result::Err(e) },
                            }
                        } else {
                            VmRes { globals, res: Result::Err(Error::OutOfRange) }
                        }
                    },
                    _ => VmRes { globals, res: Result::Err(Error::MalformedBytecode) },
                }
            }
        },
    }
}

/// A call's effect once its callee, arguments and destination are known:
/// the callee's code block runs against a fresh register file with the
/// arguments bound in declaration order, sharing the caller's global
/// vector; its returned value lands in the caller's destination register.
pub open spec fn m_call_journey(
    code: Seq<Bytecode>,
    constants: Seq<ValueV>,
    regs: Seq<ValueV>,
    globals: Seq<ValueV>,
    ip: int,
    f2: nat,
    n: int,
    dst: int,
    jv: JourneyV,
    argv: Seq<ValueV>,
) -> VmRes
    decreases f2, 2int,
{
    if argv.len() != jv.arg_names.len() {
        VmRes { globals, res: Result::Err(Error::WrongArity) }
    } else if jv.body.ntargets < n + 1 {
        VmRes { globals, res: Result::Err(Error::OutOfRange) }
    } else {
        let inner = m_run(
            jv.body.code,
            jv.body.constants,
            bound_regs(jv.body.ntargets, argv),
            globals,
            0,
            f2,
        );
        match inner.res {
            Result::Err(e) => VmRes { globals: inner.globals, res: Result::Err(e) },
            Result::Ok(v) => m_run(
                code,
                constants,
                regs.update(dst, v),
                inner.globals,
                ip + 3 + n + 1,
                f2,
            ),
        }
    }
}

/// What calling a function value does: the argument count must match the
/// parameter count, the callee's register file must have room for the
/// arguments, and then the callee's code block runs from its start.
pub open spec fn m_call_value(jv: JourneyV, args: Seq<ValueV>, globals: Seq<ValueV>, fuel: nat) -> VmRes {
    if args.len() != jv.arg_names.len() {
        VmRes { globals, res: Result::Err(Error::WrongArity) }
    } else if jv.body.ntargets < args.len() + 1 {
        VmRes { globals, res: Result::Err(Error::OutOfRange) }
    } else {
        m_run(jv.body.code, jv.body.constants, bound_regs(jv.body.ntargets, args), globals, 0, fuel)
    }
}

/// Decide `spec_truthy` on a value.
fn truthy(v: &Value) -> (r: bool)
    ensures
        r == spec_truthy(v@),
{
    match v {
        Value::Ni => false,
        Value::Veracity(b) => *b,
        Value::Numeral(n) => *n != 0,
        Value::Text(t) => !t.is_empty(),
        Value::Journey(_) => true,
    }
}

/// Evaluate an arithmetic or comparison opcode on two values.
fn eval_binop(op: Opcode, a: &Value, b: &Value) -> (r: Result<Value, Error>)
    requires
        op == Opcode::Add || op == Opcode::Subtract || op == Opcode::Equals || op
            == Opcode::LessThan,
    ensures
        ({
            let m = m_binop(op, a@, b@);
            match r {
                Result::Ok(v) => m == Result::<ValueV, Error>::Ok(v@),
                Result::Err(e) => m == Result::<ValueV, Error>::Err(e),
            }
        }),
{
    if let Opcode::Equals = op {
        return Result::Ok(Value::Veracity(a.constant_eq(b)));
    }
    match (a, b) {
        (Value::Numeral(x), Value::Numeral(y)) => {
            if let Opcode::Add = op {
                if (*y > 0 && *x > i64::MAX - *y) || (*y < 0 && *x < i64::MIN - *y) {
                    Result::Err(Error::Overflow)
                } else {
                    Result::Ok(Value::Numeral(*x + *y))
                }
            } else if let Opcode::Subtract = op {
                if (*y < 0 && *x > i64::MAX + *y) || (*y > 0 && *x < i64::MIN + *y) {
                    Result::Err(Error::Overflow)
                } else {
                    Result::Ok(Value::Numeral(*x - *y))
                }
            } else {
                Result::Ok(Value::Veracity(*x < *y))
            }
        },
        _ => Result::Err(Error::TypeMismatch),
    }
}

/// Read a call's argument registers, appending their values to `out`.
fn read_call_args(
    code: &Vec<Bytecode>,
    regs: &Vec<Value>,
    pos: usize,
    n: usize,
    out: &mut Vec<Value>,
) -> (r: Result<(), Error>)
    ensures
        ({
            let m = m_read_args(code@, view_values(regs@), pos as int, n as nat);
            match r {
                Result::Ok(()) => m is Ok && final(out)@.len() == old(out)@.len()
                    + m->Ok_0.len() && (forall|k: int|
                    0 <= k < old(out)@.len() ==> final(out)@[k] == old(out)@[k]) && (forall|k: int|
                    old(out)@.len() <= k < final(out)@.len() ==> (#[trigger] final(out)@[k]@)
                        == m->Ok_0[k - old(out)@.len()]),
                Result::Err(e) => m == Result::<Seq<ValueV>, Error>::Err(e),
            }
        }),
    decreases n,
{
    if n == 0 {
        return Result::Ok(());
    }
    if pos >= code.len() {
        return Result::Err(Error::MalformedBytecode);
    }
    match code[pos] {
        Bytecode::Local(a) => {
            if a < regs.len() {
                out.push(regs[a].clone());
                let ghost out1 = out@;
                let r = read_call_args(code, regs, pos + 1, n - 1, out);
                proof {
                    let m = m_read_args(code@, view_values(regs@), pos as int, n as nat);
                    let rest = m_read_args(code@, view_values(regs@), pos as int + 1, (n - 1) as nat);
                    if r is Ok {
                        assert(m->Ok_0 =~= seq![view_values(regs@)[a as int]] + rest->Ok_0);
                        assert forall|k: int|
                            old(out)@.len() <= k < out@.len() implies (#[trigger] out@[k]@)
                            == m->Ok_0[k - old(out)@.len()] by {
                            if k == old(out)@.len() {
                                assert(out@[k] == out1[out1.len() - 1]);
                            } else {
                                assert(out@[k]@ == rest->Ok_0[k - out1.len()]);
                            }
                        }
                    }
                }
                r
            } else {
                Result::Err(Error::OutOfRange)
            }
        },
        _ => Result::Err(Error::MalformedBytecode),
    }
}

/// A fresh register file of size `nt` with `args` bound into the low
/// registers, in order.
fn make_bound_regs(nt: usize, args: &Vec<Value>) -> (r: Vec<Value>)
    ensures
        view_values(r@) == bound_regs(nt as int, view_values(args@)),
{
    let mut regs: Vec<Value> = Vec::new();
    let mut i: usize = 0;
    while i < nt
        invariant
            i <= nt,
            regs@.len() == i as int,
            forall|k: int|
                0 <= k < i as int ==> regs@[k].view() == bound_regs(
                    nt as int,
                    view_values(args@),
                )[k],
        decreases nt - i,
    {
        if 1 <= i && i <= args.len() {
            regs.push(args[i - 1].clone());
        } else {
            regs.push(Value::Ni);
        }
        i = i + 1;
    }
    proof {
        assert(view_values(regs@) =~= bound_regs(nt as int, view_values(args@)));
    }
    regs
}

/// Execute `code` from `ip` against the given register file and global
/// vector, mirroring the spec interpreter step for step.
fn exec_block(
    code: &Vec<Bytecode>,
    constants: &Vec<Value>,
    regs: &mut Vec<Value>,
    globals: &mut Vec<Value>,
    ip: usize,
    fuel: u64,
) -> (r: Result<Value, Error>)
    ensures
        ({
            let m = m_run(
                code@,
                view_values(constants@),
                view_values(old(regs)@),
                view_values(old(globals)@),
                ip as int,
                fuel as nat,
            );
            view_values(final(globals)@) == m.globals && (match r {
                Result::Ok(v) => m.res == Result::<ValueV, Error>::Ok(v@),
                Result::Err(e) => m.res == Result::<ValueV, Error>::Err(e),
            })
        }),
    decreases fuel, 0int,
{
    if ip == code.len() {
        return Result::Ok(Value::Ni);
    }
    if ip > code.len() {
        return Result::Err(Error::OutOfRange);
    }
    if fuel == 0 {
        return Result::Err(Error::OutOfFuel);
    }
    let f2 = fuel - 1;
    match code[ip] {
        Bytecode::Opcode(op) => exec_dispatch(code, constants, regs, globals, ip, f2, op),
        Bytecode::Illegal => Result::Err(Error::UnpatchedJump),
        Bytecode::Interrupt(_) => Result::Err(Error::UnhandledInterrupt),
        _ => Result::Err(Error::MalformedBytecode),
    }
}

/// Execute one opcode at `ip`, mirroring `m_dispatch`.
#[verifier::rlimit(100)]
fn exec_dispatch(
    code: &Vec<Bytecode>,
    constants: &Vec<Value>,
    regs: &mut Vec<Value>,
    globals: &mut Vec<Value>,
    ip: usize,
    f2: u64,
    op: Opcode,
) -> (r: Result<Value, Error>)
    requires
        ip < code@.len(),
    ensures
        ({
            let m = m_dispatch(
                code@,
                view_values(constants@),
                view_values(old(regs)@),
                view_values(old(globals)@),
                ip as int,
                f2 as nat,
                op,
            );
            view_values(final(globals)@) == m.globals && (match r {
                Result::Ok(v) => m.res == Result::<ValueV, Error>::Ok(v@),
                Result::Err(e) => m.res == Result::<ValueV, Error>::Err(e),
            })
        }),
    decreases f2, 3int,
{
    match op {
        Opcode::Move => {
            if code.len() - ip < 3 {
                return Result::Err(Error::MalformedBytecode);
            }
            match (code[ip + 1], code[ip + 2]) {
                (Bytecode::Local(src), Bytecode::Local(dst)) => {
                    if src < regs.len() && dst < regs.len() {
                        let v = regs[src].clone();
                        regs[dst] = v;
                        exec_block(code, constants, regs, globals, ip + 3, f2)
                    } else {
                        Result::Err(Error::OutOfRange)
                    }
                },
                _ => Result::Err(Error::MalformedBytecode),
            }
        },
        Opcode::LoadConstant => {
            if code.len() - ip < 3 {
                return Result::Err(Error::MalformedBytecode);
            }
            match (code[ip + 1], code[ip + 2]) {
                (Bytecode::Constant(c), Bytecode::Local(dst)) => {
                    if c < constants.len() && dst < regs.len() {
                        let v = constants[c].clone();
                        regs[dst] = v;
                        exec_block(code, constants, regs, globals, ip + 3, f2)
                    } else {
                        Result::Err(Error::OutOfRange)
                    }
                },
                _ => Result::Err(Error::MalformedBytecode),
            }
        },
        Opcode::LoadGlobal => {
            if code.len() - ip < 3 {
                return Result::Err(Error::MalformedBytecode);
            }
            match (code[ip + 1], code[ip + 2]) {
                (Bytecode::Global(g), Bytecode::Local(dst)) => {
                    if g < globals.len() && dst < regs.len() {
                        let v = globals[g].clone();
                        regs[dst] = v;
                        exec_block(code, constants, regs, globals, ip + 3, f2)
                    } else {
                        Result::Err(Error::OutOfRange)
                    }
                },
                _ => Result::Err(Error::MalformedBytecode),
            }
        },
        Opcode::StoreGlobal => {
            if code.len() - ip < 3 {
                return Result::Err(Error::MalformedBytecode);
            }
            match (code[ip + 1], code[ip + 2]) {
                (Bytecode::Global(g), Bytecode::Local(src)) => {
                    if g < globals.len() && src < regs.len() {
                        let v = regs[src].clone();
                        globals[g] = v;
                        exec_block(code, constants, regs, globals, ip + 3, f2)
                    } else {
                        Result::Err(Error::OutOfRange)
                    }
                },
                _ => Result::Err(Error::MalformedBytecode),
            }
        },
        Opcode::Return => {
            if code.len() - ip < 2 {
                return Result::Err(Error::MalformedBytecode);
            }
            match code[ip + 1] {
                Bytecode::Local(src) => {
                    if src < regs.len() {
                        Result::Ok(regs[src].clone())
                    } else {
                        Result::Err(Error::OutOfRange)
                    }
                },
                _ => Result::Err(Error::MalformedBytecode),
            }
        },
        Opcode::Jump => {
            if code.len() - ip < 2 {
                return Result::Err(Error::MalformedBytecode);
            }
            match code[ip + 1] {
                Bytecode::Offset(rel) => {
                    let base = ip + 1;
                    if rel >= 0 {
                        let step = rel as usize;
                        if step <= code.len() - base {
                            exec_block(code, constants, regs, globals, base + step, f2)
                        } else {
                            Result::Err(Error::OutOfRange)
                        }
                    } else {
                        let mag = ((-(rel + 1)) as usize) + 1;
                        if mag <= base {
                            exec_block(code, constants, regs, globals, base - mag, f2)
                        } else {
                            Result::Err(Error::OutOfRange)
                        }
                    }
                },
                _ => Result::Err(Error::MalformedBytecode),
            }
        },
        Opcode::JumpIfFalse => {
            if code.len() - ip < 3 {
                return Result::Err(Error::MalformedBytecode);
            }
            match (code[ip + 1], code[ip + 2]) {
                (Bytecode::Local(c), Bytecode::Offset(rel)) => {
                    if c < regs.len() {
                        if truthy(&regs[c]) {
                            exec_block(code, constants, regs, globals, ip + 3, f2)
                        } else {
                            let base = ip + 2;
                            if rel >= 0 {
                                let step = rel as usize;
                                if step <= code.len() - base {
                                    exec_block(code, constants, regs, globals, base + step, f2)
                                } else {
                                    Result::Err(Error::OutOfRange)
                                }
                            } else {
                                let mag = ((-(rel + 1)) as usize) + 1;
                                if mag <= base {
                                    exec_block(code, constants, regs, globals, base - mag, f2)
                                } else {
                                    Result::Err(Error::OutOfRange)
                                }
                            }
                        }
                    } else {
                        Result::Err(Error::OutOfRange)
                    }
                },
                _ => Result::Err(Error::MalformedBytecode),
            }
        },
        Opcode::Call => {
            if code.len() - ip < 3 {
                return Result::Err(Error::MalformedBytecode);
            }
            match (code[ip + 1], code[ip + 2]) {
                (Bytecode::Local(fr), Bytecode::Count(n)) => {
                    if !(fr < regs.len()) {
                        return Result::Err(Error::OutOfRange);
                    }
                    if code.len() - ip < 4 || code.len() - ip - 4 < n {
                        return Result::Err(Error::MalformedBytecode);
                    }
                    let mut argv: Vec<Value> = Vec::new();
                    match read_call_args(code, regs, ip + 3, n, &mut argv) {
                        Result::Err(e) => {
                            return Result::Err(e);
                        },
                        Result::Ok(()) => {},
                    }
                    let ghost argv_m = m_read_args(
                        code@,
                        view_values(regs@),
                        ip as int + 3,
                        n as nat,
                    )->Ok_0;
                    proof {
                        assert(view_values(argv@) =~= argv_m);
                    }
                    match code[ip + 3 + n] {
                        Bytecode::Local(dst) => {
                            if !(dst < regs.len()) {
                                return Result::Err(Error::OutOfRange);
                            }
                            let callee = match &regs[fr] {
                                Value::Journey(ud) => ud.clone(),
                                _ => {
                                    return Result::Err(Error::NotCallable);
                                },
                            };
                            if argv.len() != callee.arg_names().len() {
                                return Result::Err(Error::WrongArity);
                            }
                            let nt = callee.body().ntargets();
                            if nt < n + 1 {
                                return Result::Err(Error::OutOfRange);
                            }
                            let mut regs2 = make_bound_regs(nt, &argv);
                            let inner = exec_block(
                                callee.body().code(),
                                callee.body().constants(),
                                &mut regs2,
                                globals,
                                0,
                                f2,
                            );
                            match inner {
                                Result::Err(e) => Result::Err(e),
                                Result::Ok(v) => {
                                    regs[dst] = v;
                                    exec_block(code, constants, regs, globals, ip + 3 + n + 1, f2)
                                },
                            }
                        },
                        _ => Result::Err(Error::MalformedBytecode),
                    }
                },
                _ => Result::Err(Error::MalformedBytecode),
            }
        },
        _ => {
            if code.len() - ip < 4 {
                return Result::Err(Error::MalformedBytecode);
            }
            match (code[ip + 1], code[ip + 2], code[ip + 3]) {
                (Bytecode::Local(a), Bytecode::Local(b), Bytecode::Local(dst)) => {
                    if a < regs.len() && b < regs.len() && dst < regs.len() {
                        let v = match eval_binop(op, &regs[a], &regs[b]) {
                            Result::Ok(v) => v,
                            Result::Err(e) => {
                                return Result::Err(e);
                            },
                        };
                        regs[dst] = v;
                        exec_block(code, constants, regs, globals, ip + 4, f2)
                    } else {
                        Result::Err(Error::OutOfRange)
                    }
                },
                _ => Result::Err(Error::MalformedBytecode),
            }
        },
    }
}

/// A register machine execution context: the global-value vector shared by
/// every code block executed through it. A finished code block itself is
/// immutable, so any number of machines may execute the same block, each
/// against its own register file.
pub struct Vm {
    globals: Vec<Value>,
}

impl View for Vm {
    type V = Seq<ValueV>;

    closed spec fn view(&self) -> Seq<ValueV> {
        view_values(self.globals@)
    }
}

impl Vm {
    /// A machine over the given global-value vector.
    pub fn new(globals: Vec<Value>) -> (r: Self)
        ensures
            r@ == view_values(globals@),
    {
        Vm { globals }
    }

    /// The machine's global-value vector.
    pub fn globals(&self) -> (r: &Vec<Value>)
        ensures
            view_values(r@) == self@,
    {
        &self.globals
    }

    /// Execute a code block from its start against a fresh register file,
    /// with a step budget. The result, and the machine's globals afterwards,
    /// are exactly those of the spec interpreter.
    pub fn run(&mut self, block: &CodeBlock, fuel: u64) -> (r: Result<Value, Error>)
        ensures
            ({
                let m = m_run(
                    block@.code,
                    block@.constants,
                    bound_regs(block@.ntargets, Seq::<ValueV>::empty()),
                    old(self)@,
                    0,
                    fuel as nat,
                );
                final(self)@ == m.globals && (match r {
                    Result::Ok(v) => m.res == Result::<ValueV, Error>::Ok(v@),
                    Result::Err(e) => m.res == Result::<ValueV, Error>::Err(e),
                })
            }),
    {
        let empty: Vec<Value> = Vec::new();
        let mut regs = make_bound_regs(block.ntargets(), &empty);
        proof {
            assert(view_values(empty@) =~= Seq::<ValueV>::empty());
        }
        exec_block(block.code(), block.constants(), &mut regs, &mut self.globals, 0, fuel)
    }

    /// Call a function value with the given arguments, per `m_call_value`.
    pub fn call_journey(&mut self, journey: &UserDefined, args: Vec<Value>, fuel: u64) -> (r:
        Result<Value, Error>)
        ensures
            ({
                let m = m_call_value(journey@, view_values(args@), old(self)@, fuel as nat);
                final(self)@ == m.globals && (match r {
                    Result::Ok(v) => m.res == Result::<ValueV, Error>::Ok(v@),
                    Result::Err(e) => m.res == Result::<ValueV, Error>::Err(e),
                })
            }),
    {
        if args.len() != journey.arg_names().len() {
            return Result::Err(Error::WrongArity);
        }
        let nt = journey.body().ntargets();
        if nt <= args.len() {
            return Result::Err(Error::OutOfRange);
        }
        let mut regs = make_bound_regs(nt, &args);
        exec_block(
            journey.body().code(),
            journey.body().constants(),
            &mut regs,
            &mut self.globals,
            0,
            fuel,
        )
    }
}

} // verus!
