//! The syntax-tree node set and its destination-driven compile contract:
//! every node compiles itself into an optional target register, given a
//! compiler. A node is an immutable value consumed exactly once by
//! compilation.
//!
//! Each compile function's effect on the compiler is pinned exactly by a
//! spec-level model (`m_expr`, `m_stmt`, ...): compilation is a pure,
//! deterministic, single-attempt transformation of the compiler state.

use vstd::prelude::*;
use crate::bytecode::{Bytecode, Opcode};
use crate::compiler::{
    globals_wf, m_define_global, m_define_local, m_get_constant, m_get_local, opt_target_view,
    CState, Compiler, Error, ErrorV, Globals, GlobalV, Target, UnsupportedFeature,
};
use crate::token;
use crate::value::{CodeBlockV, JourneyV, UserDefined, Value, ValueV};

verus! {

/// A literal expression, wrapping the literal token it was parsed from.
#[derive(PartialEq, Eq, Debug)]
pub struct Literal(pub token::Literal);

/// A binary operator expression form.
#[derive(Clone, Copy, PartialEq, Eq, Structural, Debug)]
pub enum BinaryOp {
    Add,
    Subtract,
    Equals,
    LessThan,
}

/// An expression: a syntactic form that can produce a value.
#[derive(PartialEq, Eq, Debug)]
pub enum Expression {
    /// A literal value.
    Literal(Literal),
    /// A reference to a local or global by name.
    Variable(String),
    /// A binary operation on two sub-expressions.
    Binary(BinaryOp, Box<Expression>, Box<Expression>),
    /// A call of a function value with positional arguments.
    Call(Box<Expression>, Vec<Expression>),
}

/// A global ("renowned") declaration with an optional initializer.
#[derive(PartialEq, Eq, Debug)]
pub struct Renowned {
    pub name: String,
    pub init: Option<Expression>,
}

/// A function-local ("nigh") declaration with an optional initializer.
#[derive(PartialEq, Eq, Debug)]
pub struct Nigh {
    pub name: String,
    pub init: Option<Expression>,
}

/// One declared parameter of a function: its name, and the optional type
/// annotation and default value that the supported subset rejects.
#[derive(PartialEq, Eq, Debug)]
pub struct Argument {
    pub name: String,
    pub kind: Option<Expression>,
    pub default: Option<Expression>,
}

/// A function's declared parameter list. Variadic positional or keyword
/// parameters and a declared return type are rejected by the supported
/// subset.
#[derive(PartialEq, Eq, Debug)]
pub struct Arguments {
    pub normal: Vec<Argument>,
    pub vararg: Option<String>,
    pub varkwarg: Option<String>,
    pub return_type: Option<Expression>,
}

/// A function ("journey") definition: name, parameter list, body.
#[derive(PartialEq, Eq, Debug)]
pub struct Journey {
    pub name: String,
    pub args: Arguments,
    pub body: Statements,
}

/// A conditional statement with an optional else ("alas") branch.
#[derive(PartialEq, Eq, Debug)]
pub struct If {
    pub cond: Expression,
    pub body: Statements,
    pub alas: Option<Statements>,
}

/// A loop ("whilst") statement.
#[derive(PartialEq, Eq, Debug)]
pub struct Whilst {
    pub cond: Expression,
    pub body: Statements,
}

/// One statement.
#[derive(PartialEq, Eq, Debug)]
pub enum Statement {
    /// An expression evaluated for its value or side effect.
    Expression(Expression),
    /// A global declaration.
    Renowned(Renowned),
    /// A local declaration.
    Nigh(Nigh),
    /// A function definition, registered as a named global.
    Journey(Journey),
    /// A return ("reward") with an optional value.
    Reward(Option<Expression>),
    /// A conditional.
    If(If),
    /// A loop.
    Whilst(Whilst),
}

/// A statement sequence, e.g. a function body or a whole compilation unit.
#[derive(PartialEq, Eq, Debug)]
pub struct Statements(pub Vec<Statement>);

/// The constant-pool value a literal token denotes. Text with interpolation
/// never reaches the pool: its compilation is rejected first.
pub open spec fn lit_value(lit: token::Literal) -> ValueV {
    match lit {
        token::Literal::Ni => ValueV::Ni,
        token::Literal::Boolean(b) => ValueV::Veracity(b),
        token::Literal::Numeral(n) => ValueV::Numeral(n as int),
        token::Literal::Text(t) => ValueV::Text(t@),
        token::Literal::TextInterpolation(_, _) => ValueV::Ni,
    }
}

/// An upper bound on both the instructions a node's compilation emits and
/// the registers it allocates. Used to keep positions within the signed
/// offset range and the register counter within `usize`.
pub open spec fn size_expr(e: Expression) -> nat
    decreases e,
{
    match e {
        Expression::Literal(_) => 3,
        Expression::Variable(_) => 3,
        Expression::Binary(_, l, r) => 6 + size_expr(*l) + size_expr(*r),
        Expression::Call(f, args) => 5 + size_expr(*f) + size_exprs(args@) + args@.len(),
    }
}

/// The size bound of a call's argument list (one register per argument,
/// plus each argument's own bound).
pub open spec fn size_exprs(args: Seq<Expression>) -> nat
    decreases args,
{
    if args.len() == 0 {
        0
    } else {
        2 + size_expr(args[0]) + size_exprs(args.subrange(1, args.len() as int))
    }
}

proof fn lemma_size_exprs_ge_len(args: Seq<Expression>)
    ensures
        size_exprs(args) >= 2 * args.len(),
    decreases args,
{
    if args.len() != 0 {
        lemma_size_exprs_ge_len(args.subrange(1, args.len() as int));
    }
}

/// The size bound of an optional initializer.
pub open spec fn size_opt_expr(e: Option<Expression>) -> nat {
    match e {
        Option::Some(e) => size_expr(e),
        Option::None => 3,
    }
}

/// The size bound of one statement.
pub open spec fn size_stmt(s: Statement) -> nat
    decreases s,
{
    match s {
        Statement::Expression(e) => size_expr(e),
        Statement::Renowned(r) => 3 + size_opt_expr(r.init),
        Statement::Nigh(n) => 4 + size_opt_expr(n.init),
        Statement::Journey(j) => 3 + size_journey(j),
        Statement::Reward(e) => 5 + size_opt_expr(e),
        Statement::If(i) => 5 + size_expr(i.cond) + size_stmts(i.body.0@) + (match i.alas {
            Option::Some(a) => size_stmts(a.0@),
            Option::None => 0,
        }),
        Statement::Whilst(w) => 5 + size_expr(w.cond) + size_stmts(w.body.0@),
    }
}

/// The size bound of a statement sequence.
pub open spec fn size_stmts(ss: Seq<Statement>) -> nat
    decreases ss,
{
    if ss.len() == 0 {
        0
    } else {
        size_stmt(ss[0]) + size_stmts(ss.subrange(1, ss.len() as int))
    }
}

/// The size bound of a whole function definition: its parameter bindings,
/// its body, and its terminal return.
pub open spec fn size_journey(j: Journey) -> nat
    decreases j,
{
    (5 + j.args.normal.len() + size_stmts(j.body.0@)) as nat
}

/// The outcome of one model compilation step: the state left behind, and
/// the error it stopped on, if any.
pub struct MRes {
    pub st: CState,
    pub err: Option<ErrorV>,
}

/// The outcome of compiling a call's argument list: the state, the argument
/// registers in order, and the error, if any.
pub struct MArgs {
    pub st: CState,
    pub targets: Seq<int>,
    pub err: Option<ErrorV>,
}

/// The outcome of binding a parameter list: the state, the accumulated
/// parameter names, and the error, if any.
pub struct MBind {
    pub st: CState,
    pub names: Seq<Seq<char>>,
    pub err: Option<ErrorV>,
}

/// The outcome of building a function value: the global table as the nested
/// compilation left it, and the function's shape or the error.
pub struct MJourney {
    pub globals: Seq<GlobalV>,
    pub res: Result<JourneyV, ErrorV>,
}

/// A register operand element.
pub open spec fn loc(t: int) -> Bytecode {
    Bytecode::Local(t as usize)
}

/// A constant operand element.
pub open spec fn con(c: int) -> Bytecode {
    Bytecode::Constant(c as usize)
}

/// A global operand element.
pub open spec fn glo(g: int) -> Bytecode {
    Bytecode::Global(g as usize)
}

/// An offset operand element.
pub open spec fn ofs(o: int) -> Bytecode {
    Bytecode::Offset(o as isize)
}

pub open spec fn push1(st: CState, a: Bytecode) -> CState {
    CState { code: st.code.push(a), ..st }
}

pub open spec fn push2(st: CState, a: Bytecode, b: Bytecode) -> CState {
    CState { code: st.code.push(a).push(b), ..st }
}

pub open spec fn push3(st: CState, a: Bytecode, b: Bytecode, c: Bytecode) -> CState {
    CState { code: st.code.push(a).push(b).push(c), ..st }
}

pub open spec fn push4(st: CState, a: Bytecode, b: Bytecode, c: Bytecode, d: Bytecode) -> CState {
    CState { code: st.code.push(a).push(b).push(c).push(d), ..st }
}

/// Allocate the next register at the model level.
pub open spec fn bump(st: CState) -> CState {
    CState { ntargets: st.ntargets + 1, ..st }
}

/// The destination actually written: the requested target, or the reserved
/// scratch register when none was requested.
pub open spec fn opt_or_scratch(tgt: Option<int>) -> int {
    match tgt {
        Option::Some(t) => t,
        Option::None => 0,
    }
}

/// The opcode of a binary operator.
pub open spec fn binop_opcode(op: BinaryOp) -> Opcode {
    match op {
        BinaryOp::Add => Opcode::Add,
        BinaryOp::Subtract => Opcode::Subtract,
        BinaryOp::Equals => Opcode::Equals,
        BinaryOp::LessThan => Opcode::LessThan,
    }
}

/// What compiling a literal does. With no destination a plain literal emits
/// nothing at all; text with interpolation is rejected; otherwise the value
/// joins the constant pool (deduplicated) and one load is emitted.
pub open spec fn m_literal(lit: token::Literal, st: CState, tgt: Option<int>) -> MRes {
    if lit is TextInterpolation {
        MRes { st, err: Option::Some(ErrorV::Unsupported(UnsupportedFeature::TextInterpolation)) }
    } else {
        match tgt {
            Option::None => MRes { st, err: Option::None },
            Option::Some(t) => {
                let (st1, ci) = m_get_constant(st, lit_value(lit));
                MRes {
                    st: push3(st1, Bytecode::Opcode(Opcode::LoadConstant), con(ci), loc(t)),
                    err: Option::None,
                }
            },
        }
    }
}

/// What compiling a variable reference does: a name bound as a local
/// resolves to a register move; any other name resolves through the global
/// table, declaring the name (with no value attached) if it is not there
/// yet, so a reference to a global declared later in the unit resolves to
/// the very handle that later declaration receives. Without a destination
/// nothing is emitted, though the resolution's declaration remains.
pub open spec fn m_variable(name: Seq<char>, st: CState, tgt: Option<int>) -> MRes {
    match m_get_local(st, name) {
        Option::Some(src) => match tgt {
            Option::Some(t) => MRes {
                st: push3(st, Bytecode::Opcode(Opcode::Move), loc(src), loc(t)),
                err: Option::None,
            },
            Option::None => MRes { st, err: Option::None },
        },
        Option::None => {
            let (gs2, res) = m_define_global(st.globals, name, Option::None);
            let st1 = CState { globals: gs2, ..st };
            match res {
                Result::Err(e) => MRes { st: st1, err: Option::Some(e) },
                Result::Ok(g) => match tgt {
                    Option::Some(t) => MRes {
                        st: push3(st1, Bytecode::Opcode(Opcode::LoadGlobal), glo(g), loc(t)),
                        err: Option::None,
                    },
                    Option::None => MRes { st: st1, err: Option::None },
                },
            }
        },
    }
}

/// What compiling an expression does.
pub open spec fn m_expr(e: Expression, st: CState, tgt: Option<int>) -> MRes
    decreases e,
{
    match e {
        Expression::Literal(l) => m_literal(l.0, st, tgt),
        Expression::Variable(n) => m_variable(n@, st, tgt),
        Expression::Binary(op, l, r) => {
            let lt = st.ntargets;
            let rl = m_expr(*l, bump(st), Option::Some(lt));
            if rl.err is Some {
                rl
            } else {
                let rt = rl.st.ntargets;
                let rr = m_expr(*r, bump(rl.st), Option::Some(rt));
                if rr.err is Some {
                    rr
                } else {
                    MRes {
                        st: push4(
                            rr.st,
                            Bytecode::Opcode(binop_opcode(op)),
                            loc(lt),
                            loc(rt),
                            loc(opt_or_scratch(tgt)),
                        ),
                        err: Option::None,
                    }
                }
            }
        },
        Expression::Call(f, args) => {
            let ft = st.ntargets;
            let rf = m_expr(*f, bump(st), Option::Some(ft));
            if rf.err is Some {
                rf
            } else {
                let ra = m_call_args(args@, rf.st);
                if ra.err is Some {
                    MRes { st: ra.st, err: ra.err }
                } else {
                    let head = push3(
                        ra.st,
                        Bytecode::Opcode(Opcode::Call),
                        loc(ft),
                        Bytecode::Count(args@.len() as usize),
                    );
                    MRes {
                        st: push1(
                            CState { code: head.code + locals_ops(ra.targets), ..head },
                            loc(opt_or_scratch(tgt)),
                        ),
                        err: Option::None,
                    }
                }
            }
        },
    }
}

/// The register-operand run of a call's argument list.
pub open spec fn locals_ops(ts: Seq<int>) -> Seq<Bytecode> {
    Seq::new(ts.len(), |i: int| loc(ts[i]))
}

/// What compiling a call's argument list does: each argument is compiled
/// into a freshly allocated register, left to right.
pub open spec fn m_call_args(args: Seq<Expression>, st: CState) -> MArgs
    decreases args,
{
    if args.len() == 0 {
        MArgs { st, targets: Seq::empty(), err: Option::None }
    } else {
        let t = st.ntargets;
        let r0 = m_expr(args[0], bump(st), Option::Some(t));
        if r0.err is Some {
            MArgs { st: r0.st, targets: Seq::empty(), err: r0.err }
        } else {
            let rest = m_call_args(args.subrange(1, args.len() as int), r0.st);
            if rest.err is Some {
                MArgs { st: rest.st, targets: Seq::empty(), err: rest.err }
            } else {
                MArgs { st: rest.st, targets: seq![t] + rest.targets, err: Option::None }
            }
        }
    }
}

/// What compiling a global declaration does: the name is always registered
/// first (with no value); an initializer is compiled into the requested
/// target or the scratch register and committed with a store-to-global.
pub open spec fn m_renowned(r: Renowned, st: CState, tgt: Option<int>) -> MRes
    decreases r,
{
    let (gs2, res) = m_define_global(st.globals, r.name@, Option::None);
    let st1 = CState { globals: gs2, ..st };
    match res {
        Result::Err(e) => MRes { st: st1, err: Option::Some(e) },
        Result::Ok(g) => match r.init {
            Option::None => MRes { st: st1, err: Option::None },
            Option::Some(e) => {
                let t = opt_or_scratch(tgt);
                let re = m_expr(e, st1, Option::Some(t));
                if re.err is Some {
                    re
                } else {
                    MRes {
                        st: push3(re.st, Bytecode::Opcode(Opcode::StoreGlobal), glo(g), loc(t)),
                        err: Option::None,
                    }
                }
            },
        },
    }
}

/// What compiling a local declaration does: the name is bound to a register,
/// an initializer is compiled directly into that register, and a requested
/// destination receives a copy.
pub open spec fn m_nigh(n: Nigh, st: CState, tgt: Option<int>) -> MRes
    decreases n,
{
    let (st1, lt) = m_define_local(st, n.name@);
    let r1 = match n.init {
        Option::Some(e) => m_expr(e, st1, Option::Some(lt)),
        Option::None => MRes { st: st1, err: Option::None },
    };
    if r1.err is Some {
        r1
    } else {
        match tgt {
            Option::Some(t) => MRes {
                st: push3(r1.st, Bytecode::Opcode(Opcode::Move), loc(lt), loc(t)),
                err: Option::None,
            },
            Option::None => MRes { st: r1.st, err: Option::None },
        }
    }
}

/// What compiling a return statement does: the value (or null) is placed in
/// the requested target or the scratch register, and a return referencing
/// that register is emitted.
pub open spec fn m_reward(e: Option<Expression>, st: CState, tgt: Option<int>) -> MRes
    decreases e,
{
    let t = opt_or_scratch(tgt);
    let r1 = match e {
        Option::Some(ex) => m_expr(ex, st, Option::Some(t)),
        Option::None => {
            let (st1, ci) = m_get_constant(st, ValueV::Ni);
            MRes {
                st: push3(st1, Bytecode::Opcode(Opcode::LoadConstant), con(ci), loc(t)),
                err: Option::None,
            }
        },
    };
    if r1.err is Some {
        r1
    } else {
        MRes { st: push2(r1.st, Bytecode::Opcode(Opcode::Return), loc(t)), err: Option::None }
    }
}

/// What compiling a conditional does: the condition is evaluated into the
/// scratch register, a conditional forward branch is deferred, the branches
/// are compiled, and every deferred branch is resolved exactly once.
pub open spec fn m_if(i: If, st: CState, tgt: Option<int>) -> MRes
    decreases i,
{
    let rc = m_expr(i.cond, st, Option::Some(0));
    if rc.err is Some {
        rc
    } else {
        let st1 = push3(rc.st, Bytecode::Opcode(Opcode::JumpIfFalse), loc(0), Bytecode::Illegal);
        let jd = st1.code.len() - 1;
        let rt = m_stmts(i.body.0@, st1, tgt);
        if rt.err is Some {
            rt
        } else {
            match i.alas {
                Option::None => MRes {
                    st: CState {
                        code: rt.st.code.update(jd, ofs(rt.st.code.len() - jd)),
                        ..rt.st
                    },
                    err: Option::None,
                },
                Option::Some(a) => {
                    let st2 = push2(rt.st, Bytecode::Opcode(Opcode::Jump), Bytecode::Illegal);
                    let jd2 = st2.code.len() - 1;
                    let st3 = CState {
                        code: st2.code.update(jd, ofs(st2.code.len() - jd)),
                        ..st2
                    };
                    let ra = m_stmts(a.0@, st3, tgt);
                    if ra.err is Some {
                        ra
                    } else {
                        MRes {
                            st: CState {
                                code: ra.st.code.update(jd2, ofs(ra.st.code.len() - jd2)),
                                ..ra.st
                            },
                            err: Option::None,
                        }
                    }
                },
            }
        }
    }
}

/// What compiling a loop does: the loop produces no value, so the requested
/// destination is ignored; the condition is evaluated into the scratch
/// register, a conditional exit branch is deferred, the body is compiled for
/// side effect, a backward branch returns to the loop head, and the exit
/// branch is resolved to the end.
pub open spec fn m_whilst(w: Whilst, st: CState) -> MRes
    decreases w,
{
    let top = st.code.len();
    let rc = m_expr(w.cond, st, Option::Some(0));
    if rc.err is Some {
        rc
    } else {
        let st1 = push3(rc.st, Bytecode::Opcode(Opcode::JumpIfFalse), loc(0), Bytecode::Illegal);
        let jd = st1.code.len() - 1;
        let rb = m_stmts(w.body.0@, st1, Option::None);
        if rb.err is Some {
            rb
        } else {
            let st2 = push2(rb.st, Bytecode::Opcode(Opcode::Jump), ofs(top - (rb.st.code.len() + 1)));
            MRes {
                st: CState { code: st2.code.update(jd, ofs(st2.code.len() - jd)), ..st2 },
                err: Option::None,
            }
        }
    }
}

/// What compiling one statement does.
pub open spec fn m_stmt(s: Statement, st: CState, tgt: Option<int>) -> MRes
    decreases s,
{
    match s {
        Statement::Expression(e) => m_expr(e, st, tgt),
        Statement::Renowned(r) => m_renowned(r, st, tgt),
        Statement::Nigh(n) => m_nigh(n, st, tgt),
        Statement::Reward(e) => m_reward(e, st, tgt),
        Statement::If(i) => m_if(i, st, tgt),
        Statement::Whilst(w) => m_whilst(w, st),
        Statement::Journey(j) => {
            let mj = m_build_journey(j, st.globals, false);
            let st1 = CState { globals: mj.globals, ..st };
            match mj.res {
                Result::Err(e) => MRes { st: st1, err: Option::Some(e) },
                Result::Ok(jv) => {
                    let (gs3, res) = m_define_global(
                        st1.globals,
                        j.name@,
                        Option::Some(ValueV::Journey(jv)),
                    );
                    let st2 = CState { globals: gs3, ..st1 };
                    match res {
                        Result::Err(e) => MRes { st: st2, err: Option::Some(e) },
                        Result::Ok(g) => match tgt {
                            Option::Some(t) => MRes {
                                st: push3(
                                    st2,
                                    Bytecode::Opcode(Opcode::LoadGlobal),
                                    glo(g),
                                    loc(t),
                                ),
                                err: Option::None,
                            },
                            Option::None => MRes { st: st2, err: Option::None },
                        },
                    }
                },
            }
        },
    }
}

/// What compiling a statement sequence does: every statement but the last is
/// compiled for side effect only; the last receives the sequence's target,
/// so the sequence's value is the value of its last statement.
pub open spec fn m_stmts(ss: Seq<Statement>, st: CState, tgt: Option<int>) -> MRes
    decreases ss,
{
    if ss.len() == 0 {
        MRes { st, err: Option::None }
    } else if ss.len() == 1 {
        m_stmt(ss[0], st, tgt)
    } else {
        let r0 = m_stmt(ss[0], st, Option::None);
        if r0.err is Some {
            r0
        } else {
            m_stmts(ss.subrange(1, ss.len() as int), r0.st, tgt)
        }
    }
}

/// What binding a parameter list does: parameters with type annotations or
/// default values are rejected; each remaining name is bound as a local in
/// left-to-right order and recorded.
pub open spec fn m_bind_args(args: Seq<Argument>, st: CState, names: Seq<Seq<char>>) -> MBind
    decreases args,
{
    if args.len() == 0 {
        MBind { st, names, err: Option::None }
    } else {
        let a = args[0];
        if a.kind is Some {
            MBind {
                st,
                names,
                err: Option::Some(ErrorV::Unsupported(UnsupportedFeature::TypedArgument)),
            }
        } else if a.default is Some {
            MBind {
                st,
                names,
                err: Option::Some(ErrorV::Unsupported(UnsupportedFeature::DefaultArgument)),
            }
        } else {
            let (st1, _) = m_define_local(st, a.name@);
            m_bind_args(args.subrange(1, args.len() as int), st1, names.push(a.name@))
        }
    }
}

/// The fresh state a nested function compilation starts from: its own code
/// buffer, register space and constant pool, sharing the unit's globals.
pub open spec fn fresh_state(gs: Seq<GlobalV>) -> CState {
    CState {
        code: Seq::empty(),
        ntargets: 1,
        locals: Seq::empty(),
        constants: Seq::empty(),
        globals: gs,
    }
}

/// What building a function value does: unsupported parameter forms are
/// rejected; a bound method gains an implicit leading `soul` parameter; the
/// parameters are bound left to right; the body is compiled into a freshly
/// allocated return register; and a terminal return of that register is
/// always emitted, whatever the body's last statement was.
pub open spec fn m_build_journey(j: Journey, gs: Seq<GlobalV>, is_method: bool) -> MJourney
    decreases j,
{
    if j.args.vararg is Some {
        MJourney {
            globals: gs,
            res: Result::Err(ErrorV::Unsupported(UnsupportedFeature::VariadicArguments)),
        }
    } else if j.args.varkwarg is Some {
        MJourney {
            globals: gs,
            res: Result::Err(ErrorV::Unsupported(UnsupportedFeature::KeywordArguments)),
        }
    } else if j.args.return_type is Some {
        MJourney {
            globals: gs,
            res: Result::Err(ErrorV::Unsupported(UnsupportedFeature::TypedReturn)),
        }
    } else {
        let st0 = fresh_state(gs);
        let sta = if is_method {
            let (s, _) = m_define_local(st0, "soul"@);
            s
        } else {
            st0
        };
        let names0: Seq<Seq<char>> = if is_method {
            seq!["soul"@]
        } else {
            Seq::empty()
        };
        let mb = m_bind_args(j.args.normal@, sta, names0);
        match mb.err {
            Option::Some(e) => MJourney { globals: mb.st.globals, res: Result::Err(e) },
            Option::None => {
                let rt = mb.st.ntargets;
                let rb = m_stmts(j.body.0@, bump(mb.st), Option::Some(rt));
                match rb.err {
                    Option::Some(e) => MJourney { globals: rb.st.globals, res: Result::Err(e) },
                    Option::None => {
                        let stc = push2(rb.st, Bytecode::Opcode(Opcode::Return), loc(rt));
                        MJourney {
                            globals: stc.globals,
                            res: Result::Ok(
                                JourneyV {
                                    name: j.name@,
                                    is_method,
                                    arg_names: mb.names,
                                    body: CodeBlockV {
                                        ntargets: stc.ntargets,
                                        code: stc.code,
                                        constants: stc.constants,
                                    },
                                },
                            ),
                        }
                    },
                }
            },
        }
    }
}

/// Whether a requested destination lies in the registers allocated so far.
pub open spec fn valid_target(tgt: Option<int>, st: CState) -> bool {
    match tgt {
        Option::Some(t) => 0 <= t < st.ntargets,
        Option::None => true,
    }
}

/// The frame every compile step preserves: the register counter and the code
/// buffer only grow (each by at most `size`), and instructions already
/// emitted are untouched.
pub open spec fn extends(pre: CState, post: CState, size: nat) -> bool {
    &&& pre.ntargets <= post.ntargets <= pre.ntargets + size
    &&& pre.code.len() <= post.code.len() <= pre.code.len() + size
    &&& forall|k: int| 0 <= k < pre.code.len() ==> post.code[k] == pre.code[k]
}

/// No unresolved jump placeholder stands in the region written between
/// `pre` and `post`. Every compile step that succeeds guarantees this: each
/// deferred jump it creates is resolved before it returns.
pub open spec fn no_new_illegal(pre: CState, post: CState) -> bool {
    forall|k: int|
        pre.code.len() <= k < post.code.len() ==> post.code[k] != Bytecode::Illegal
}

proof fn lemma_size_expr_pos(e: Expression)
    ensures
        size_expr(e) >= 3,
{
}

proof fn lemma_size_stmt_pos(s: Statement)
    ensures
        size_stmt(s) >= 3,
{
    match s {
        Statement::Expression(e) => lemma_size_expr_pos(e),
        _ => (),
    }
}

/// `extends` composes across successive compile steps.
pub proof fn lemma_extends_trans(a: CState, b: CState, c: CState, s1: nat, s2: nat, s: nat)
    requires
        extends(a, b, s1),
        extends(b, c, s2),
        s1 + s2 <= s,
    ensures
        extends(a, c, s),
{
    assert forall|k: int| 0 <= k < a.code.len() implies c.code[k] == a.code[k] by {
        assert(c.code[k] == b.code[k]);
    }
}

impl Literal {
    /// Compile this literal. With no destination a plain literal is
    /// side-effect-free and emits nothing; text with interpolation hides
    /// embedded evaluation and is rejected; otherwise the value joins the
    /// constant pool and one load into the destination is emitted.
    pub fn compile(self, compiler: &mut Compiler, target: Option<Target>) -> (r: Result<(), Error>)
        requires
            old(compiler).wf(),
            valid_target(opt_target_view(target), old(compiler)@),
        ensures
            final(compiler).wf(),
            extends(old(compiler)@, final(compiler)@, 3),
            r is Ok ==> no_new_illegal(old(compiler)@, final(compiler)@),
            final(compiler)@.globals == old(compiler)@.globals,
            final(compiler)@.locals == old(compiler)@.locals,
            ({
                let m = m_literal(self.0, old(compiler)@, opt_target_view(target));
                final(compiler)@ == m.st && (match r {
                    Result::Ok(()) => m.err is None,
                    Result::Err(e) => m.err == Option::Some(e@),
                })
            }),
    {
        if let token::Literal::TextInterpolation(_, _) = &self.0 {
            return Result::Err(Error::Unsupported(UnsupportedFeature::TextInterpolation));
        }
        let t = match target {
            Option::Some(t) => t,
            Option::None => {
                return Result::Ok(());
            },
        };
        let v = match self.0 {
            token::Literal::Ni => Value::Ni,
            token::Literal::Boolean(b) => Value::Veracity(b),
            token::Literal::Numeral(n) => Value::Numeral(n),
            token::Literal::Text(tx) => Value::Text(tx),
            token::Literal::TextInterpolation(_, _) => Value::Ni,
        };
        let c = compiler.get_constant(v);
        compiler.opcode(Opcode::LoadConstant);
        compiler.constant(c);
        compiler.target(t);
        Result::Ok(())
    }
}

/// Compile a variable reference: a name bound as a local resolves to a
/// register move; any other name resolves through the global table,
/// declaring it there (without a value) if it is new, which is what lets a
/// body reference a global declared later in the same unit.
fn compile_variable(name: String, compiler: &mut Compiler, target: Option<Target>) -> (r: Result<
    (),
    Error,
>)
    requires
        old(compiler).wf(),
        valid_target(opt_target_view(target), old(compiler)@),
    ensures
        final(compiler).wf(),
        extends(old(compiler)@, final(compiler)@, 3),
        r is Ok ==> no_new_illegal(old(compiler)@, final(compiler)@),
        old(compiler)@.globals.len() <= final(compiler)@.globals.len(),
        final(compiler)@.locals == old(compiler)@.locals,
        ({
            let m = m_variable(name@, old(compiler)@, opt_target_view(target));
            final(compiler)@ == m.st && (match r {
                Result::Ok(()) => m.err is None,
                Result::Err(e) => m.err == Option::Some(e@),
            })
        }),
{
    if let Option::Some(src) = compiler.get_local(name.as_str()) {
        if let Option::Some(t) = target {
            compiler.opcode(Opcode::Move);
            compiler.target(src);
            compiler.target(t);
        }
        return Result::Ok(());
    }
    let g = match compiler.define_global(name, Option::None) {
        Result::Ok(g) => g,
        Result::Err(e) => {
            return Result::Err(e);
        },
    };
    if let Option::Some(t) = target {
        compiler.opcode(Opcode::LoadGlobal);
        compiler.global(g);
        compiler.target(t);
    }
    Result::Ok(())
}

impl Expression {
    /// Compile this expression into the optional destination register:
    /// `None` asks only for side effects, `Some(t)` asks that register `t`
    /// hold the expression's value afterwards.
    #[verifier::rlimit(60)]
    pub fn compile(self, compiler: &mut Compiler, target: Option<Target>) -> (r: Result<(), Error>)
        requires
            old(compiler).wf(),
            valid_target(opt_target_view(target), old(compiler)@),
            old(compiler)@.code.len() + size_expr(self) <= isize::MAX as int,
            old(compiler)@.ntargets + size_expr(self) <= usize::MAX as int,
        ensures
            final(compiler).wf(),
            extends(old(compiler)@, final(compiler)@, size_expr(self)),
            r is Ok ==> no_new_illegal(old(compiler)@, final(compiler)@),
            old(compiler)@.globals.len() <= final(compiler)@.globals.len(),
            final(compiler)@.locals == old(compiler)@.locals,
            ({
                let m = m_expr(self, old(compiler)@, opt_target_view(target));
                final(compiler)@ == m.st && (match r {
                    Result::Ok(()) => m.err is None,
                    Result::Err(e) => m.err == Option::Some(e@),
                })
            }),
        decreases size_expr(self), 0int,
    {
        match self {
            Expression::Literal(l) => l.compile(compiler, target),
            Expression::Variable(n) => compile_variable(n, compiler, target),
            Expression::Binary(op, l, r) => {
                let ghost st0 = old(compiler)@;
                let ghost lv = *l;
                let ghost rv = *r;
                let lt = compiler.next_target();
                match (*l).compile(compiler, Option::Some(lt)) {
                    Result::Err(e) => {
                        proof {
                            lemma_extends_trans(
                                st0,
                                bump(st0),
                                compiler@,
                                1,
                                size_expr(lv),
                                size_expr(self),
                            );
                        }
                        Result::Err(e)
                    },
                    Result::Ok(()) => {
                        let ghost st1 = compiler@;
                        let rt = compiler.next_target();
                        match (*r).compile(compiler, Option::Some(rt)) {
                            Result::Err(e) => {
                                proof {
                                    lemma_extends_trans(st0, bump(st0), st1, 1, size_expr(lv), 1 + size_expr(lv));
                                    lemma_extends_trans(st1, bump(st1), compiler@, 1, size_expr(rv), 1 + size_expr(rv));
                                    lemma_extends_trans(
                                        st0,
                                        st1,
                                        compiler@,
                                        1 + size_expr(lv),
                                        1 + size_expr(rv),
                                        size_expr(self),
                                    );
                                }
                                Result::Err(e)
                            },
                            Result::Ok(()) => {
                                let ghost st2 = compiler@;
                                let dst = match target {
                                    Option::Some(t) => t,
                                    Option::None => compiler.temp_target(),
                                };
                                let opcode = match op {
                                    BinaryOp::Add => Opcode::Add,
                                    BinaryOp::Subtract => Opcode::Subtract,
                                    BinaryOp::Equals => Opcode::Equals,
                                    BinaryOp::LessThan => Opcode::LessThan,
                                };
                                compiler.opcode(opcode);
                                compiler.target(lt);
                                compiler.target(rt);
                                compiler.target(dst);
                                proof {
                                    lemma_extends_trans(st0, bump(st0), st1, 1, size_expr(lv), 1 + size_expr(lv));
                                    lemma_extends_trans(st1, bump(st1), st2, 1, size_expr(rv), 1 + size_expr(rv));
                                    lemma_extends_trans(
                                        st0,
                                        st1,
                                        st2,
                                        1 + size_expr(lv),
                                        1 + size_expr(rv),
                                        2 + size_expr(lv) + size_expr(rv),
                                    );
                                    lemma_extends_trans(
                                        st0,
                                        st2,
                                        compiler@,
                                        2 + size_expr(lv) + size_expr(rv),
                                        4,
                                        size_expr(self),
                                    );
                                }
                                Result::Ok(())
                            },
                        }
                    },
                }
            },
            Expression::Call(f, args) => {
                let ghost st0 = old(compiler)@;
                let ghost fv = *f;
                let ghost argsv = args@;
                let ft = compiler.next_target();
                match (*f).compile(compiler, Option::Some(ft)) {
                    Result::Err(e) => {
                        proof {
                            lemma_extends_trans(
                                st0,
                                bump(st0),
                                compiler@,
                                1,
                                size_expr(fv),
                                size_expr(self),
                            );
                        }
                        Result::Err(e)
                    },
                    Result::Ok(()) => {
                        let ghost st1 = compiler@;
                        let n = args.len();
                        let mut ts: Vec<Target> = Vec::new();
                        match compile_call_args(args, compiler, &mut ts) {
                            Result::Err(e) => {
                                proof {
                                    lemma_extends_trans(st0, bump(st0), st1, 1, size_expr(fv), 1 + size_expr(fv));
                                    lemma_extends_trans(
                                        st0,
                                        st1,
                                        compiler@,
                                        1 + size_expr(fv),
                                        size_exprs(argsv),
                                        size_expr(self),
                                    );
                                }
                                Result::Err(e)
                            },
                            Result::Ok(()) => {
                                let ghost st2 = compiler@;
                                let ghost ra = m_call_args(argsv, st1);
                                let dst = match target {
                                    Option::Some(t) => t,
                                    Option::None => compiler.temp_target(),
                                };
                                compiler.opcode(Opcode::Call);
                                compiler.target(ft);
                                compiler.count(n);
                                let ghost mid = compiler@;
                                let ghost tvs = Seq::new(ts@.len(), |i: int| ts@[i]@);
                                proof {
                                    assert(mid.code + locals_ops(tvs.subrange(0, 0)) =~= mid.code);
                                    assert(ts@.len() == ra.targets.len());
                                    assert forall|k: int| 0 <= k < ts@.len() implies ts@[k]@
                                        == ra.targets[k] && 0 <= ts@[k]@ < mid.ntargets by {
                                        assert(ts@[0 + k]@ == ra.targets[k]);
                                    }
                                    assert(tvs =~= ra.targets);
                                }
                                let mut i: usize = 0;
                                while i < ts.len()
                                    invariant
                                        i <= ts.len(),
                                        compiler@ == (CState {
                                            code: mid.code + locals_ops(tvs.subrange(0, i as int)),
                                            ..mid
                                        }),
                                        tvs == Seq::new(ts@.len(), |k: int| ts@[k]@),
                                        forall|k: int|
                                            0 <= k < ts@.len() ==> 0 <= #[trigger] ts@[k]@
                                                < mid.ntargets,
                                    decreases ts.len() - i,
                                {
                                    proof {
                                        assert(mid.code + locals_ops(tvs.subrange(0, i as int + 1))
                                            =~= (mid.code + locals_ops(
                                            tvs.subrange(0, i as int),
                                        )).push(loc(ts@[i as int]@)));
                                    }
                                    let ti = ts[i];
                                    compiler.target(ti);
                                    i = i + 1;
                                }
                                proof {
                                    assert(tvs.subrange(0, tvs.len() as int) =~= tvs);
                                    assert(tvs =~= ra.targets);
                                    lemma_size_exprs_ge_len(argsv);
                                }
                                compiler.target(dst);
                                proof {
                                    let m = m_expr(self, st0, opt_target_view(target));
                                    assert(compiler@.code =~= m.st.code);
                                    lemma_extends_trans(st0, bump(st0), st1, 1, size_expr(fv), 1 + size_expr(fv));
                                    lemma_extends_trans(
                                        st0,
                                        st1,
                                        st2,
                                        1 + size_expr(fv),
                                        size_exprs(argsv),
                                        1 + size_expr(fv) + size_exprs(argsv),
                                    );
                                    assert(compiler@.code.len() == st2.code.len() + 4 + tvs.len());
                                    assert forall|k: int|
                                        st0.code.len() <= k < compiler@.code.len() implies compiler@.code[k]
                                        != Bytecode::Illegal by {
                                        if k < st2.code.len() {
                                            assert(compiler@.code[k] == st2.code[k]);
                                        } else if st2.code.len() + 3 <= k < st2.code.len() + 3
                                            + tvs.len() {
                                            assert(compiler@.code[k] == loc(
                                                tvs[k - (st2.code.len() + 3)],
                                            ));
                                        }
                                    }
                                }
                                Result::Ok(())
                            },
                        }
                    },
                }
            },
        }
    }
}

/// Compile a call's arguments left to right, each into a freshly allocated
/// register, appending the registers to `ts`.
fn compile_call_args(args: Vec<Expression>, compiler: &mut Compiler, ts: &mut Vec<Target>) -> (r:
    Result<(), Error>)
    requires
        old(compiler).wf(),
        old(compiler)@.code.len() + size_exprs(args@) <= isize::MAX as int,
        old(compiler)@.ntargets + size_exprs(args@) <= usize::MAX as int,
    ensures
        final(compiler).wf(),
        extends(old(compiler)@, final(compiler)@, size_exprs(args@)),
        r is Ok ==> no_new_illegal(old(compiler)@, final(compiler)@),
        old(compiler)@.globals.len() <= final(compiler)@.globals.len(),
        final(compiler)@.locals == old(compiler)@.locals,
        ({
            let m = m_call_args(args@, old(compiler)@);
            final(compiler)@ == m.st && (match r {
                Result::Ok(()) => m.err is None && m.targets.len() == args@.len()
                    && final(ts)@.len() == old(ts)@.len() + m.targets.len() && (forall|k: int|
                    0 <= k < old(ts)@.len() ==> final(ts)@[k] == old(ts)@[k]) && (forall|k: int|
                    old(ts)@.len() <= k < final(ts)@.len() ==> (#[trigger] final(ts)@[k]@)
                        == m.targets[k - old(ts)@.len()] && 1 <= final(ts)@[k]@
                        < final(compiler)@.ntargets),
                Result::Err(e) => m.err == Option::Some(e@),
            })
        }),
    decreases size_exprs(args@), 0int,
{
    let ghost args0 = args@;
    let ghost st0 = old(compiler)@;
    let mut args = args;
    if args.len() == 0 {
        return Result::Ok(());
    }
    let first = args.remove(0);
    proof {
        assert(args@ =~= args0.subrange(1, args0.len() as int));
        lemma_size_expr_pos(first);
    }
    let t = compiler.next_target();
    match first.compile(compiler, Option::Some(t)) {
        Result::Err(e) => {
            proof {
                lemma_extends_trans(st0, bump(st0), compiler@, 1, size_expr(first), size_exprs(args0));
            }
            Result::Err(e)
        },
        Result::Ok(()) => {
            let ghost st1 = compiler@;
            ts.push(t);
            let ghost ts1 = ts@;
            let res = compile_call_args(args, compiler, ts);
            proof {
                lemma_extends_trans(st0, bump(st0), st1, 1, size_expr(first), 1 + size_expr(first));
                lemma_extends_trans(
                    st0,
                    st1,
                    compiler@,
                    1 + size_expr(first),
                    size_exprs(args@),
                    size_exprs(args0),
                );
                let m = m_call_args(args0, st0);
                let rest = m_call_args(args@, st1);
                if res is Ok {
                    assert(m.targets =~= seq![t@] + rest.targets);
                    assert forall|k: int|
                        old(ts)@.len() <= k < ts@.len() implies (#[trigger] ts@[k]@) == m.targets[k
                        - old(ts)@.len()] && 1 <= ts@[k]@ < compiler@.ntargets by {
                        if k == old(ts)@.len() {
                            assert(ts@[k] == ts1[ts1.len() - 1]);
                            assert(t@ < st1.ntargets);
                        } else {
                            assert(ts@[k]@ == rest.targets[k - ts1.len()]);
                        }
                    }
                }
            }
            res
        },
    }
}

/// The character sequences of a run of names.
pub open spec fn namesv(v: Seq<String>) -> Seq<Seq<char>> {
    Seq::new(v.len(), |i: int| v[i]@)
}

impl Renowned {
    /// Compile this global declaration: the name is always registered first,
    /// so a later definition or a forward reference resolves to the same
    /// handle; an initializer is compiled into the requested target or the
    /// scratch register and committed with a store-to-global.
    pub fn compile(self, compiler: &mut Compiler, target: Option<Target>) -> (r: Result<(), Error>)
        requires
            old(compiler).wf(),
            valid_target(opt_target_view(target), old(compiler)@),
            old(compiler)@.code.len() + 3 + size_opt_expr(self.init) <= isize::MAX as int,
            old(compiler)@.ntargets + 3 + size_opt_expr(self.init) <= usize::MAX as int,
        ensures
            final(compiler).wf(),
            extends(old(compiler)@, final(compiler)@, 3 + size_opt_expr(self.init)),
            r is Ok ==> no_new_illegal(old(compiler)@, final(compiler)@),
            ({
                let m = m_renowned(self, old(compiler)@, opt_target_view(target));
                final(compiler)@ == m.st && (match r {
                    Result::Ok(()) => m.err is None,
                    Result::Err(e) => m.err == Option::Some(e@),
                })
            }),
        decreases 3 + size_opt_expr(self.init), 1int,
    {
        let ghost st0 = old(compiler)@;
        let ghost initv = self.init;
        let Renowned { name, init } = self;
        let g = match compiler.define_global(name, Option::None) {
            Result::Ok(g) => g,
            Result::Err(e) => {
                return Result::Err(e);
            },
        };
        let ghost st1 = compiler@;
        match init {
            Option::None => Result::Ok(()),
            Option::Some(e) => {
                let t = match target {
                    Option::Some(t) => t,
                    Option::None => compiler.temp_target(),
                };
                match e.compile(compiler, Option::Some(t)) {
                    Result::Err(err) => {
                        proof {
                            lemma_extends_trans(
                                st0,
                                st1,
                                compiler@,
                                0,
                                size_opt_expr(initv),
                                3 + size_opt_expr(initv),
                            );
                        }
                        Result::Err(err)
                    },
                    Result::Ok(()) => {
                        let ghost st2 = compiler@;
                        compiler.opcode(Opcode::StoreGlobal);
                        compiler.global(g);
                        compiler.target(t);
                        proof {
                            lemma_extends_trans(st0, st1, st2, 0, size_opt_expr(initv), size_opt_expr(initv));
                            lemma_extends_trans(
                                st0,
                                st2,
                                compiler@,
                                size_opt_expr(initv),
                                3,
                                3 + size_opt_expr(initv),
                            );
                        }
                        Result::Ok(())
                    },
                }
            },
        }
    }
}

impl Nigh {
    /// Compile this local declaration: the name is bound to a register
    /// (reused if the name was already bound in this function), an
    /// initializer is compiled directly into that register, and a requested
    /// destination receives a copy.
    pub fn compile(self, compiler: &mut Compiler, target: Option<Target>) -> (r: Result<(), Error>)
        requires
            old(compiler).wf(),
            valid_target(opt_target_view(target), old(compiler)@),
            old(compiler)@.code.len() + 4 + size_opt_expr(self.init) <= isize::MAX as int,
            old(compiler)@.ntargets + 4 + size_opt_expr(self.init) <= usize::MAX as int,
        ensures
            final(compiler).wf(),
            extends(old(compiler)@, final(compiler)@, 4 + size_opt_expr(self.init)),
            r is Ok ==> no_new_illegal(old(compiler)@, final(compiler)@),
            ({
                let m = m_nigh(self, old(compiler)@, opt_target_view(target));
                final(compiler)@ == m.st && (match r {
                    Result::Ok(()) => m.err is None,
                    Result::Err(e) => m.err == Option::Some(e@),
                })
            }),
        decreases 4 + size_opt_expr(self.init), 1int,
    {
        let ghost st0 = old(compiler)@;
        let ghost initv = self.init;
        let Nigh { name, init } = self;
        let lt = compiler.define_local(name);
        let ghost st1 = compiler@;
        match init {
            Option::Some(e) => {
                match e.compile(compiler, Option::Some(lt)) {
                    Result::Err(err) => {
                        proof {
                            lemma_extends_trans(
                                st0,
                                st1,
                                compiler@,
                                1,
                                size_opt_expr(initv),
                                4 + size_opt_expr(initv),
                            );
                        }
                        return Result::Err(err);
                    },
                    Result::Ok(()) => {},
                }
            },
            Option::None => {},
        }
        let ghost st2 = compiler@;
        if let Option::Some(t) = target {
            compiler.opcode(Opcode::Move);
            compiler.target(lt);
            compiler.target(t);
        }
        proof {
            lemma_extends_trans(st0, st1, st2, 1, size_opt_expr(initv), 1 + size_opt_expr(initv));
            lemma_extends_trans(
                st0,
                st2,
                compiler@,
                1 + size_opt_expr(initv),
                3,
                4 + size_opt_expr(initv),
            );
        }
        Result::Ok(())
    }
}

/// Compile a return statement: place the value (or null) in the requested
/// target or the scratch register, then emit a return referencing it.
fn compile_reward(value: Option<Expression>, compiler: &mut Compiler, target: Option<Target>) -> (r:
    Result<(), Error>)
    requires
        old(compiler).wf(),
        valid_target(opt_target_view(target), old(compiler)@),
        old(compiler)@.code.len() + 5 + size_opt_expr(value) <= isize::MAX as int,
        old(compiler)@.ntargets + 5 + size_opt_expr(value) <= usize::MAX as int,
    ensures
        final(compiler).wf(),
        extends(old(compiler)@, final(compiler)@, 5 + size_opt_expr(value)),
        r is Ok ==> no_new_illegal(old(compiler)@, final(compiler)@),
        ({
            let m = m_reward(value, old(compiler)@, opt_target_view(target));
            final(compiler)@ == m.st && (match r {
                Result::Ok(()) => m.err is None,
                Result::Err(e) => m.err == Option::Some(e@),
            })
        }),
    decreases 5 + size_opt_expr(value), 1int,
{
    let ghost st0 = old(compiler)@;
    let ghost valuev = value;
    let t = match target {
        Option::Some(t) => t,
        Option::None => compiler.temp_target(),
    };
    match value {
        Option::Some(e) => {
            match e.compile(compiler, Option::Some(t)) {
                Result::Err(err) => {
                    return Result::Err(err);
                },
                Result::Ok(()) => {},
            }
        },
        Option::None => {
            let c = compiler.get_constant(Value::Ni);
            compiler.opcode(Opcode::LoadConstant);
            compiler.constant(c);
            compiler.target(t);
        },
    }
    let ghost st1 = compiler@;
    compiler.opcode(Opcode::Return);
    compiler.target(t);
    proof {
        lemma_extends_trans(st0, st1, compiler@, 3 + size_opt_expr(valuev), 2, 5 + size_opt_expr(valuev));
    }
    Result::Ok(())
}

impl If {
    /// Compile this conditional: the condition is evaluated into the scratch
    /// register, a conditional forward branch is deferred, each branch is
    /// compiled with the statement's own target, and every deferred branch
    /// is resolved exactly once.
    #[verifier::rlimit(60)]
    pub fn compile(self, compiler: &mut Compiler, target: Option<Target>) -> (r: Result<(), Error>)
        requires
            old(compiler).wf(),
            valid_target(opt_target_view(target), old(compiler)@),
            old(compiler)@.code.len() + size_stmt(Statement::If(self)) <= isize::MAX as int,
            old(compiler)@.ntargets + size_stmt(Statement::If(self)) <= usize::MAX as int,
        ensures
            final(compiler).wf(),
            extends(old(compiler)@, final(compiler)@, size_stmt(Statement::If(self))),
            r is Ok ==> no_new_illegal(old(compiler)@, final(compiler)@),
            ({
                let m = m_if(self, old(compiler)@, opt_target_view(target));
                final(compiler)@ == m.st && (match r {
                    Result::Ok(()) => m.err is None,
                    Result::Err(e) => m.err == Option::Some(e@),
                })
            }),
        decreases size_stmt(Statement::If(self)), 1int,
    {
        let ghost st0 = old(compiler)@;
        let ghost selfv = self;
        let If { cond, body, alas } = self;
        let scratch = compiler.temp_target();
        match cond.compile(compiler, Option::Some(scratch)) {
            Result::Err(e) => {
                return Result::Err(e);
            },
            Result::Ok(()) => {},
        }
        let ghost st1 = compiler@;
        compiler.opcode(Opcode::JumpIfFalse);
        compiler.target(scratch);
        let jd = compiler.defer_jump();
        let ghost st2 = compiler@;
        match body.compile(compiler, target) {
            Result::Err(e) => {
                proof {
                    lemma_extends_trans(st0, st1, st2, size_expr(selfv.cond), 3, 3 + size_expr(selfv.cond));
                    lemma_extends_trans(
                        st0,
                        st2,
                        compiler@,
                        3 + size_expr(selfv.cond),
                        size_stmts(selfv.body.0@),
                        size_stmt(Statement::If(selfv)),
                    );
                }
                return Result::Err(e);
            },
            Result::Ok(()) => {},
        }
        let ghost st3 = compiler@;
        match alas {
            Option::None => {
                jd.set_jump_to_current(compiler);
                proof {
                    lemma_extends_trans(st0, st1, st2, size_expr(selfv.cond), 3, 3 + size_expr(selfv.cond));
                    lemma_extends_trans(
                        st0,
                        st2,
                        st3,
                        3 + size_expr(selfv.cond),
                        size_stmts(selfv.body.0@),
                        3 + size_expr(selfv.cond) + size_stmts(selfv.body.0@),
                    );
                    assert forall|k: int|
                        st0.code.len() <= k < compiler@.code.len() implies compiler@.code[k]
                        != Bytecode::Illegal by {
                        if k != jd@ && k < st3.code.len() {
                            assert(compiler@.code[k] == st3.code[k]);
                        }
                    }
                }
                Result::Ok(())
            },
            Option::Some(a) => {
                compiler.opcode(Opcode::Jump);
                let jd2 = compiler.defer_jump();
                jd.set_jump_to_current(compiler);
                let ghost st4 = compiler@;
                match a.compile(compiler, target) {
                    Result::Err(e) => {
                        proof {
                            lemma_extends_trans(st0, st1, st2, size_expr(selfv.cond), 3, 3 + size_expr(selfv.cond));
                            lemma_extends_trans(
                                st0,
                                st2,
                                st3,
                                3 + size_expr(selfv.cond),
                                size_stmts(selfv.body.0@),
                                3 + size_expr(selfv.cond) + size_stmts(selfv.body.0@),
                            );
                            assert(extends(
                                st0,
                                st4,
                                5 + size_expr(selfv.cond) + size_stmts(selfv.body.0@),
                            )) by {
                                assert forall|k: int|
                                    0 <= k < st0.code.len() implies st4.code[k] == st0.code[k] by {
                                    assert(st4.code[k] == st3.code[k]);
                                }
                            }
                            lemma_extends_trans(
                                st0,
                                st4,
                                compiler@,
                                5 + size_expr(selfv.cond) + size_stmts(selfv.body.0@),
                                size_stmts(a.0@),
                                size_stmt(Statement::If(selfv)),
                            );
                        }
                        return Result::Err(e);
                    },
                    Result::Ok(()) => {},
                }
                let ghost st5 = compiler@;
                jd2.set_jump_to_current(compiler);
                proof {
                    lemma_extends_trans(st0, st1, st2, size_expr(selfv.cond), 3, 3 + size_expr(selfv.cond));
                    lemma_extends_trans(
                        st0,
                        st2,
                        st3,
                        3 + size_expr(selfv.cond),
                        size_stmts(selfv.body.0@),
                        3 + size_expr(selfv.cond) + size_stmts(selfv.body.0@),
                    );
                    assert(extends(
                        st0,
                        st4,
                        5 + size_expr(selfv.cond) + size_stmts(selfv.body.0@),
                    )) by {
                        assert forall|k: int|
                            0 <= k < st0.code.len() implies st4.code[k] == st0.code[k] by {
                            assert(st4.code[k] == st3.code[k]);
                        }
                    }
                    lemma_extends_trans(
                        st0,
                        st4,
                        st5,
                        5 + size_expr(selfv.cond) + size_stmts(selfv.body.0@),
                        size_stmts(a.0@),
                        size_stmt(Statement::If(selfv)),
                    );
                    assert forall|k: int|
                        st0.code.len() <= k < compiler@.code.len() implies compiler@.code[k]
                        != Bytecode::Illegal by {
                        if k != jd2@ && k < st5.code.len() {
                            assert(compiler@.code[k] == st5.code[k]);
                        }
                    }
                }
                Result::Ok(())
            },
        }
    }
}

impl Whilst {
    /// Compile this loop: the condition is evaluated into the scratch
    /// register at the loop head, a conditional exit branch is deferred, the
    /// body is compiled for side effect, a backward branch returns to the
    /// head, and the exit branch is resolved to the end. A loop produces no
    /// value, so the requested destination is ignored.
    #[verifier::rlimit(60)]
    pub fn compile(self, compiler: &mut Compiler) -> (r: Result<(), Error>)
        requires
            old(compiler).wf(),
            old(compiler)@.code.len() + size_stmt(Statement::Whilst(self)) <= isize::MAX as int,
            old(compiler)@.ntargets + size_stmt(Statement::Whilst(self)) <= usize::MAX as int,
        ensures
            final(compiler).wf(),
            extends(old(compiler)@, final(compiler)@, size_stmt(Statement::Whilst(self))),
            r is Ok ==> no_new_illegal(old(compiler)@, final(compiler)@),
            ({
                let m = m_whilst(self, old(compiler)@);
                final(compiler)@ == m.st && (match r {
                    Result::Ok(()) => m.err is None,
                    Result::Err(e) => m.err == Option::Some(e@),
                })
            }),
        decreases size_stmt(Statement::Whilst(self)), 1int,
    {
        let ghost st0 = old(compiler)@;
        let ghost selfv = self;
        let Whilst { cond, body } = self;
        let top = compiler.current_pos();
        let scratch = compiler.temp_target();
        match cond.compile(compiler, Option::Some(scratch)) {
            Result::Err(e) => {
                return Result::Err(e);
            },
            Result::Ok(()) => {},
        }
        let ghost st1 = compiler@;
        compiler.opcode(Opcode::JumpIfFalse);
        compiler.target(scratch);
        let jd = compiler.defer_jump();
        let ghost st2 = compiler@;
        match body.compile(compiler, Option::None) {
            Result::Err(e) => {
                proof {
                    lemma_extends_trans(st0, st1, st2, size_expr(selfv.cond), 3, 3 + size_expr(selfv.cond));
                    lemma_extends_trans(
                        st0,
                        st2,
                        compiler@,
                        3 + size_expr(selfv.cond),
                        size_stmts(selfv.body.0@),
                        size_stmt(Statement::Whilst(selfv)),
                    );
                }
                return Result::Err(e);
            },
            Result::Ok(()) => {},
        }
        let ghost st3 = compiler@;
        compiler.opcode(Opcode::Jump);
        compiler.jump_to(top);
        let ghost st4 = compiler@;
        jd.set_jump_to_current(compiler);
        proof {
            lemma_extends_trans(st0, st1, st2, size_expr(selfv.cond), 3, 3 + size_expr(selfv.cond));
            lemma_extends_trans(
                st0,
                st2,
                st3,
                3 + size_expr(selfv.cond),
                size_stmts(selfv.body.0@),
                3 + size_expr(selfv.cond) + size_stmts(selfv.body.0@),
            );
            assert(extends(st3, st4, 2));
            lemma_extends_trans(
                st0,
                st3,
                st4,
                3 + size_expr(selfv.cond) + size_stmts(selfv.body.0@),
                2,
                5 + size_expr(selfv.cond) + size_stmts(selfv.body.0@),
            );
            assert forall|k: int|
                st0.code.len() <= k < compiler@.code.len() implies compiler@.code[k]
                != Bytecode::Illegal by {
                if k != jd@ && k < st4.code.len() {
                    assert(compiler@.code[k] == st4.code[k]);
                }
            }
        }
        Result::Ok(())
    }
}

/// Bind a function's declared parameters, left to right: reject parameters
/// with type annotations or default values, record each name, and bind it as
/// a local of the nested compilation.
fn bind_args(args: Vec<Argument>, compiler: &mut Compiler, names: &mut Vec<String>) -> (r: Result<
    (),
    Error,
>)
    requires
        old(compiler).wf(),
        old(compiler)@.ntargets + args@.len() <= usize::MAX as int,
    ensures
        final(compiler).wf(),
        final(compiler)@.code == old(compiler)@.code,
        final(compiler)@.constants == old(compiler)@.constants,
        final(compiler)@.globals == old(compiler)@.globals,
        old(compiler)@.ntargets <= final(compiler)@.ntargets <= old(compiler)@.ntargets
            + args@.len(),
        ({
            let m = m_bind_args(args@, old(compiler)@, namesv(old(names)@));
            final(compiler)@ == m.st && namesv(final(names)@) == m.names && (match r {
                Result::Ok(()) => m.err is None,
                Result::Err(e) => m.err == Option::Some(e@),
            })
        }),
    decreases args@.len(),
{
    let ghost args0 = args@;
    let mut args = args;
    if args.len() == 0 {
        return Result::Ok(());
    }
    let a = args.remove(0);
    proof {
        assert(args@ =~= args0.subrange(1, args0.len() as int));
    }
    let Argument { name, kind, default } = a;
    if kind.is_some() {
        return Result::Err(Error::Unsupported(UnsupportedFeature::TypedArgument));
    }
    if default.is_some() {
        return Result::Err(Error::Unsupported(UnsupportedFeature::DefaultArgument));
    }
    names.push(name.clone());
    let _ = compiler.define_local(name);
    proof {
        assert(namesv(names@) =~= namesv(old(names)@).push(name@));
    }
    bind_args(args, compiler, names)
}

impl Journey {
    /// Build the runtime function value for this definition: spawn a fresh
    /// compiler sharing the unit's global table, reject unsupported
    /// parameter forms, bind the parameters (with an implicit leading `soul`
    /// for a bound method), compile the body into a freshly allocated return
    /// register, and always emit a terminal return of that register. The
    /// global table is handed back in either outcome.
    #[verifier::rlimit(60)]
    pub fn build_journey(self, globals: Globals, is_method: bool) -> (r: (Globals, Result<
        UserDefined,
        Error,
    >))
        requires
            globals.wf(),
            1 + size_journey(self) <= isize::MAX as int,
        ensures
            globals_wf(r.0@),
            ({
                let m = m_build_journey(self, globals@, is_method);
                r.0@ == m.globals && (match r.1 {
                    Result::Ok(ud) => m.res is Ok && ud@ == m.res->Ok_0,
                    Result::Err(e) => m.res == Result::<JourneyV, ErrorV>::Err(e@),
                })
            }),
        decreases size_journey(self), 0int,
    {
        let ghost selfv = self;
        let Journey { name, args, body } = self;
        let Arguments { normal, vararg, varkwarg, return_type } = args;
        let mut c = Compiler::with_globals(globals);
        if vararg.is_some() {
            let g = c.take_globals();
            return (g, Result::Err(Error::Unsupported(UnsupportedFeature::VariadicArguments)));
        }
        if varkwarg.is_some() {
            let g = c.take_globals();
            return (g, Result::Err(Error::Unsupported(UnsupportedFeature::KeywordArguments)));
        }
        if return_type.is_some() {
            let g = c.take_globals();
            return (g, Result::Err(Error::Unsupported(UnsupportedFeature::TypedReturn)));
        }
        let mut arg_names: Vec<String> = Vec::new();
        if is_method {
            let soul: String = "soul".to_owned();
            arg_names.push(soul.clone());
            let _ = c.define_local(soul);
            proof {
                assert(namesv(arg_names@) =~= seq!["soul"@]);
            }
        }
        proof {
            assert(namesv(Seq::<String>::empty()) =~= Seq::<Seq<char>>::empty());
        }
        match bind_args(normal, &mut c, &mut arg_names) {
            Result::Err(e) => {
                let g = c.take_globals();
                return (g, Result::Err(e));
            },
            Result::Ok(()) => {},
        }
        let rt = c.next_target();
        match body.compile(&mut c, Option::Some(rt)) {
            Result::Err(e) => {
                let g = c.take_globals();
                return (g, Result::Err(e));
            },
            Result::Ok(()) => {},
        }
        c.opcode(Opcode::Return);
        c.target(rt);
        let (block, g) = c.into_parts();
        let ud = UserDefined::new(name, is_method, arg_names, block);
        proof {
            let m = m_build_journey(selfv, globals@, is_method);
            assert(ud@.arg_names =~= m.res->Ok_0.arg_names);
        }
        (g, Result::Ok(ud))
    }
}

impl Statement {
    /// Compile this statement into the optional destination register.
    pub fn compile(self, compiler: &mut Compiler, target: Option<Target>) -> (r: Result<(), Error>)
        requires
            old(compiler).wf(),
            valid_target(opt_target_view(target), old(compiler)@),
            old(compiler)@.code.len() + size_stmt(self) <= isize::MAX as int,
            old(compiler)@.ntargets + size_stmt(self) <= usize::MAX as int,
        ensures
            final(compiler).wf(),
            extends(old(compiler)@, final(compiler)@, size_stmt(self)),
            r is Ok ==> no_new_illegal(old(compiler)@, final(compiler)@),
            ({
                let m = m_stmt(self, old(compiler)@, opt_target_view(target));
                final(compiler)@ == m.st && (match r {
                    Result::Ok(()) => m.err is None,
                    Result::Err(e) => m.err == Option::Some(e@),
                })
            }),
        decreases size_stmt(self), 2int,
    {
        match self {
            Statement::Expression(e) => e.compile(compiler, target),
            Statement::Renowned(r) => r.compile(compiler, target),
            Statement::Nigh(n) => n.compile(compiler, target),
            Statement::Reward(e) => compile_reward(e, compiler, target),
            Statement::If(i) => i.compile(compiler, target),
            Statement::Whilst(w) => w.compile(compiler),
            Statement::Journey(j) => {
                let ghost st0 = old(compiler)@;
                let ghost jv = j;
                let name = j.name.clone();
                let globals = compiler.take_globals();
                let (globals, jres) = j.build_journey(globals, false);
                compiler.put_globals(globals);
                let journey = match jres {
                    Result::Err(e) => {
                        return Result::Err(e);
                    },
                    Result::Ok(jny) => jny,
                };
                let g = match compiler.define_global(name, Option::Some(Value::Journey(journey))) {
                    Result::Err(e) => {
                        return Result::Err(e);
                    },
                    Result::Ok(g) => g,
                };
                if let Option::Some(t) = target {
                    compiler.opcode(Opcode::LoadGlobal);
                    compiler.global(g);
                    compiler.target(t);
                }
                Result::Ok(())
            },
        }
    }
}

impl Statements {
    /// Compile this statement sequence: every statement but the last for
    /// side effect only, the last into the sequence's own target, so the
    /// sequence's value is the value of its last statement. An empty
    /// sequence emits nothing.
    pub fn compile(self, compiler: &mut Compiler, target: Option<Target>) -> (r: Result<(), Error>)
        requires
            old(compiler).wf(),
            valid_target(opt_target_view(target), old(compiler)@),
            old(compiler)@.code.len() + size_stmts(self.0@) <= isize::MAX as int,
            old(compiler)@.ntargets + size_stmts(self.0@) <= usize::MAX as int,
        ensures
            final(compiler).wf(),
            extends(old(compiler)@, final(compiler)@, size_stmts(self.0@)),
            r is Ok ==> no_new_illegal(old(compiler)@, final(compiler)@),
            ({
                let m = m_stmts(self.0@, old(compiler)@, opt_target_view(target));
                final(compiler)@ == m.st && (match r {
                    Result::Ok(()) => m.err is None,
                    Result::Err(e) => m.err == Option::Some(e@),
                })
            }),
        decreases size_stmts(self.0@), 3int,
    {
        let ghost st0 = old(compiler)@;
        let Statements(mut items) = self;
        let ghost items0 = items@;
        if items.len() == 0 {
            return Result::Ok(());
        }
        let first = items.remove(0);
        proof {
            assert(items@ =~= items0.subrange(1, items0.len() as int));
            lemma_size_stmt_pos(first);
        }
        if items.len() == 0 {
            return first.compile(compiler, target);
        }
        match first.compile(compiler, Option::None) {
            Result::Err(e) => Result::Err(e),
            Result::Ok(()) => {
                let ghost st1 = compiler@;
                let res = Statements(items).compile(compiler, target);
                proof {
                    lemma_extends_trans(
                        st0,
                        st1,
                        compiler@,
                        size_stmt(first),
                        size_stmts(items@),
                        size_stmts(items0),
                    );
                }
                res
            },
        }
    }
}

impl Compiler {
    /// Compile a whole unit: each statement in source order, for side effect
    /// only, against this compiler's state and shared global table.
    pub fn compile_with(&mut self, program: Statements) -> (r: Result<(), Error>)
        requires
            old(self).wf(),
            old(self)@.code.len() + size_stmts(program.0@) <= isize::MAX as int,
            old(self)@.ntargets + size_stmts(program.0@) <= usize::MAX as int,
        ensures
            final(self).wf(),
            extends(old(self)@, final(self)@, size_stmts(program.0@)),
            r is Ok ==> no_new_illegal(old(self)@, final(self)@),
            ({
                let m = m_stmts(program.0@, old(self)@, Option::<int>::None);
                final(self)@ == m.st && (match r {
                    Result::Ok(()) => m.err is None,
                    Result::Err(e) => m.err == Option::Some(e@),
                })
            }),
    {
        program.compile(self, Option::None)
    }
}

} // verus!
