//! The library's stated laws, proved once and for all over the compilation
//! model. Each compile function's contract pins its outcome as the model
//! applied to its inputs, so a property of the model is a property of every
//! compilation.

use vstd::prelude::*;
use crate::ast::{m_build_journey, m_literal, m_stmt, lit_value, Journey, MRes, Statement, no_new_illegal, extends};
use crate::bytecode::{no_illegal, Bytecode, Opcode};
use crate::compiler::{
    const_index, lemma_const_index_is, m_define_global, m_get_constant, m_get_global, CState,
    ErrorV, GlobalV,
};
use crate::token;
use crate::value::{const_eq, ValueV};

verus! {

/// Determinism: compilation is a pure function of the syntax tree, the
/// requested destination, and the compiler state it starts from, so
/// compiling the same tree twice from equal states yields identical
/// instruction streams, constant pools, register counts and symbol tables.
/// (Each compile function's contract states that its result is exactly
/// `m_stmt` of its inputs; this law states that `m_stmt` gives equal states
/// equal results.)
pub proof fn lemma_compile_deterministic(
    s: Statement,
    st1: CState,
    st2: CState,
    tgt: Option<int>,
)
    requires
        st1 == st2,
    ensures
        m_stmt(s, st1, tgt) == m_stmt(s, st2, tgt),
{
}

/// Constant dedup: inserting a value equal to an existing pool entry
/// returns the existing handle and leaves the pool unchanged, so two equal
/// literals produce one entry referenced twice. Function values are never
/// pooled together, so they are left out here.
pub proof fn lemma_constant_dedup(st: CState, v: ValueV)
    requires
        !(v is Journey),
    ensures
        ({
            let (st1, i1) = m_get_constant(st, v);
            let (st2, i2) = m_get_constant(st1, v);
            i2 == i1 && st2 == st1
        }),
{
    let i1 = const_index(st.constants, v);
    crate::compiler::lemma_const_index_char(st.constants, v);
    if i1 < st.constants.len() {
    } else {
        let pool2 = st.constants.push(v);
        assert(const_eq(pool2[i1], v));
        lemma_const_index_is(pool2, v, i1);
    }
}

/// Constant dedup at the literal level: compiling the same literal a second
/// time, into any destination, adds nothing to the pool and references the
/// same handle the first compilation created.
pub proof fn lemma_literal_dedup(lit: token::Literal, st: CState, t1: int, t2: int)
    requires
        !(lit is TextInterpolation),
    ensures
        ({
            let r1 = m_literal(lit, st, Option::Some(t1));
            let r2 = m_literal(lit, r1.st, Option::Some(t2));
            r2.st.constants == r1.st.constants && m_get_constant(r1.st, lit_value(lit)).1
                == m_get_constant(st, lit_value(lit)).1
        }),
{
    lemma_constant_dedup(st, lit_value(lit));
}

/// Global single definition, first half: once a global carries a value,
/// attaching another value to the same name fails with
/// `GlobalAlreadyDefined` and leaves the table untouched.
pub proof fn lemma_global_redefine_fails(gs: Seq<GlobalV>, name: Seq<char>, v1: ValueV, v2: ValueV)
    requires
        m_define_global(gs, name, Option::Some(v1)).1 is Ok,
    ensures
        ({
            let gs1 = m_define_global(gs, name, Option::Some(v1)).0;
            m_define_global(gs1, name, Option::Some(v2)) == (
                gs1,
                Result::<int, ErrorV>::Err(ErrorV::GlobalAlreadyDefined(name)),
            )
        }),
{
    crate::compiler::lemma_global_index_char(gs, name);
    let i = crate::compiler::global_index(gs, name);
    let gs1 = m_define_global(gs, name, Option::Some(v1)).0;
    if i < gs.len() {
        crate::compiler::lemma_global_index_is(gs1, name, i);
    } else {
        crate::compiler::lemma_global_index_is(gs1, name, gs.len() as int);
    }
}

/// Global single definition, second half: declaring a name without a value
/// and later defining it succeeds, and both steps resolve to the same
/// handle. This holds whenever the name does not already carry a value.
pub proof fn lemma_global_declare_then_define(gs: Seq<GlobalV>, name: Seq<char>, v: ValueV)
    requires
        ({
            match m_get_global(gs, name) {
                Option::Some((_, existing)) => existing is None,
                Option::None => true,
            }
        }),
    ensures
        ({
            let (gs1, r1) = m_define_global(gs, name, Option::None);
            let (gs2, r2) = m_define_global(gs1, name, Option::Some(v));
            r1 is Ok && r2 is Ok && r1 == r2
        }),
{
    crate::compiler::lemma_global_index_char(gs, name);
    let i = crate::compiler::global_index(gs, name);
    let (gs1, r1) = m_define_global(gs, name, Option::None);
    if i < gs.len() {
    } else {
        assert(gs1[gs.len() as int].name == name);
        crate::compiler::lemma_global_index_is(gs1, name, gs.len() as int);
    }
}

/// Forward reference: resolving a name (as a reference does) and declaring
/// it later both re-resolve to one handle, and the later declaration leaves
/// the table exactly as the reference's resolution left it.
pub proof fn lemma_forward_reference(gs: Seq<GlobalV>, name: Seq<char>)
    ensures
        ({
            let (gs1, r1) = m_define_global(gs, name, Option::None);
            let (gs2, r2) = m_define_global(gs1, name, Option::None);
            r1 is Ok && r2 is Ok && r1 == r2 && gs2 == gs1
        }),
{
    crate::compiler::lemma_global_index_char(gs, name);
    let i = crate::compiler::global_index(gs, name);
    let (gs1, r1) = m_define_global(gs, name, Option::None);
    if i < gs.len() {
    } else {
        assert(gs1[gs.len() as int].name == name);
        crate::compiler::lemma_global_index_is(gs1, name, gs.len() as int);
    }
}

/// Jump patch exactly once, closing step: a deferred jump can only be
/// resolved while its slot still holds the placeholder (that is
/// `JumpDestination::set_jump_to`'s precondition, so a double patch cannot
/// verify), and every compile function that returns success guarantees no
/// placeholder in the region it wrote. A compilation that starts from a
/// clean buffer therefore finishes with every deferred jump resolved.
pub proof fn lemma_finished_unit_no_placeholder(pre: CState, post: CState, size: nat)
    requires
        no_illegal(pre.code),
        extends(pre, post, size),
        no_new_illegal(pre, post),
    ensures
        no_illegal(post.code),
{
    assert forall|i: int| 0 <= i < post.code.len() implies post.code[i] != Bytecode::Illegal by {
        if i < pre.code.len() {
            assert(post.code[i] == pre.code[i]);
        }
    }
}

/// No-destination purity: compiling a plain literal (not an interpolation)
/// for side effect only emits nothing and changes nothing at all.
pub proof fn lemma_literal_no_destination_pure(lit: token::Literal, st: CState)
    requires
        !(lit is TextInterpolation),
    ensures
        m_literal(lit, st, Option::None) == (MRes { st, err: Option::None }),
{
}

/// Return termination: every successfully built function body ends with a
/// return instruction referencing the function's designated return
/// register, whatever the body's final statement was.
pub proof fn lemma_return_termination(j: Journey, gs: Seq<GlobalV>, is_method: bool)
    ensures
        ({
            let m = m_build_journey(j, gs, is_method);
            m.res is Ok ==> ({
                let body = m.res->Ok_0.body;
                body.code.len() >= 2 && body.code[body.code.len() - 2] == Bytecode::Opcode(
                    Opcode::Return,
                ) && body.code[body.code.len() - 1] is Local
            })
        }),
{
}

} // verus!
