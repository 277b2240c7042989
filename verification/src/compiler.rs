//! The destination-driven compiler state: the in-progress code buffer, the
//! register counter, the flat local-name map, the structurally deduplicated
//! constant pool, and the global symbol table shared between an outer
//! compilation and every nested function compilation spawned from it.

use vstd::prelude::*;
use crate::bytecode::{Bytecode, Interrupt, Opcode};
use crate::text::str_eq;
use crate::value::{const_eq, view_values, CodeBlock, CodeBlockV, Value, ValueV};
use crate::vm::Vm;

verus! {

broadcast use crate::value::lemma_view_values_len, crate::value::lemma_view_values_index, crate::value::lemma_view_values_push;

/// A handle to one register slot of the function currently being compiled.
/// Register `0` is permanently reserved as a scratch destination; real
/// targets are allocated monotonically from `1` and never reused.
#[derive(Clone, Copy, PartialEq, Eq, Structural, Debug, Hash)]
pub struct Target(usize);

/// A handle into a function's constant pool.
#[derive(Clone, Copy, PartialEq, Eq, Structural, Debug, Hash)]
pub struct Constant(usize);

/// A handle into the compilation unit's shared global table.
#[derive(Clone, Copy, PartialEq, Eq, Structural, Debug, Hash)]
pub struct Global(usize);

/// The index of an as-yet-unresolved branch placeholder in the code buffer.
/// It must be resolved exactly once before the code block is finished.
#[derive(Clone, Copy, PartialEq, Eq, Structural, Debug, Hash)]
pub struct JumpDestination(usize);

/// An absolute index into the instruction stream at a point in time.
#[derive(Clone, Copy, PartialEq, Eq, Structural, Debug, Hash)]
pub struct CodePosition(usize);

impl View for Target {
    type V = int;

    closed spec fn view(&self) -> int {
        self.0 as int
    }
}

impl View for Constant {
    type V = int;

    closed spec fn view(&self) -> int {
        self.0 as int
    }
}

impl View for Global {
    type V = int;

    closed spec fn view(&self) -> int {
        self.0 as int
    }
}

impl View for JumpDestination {
    type V = int;

    closed spec fn view(&self) -> int {
        self.0 as int
    }
}

impl View for CodePosition {
    type V = int;

    closed spec fn view(&self) -> int {
        self.0 as int
    }
}

/// A grammar feature the language subset deliberately rejects at compile
/// time rather than miscompiling.
#[derive(Clone, Copy, PartialEq, Eq, Structural, Debug)]
pub enum UnsupportedFeature {
    TextInterpolation,
    VariadicArguments,
    KeywordArguments,
    TypedArgument,
    DefaultArgument,
    TypedReturn,
}

/// Which kind of form member collided with an existing one.
#[derive(Clone, Copy, PartialEq, Eq, Structural, Debug)]
pub enum FormMemberKind {
    Recall,
    Essence,
    Matter,
    Change,
    Imitate,
}

/// A compile-time error: the program is malformed or uses an unsupported
/// feature. These are recoverable at the granularity of "abort this
/// compilation unit".
#[derive(PartialEq, Eq, Debug)]
pub enum Error {
    /// A global that already carries a value was defined a second time.
    GlobalAlreadyDefined(String),
    /// A form member was declared twice under one name.
    FormValueAlreadyDefined { name: String, kind: FormMemberKind },
    /// An explicitly gated not-yet-supported grammar feature was used.
    Unsupported(UnsupportedFeature),
}

/// The mathematical shape of a compile-time error.
pub enum ErrorV {
    GlobalAlreadyDefined(Seq<char>),
    FormValueAlreadyDefined(Seq<char>, FormMemberKind),
    Unsupported(UnsupportedFeature),
}

impl View for Error {
    type V = ErrorV;

    open spec fn view(&self) -> ErrorV {
        match self {
            Error::GlobalAlreadyDefined(n) => ErrorV::GlobalAlreadyDefined(n@),
            Error::FormValueAlreadyDefined { name, kind } => ErrorV::FormValueAlreadyDefined(
                name@,
                *kind,
            ),
            Error::Unsupported(f) => ErrorV::Unsupported(*f),
        }
    }
}

/// One entry of the global table: a name, and the value attached to it once
/// it has been defined. The entry's index is its `Global` handle.
struct GlobalEntry {
    name: String,
    value: Option<Value>,
}

/// The global symbol table of one compilation unit. Entries are indexed by
/// `Global` handle; a name may be declared without a value and defined (given
/// a value) at most once later.
pub struct Globals {
    entries: Vec<GlobalEntry>,
}

/// The mathematical shape of one global-table entry.
pub struct GlobalV {
    pub name: Seq<char>,
    pub value: Option<ValueV>,
}

impl View for Globals {
    type V = Seq<GlobalV>;

    closed spec fn view(&self) -> Seq<GlobalV> {
        Seq::new(
            self.entries@.len(),
            |i: int|
                GlobalV {
                    name: self.entries@[i].name@,
                    value: match self.entries@[i].value {
                        Option::Some(v) => Option::Some(v.view()),
                        Option::None => Option::None,
                    },
                },
        )
    }
}

/// Global-table names are pairwise distinct.
pub open spec fn globals_wf(gs: Seq<GlobalV>) -> bool {
    forall|i: int, j: int| 0 <= i < j < gs.len() ==> gs[i].name != gs[j].name
}

impl Globals {
    /// Whether the table's names are pairwise distinct.
    pub open spec fn wf(&self) -> bool {
        globals_wf(self@)
    }

    /// An empty global table.
    pub fn new() -> (r: Self)
        ensures
            r@ == Seq::<GlobalV>::empty(),
            r.wf(),
    {
        let r = Globals { entries: Vec::new() };
        proof {
            assert(r@ =~= Seq::<GlobalV>::empty());
        }
        r
    }

    /// The number of entries in the table.
    pub fn len(&self) -> (r: usize)
        ensures
            r as int == self@.len(),
    {
        self.entries.len()
    }
}

/// One entry of the local-name map: a name and the register bound to it.
struct LocalEntry {
    name: String,
    target: usize,
}

/// The mathematical shape of one local binding.
pub struct LocalV {
    pub name: Seq<char>,
    pub target: int,
}

/// The mathematical shape of a compiler's whole state.
pub struct CState {
    pub code: Seq<Bytecode>,
    pub ntargets: int,
    pub locals: Seq<LocalV>,
    pub constants: Seq<ValueV>,
    pub globals: Seq<GlobalV>,
}

/// A compiler for one function (or top-level script) body. It owns the code
/// buffer, register counter, local map and constant pool of that body, plus
/// the global table shared with enclosing and nested compilations.
pub struct Compiler {
    globals: Globals,
    code: Vec<Bytecode>,
    ntargets: usize,
    locals: Vec<LocalEntry>,
    constants: Vec<Value>,
}

impl View for Compiler {
    type V = CState;

    closed spec fn view(&self) -> CState {
        CState {
            code: self.code@,
            ntargets: self.ntargets as int,
            locals: Seq::new(
                self.locals@.len(),
                |i: int|
                    LocalV { name: self.locals@[i].name@, target: self.locals@[i].target as int },
            ),
            constants: view_values(self.constants@),
            globals: self.globals@,
        }
    }
}

/// The compiler's internal invariant: register `0` is reserved (the counter
/// starts at `1`), local names are pairwise distinct, every local's register
/// was allocated by the counter, and the global table is well formed.
pub open spec fn cstate_wf(st: CState) -> bool {
    &&& 1 <= st.ntargets
    &&& forall|i: int, j: int| 0 <= i < j < st.locals.len() ==> st.locals[i].name != st.locals[j].name
    &&& forall|i: int| 0 <= i < st.locals.len() ==> 1 <= #[trigger] st.locals[i].target < st.ntargets
    &&& globals_wf(st.globals)
}

/// The index of the first pool entry equal (in the sense of `const_eq`) to
/// `v`, or the pool's length when there is none.
pub open spec fn const_index(pool: Seq<ValueV>, v: ValueV) -> int
    decreases pool.len(),
{
    if pool.len() == 0 {
        0
    } else if const_eq(pool[0], v) {
        0
    } else {
        1 + const_index(pool.skip(1), v)
    }
}

/// The index of the first local binding for `name`, or the map's length when
/// there is none.
pub open spec fn local_index(locals: Seq<LocalV>, name: Seq<char>) -> int
    decreases locals.len(),
{
    if locals.len() == 0 {
        0
    } else if locals[0].name == name {
        0
    } else {
        1 + local_index(locals.skip(1), name)
    }
}

/// The index of the first global entry for `name`, or the table's length when
/// there is none.
pub open spec fn global_index(gs: Seq<GlobalV>, name: Seq<char>) -> int
    decreases gs.len(),
{
    if gs.len() == 0 {
        0
    } else if gs[0].name == name {
        0
    } else {
        1 + global_index(gs.skip(1), name)
    }
}

/// What `Compiler::get_constant` does: return the handle of the first pool
/// entry equal to `v`, appending `v` only when no entry matches.
pub open spec fn m_get_constant(st: CState, v: ValueV) -> (CState, int) {
    let i = const_index(st.constants, v);
    if i < st.constants.len() {
        (st, i)
    } else {
        (CState { constants: st.constants.push(v), ..st }, i)
    }
}

/// What `Compiler::define_local` does: reuse the register already bound to
/// `name`, or bind a freshly allocated one.
pub open spec fn m_define_local(st: CState, name: Seq<char>) -> (CState, int) {
    let i = local_index(st.locals, name);
    if i < st.locals.len() {
        (st, st.locals[i].target)
    } else {
        (
            CState {
                ntargets: st.ntargets + 1,
                locals: st.locals.push(LocalV { name, target: st.ntargets }),
                ..st
            },
            st.ntargets,
        )
    }
}

/// What `Compiler::get_local` returns: the register bound to `name`, if any.
pub open spec fn m_get_local(st: CState, name: Seq<char>) -> Option<int> {
    let i = local_index(st.locals, name);
    if i < st.locals.len() {
        Option::Some(st.locals[i].target)
    } else {
        Option::None
    }
}

/// What `Compiler::get_global` returns: the handle and attached value of the
/// entry for `name`, if any.
pub open spec fn m_get_global(gs: Seq<GlobalV>, name: Seq<char>) -> Option<(int, Option<ValueV>)> {
    let i = global_index(gs, name);
    if i < gs.len() {
        Option::Some((i, gs[i].value))
    } else {
        Option::None
    }
}

/// What `Compiler::define_global` does. Declaring a new name creates an
/// entry whose handle is its index. Re-declaring an existing name without a
/// value re-resolves the existing handle and leaves the entry as it is.
/// Attaching a value succeeds only where the entry does not already carry
/// one; defining an already-defined global is the sole error.
pub open spec fn m_define_global(gs: Seq<GlobalV>, name: Seq<char>, value: Option<ValueV>) -> (
    Seq<GlobalV>,
    Result<int, ErrorV>,
) {
    let i = global_index(gs, name);
    if i < gs.len() {
        if gs[i].value is Some && value is Some {
            (gs, Result::Err(ErrorV::GlobalAlreadyDefined(name)))
        } else if value is Some {
            (gs.update(i, GlobalV { name: gs[i].name, value }), Result::Ok(i))
        } else {
            (gs, Result::Ok(i))
        }
    } else {
        (gs.push(GlobalV { name, value }), Result::Ok(gs.len() as int))
    }
}

/// The shape of an `Option<Value>`.
pub open spec fn opt_value_view(v: Option<Value>) -> Option<ValueV> {
    match v {
        Option::Some(x) => Option::Some(x.view()),
        Option::None => Option::None,
    }
}

/// The shape of an optional target handle.
pub open spec fn opt_target_view(t: Option<Target>) -> Option<int> {
    match t {
        Option::Some(x) => Option::Some(x@),
        Option::None => Option::None,
    }
}

/// The value an executor materializes for one global slot: the attached
/// value, or the null placeholder for a declared-but-undefined global.
pub open spec fn slot_value(g: GlobalV) -> ValueV {
    match g.value {
        Option::Some(v) => v,
        Option::None => ValueV::Ni,
    }
}

pub broadcast proof fn lemma_const_index_bounds(pool: Seq<ValueV>, v: ValueV)
    ensures
        0 <= #[trigger] const_index(pool, v) <= pool.len(),
    decreases pool.len(),
{
    if pool.len() != 0 && !const_eq(pool[0], v) {
        lemma_const_index_bounds(pool.skip(1), v);
    }
}

pub broadcast proof fn lemma_local_index_bounds(locals: Seq<LocalV>, name: Seq<char>)
    ensures
        0 <= #[trigger] local_index(locals, name) <= locals.len(),
    decreases locals.len(),
{
    if locals.len() != 0 && locals[0].name != name {
        lemma_local_index_bounds(locals.skip(1), name);
    }
}

pub broadcast proof fn lemma_global_index_bounds(gs: Seq<GlobalV>, name: Seq<char>)
    ensures
        0 <= #[trigger] global_index(gs, name) <= gs.len(),
    decreases gs.len(),
{
    if gs.len() != 0 && gs[0].name != name {
        lemma_global_index_bounds(gs.skip(1), name);
    }
}


pub broadcast proof fn lemma_const_index_char(pool: Seq<ValueV>, v: ValueV)
    ensures
        ({
            let i = #[trigger] const_index(pool, v);
            0 <= i <= pool.len() && (forall|j: int| 0 <= j < i ==> !const_eq(pool[j], v)) && (i
                < pool.len() ==> const_eq(pool[i], v))
        }),
    decreases pool.len(),
{
    if pool.len() != 0 && !const_eq(pool[0], v) {
        lemma_const_index_char(pool.skip(1), v);
        let i = const_index(pool, v);
        assert forall|j: int| 0 <= j < i implies !const_eq(pool[j], v) by {
            if j > 0 {
                assert(pool.skip(1)[j - 1] == pool[j]);
            }
        }
        if i < pool.len() {
            assert(pool.skip(1)[i - 1] == pool[i]);
        }
    }
}

pub broadcast proof fn lemma_local_index_char(locals: Seq<LocalV>, name: Seq<char>)
    ensures
        ({
            let i = #[trigger] local_index(locals, name);
            0 <= i <= locals.len() && (forall|j: int| 0 <= j < i ==> locals[j].name != name) && (i
                < locals.len() ==> locals[i].name == name)
        }),
    decreases locals.len(),
{
    if locals.len() != 0 && locals[0].name != name {
        lemma_local_index_char(locals.skip(1), name);
        let i = local_index(locals, name);
        assert forall|j: int| 0 <= j < i implies locals[j].name != name by {
            if j > 0 {
                assert(locals.skip(1)[j - 1] == locals[j]);
            }
        }
        if i < locals.len() {
            assert(locals.skip(1)[i - 1] == locals[i]);
        }
    }
}

pub broadcast proof fn lemma_global_index_char(gs: Seq<GlobalV>, name: Seq<char>)
    ensures
        ({
            let i = #[trigger] global_index(gs, name);
            0 <= i <= gs.len() && (forall|j: int| 0 <= j < i ==> gs[j].name != name) && (i
                < gs.len() ==> gs[i].name == name)
        }),
    decreases gs.len(),
{
    if gs.len() != 0 && gs[0].name != name {
        lemma_global_index_char(gs.skip(1), name);
        let i = global_index(gs, name);
        assert forall|j: int| 0 <= j < i implies gs[j].name != name by {
            if j > 0 {
                assert(gs.skip(1)[j - 1] == gs[j]);
            }
        }
        if i < gs.len() {
            assert(gs.skip(1)[i - 1] == gs[i]);
        }
    }
}

pub proof fn lemma_const_index_is(pool: Seq<ValueV>, v: ValueV, i: int)
    requires
        0 <= i <= pool.len(),
        forall|j: int| 0 <= j < i ==> !const_eq(pool[j], v),
        i < pool.len() ==> const_eq(pool[i], v),
    ensures
        const_index(pool, v) == i,
    decreases pool.len(),
{
    if pool.len() == 0 {
    } else if const_eq(pool[0], v) {
        assert(i == 0);
    } else {
        assert(forall|j: int| 0 <= j < i - 1 ==> !const_eq(pool.skip(1)[j], v)) by {
            assert(forall|j: int| 0 <= j < i - 1 ==> pool.skip(1)[j] == pool[j + 1]);
        }
        lemma_const_index_is(pool.skip(1), v, i - 1);
    }
}

pub proof fn lemma_local_index_is(locals: Seq<LocalV>, name: Seq<char>, i: int)
    requires
        0 <= i <= locals.len(),
        forall|j: int| 0 <= j < i ==> locals[j].name != name,
        i < locals.len() ==> locals[i].name == name,
    ensures
        local_index(locals, name) == i,
    decreases locals.len(),
{
    if locals.len() == 0 {
    } else if locals[0].name == name {
        assert(i == 0);
    } else {
        assert(forall|j: int| 0 <= j < i - 1 ==> locals.skip(1)[j] == locals[j + 1]);
        lemma_local_index_is(locals.skip(1), name, i - 1);
    }
}

pub proof fn lemma_global_index_is(gs: Seq<GlobalV>, name: Seq<char>, i: int)
    requires
        0 <= i <= gs.len(),
        forall|j: int| 0 <= j < i ==> gs[j].name != name,
        i < gs.len() ==> gs[i].name == name,
    ensures
        global_index(gs, name) == i,
    decreases gs.len(),
{
    if gs.len() == 0 {
    } else if gs[0].name == name {
        assert(i == 0);
    } else {
        assert(forall|j: int| 0 <= j < i - 1 ==> gs.skip(1)[j] == gs[j + 1]);
        lemma_global_index_is(gs.skip(1), name, i - 1);
    }
}

impl Compiler {
    /// The compiler's internal invariant.
    pub open spec fn wf(&self) -> bool {
        cstate_wf(self@)
    }

    /// A fresh compiler with an empty global table. The table can be
    /// pre-seeded with builtin functions through `define_global` before any
    /// statement is compiled.
    pub fn new() -> (r: Self)
        ensures
            r.wf(),
            r@ == (CState {
                code: Seq::<Bytecode>::empty(),
                ntargets: 1,
                locals: Seq::<LocalV>::empty(),
                constants: Seq::<ValueV>::empty(),
                globals: Seq::<GlobalV>::empty(),
            }),
    {
        Self::with_globals(Globals::new())
    }

    /// A fresh compiler sharing an existing global table: the constructor
    /// used to compile a nested function body against the enclosing unit's
    /// globals. Register `0` is reserved, so the counter starts at `1`.
    pub fn with_globals(globals: Globals) -> (r: Self)
        requires
            globals.wf(),
        ensures
            r.wf(),
            r@ == (CState {
                code: Seq::<Bytecode>::empty(),
                ntargets: 1,
                locals: Seq::<LocalV>::empty(),
                constants: Seq::<ValueV>::empty(),
                globals: globals@,
            }),
    {
        let r = Compiler {
            globals,
            code: Vec::new(),
            ntargets: 1,
            locals: Vec::new(),
            constants: Vec::new(),
        };
        proof {
            assert(r@.locals =~= Seq::<LocalV>::empty());
            assert(r@.constants =~= Seq::<ValueV>::empty());
        }
        r
    }

    /// The shared global table.
    pub fn globals(&self) -> (r: &Globals)
        ensures
            r@ == self@.globals,
    {
        &self.globals
    }

    /// Move the global table out, leaving an empty one behind: the first half
    /// of lending the table to a nested function compilation.
    pub fn take_globals(&mut self) -> (r: Globals)
        ensures
            r@ == old(self)@.globals,
            final(self)@ == (CState { globals: Seq::<GlobalV>::empty(), ..old(self)@ }),
    {
        let mut g = Globals { entries: Vec::new() };
        proof {
            assert(g@ =~= Seq::<GlobalV>::empty());
        }
        core::mem::swap(&mut g, &mut self.globals);
        g
    }

    /// Put a global table back after a nested compilation returned it.
    pub fn put_globals(&mut self, globals: Globals)
        ensures
            final(self)@ == (CState { globals: globals@, ..old(self)@ }),
    {
        self.globals = globals;
    }

    /// Finish the compilation: freeze the register count, instruction stream
    /// and constant pool into an immutable code block.
    pub fn finish(self) -> (r: CodeBlock)
        ensures
            r@ == (CodeBlockV { ntargets: self@.ntargets, code: self@.code, constants: self@.constants }),
    {
        let Compiler { code, ntargets, constants, .. } = self;
        CodeBlock::new(ntargets, code, constants)
    }

    /// Finish the compilation and hand the global table back to the caller,
    /// as a nested function compilation must.
    pub fn into_parts(self) -> (r: (CodeBlock, Globals))
        ensures
            r.0@ == (CodeBlockV { ntargets: self@.ntargets, code: self@.code, constants: self@.constants }),
            r.1@ == self@.globals,
    {
        let Compiler { code, ntargets, constants, globals, .. } = self;
        (CodeBlock::new(ntargets, code, constants), globals)
    }

    /// Finish the compilation and pair the code block with a register
    /// machine whose global vector is materialized from the global table.
    pub fn finish_with_vm(self) -> (r: (CodeBlock, Vm))
        ensures
            r.0@ == (CodeBlockV { ntargets: self@.ntargets, code: self@.code, constants: self@.constants }),
            r.1@.len() == self@.globals.len(),
            forall|i: int| 0 <= i < self@.globals.len() ==> r.1@[i] == slot_value(self@.globals[i]),
    {
        let vm = Vm::new(self.convert_globals());
        (self.finish(), vm)
    }

    /// Materialize the global-value vector an executor consumes: one slot per
    /// handle, holding the attached value or the null placeholder.
    pub fn convert_globals(&self) -> (r: Vec<Value>)
        ensures
            r@.len() == self@.globals.len(),
            forall|i: int| 0 <= i < r@.len() ==> r@[i].view() == slot_value(self@.globals[i]),
    {
        let mut out: Vec<Value> = Vec::new();
        let mut i: usize = 0;
        while i < self.globals.entries.len()
            invariant
                i <= self.globals.entries.len(),
                out@.len() == i as int,
                forall|j: int| 0 <= j < i as int ==> out@[j].view() == slot_value(self@.globals[j]),
            decreases self.globals.entries.len() - i,
        {
            let v = match &self.globals.entries[i].value {
                Option::Some(x) => x.clone(),
                Option::None => Value::Ni,
            };
            out.push(v);
            i = i + 1;
        }
        out
    }

    /// Append one tagged element to the code buffer.
    fn bytecode(&mut self, bytecode: Bytecode)
        ensures
            final(self)@ == (CState { code: old(self)@.code.push(bytecode), ..old(self)@ }),
    {
        self.code.push(bytecode);
    }

    /// Emit an opcode element.
    pub fn opcode(&mut self, opcode: Opcode)
        ensures
            final(self)@ == (CState { code: old(self)@.code.push(Bytecode::Opcode(opcode)), ..old(self)@ }),
    {
        self.bytecode(Bytecode::Opcode(opcode));
    }

    /// Emit a raw count operand.
    pub fn count(&mut self, amount: usize)
        ensures
            final(self)@ == (CState { code: old(self)@.code.push(Bytecode::Count(amount)), ..old(self)@ }),
    {
        self.bytecode(Bytecode::Count(amount));
    }

    /// Emit an interrupt marker.
    pub fn interrupt(&mut self, interrupt: Interrupt)
        ensures
            final(self)@ == (CState {
                code: old(self)@.code.push(Bytecode::Interrupt(interrupt)),
                ..old(self)@
            }),
    {
        self.bytecode(Bytecode::Interrupt(interrupt));
    }

    /// Emit a register operand. The register must lie in the declared range:
    /// an out-of-range target would be an internal-consistency violation.
    pub fn target(&mut self, target: Target)
        requires
            target@ < old(self)@.ntargets,
        ensures
            final(self)@ == (CState { code: old(self)@.code.push(Bytecode::Local((target@) as usize)), ..old(self)@ }),
    {
        self.bytecode(Bytecode::Local(target.0));
    }

    /// Emit a constant-pool operand. The handle must be in range.
    pub fn constant(&mut self, constant: Constant)
        requires
            constant@ < old(self)@.constants.len(),
        ensures
            final(self)@ == (CState {
                code: old(self)@.code.push(Bytecode::Constant((constant@) as usize)),
                ..old(self)@
            }),
    {
        self.bytecode(Bytecode::Constant(constant.0));
    }

    /// Emit a global-slot operand. The handle must be in range.
    pub fn global(&mut self, global: Global)
        requires
            global@ < old(self)@.globals.len(),
        ensures
            final(self)@ == (CState { code: old(self)@.code.push(Bytecode::Global((global@) as usize)), ..old(self)@ }),
    {
        self.bytecode(Bytecode::Global(global.0));
    }

    /// Append a branch placeholder and return its handle, to be resolved
    /// exactly once when the branch's destination becomes known.
    pub fn defer_jump(&mut self) -> (r: JumpDestination)
        ensures
            final(self)@ == (CState { code: old(self)@.code.push(Bytecode::Illegal), ..old(self)@ }),
            r@ == old(self)@.code.len(),
    {
        self.bytecode(Bytecode::Illegal);
        JumpDestination(self.code.len() - 1)
    }

    /// Emit a branch to an already-known position: defer a jump and resolve
    /// it immediately. Used for backward branches such as loop heads.
    pub fn jump_to(&mut self, dst: CodePosition)
        requires
            old(self)@.code.len() <= isize::MAX as int,
            dst@ <= isize::MAX as int,
        ensures
            final(self)@ == (CState {
                code: old(self)@.code.push(
                    Bytecode::Offset(((dst@ - old(self)@.code.len()) as isize)),
                ),
                ..old(self)@
            }),
    {
        let jd = self.defer_jump();
        jd.set_jump_to(dst, self);
        proof {
            assert(self@.code =~= old(self)@.code.push(
                Bytecode::Offset(((dst@ - old(self)@.code.len()) as isize)),
            ));
        }
    }

    /// Look up `value` in the constant pool and return the handle of the
    /// first equal entry, appending `value` only when no entry matches.
    pub fn get_constant(&mut self, constant: Value) -> (r: Constant)
        ensures
            ({
                let (st, i) = m_get_constant(old(self)@, constant@);
                final(self)@ == st && r@ == i && 0 <= i < final(self)@.constants.len()
            }),
    {
        broadcast use lemma_const_index_bounds, lemma_const_index_char;

        let ghost pool = self@.constants;
        let mut i: usize = 0;
        while i < self.constants.len()
            invariant
                *self == *old(self),
                pool == self@.constants,
                i <= self.constants.len(),
                forall|j: int| 0 <= j < i as int ==> !const_eq(pool[j], constant@),
            decreases self.constants.len() - i,
        {
            if self.constants[i].constant_eq(&constant) {
                proof {
                    lemma_const_index_is(pool, constant@, i as int);
                }
                return Constant(i);
            }
            i = i + 1;
        }
        proof {
            lemma_const_index_is(pool, constant@, pool.len() as int);
        }
        self.constants.push(constant);
        Constant(self.constants.len() - 1)
    }

    /// The register bound to `name` in this function, if any.
    pub fn get_local(&self, name: &str) -> (r: Option<Target>)
        ensures
            opt_target_view(r) == m_get_local(self@, name@),
            self.wf() ==> (match r {
                Option::Some(t) => 1 <= t@ < self@.ntargets,
                Option::None => true,
            }),
    {
        broadcast use lemma_local_index_bounds, lemma_local_index_char;

        let mut i: usize = 0;
        while i < self.locals.len()
            invariant
                i <= self.locals.len(),
                forall|j: int| 0 <= j < i as int ==> self@.locals[j].name != name@,
            decreases self.locals.len() - i,
        {
            if str_eq(self.locals[i].name.as_str(), name) {
                proof {
                    lemma_local_index_is(self@.locals, name@, i as int);
                }
                return Option::Some(Target(self.locals[i].target));
            }
            i = i + 1;
        }
        proof {
            lemma_local_index_is(self@.locals, name@, self@.locals.len() as int);
        }
        Option::None
    }

    /// Bind `name` to a register: reuse the register it already has in this
    /// function's flat local map, or allocate the next one.
    pub fn define_local(&mut self, name: String) -> (r: Target)
        requires
            old(self).wf(),
            old(self)@.ntargets < usize::MAX as int,
        ensures
            final(self).wf(),
            ({
                let (st, t) = m_define_local(old(self)@, name@);
                final(self)@ == st && r@ == t && 0 <= t < final(self)@.ntargets
            }),
    {
        broadcast use lemma_local_index_bounds, lemma_local_index_char;

        let found = self.get_local(name.as_str());
        match found {
            Option::Some(t) => t,
            Option::None => {
                let target = self.next_target();
                self.locals.push(LocalEntry { name, target: target.0 });
                proof {
                    assert(self@.locals =~= old(self)@.locals.push(
                        LocalV { name: name@, target: old(self)@.ntargets },
                    ));
                }
                target
            },
        }
    }

    /// The handle and attached value of the global entry for `name`, if any:
    /// a lookup without side effect, used to resolve references before the
    /// definition is compiled.
    pub fn get_global(&self, name: &str) -> (r: Option<(Global, Option<Value>)>)
        ensures
            ({
                let m = m_get_global(self@.globals, name@);
                match r {
                    Option::Some((g, v)) => m == Option::Some((g@, opt_value_view(v))),
                    Option::None => m is None,
                }
            }),
    {
        broadcast use lemma_global_index_bounds, lemma_global_index_char;

        let mut i: usize = 0;
        while i < self.globals.entries.len()
            invariant
                i <= self.globals.entries.len(),
                forall|j: int| 0 <= j < i as int ==> self@.globals[j].name != name@,
            decreases self.globals.entries.len() - i,
        {
            if str_eq(self.globals.entries[i].name.as_str(), name) {
                proof {
                    lemma_global_index_is(self@.globals, name@, i as int);
                }
                let v = match &self.globals.entries[i].value {
                    Option::Some(x) => Option::Some(x.clone()),
                    Option::None => Option::None,
                };
                return Option::Some((Global(i), v));
            }
            i = i + 1;
        }
        proof {
            lemma_global_index_is(self@.globals, name@, self@.globals.len() as int);
        }
        Option::None
    }

    /// Declare or define the global `name`, per `m_define_global`: a fresh
    /// name gets a new entry (its handle is the entry's index); an existing
    /// name re-resolves to its existing handle; attaching a value to an entry
    /// that already carries one fails with `GlobalAlreadyDefined`.
    pub fn define_global(&mut self, name: String, value: Option<Value>) -> (r: Result<
        Global,
        Error,
    >)
        requires
            old(self).wf(),
        ensures
            final(self).wf(),
            ({
                let (gs, res) = m_define_global(old(self)@.globals, name@, opt_value_view(value));
                final(self)@ == (CState { globals: gs, ..old(self)@ }) && (match r {
                    Result::Ok(g) => res == Result::<int, ErrorV>::Ok(g@) && 0 <= g@ < gs.len(),
                    Result::Err(e) => res == Result::<int, ErrorV>::Err(e@),
                })
            }),
    {
        broadcast use lemma_global_index_bounds, lemma_global_index_char;

        let ghost gs = self@.globals;
        let mut i: usize = 0;
        while i < self.globals.entries.len()
            invariant
                old(self).wf(),
                *self == *old(self),
                gs == self@.globals,
                i <= self.globals.entries.len(),
                forall|j: int| 0 <= j < i as int ==> gs[j].name != name@,
            decreases self.globals.entries.len() - i,
        {
            if str_eq(self.globals.entries[i].name.as_str(), name.as_str()) {
                proof {
                    lemma_global_index_is(gs, name@, i as int);
                }
                match (&self.globals.entries[i].value, &value) {
                    (Option::Some(_), Option::Some(_)) => {
                        return Result::Err(Error::GlobalAlreadyDefined(name));
                    },
                    (_, Option::None) => {
                        return Result::Ok(Global(i));
                    },
                    (Option::None, Option::Some(_)) => {
                        self.globals.entries[i] = GlobalEntry { name, value };
                        proof {
                            assert(self@.globals =~= gs.update(
                                i as int,
                                GlobalV { name: gs[i as int].name, value: opt_value_view(value) },
                            ));
                        }
                        return Result::Ok(Global(i));
                    },
                }
            }
            i = i + 1;
        }
        proof {
            lemma_global_index_is(gs, name@, gs.len() as int);
        }
        let handle = Global(self.globals.entries.len());
        self.globals.entries.push(GlobalEntry { name, value });
        proof {
            assert(self@.globals =~= gs.push(GlobalV { name: name@, value: opt_value_view(value) }));
        }
        Result::Ok(handle)
    }

    /// Allocate the next register. Registers are handed out monotonically
    /// and never recycled within one function's compilation.
    pub fn next_target(&mut self) -> (r: Target)
        requires
            old(self)@.ntargets < usize::MAX as int,
        ensures
            final(self)@ == (CState { ntargets: old(self)@.ntargets + 1, ..old(self)@ }),
            r@ == old(self)@.ntargets,
    {
        self.ntargets = self.ntargets + 1;
        Target(self.ntargets - 1)
    }

    /// The permanently reserved scratch register, used when a value must be
    /// computed but not kept.
    pub fn temp_target(&self) -> (r: Target)
        ensures
            r@ == 0,
    {
        Target(0)
    }

    /// The current end of the instruction stream.
    pub fn current_pos(&self) -> (r: CodePosition)
        ensures
            r@ == self@.code.len(),
    {
        CodePosition(self.code.len())
    }
}

impl JumpDestination {
    /// Resolve this deferred jump to the current end of the stream.
    pub fn set_jump_to_current(self, compiler: &mut Compiler)
        requires
            self@ < old(compiler)@.code.len(),
            old(compiler)@.code[self@] == Bytecode::Illegal,
            old(compiler)@.code.len() <= isize::MAX as int,
        ensures
            final(compiler)@ == (CState {
                code: old(compiler)@.code.update(
                    self@,
                    Bytecode::Offset(((old(compiler)@.code.len() - self@) as isize)),
                ),
                ..old(compiler)@
            }),
    {
        let pos = compiler.current_pos();
        self.set_jump_to(pos, compiler);
    }

    /// Resolve this deferred jump: overwrite its placeholder with the signed
    /// relative offset from the placeholder to `pos`. The slot must still
    /// hold the placeholder, so a jump can be patched only once.
    pub fn set_jump_to(self, pos: CodePosition, compiler: &mut Compiler)
        requires
            self@ < old(compiler)@.code.len(),
            old(compiler)@.code[self@] == Bytecode::Illegal,
            self@ <= isize::MAX as int,
            pos@ <= isize::MAX as int,
        ensures
            final(compiler)@ == (CState {
                code: old(compiler)@.code.update(
                    self@,
                    Bytecode::Offset(((pos@ - self@) as isize)),
                ),
                ..old(compiler)@
            }),
    {
        let relative: isize = if pos.0 >= self.0 {
            (pos.0 - self.0) as isize
        } else {
            let d = self.0 - pos.0;
            -(d as isize)
        };
        compiler.code[self.0] = Bytecode::Offset(relative);
    }
}

} // verus!
