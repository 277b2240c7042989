//! Runtime values, user-defined function values ("journeys"), and the
//! finished `CodeBlock` artifact a compiler produces.

use vstd::prelude::*;
use crate::bytecode::Bytecode;
use crate::text::Text;

verus! {

/// A runtime value of the language's small value kind set.
#[derive(PartialEq, Eq, Debug)]
pub enum Value {
    /// The null value.
    Ni,
    /// A boolean.
    Veracity(bool),
    /// An integer numeral.
    Numeral(i64),
    /// A text value.
    Text(Text),
    /// A user-defined function value.
    Journey(UserDefined),
}

/// A user-defined function value: its name, whether it is a bound method
/// (carrying an implicit leading parameter), its parameter names in
/// declaration order, and its compiled body.
#[derive(PartialEq, Eq, Debug)]
pub struct UserDefined {
    name: String,
    is_method: bool,
    arg_names: Vec<String>,
    body: CodeBlock,
}

/// The immutable output of one compilation: an instruction stream, the
/// register-file size an executor must provide, and the constant pool.
#[derive(PartialEq, Eq, Debug)]
pub struct CodeBlock {
    ntargets: usize,
    code: Vec<Bytecode>,
    constants: Vec<Value>,
}

/// The mathematical shape of a `Value`.
pub enum ValueV {
    Ni,
    Veracity(bool),
    Numeral(int),
    Text(Seq<char>),
    Journey(JourneyV),
}

/// The mathematical shape of a `UserDefined`.
pub struct JourneyV {
    pub name: Seq<char>,
    pub is_method: bool,
    pub arg_names: Seq<Seq<char>>,
    pub body: CodeBlockV,
}

/// The mathematical shape of a `CodeBlock`.
pub struct CodeBlockV {
    pub ntargets: int,
    pub code: Seq<Bytecode>,
    pub constants: Seq<ValueV>,
}

impl Value {
    /// The mathematical shape of this value.
    pub open spec fn view(self) -> ValueV
        decreases self,
    {
        match self {
            Value::Ni => ValueV::Ni,
            Value::Veracity(b) => ValueV::Veracity(b),
            Value::Numeral(n) => ValueV::Numeral(n as int),
            Value::Text(t) => ValueV::Text(t@),
            Value::Journey(j) => ValueV::Journey(j.view()),
        }
    }
}

impl UserDefined {
    /// The mathematical shape of this function value.
    pub closed spec fn view(self) -> JourneyV
        decreases self,
    {
        JourneyV {
            name: self.name@,
            is_method: self.is_method,
            arg_names: Seq::new(self.arg_names@.len(), |i: int| self.arg_names@[i]@),
            body: self.body.view(),
        }
    }

    /// Assemble a function value.
    pub fn new(name: String, is_method: bool, arg_names: Vec<String>, body: CodeBlock) -> (r: Self)
        ensures
            r@ == (JourneyV {
                name: name@,
                is_method,
                arg_names: Seq::new(arg_names@.len(), |i: int| arg_names@[i]@),
                body: body@,
            }),
    {
        UserDefined { name, is_method, arg_names, body }
    }

    /// The function's name.
    pub fn name(&self) -> (r: &str)
        ensures
            r@ == self@.name,
    {
        self.name.as_str()
    }

    /// Whether the function is a bound method.
    pub fn is_method(&self) -> (r: bool)
        ensures
            r == self@.is_method,
    {
        self.is_method
    }

    /// The parameter names, in declaration order.
    pub fn arg_names(&self) -> (r: &Vec<String>)
        ensures
            r@.len() == self@.arg_names.len(),
            forall|i: int| 0 <= i < r@.len() ==> r@[i]@ == self@.arg_names[i],
    {
        &self.arg_names
    }

    /// The compiled body.
    pub fn body(&self) -> (r: &CodeBlock)
        ensures
            r@ == self@.body,
    {
        &self.body
    }
}

impl CodeBlock {
    /// The mathematical shape of this code block.
    pub closed spec fn view(self) -> CodeBlockV
        decreases self,
    {
        CodeBlockV {
            ntargets: self.ntargets as int,
            code: self.code@,
            constants: view_values(self.constants@),
        }
    }

    /// Freeze a finished instruction stream, register-file size, and constant
    /// pool into an immutable code block.
    pub fn new(ntargets: usize, code: Vec<Bytecode>, constants: Vec<Value>) -> (r: Self)
        ensures
            r@ == (CodeBlockV {
                ntargets: ntargets as int,
                code: code@,
                constants: view_values(constants@),
            }),
    {
        CodeBlock { ntargets, code, constants }
    }

    /// The register-file size an executor must provide.
    pub fn ntargets(&self) -> (r: usize)
        ensures
            r as int == self@.ntargets,
    {
        self.ntargets
    }

    /// The instruction stream.
    pub fn code(&self) -> (r: &Vec<Bytecode>)
        ensures
            r@ == self@.code,
    {
        &self.code
    }

    /// The constant pool.
    pub fn constants(&self) -> (r: &Vec<Value>)
        ensures
            view_values(r@) == self@.constants,
    {
        &self.constants
    }
}

/// The mathematical shapes of a sequence of values, element for element.
pub open spec fn view_values(s: Seq<Value>) -> Seq<ValueV>
    decreases s,
{
    if s.len() == 0 {
        Seq::empty()
    } else {
        view_values(s.subrange(0, s.len() - 1)).push(s[s.len() - 1].view())
    }
}

pub broadcast proof fn lemma_view_values_len(s: Seq<Value>)
    ensures
        #[trigger] view_values(s).len() == s.len(),
    decreases s.len(),
{
    if s.len() != 0 {
        lemma_view_values_len(s.subrange(0, s.len() - 1));
    }
}

pub broadcast proof fn lemma_view_values_index(s: Seq<Value>, i: int)
    requires
        0 <= i < s.len(),
    ensures
        view_values(s).len() == s.len(),
        #[trigger] view_values(s)[i] == s[i].view(),
    decreases s.len(),
{
    lemma_view_values_len(s);
    if s.len() != 0 && i < s.len() - 1 {
        lemma_view_values_index(s.subrange(0, s.len() - 1), i);
    }
}

pub broadcast proof fn lemma_view_values_push(s: Seq<Value>, v: Value)
    ensures
        #[trigger] view_values(s.push(v)) == view_values(s).push(v.view()),
{
    assert(s.push(v).subrange(0, s.push(v).len() - 1) =~= s);
}

pub broadcast proof fn lemma_view_values_update(s: Seq<Value>, i: int, v: Value)
    requires
        0 <= i < s.len(),
    ensures
        #[trigger] view_values(s.update(i, v)) == view_values(s).update(i, v.view()),
{
    let t = s.update(i, v);
    lemma_view_values_len(s);
    lemma_view_values_len(t);
    assert forall|k: int| 0 <= k < s.len() implies view_values(t)[k] == view_values(s).update(
        i,
        v.view(),
    )[k] by {
        lemma_view_values_index(t, k);
        lemma_view_values_index(s, k);
    }
    assert(view_values(t) =~= view_values(s).update(i, v.view()));
}

/// The structural equality used by the constant pool's deduplication. Null,
/// boolean, numeral and text values compare by their contents. Function
/// values are never pooled together: two journey values are always treated as
/// distinct entries.
pub open spec fn const_eq(a: ValueV, b: ValueV) -> bool {
    match (a, b) {
        (ValueV::Ni, ValueV::Ni) => true,
        (ValueV::Veracity(x), ValueV::Veracity(y)) => x == y,
        (ValueV::Numeral(x), ValueV::Numeral(y)) => x == y,
        (ValueV::Text(x), ValueV::Text(y)) => x == y,
        _ => false,
    }
}

impl Value {
    /// Decide the constant-pool equality `const_eq` on two values.
    pub fn constant_eq(&self, other: &Value) -> (r: bool)
        ensures
            r == const_eq(self@, other@),
    {
        match (self, other) {
            (Value::Ni, Value::Ni) => true,
            (Value::Veracity(x), Value::Veracity(y)) => *x == *y,
            (Value::Numeral(x), Value::Numeral(y)) => *x == *y,
            (Value::Text(x), Value::Text(y)) => x.eq_text(y),
            _ => false,
        }
    }
}

impl Clone for Value {
    /// A clone has the same mathematical shape as the original.
    fn clone(&self) -> (r: Self)
        ensures
            r@ == self@,
        decreases self,
    {
        match self {
            Value::Ni => Value::Ni,
            Value::Veracity(b) => Value::Veracity(*b),
            Value::Numeral(n) => Value::Numeral(*n),
            Value::Text(t) => Value::Text(t.clone()),
            Value::Journey(j) => Value::Journey(j.clone()),
        }
    }
}

impl Clone for UserDefined {
    /// A clone has the same mathematical shape as the original.
    fn clone(&self) -> (r: Self)
        ensures
            r@ == self@,
        decreases self,
    {
        let mut arg_names: Vec<String> = Vec::new();
        let mut i: usize = 0;
        while i < self.arg_names.len()
            invariant
                i <= self.arg_names.len(),
                arg_names@.len() == i as int,
                forall|j: int| 0 <= j < i as int ==> arg_names@[j]@ == self.arg_names@[j]@,
            decreases self.arg_names.len() - i,
        {
            arg_names.push(self.arg_names[i].clone());
            i = i + 1;
        }
        let r = UserDefined {
            name: self.name.clone(),
            is_method: self.is_method,
            arg_names,
            body: self.body.clone(),
        };
        proof {
            assert(r@.arg_names =~= self@.arg_names);
        }
        r
    }
}

impl Clone for CodeBlock {
    /// A clone has the same mathematical shape as the original.
    fn clone(&self) -> (r: Self)
        ensures
            r@ == self@,
        decreases self,
    {
        let mut code: Vec<Bytecode> = Vec::new();
        let mut i: usize = 0;
        while i < self.code.len()
            invariant
                i <= self.code.len(),
                code@ == self.code@.subrange(0, i as int),
            decreases self.code.len() - i,
        {
            code.push(self.code[i]);
            i = i + 1;
        }
        let mut constants: Vec<Value> = Vec::new();
        let mut j: usize = 0;
        while j < self.constants.len()
            invariant
                j <= self.constants.len(),
                constants@.len() == j as int,
                forall|k: int| 0 <= k < j as int ==> constants@[k].view() == self.constants@[k].view(),
            decreases self.constants.len() - j,
        {
            constants.push(self.constants[j].clone());
            j = j + 1;
        }
        proof {
            assert(code@ =~= self.code@);
            lemma_view_values_pointwise(constants@, self.constants@);
        }
        CodeBlock { ntargets: self.ntargets, code, constants }
    }
}

/// Two value sequences whose elements have equal shapes have equal shape
/// sequences.
pub proof fn lemma_view_values_pointwise(a: Seq<Value>, b: Seq<Value>)
    requires
        a.len() == b.len(),
        forall|i: int| 0 <= i < a.len() ==> a[i].view() == b[i].view(),
    ensures
        view_values(a) == view_values(b),
    decreases a.len(),
{
    if a.len() != 0 {
        lemma_view_values_pointwise(a.subrange(0, a.len() - 1), b.subrange(0, b.len() - 1));
        assert(view_values(a) =~= view_values(b));
    } else {
        assert(view_values(a) =~= view_values(b));
    }
}

} // verus!
