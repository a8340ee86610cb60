//! The evaluator: walks a syntax tree against a mutable context of variable
//! and function bindings, producing a number or a structured error.

use vstd::prelude::*;
use std::rc::Rc;
use vstd::string::StrSliceExecFns;
use crate::num::Number;
use crate::parser::{ast_view, names_view, AST, ASTV};

verus! {

broadcast use vstd::std_specs::vec::axiom_vec_index_decreases, vstd::seq::axiom_seq_index_decreases;

#[derive(Debug, Clone)]
pub enum EvalError {
    UndefinedVariable(String),
    UndefinedFunction(String),
    WrongArity { expected: usize, got: usize },
    DuplicateParameterName(String),
    ModuloByZero,
    DomainError(String),
    FunctionAlreadyDefined(String),
    InvalidNumberLiteral(String),
    RecursionLimitReached,
}

/// The mathematical value of an evaluation error. The texts inside a domain
/// or duplicate-parameter error are presentation detail and carry no value.
pub enum EvalErrorV {
    UndefinedVariable(Seq<char>),
    UndefinedFunction(Seq<char>),
    WrongArity { expected: int, got: int },
    DuplicateParameterName,
    ModuloByZero,
    DomainError,
    FunctionAlreadyDefined(Seq<char>),
    InvalidNumberLiteral(Seq<char>),
    RecursionLimitReached,
}

pub open spec fn err_view(e: EvalError) -> EvalErrorV {
    match e {
        EvalError::UndefinedVariable(n) => EvalErrorV::UndefinedVariable(n@),
        EvalError::UndefinedFunction(n) => EvalErrorV::UndefinedFunction(n@),
        EvalError::WrongArity { expected, got } => EvalErrorV::WrongArity {
            expected: expected as int,
            got: got as int,
        },
        EvalError::DuplicateParameterName(_) => EvalErrorV::DuplicateParameterName,
        EvalError::ModuloByZero => EvalErrorV::ModuloByZero,
        EvalError::DomainError(_) => EvalErrorV::DomainError,
        EvalError::FunctionAlreadyDefined(n) => EvalErrorV::FunctionAlreadyDefined(n@),
        EvalError::InvalidNumberLiteral(n) => EvalErrorV::InvalidNumberLiteral(n@),
        EvalError::RecursionLimitReached => EvalErrorV::RecursionLimitReached,
    }
}

pub open spec fn res_view(r: Result<Number, EvalError>) -> Result<Number, EvalErrorV> {
    match r {
        Ok(n) => Ok(n),
        Err(e) => Err(err_view(e)),
    }
}

/// The native computations a builtin function can perform. A fresh context
/// seeds all of them but `Add`, which is a plain two-argument sum kept for
/// embedders that register functions of their own.
#[derive(Debug, Clone, Copy, PartialEq, Eq, Structural)]
pub enum BuiltinOp {
    Sin,
    Cos,
    Tan,
    Asin,
    Acos,
    Atan,
    Sinh,
    Cosh,
    Tanh,
    Ln,
    Log2,
    Log10,
    Log,
    Abs,
    Floor,
    Ceil,
    Round,
    Sqrt,
    Exp,
    Min,
    Max,
    Add,
}

/// A function of the context: a builtin with a fixed arity and native
/// computation, or a user-defined function with its parameter names and
/// body.
#[derive(Debug)]
pub enum Function {
    Builtin { arity: usize, op: BuiltinOp },
    UserDefined { params: Rc<Vec<String>>, body: Rc<AST> },
}

pub open spec fn arity_of(f: Function) -> int {
    match f {
        Function::Builtin { arity, .. } => arity as int,
        Function::UserDefined { params, .. } => params@.len() as int,
    }
}

/// No two of the names are the same text.
pub open spec fn names_unique(s: Seq<String>) -> bool {
    forall|i: int, j: int| 0 <= i < j < s.len() ==> (#[trigger] s[i])@ != (#[trigger] s[j])@
}

pub open spec fn fn_wf(f: Function) -> bool {
    match f {
        Function::Builtin { .. } => true,
        Function::UserDefined { params, .. } => names_unique(params@),
    }
}

/// The mathematical value of a function of the context.
pub enum FunctionV {
    Builtin { arity: int, op: BuiltinOp },
    UserDefined { params: Seq<Seq<char>>, body: ASTV },
}

pub open spec fn fn_view(f: Function) -> FunctionV {
    match f {
        Function::Builtin { arity, op } => FunctionV::Builtin { arity: arity as int, op },
        Function::UserDefined { params, body } => FunctionV::UserDefined {
            params: names_view(params@),
            body: ast_view(*body),
        },
    }
}

pub open spec fn arity_v(f: FunctionV) -> int {
    match f {
        FunctionV::Builtin { arity, .. } => arity,
        FunctionV::UserDefined { params, .. } => params.len() as int,
    }
}

pub open spec fn funcs_view(m: Map<Seq<char>, Function>) -> Map<Seq<char>, FunctionV> {
    Map::new(|k: Seq<char>| m.dom().contains(k), |k: Seq<char>| fn_view(m[k]))
}

pub proof fn lemma_funcs_view_insert(m: Map<Seq<char>, Function>, k: Seq<char>, f: Function)
    ensures
        funcs_view(m.insert(k, f)) == funcs_view(m).insert(k, fn_view(f)),
{
    assert(funcs_view(m.insert(k, f)) =~= funcs_view(m).insert(k, fn_view(f)));
}

pub open spec fn names_unique_v(s: Seq<Seq<char>>) -> bool {
    forall|i: int, j: int| 0 <= i < j < s.len() ==> s[i] != s[j]
}

impl Function {
    /// A builtin function of the given arity and native computation.
    pub fn new_builtin(arity: usize, op: BuiltinOp) -> (r: Function)
        ensures
            r == (Function::Builtin { arity, op }),
            fn_wf(r),
    {
        Function::Builtin { arity, op }
    }
}

/// Relies on std's `Rc::clone`: the clone is a second handle to the same
/// value.
#[verifier::external_body]
fn rc_clone<T>(v: &Rc<T>) -> (r: Rc<T>)
    ensures
        r == *v,
{
    Rc::clone(v)
}

/// Relies on std's `Rc`: dereferencing yields the shared value.
#[verifier::external_body]
fn rc_deref<T>(v: &Rc<T>) -> (r: &T)
    ensures
        *r == **v,
{
    &**v
}

fn clone_function(f: &Function) -> (r: Function)
    ensures
        r == *f,
{
    match f {
        Function::Builtin { arity, op } => Function::Builtin { arity: *arity, op: *op },
        Function::UserDefined { params, body } => Function::UserDefined {
            params: rc_clone(params),
            body: rc_clone(body),
        },
    }
}

/// Character-for-character string equality.
pub fn str_eq(a: &str, b: &str) -> (r: bool)
    ensures
        r == (a@ == b@),
{
    let na = a.unicode_len();
    let nb = b.unicode_len();
    if na != nb {
        return false;
    }
    let mut i: usize = 0;
    while i < na
        invariant
            i <= na,
            na == a@.len(),
            na == b@.len(),
            forall|k: int| 0 <= k < i ==> a@[k] == b@[k],
        decreases na - i,
    {
        if a.get_char(i) != b.get_char(i) {
            proof {
                assert(a@[i as int] != b@[i as int]);
            }
            return false;
        }
        i += 1;
    }
    proof {
        assert(a@ =~= b@);
    }
    true
}

/// The mapping an association list stands for: a later entry wins.
pub open spec fn assoc_map<V>(s: Seq<(String, V)>) -> Map<Seq<char>, V>
    decreases s.len(),
{
    if s.len() == 0 {
        Map::empty()
    } else {
        assoc_map(s.drop_last()).insert(s.last().0@, s.last().1)
    }
}

pub open spec fn keys_unique<V>(s: Seq<(String, V)>) -> bool {
    forall|i: int, j: int| 0 <= i < j < s.len() ==> (#[trigger] s[i]).0@ != (#[trigger] s[j]).0@
}

pub proof fn lemma_assoc_contains<V>(s: Seq<(String, V)>, k: Seq<char>)
    ensures
        assoc_map(s).contains_key(k) <==> exists|i: int| 0 <= i < s.len() && (#[trigger] s[i]).0@
            == k,
    decreases s.len(),
{
    if s.len() > 0 {
        lemma_assoc_contains(s.drop_last(), k);
        assert(forall|i: int| 0 <= i < s.len() - 1 ==> s.drop_last()[i] == s[i]);
        if s.last().0@ == k {
            assert(s[s.len() - 1].0@ == k);
        } else {
            if exists|i: int| 0 <= i < s.len() && (#[trigger] s[i]).0@ == k {
                let i = choose|i: int| 0 <= i < s.len() && (#[trigger] s[i]).0@ == k;
                assert(i < s.len() - 1);
                assert(s.drop_last()[i].0@ == k);
            }
        }
    }
}

pub proof fn lemma_assoc_get<V>(s: Seq<(String, V)>, i: int)
    requires
        keys_unique(s),
        0 <= i < s.len(),
    ensures
        assoc_map(s).contains_key(s[i].0@),
        assoc_map(s)[s[i].0@] == s[i].1,
    decreases s.len(),
{
    if i < s.len() - 1 {
        assert(keys_unique(s.drop_last())) by {
            assert(forall|p: int| 0 <= p < s.len() - 1 ==> s.drop_last()[p] == s[p]);
        }
        lemma_assoc_get(s.drop_last(), i);
        assert(s.drop_last()[i] == s[i]);
        assert(s.last().0@ != s[i].0@);
    }
}

pub proof fn lemma_assoc_push<V>(s: Seq<(String, V)>, p: (String, V))
    ensures
        assoc_map(s.push(p)) == assoc_map(s).insert(p.0@, p.1),
{
    assert(s.push(p).drop_last() =~= s);
    assert(s.push(p).last() == p);
}

pub proof fn lemma_assoc_update<V>(s: Seq<(String, V)>, i: int, p: (String, V))
    requires
        keys_unique(s),
        0 <= i < s.len(),
        p.0@ == s[i].0@,
    ensures
        assoc_map(s.update(i, p)) == assoc_map(s).insert(p.0@, p.1),
        keys_unique(s.update(i, p)),
    decreases s.len(),
{
    let su = s.update(i, p);
    assert(keys_unique(su)) by {
        assert(forall|q: int| 0 <= q < s.len() && q != i ==> su[q] == s[q]);
        assert(su[i] == p);
    }
    if i == s.len() - 1 {
        assert(su.drop_last() =~= s.drop_last());
        assert(su.last() == p);
        assert(assoc_map(s.drop_last()).insert(p.0@, p.1) =~= assoc_map(s.drop_last()).insert(
            s[i].0@,
            s[i].1,
        ).insert(p.0@, p.1));
    } else {
        assert(keys_unique(s.drop_last())) by {
            assert(forall|q: int| 0 <= q < s.len() - 1 ==> s.drop_last()[q] == s[q]);
        }
        assert(su.drop_last() =~= s.drop_last().update(i, p));
        lemma_assoc_update(s.drop_last(), i, p);
        assert(su.last() == s.last());
        assert(s.last().0@ != p.0@);
        assert(assoc_map(s.drop_last()).insert(p.0@, p.1).insert(s.last().0@, s.last().1)
            =~= assoc_map(s.drop_last()).insert(s.last().0@, s.last().1).insert(p.0@, p.1));
    }
}

/// The function table a fresh context starts with.
pub open spec fn builtin_funcs() -> Map<Seq<char>, Function> {
    Map::empty().insert("sin"@, (Function::Builtin { arity: 1, op: BuiltinOp::Sin })).insert(
        "cos"@,
        (Function::Builtin { arity: 1, op: BuiltinOp::Cos }),
    ).insert("tan"@, (Function::Builtin { arity: 1, op: BuiltinOp::Tan })).insert(
        "asin"@,
        (Function::Builtin { arity: 1, op: BuiltinOp::Asin }),
    ).insert("acos"@, (Function::Builtin { arity: 1, op: BuiltinOp::Acos })).insert(
        "atan"@,
        (Function::Builtin { arity: 1, op: BuiltinOp::Atan }),
    ).insert("sinh"@, (Function::Builtin { arity: 1, op: BuiltinOp::Sinh })).insert(
        "cosh"@,
        (Function::Builtin { arity: 1, op: BuiltinOp::Cosh }),
    ).insert("tanh"@, (Function::Builtin { arity: 1, op: BuiltinOp::Tanh })).insert(
        "ln"@,
        (Function::Builtin { arity: 1, op: BuiltinOp::Ln }),
    ).insert("log2"@, (Function::Builtin { arity: 1, op: BuiltinOp::Log2 })).insert(
        "log10"@,
        (Function::Builtin { arity: 1, op: BuiltinOp::Log10 }),
    ).insert("log"@, (Function::Builtin { arity: 2, op: BuiltinOp::Log })).insert(
        "abs"@,
        (Function::Builtin { arity: 1, op: BuiltinOp::Abs }),
    ).insert("floor"@, (Function::Builtin { arity: 1, op: BuiltinOp::Floor })).insert(
        "ceil"@,
        (Function::Builtin { arity: 1, op: BuiltinOp::Ceil }),
    ).insert("round"@, (Function::Builtin { arity: 1, op: BuiltinOp::Round })).insert(
        "sqrt"@,
        (Function::Builtin { arity: 1, op: BuiltinOp::Sqrt }),
    ).insert("exp"@, (Function::Builtin { arity: 1, op: BuiltinOp::Exp })).insert(
        "min"@,
        (Function::Builtin { arity: 2, op: BuiltinOp::Min }),
    ).insert("max"@, (Function::Builtin { arity: 2, op: BuiltinOp::Max }))
}

/// The mutable state of one evaluation run or session: variable bindings and
/// the function table, in two separate namespaces.
pub struct Context {
    vars: Vec<(String, Number)>,
    funcs: Vec<(String, Function)>,
}

impl Context {
    pub closed spec fn vars_map(&self) -> Map<Seq<char>, Number> {
        assoc_map(self.vars@)
    }

    pub closed spec fn funcs_map(&self) -> Map<Seq<char>, Function> {
        assoc_map(self.funcs@)
    }

    /// Both tables keep one entry per name, and every stored function is
    /// itself well formed.
    pub closed spec fn wf(&self) -> bool {
        &&& keys_unique(self.vars@)
        &&& keys_unique(self.funcs@)
        &&& forall|i: int| 0 <= i < self.funcs@.len() ==> fn_wf((#[trigger] self.funcs@[i]).1)
    }

    /// A fresh context: the circle and natural-log base constants as
    /// ordinary variables, and the builtin function table.
    pub fn new() -> (c: Context)
        ensures
            c.wf(),
            c.funcs_map() == builtin_funcs(),
            c.vars_map().contains_key("pi"@),
            c.vars_map().contains_key("e"@),
    {
        let mut c = Context { vars: Vec::new(), funcs: Vec::new() };
        proof {
            assert(c.vars@.len() == 0);
            assert(c.funcs@.len() == 0);
        }
        c.set_var("pi", Number::pi());
        c.set_var("e", Number::euler());
        c.register_function("sin", Function::new_builtin(1, BuiltinOp::Sin));
        c.register_function("cos", Function::new_builtin(1, BuiltinOp::Cos));
        c.register_function("tan", Function::new_builtin(1, BuiltinOp::Tan));
        c.register_function("asin", Function::new_builtin(1, BuiltinOp::Asin));
        c.register_function("acos", Function::new_builtin(1, BuiltinOp::Acos));
        c.register_function("atan", Function::new_builtin(1, BuiltinOp::Atan));
        c.register_function("sinh", Function::new_builtin(1, BuiltinOp::Sinh));
        c.register_function("cosh", Function::new_builtin(1, BuiltinOp::Cosh));
        c.register_function("tanh", Function::new_builtin(1, BuiltinOp::Tanh));
        c.register_function("ln", Function::new_builtin(1, BuiltinOp::Ln));
        c.register_function("log2", Function::new_builtin(1, BuiltinOp::Log2));
        c.register_function("log10", Function::new_builtin(1, BuiltinOp::Log10));
        c.register_function("log", Function::new_builtin(2, BuiltinOp::Log));
        c.register_function("abs", Function::new_builtin(1, BuiltinOp::Abs));
        c.register_function("floor", Function::new_builtin(1, BuiltinOp::Floor));
        c.register_function("ceil", Function::new_builtin(1, BuiltinOp::Ceil));
        c.register_function("round", Function::new_builtin(1, BuiltinOp::Round));
        c.register_function("sqrt", Function::new_builtin(1, BuiltinOp::Sqrt));
        c.register_function("exp", Function::new_builtin(1, BuiltinOp::Exp));
        c.register_function("min", Function::new_builtin(2, BuiltinOp::Min));
        c.register_function("max", Function::new_builtin(2, BuiltinOp::Max));
        proof {
            assert(c.funcs_map() =~= builtin_funcs());
        }
        c
    }

    /// Looks a variable up in the active scope.
    pub fn get_var(&self, name: &str) -> (r: Option<Number>)
        requires
            self.wf(),
        ensures
            match r {
                Some(v) => self.vars_map().contains_key(name@) && v == self.vars_map()[name@],
                None => !self.vars_map().contains_key(name@),
            },
    {
        proof {
            lemma_assoc_contains(self.vars@, name@);
        }
        match find_idx(&self.vars, name) {
            Some(i) => {
                proof {
                    lemma_assoc_get(self.vars@, i as int);
                }
                Some(self.vars[i].1)
            },
            None => None,
        }
    }

    /// Binds `name` to `val` in the active scope, overwriting any prior
    /// value.
    pub fn set_var(&mut self, name: &str, val: Number)
        requires
            old(self).wf(),
        ensures
            final(self).wf(),
            final(self).vars_map() == old(self).vars_map().insert(name@, val),
            final(self).funcs_map() == old(self).funcs_map(),
    {
        let entry = (name.to_owned(), val);
        match find_idx(&self.vars, name) {
            Some(i) => {
                proof {
                    lemma_assoc_update(self.vars@, i as int, entry);
                }
                vstd::std_specs::core::index_set(&mut self.vars, i, entry);
            },
            None => {
                proof {
                    lemma_assoc_push(self.vars@, entry);
                    let s = self.vars@.push(entry);
                    assert forall|i: int, j: int| 0 <= i < j < s.len() implies (#[trigger] s[i]).0@
                        != (#[trigger] s[j]).0@ by {
                        if j < s.len() - 1 {
                            assert(s[i] == self.vars@[i]);
                            assert(s[j] == self.vars@[j]);
                        } else {
                            assert(s[i] == self.vars@[i]);
                        }
                    }
                }
                self.vars.push(entry);
            },
        }
    }

    /// Puts `f` under `name` in the function table, overwriting any prior
    /// entry.
    fn register_function(&mut self, name: &str, f: Function)
        requires
            old(self).wf(),
            fn_wf(f),
        ensures
            final(self).wf(),
            final(self).funcs_map() == old(self).funcs_map().insert(name@, f),
            final(self).vars_map() == old(self).vars_map(),
    {
        let entry = (name.to_owned(), f);
        match find_idx(&self.funcs, name) {
            Some(i) => {
                proof {
                    lemma_assoc_update(self.funcs@, i as int, entry);
                    let s = self.funcs@.update(i as int, entry);
                    assert forall|k: int| 0 <= k < s.len() implies fn_wf((#[trigger] s[k]).1) by {
                        if k != i {
                            assert(s[k] == self.funcs@[k]);
                        }
                    }
                }
                vstd::std_specs::core::index_set(&mut self.funcs, i, entry);
            },
            None => {
                proof {
                    lemma_assoc_push(self.funcs@, entry);
                    let s = self.funcs@.push(entry);
                    assert forall|i: int, j: int| 0 <= i < j < s.len() implies (#[trigger] s[i]).0@
                        != (#[trigger] s[j]).0@ by {
                        if j < s.len() - 1 {
                            assert(s[i] == self.funcs@[i]);
                            assert(s[j] == self.funcs@[j]);
                        } else {
                            assert(s[i] == self.funcs@[i]);
                        }
                    }
                    assert forall|k: int| 0 <= k < s.len() implies fn_wf((#[trigger] s[k]).1) by {
                        if k < s.len() - 1 {
                            assert(s[k] == self.funcs@[k]);
                        }
                    }
                }
                self.funcs.push(entry);
            },
        }
    }

    /// Adds a function for an embedder, refusing to overwrite a builtin or a
    /// previously defined function, and refusing duplicate parameter names.
    pub fn add_function(&mut self, name: &str, f: Function) -> (r: Result<(), EvalError>)
        requires
            old(self).wf(),
        ensures
            final(self).wf(),
            final(self).vars_map() == old(self).vars_map(),
            old(self).funcs_map().contains_key(name@) ==> (r matches Err(e) && e
                matches EvalError::FunctionAlreadyDefined(n) && n@ == name@ && final(self).funcs_map() == old(self).funcs_map()),
            !old(self).funcs_map().contains_key(name@) && !fn_wf(f) ==> (r matches Err(e) && e
                matches EvalError::DuplicateParameterName(_) && final(self).funcs_map() == old(self).funcs_map()),
            !old(self).funcs_map().contains_key(name@) && fn_wf(f) ==> (r matches Ok(_) && final(self).funcs_map() == old(self).funcs_map().insert(name@, f)),
    {
        proof {
            lemma_assoc_contains(self.funcs@, name@);
        }
        if find_idx(&self.funcs, name).is_some() {
            return Err(EvalError::FunctionAlreadyDefined(name.to_owned()));
        }
        match &f {
            Function::UserDefined { params, .. } => {
                if let Some(dup) = find_duplicate_name(rc_deref(params)) {
                    return Err(EvalError::DuplicateParameterName(dup));
                }
            },
            Function::Builtin { .. } => {},
        }
        self.register_function(name, f);
        Ok(())
    }

    /// Resolves a function by name, handing out a copy that shares the
    /// stored parameter list and body.
    pub fn get_function(&self, name: &str) -> (r: Option<Function>)
        requires
            self.wf(),
        ensures
            match r {
                Some(f) => self.funcs_map().contains_key(name@) && f == self.funcs_map()[name@]
                    && fn_wf(f),
                None => !self.funcs_map().contains_key(name@),
            },
    {
        proof {
            lemma_assoc_contains(self.funcs@, name@);
        }
        match find_idx(&self.funcs, name) {
            Some(i) => {
                proof {
                    lemma_assoc_get(self.funcs@, i as int);
                }
                Some(clone_function(&self.funcs[i].1))
            },
            None => None,
        }
    }
}

/// The round trip of assignment: after binding a name to a value — which is
/// what evaluating an assignment does to `vars_map`, and what `set_var`
/// does — looking the name up yields exactly that value, and every other
/// name keeps its binding.
pub proof fn lemma_assign_round_trip(
    m: Map<Seq<char>, Number>,
    name: Seq<char>,
    v: Number,
    other: Seq<char>,
)
    ensures
        m.insert(name, v).contains_key(name),
        m.insert(name, v)[name] == v,
        other != name && m.contains_key(other) ==> m.insert(name, v).contains_key(other)
            && m.insert(name, v)[other] == m[other],
{
}

/// Finds a name that occurs twice, if any.
fn find_duplicate_name(v: &Vec<String>) -> (r: Option<String>)
    ensures
        r is Some <==> !names_unique(v@),
{
    let mut i: usize = 1;
    if v.len() < 2 {
        return None;
    }
    while i < v.len()
        invariant
            1 <= i <= v@.len(),
            forall|p: int, q: int| 0 <= p < q < i ==> (#[trigger] v@[p])@ != (#[trigger] v@[q])@,
        decreases v@.len() - i,
    {
        let mut j: usize = 0;
        while j < i
            invariant
                0 <= j <= i < v@.len(),
                forall|q: int| 0 <= q < j ==> (#[trigger] v@[q])@ != v@[i as int]@,
            decreases i - j,
        {
            if str_eq(v[j].as_str(), v[i].as_str()) {
                return Some(v[i].clone());
            }
            j += 1;
        }
        i += 1;
    }
    None
}

fn find_idx<V>(s: &Vec<(String, V)>, name: &str) -> (r: Option<usize>)
    ensures
        match r {
            Some(i) => i < s@.len() && s@[i as int].0@ == name@,
            None => forall|i: int| 0 <= i < s@.len() ==> (#[trigger] s@[i]).0@ != name@,
        },
{
    let mut i: usize = 0;
    while i < s.len()
        invariant
            i <= s@.len(),
            forall|k: int| 0 <= k < i ==> (#[trigger] s@[k]).0@ != name@,
        decreases s@.len() - i,
    {
        if str_eq(s[i].0.as_str(), name) {
            return Some(i);
        }
        i += 1;
    }
    None
}

/// How many arguments each native computation takes.
pub open spec fn builtin_arity(op: BuiltinOp) -> int {
    match op {
        BuiltinOp::Log | BuiltinOp::Min | BuiltinOp::Max | BuiltinOp::Add => 2,
        _ => 1,
    }
}

/// What a native computation returns on evaluated argument values.
pub open spec fn spec_apply_builtin(op: BuiltinOp, args: Seq<Number>) -> Result<
    Number,
    EvalErrorV,
> {
    if args.len() != builtin_arity(op) {
        Err(EvalErrorV::WrongArity { expected: builtin_arity(op), got: args.len() as int })
    } else {
        match op {
            BuiltinOp::Sin => Ok(Number { big: crate::num::sin_of(args[0].big) }),
            BuiltinOp::Cos => Ok(Number { big: crate::num::cos_of(args[0].big) }),
            BuiltinOp::Tan => Ok(Number { big: crate::num::tan_of(args[0].big) }),
            BuiltinOp::Asin => Ok(Number { big: crate::num::asin_of(args[0].big) }),
            BuiltinOp::Acos => Ok(Number { big: crate::num::acos_of(args[0].big) }),
            BuiltinOp::Atan => Ok(Number { big: crate::num::atan_of(args[0].big) }),
            BuiltinOp::Sinh => Ok(Number { big: crate::num::sinh_of(args[0].big) }),
            BuiltinOp::Cosh => Ok(Number { big: crate::num::cosh_of(args[0].big) }),
            BuiltinOp::Tanh => Ok(Number { big: crate::num::tanh_of(args[0].big) }),
            BuiltinOp::Ln => Ok(Number { big: crate::num::ln_of(args[0].big) }),
            BuiltinOp::Log2 => Ok(Number { big: crate::num::log2_of(args[0].big) }),
            BuiltinOp::Log10 => Ok(Number { big: crate::num::log10_of(args[0].big) }),
            BuiltinOp::Log => Ok(Number { big: crate::num::logb_of(args[0].big, args[1].big) }),
            BuiltinOp::Abs => Ok(Number { big: crate::num::abs_of(args[0].big) }),
            BuiltinOp::Floor => Ok(Number { big: crate::num::floor_of(args[0].big) }),
            BuiltinOp::Ceil => Ok(Number { big: crate::num::ceil_of(args[0].big) }),
            BuiltinOp::Round => Ok(Number { big: crate::num::round_of(args[0].big) }),
            BuiltinOp::Sqrt => if crate::num::is_negative_of(args[0].big) {
                Err(EvalErrorV::DomainError)
            } else {
                Ok(Number { big: crate::num::sqrt_of(args[0].big) })
            },
            BuiltinOp::Exp => Ok(Number { big: crate::num::exp_of(args[0].big) }),
            BuiltinOp::Min => if crate::num::lt_of(args[1].big, args[0].big) {
                Ok(args[1])
            } else {
                Ok(args[0])
            },
            BuiltinOp::Max => if crate::num::lt_of(args[0].big, args[1].big) {
                Ok(args[1])
            } else {
                Ok(args[0])
            },
            BuiltinOp::Add => Ok(Number { big: crate::num::add_of(args[0].big, args[1].big) }),
        }
    }
}

/// Runs a native computation on already evaluated argument values.
///
/// The square root of a negative number is a domain error; everything else
/// follows the wrapped arithmetic, with division by zero and out-of-domain
/// arguments of the other functions handed to the arithmetic itself.
pub fn apply_builtin(op: BuiltinOp, args: &Vec<Number>) -> (r: Result<Number, EvalError>)
    ensures
        res_view(r) == spec_apply_builtin(op, args@),
{
    let expected: usize = match op {
        BuiltinOp::Log | BuiltinOp::Min | BuiltinOp::Max | BuiltinOp::Add => 2,
        _ => 1,
    };
    if args.len() != expected {
        return Err(EvalError::WrongArity { expected, got: args.len() });
    }
    match op {
        BuiltinOp::Sin => Ok(args[0].sin()),
        BuiltinOp::Cos => Ok(args[0].cos()),
        BuiltinOp::Tan => Ok(args[0].tan()),
        BuiltinOp::Asin => Ok(args[0].asin()),
        BuiltinOp::Acos => Ok(args[0].acos()),
        BuiltinOp::Atan => Ok(args[0].atan()),
        BuiltinOp::Sinh => Ok(args[0].sinh()),
        BuiltinOp::Cosh => Ok(args[0].cosh()),
        BuiltinOp::Tanh => Ok(args[0].tanh()),
        BuiltinOp::Ln => Ok(args[0].ln()),
        BuiltinOp::Log2 => Ok(args[0].log2()),
        BuiltinOp::Log10 => Ok(args[0].log10()),
        BuiltinOp::Log => Ok(args[0].logb(&args[1])),
        BuiltinOp::Abs => Ok(args[0].abs()),
        BuiltinOp::Floor => Ok(args[0].floor()),
        BuiltinOp::Ceil => Ok(args[0].ceil()),
        BuiltinOp::Round => Ok(args[0].round()),
        BuiltinOp::Sqrt => {
            if args[0].is_negative() {
                Err(EvalError::DomainError(String::from_str("sqrt of a negative number")))
            } else {
                Ok(args[0].sqrt())
            }
        },
        BuiltinOp::Exp => Ok(args[0].exp()),
        BuiltinOp::Min => {
            if args[1].lt(&args[0]) {
                Ok(args[1])
            } else {
                Ok(args[0])
            }
        },
        BuiltinOp::Max => {
            if args[0].lt(&args[1]) {
                Ok(args[1])
            } else {
                Ok(args[0])
            }
        },
        BuiltinOp::Add => Ok(args[0].add(&args[1])),
    }
}

/// The zero every blank block and function definition evaluates to.
pub open spec fn zero_num() -> Number {
    Number { big: crate::num::zero_of(()) }
}

/// The remainder of truncating division at the mathematical level.
pub open spec fn spec_modulo(a: Number, b: Number) -> Result<Number, EvalErrorV> {
    if crate::num::is_zero_of(b.big) {
        Err(EvalErrorV::ModuloByZero)
    } else {
        Ok(Number { big: crate::num::rem_of(a.big, b.big) })
    }
}

/// The value of one binary operator node on its operands' values.
pub open spec fn binop_result(ast: ASTV, a: Number, b: Number) -> Result<Number, EvalErrorV> {
    match ast {
        ASTV::Add(_, _) => Ok(Number { big: crate::num::add_of(a.big, b.big) }),
        ASTV::Subtract(_, _) => Ok(Number { big: crate::num::sub_of(a.big, b.big) }),
        ASTV::Multiply(_, _) => Ok(Number { big: crate::num::mul_of(a.big, b.big) }),
        ASTV::Divide(_, _) => Ok(Number { big: crate::num::div_of(a.big, b.big) }),
        ASTV::Modulo(_, _) => spec_modulo(a, b),
        ASTV::Power(_, _) => Ok(Number { big: crate::num::pow_of(a.big, b.big) }),
        _ => vstd::pervasive::arbitrary(),
    }
}

/// The fresh scope of a user-defined call: parameters bound positionally.
pub open spec fn bind_params(params: Seq<Seq<char>>, vals: Seq<Number>) -> Map<Seq<char>, Number>
    decreases params.len(),
{
    if params.len() == 0 || vals.len() == 0 {
        Map::empty()
    } else {
        bind_params(params.drop_last(), vals.drop_last()).insert(params.last(), vals.last())
    }
}

/// What evaluating one tree leaves behind: the result and the two tables.
pub struct EvalOutcome {
    pub result: Result<Number, EvalErrorV>,
    pub vars: Map<Seq<char>, Number>,
    pub funcs: Map<Seq<char>, FunctionV>,
}

/// What evaluating an argument list leaves behind.
pub struct ArgsOutcome {
    pub result: Result<Seq<Number>, EvalErrorV>,
    pub vars: Map<Seq<char>, Number>,
    pub funcs: Map<Seq<char>, FunctionV>,
}

/// Evaluation at the mathematical level: from a tree and the two tables to
/// the result and the tables after it. `depth` counts the user-defined calls
/// still allowed; `evaluate` is proved to return exactly this outcome.
pub open spec fn spec_eval(
    ast: ASTV,
    vars: Map<Seq<char>, Number>,
    funcs: Map<Seq<char>, FunctionV>,
    depth: nat,
) -> EvalOutcome
    decreases depth, ast, 1int,
{
    match ast {
        ASTV::Lines(ls) => spec_eval_lines(ls, 0, vars, funcs, depth, zero_num()),
        ASTV::Number(s) => EvalOutcome {
            result: if crate::num::literal_shape(s) {
                Ok(Number { big: crate::num::lit_of(s) })
            } else {
                Err(EvalErrorV::InvalidNumberLiteral(s))
            },
            vars,
            funcs,
        },
        ASTV::Variable(name) => EvalOutcome {
            result: if vars.contains_key(name) {
                Ok(vars[name])
            } else {
                Err(EvalErrorV::UndefinedVariable(name))
            },
            vars,
            funcs,
        },
        ASTV::Add(l, r) => {
            let o1 = spec_eval(*l, vars, funcs, depth);
            match o1.result {
                Err(_) => o1,
                Ok(a) => {
                    let o2 = spec_eval(*r, o1.vars, o1.funcs, depth);
                    match o2.result {
                        Err(_) => o2,
                        Ok(b) => EvalOutcome {
                            result: binop_result(ast, a, b),
                            vars: o2.vars,
                            funcs: o2.funcs,
                        },
                    }
                },
            }
        },
        ASTV::Subtract(l, r) => {
            let o1 = spec_eval(*l, vars, funcs, depth);
            match o1.result {
                Err(_) => o1,
                Ok(a) => {
                    let o2 = spec_eval(*r, o1.vars, o1.funcs, depth);
                    match o2.result {
                        Err(_) => o2,
                        Ok(b) => EvalOutcome {
                            result: binop_result(ast, a, b),
                            vars: o2.vars,
                            funcs: o2.funcs,
                        },
                    }
                },
            }
        },
        ASTV::Multiply(l, r) => {
            let o1 = spec_eval(*l, vars, funcs, depth);
            match o1.result {
                Err(_) => o1,
                Ok(a) => {
                    let o2 = spec_eval(*r, o1.vars, o1.funcs, depth);
                    match o2.result {
                        Err(_) => o2,
                        Ok(b) => EvalOutcome {
                            result: binop_result(ast, a, b),
                            vars: o2.vars,
                            funcs: o2.funcs,
                        },
                    }
                },
            }
        },
        ASTV::Divide(l, r) => {
            let o1 = spec_eval(*l, vars, funcs, depth);
            match o1.result {
                Err(_) => o1,
                Ok(a) => {
                    let o2 = spec_eval(*r, o1.vars, o1.funcs, depth);
                    match o2.result {
                        Err(_) => o2,
                        Ok(b) => EvalOutcome {
                            result: binop_result(ast, a, b),
                            vars: o2.vars,
                            funcs: o2.funcs,
                        },
                    }
                },
            }
        },
        ASTV::Modulo(l, r) => {
            let o1 = spec_eval(*l, vars, funcs, depth);
            match o1.result {
                Err(_) => o1,
                Ok(a) => {
                    let o2 = spec_eval(*r, o1.vars, o1.funcs, depth);
                    match o2.result {
                        Err(_) => o2,
                        Ok(b) => EvalOutcome {
                            result: binop_result(ast, a, b),
                            vars: o2.vars,
                            funcs: o2.funcs,
                        },
                    }
                },
            }
        },
        ASTV::Power(l, r) => {
            let o1 = spec_eval(*l, vars, funcs, depth);
            match o1.result {
                Err(_) => o1,
                Ok(a) => {
                    let o2 = spec_eval(*r, o1.vars, o1.funcs, depth);
                    match o2.result {
                        Err(_) => o2,
                        Ok(b) => EvalOutcome {
                            result: binop_result(ast, a, b),
                            vars: o2.vars,
                            funcs: o2.funcs,
                        },
                    }
                },
            }
        },
        ASTV::UnaryMinus(e) => {
            let o = spec_eval(*e, vars, funcs, depth);
            match o.result {
                Err(_) => o,
                Ok(v) => EvalOutcome {
                    result: Ok(Number { big: crate::num::neg_of(v.big) }),
                    vars: o.vars,
                    funcs: o.funcs,
                },
            }
        },
        ASTV::Brackets(e) => spec_eval(*e, vars, funcs, depth),
        ASTV::Assign(name, e) => {
            let o = spec_eval(*e, vars, funcs, depth);
            match o.result {
                Err(_) => o,
                Ok(v) => EvalOutcome { result: Ok(v), vars: o.vars.insert(name, v), funcs: o.funcs },
            }
        },
        ASTV::FunctionCall(name, args) => {
            if !funcs.contains_key(name) {
                EvalOutcome { result: Err(EvalErrorV::UndefinedFunction(name)), vars, funcs }
            } else if args.len() != arity_v(funcs[name]) {
                EvalOutcome {
                    result: Err(
                        EvalErrorV::WrongArity {
                            expected: arity_v(funcs[name]),
                            got: args.len() as int,
                        },
                    ),
                    vars,
                    funcs,
                }
            } else {
                let ao = spec_eval_args(args, 0, vars, funcs, depth, Seq::empty());
                match ao.result {
                    Err(e) => EvalOutcome { result: Err(e), vars: ao.vars, funcs: ao.funcs },
                    Ok(vals) => match funcs[name] {
                        FunctionV::Builtin { op, .. } => EvalOutcome {
                            result: spec_apply_builtin(op, vals),
                            vars: ao.vars,
                            funcs: ao.funcs,
                        },
                        FunctionV::UserDefined { params, body } => if depth == 0 {
                            EvalOutcome {
                                result: Err(EvalErrorV::RecursionLimitReached),
                                vars: ao.vars,
                                funcs: ao.funcs,
                            }
                        } else {
                            let ob = spec_eval(
                                body,
                                bind_params(params, vals),
                                ao.funcs,
                                (depth - 1) as nat,
                            );
                            EvalOutcome { result: ob.result, vars: ao.vars, funcs: ob.funcs }
                        },
                    },
                }
            }
        },
        ASTV::FunctionDefinition { name, arg_names, body } => {
            if names_unique_v(arg_names) {
                EvalOutcome {
                    result: Ok(zero_num()),
                    vars,
                    funcs: funcs.insert(
                        name,
                        FunctionV::UserDefined { params: arg_names, body: *body },
                    ),
                }
            } else {
                EvalOutcome { result: Err(EvalErrorV::DuplicateParameterName), vars, funcs }
            }
        },
        ASTV::IfStatement { condition, body, else_body } => {
            let oc = spec_eval(*condition, vars, funcs, depth);
            match oc.result {
                Err(_) => oc,
                Ok(c) => if !crate::num::is_zero_of(c.big) {
                    spec_eval(*body, oc.vars, oc.funcs, depth)
                } else {
                    match else_body {
                        Some(e) => spec_eval(*e, oc.vars, oc.funcs, depth),
                        None => EvalOutcome {
                            result: Ok(zero_num()),
                            vars: oc.vars,
                            funcs: oc.funcs,
                        },
                    }
                },
            }
        },
    }
}

/// Evaluation of a block from line `i` on: each statement for its side
/// effects, the last non-blank statement's value as the block's value.
pub open spec fn spec_eval_lines(
    ls: Seq<Option<ASTV>>,
    i: int,
    vars: Map<Seq<char>, Number>,
    funcs: Map<Seq<char>, FunctionV>,
    depth: nat,
    acc: Number,
) -> EvalOutcome
    decreases depth, ls, ls.len() - i,
{
    if i < 0 || i >= ls.len() {
        EvalOutcome { result: Ok(acc), vars, funcs }
    } else {
        match ls[i] {
            None => spec_eval_lines(ls, i + 1, vars, funcs, depth, acc),
            Some(st) => {
                let o = spec_eval(st, vars, funcs, depth);
                match o.result {
                    Err(_) => o,
                    Ok(v) => spec_eval_lines(ls, i + 1, o.vars, o.funcs, depth, v),
                }
            },
        }
    }
}

/// Evaluation of a call's arguments from index `i` on, left to right in the
/// caller's scope.
pub open spec fn spec_eval_args(
    args: Seq<ASTV>,
    i: int,
    vars: Map<Seq<char>, Number>,
    funcs: Map<Seq<char>, FunctionV>,
    depth: nat,
    acc: Seq<Number>,
) -> ArgsOutcome
    decreases depth, args, args.len() - i,
{
    if i < 0 || i >= args.len() {
        ArgsOutcome { result: Ok(acc), vars, funcs }
    } else {
        let o = spec_eval(args[i], vars, funcs, depth);
        match o.result {
            Err(e) => ArgsOutcome { result: Err(e), vars: o.vars, funcs: o.funcs },
            Ok(v) => spec_eval_args(args, i + 1, o.vars, o.funcs, depth, acc.push(v)),
        }
    }
}

pub proof fn lemma_names_unique(s: Seq<String>)
    ensures
        names_unique(s) <==> names_unique_v(names_view(s)),
{
    if names_unique(s) {
        assert forall|i: int, j: int| 0 <= i < j < names_view(s).len() implies names_view(s)[i]
            != names_view(s)[j] by {
            assert(names_view(s)[i] == s[i]@);
            assert(names_view(s)[j] == s[j]@);
        }
    }
    if names_unique_v(names_view(s)) {
        assert forall|i: int, j: int| 0 <= i < j < s.len() implies (#[trigger] s[i])@ != (
        #[trigger] s[j])@ by {
            assert(names_view(s)[i] == s[i]@);
            assert(names_view(s)[j] == s[j]@);
        }
    }
}

/// A scope vector binding each parameter to its value stands for exactly the
/// map `bind_params` describes.
pub proof fn lemma_bind_params(
    scope: Seq<(String, Number)>,
    params: Seq<String>,
    vals: Seq<Number>,
)
    requires
        scope.len() == params.len(),
        vals.len() == params.len(),
        forall|i: int|
            0 <= i < scope.len() ==> (#[trigger] scope[i]).0@ == params[i]@ && scope[i].1
                == vals[i],
    ensures
        assoc_map(scope) == bind_params(names_view(params), vals),
    decreases scope.len(),
{
    assert(names_view(params).len() == params.len());
    if scope.len() == 0 {
    } else {
        assert(forall|i: int| 0 <= i < scope.len() - 1 ==> scope.drop_last()[i] == scope[i]);
        assert(forall|i: int| 0 <= i < params.len() - 1 ==> params.drop_last()[i] == params[i]);
        assert(forall|i: int| 0 <= i < vals.len() - 1 ==> vals.drop_last()[i] == vals[i]);
        lemma_bind_params(scope.drop_last(), params.drop_last(), vals.drop_last());
        assert(names_view(params.drop_last()) =~= names_view(params).drop_last());
        assert(names_view(params).last() == params.last()@);
        assert(scope.last().0@ == params[params.len() - 1]@);
        assert(scope.last().1 == vals[vals.len() - 1]);
    }
}

/// The context after one evaluation equals the spec-level outcome.
pub open spec fn eval_rel(post: Context, r: Result<Number, EvalError>, o: EvalOutcome) -> bool {
    &&& res_view(r) == o.result
    &&& post.vars_map() == o.vars
    &&& funcs_view(post.funcs_map()) == o.funcs
}

/// What one evaluation step guarantees, beyond well-formedness of the
/// context:
/// - evaluating an expression never changes the variable bindings;
/// - a literal yields exactly the number its text denotes;
/// - a variable yields its binding, or fails exactly when it has none;
/// - an assignment whose right side succeeds binds that value to the name;
/// - a definition with distinct parameters registers the function and yields
///   zero, and one with a duplicate parameter name fails and changes
///   nothing;
/// - a call of an unknown name fails as such, and a call with the wrong
///   number of arguments fails as such;
/// - a block of blank lines yields zero and changes nothing.
pub open spec fn eval_post(
    ast: AST,
    pre: Context,
    post: Context,
    r: Result<Number, EvalError>,
) -> bool {
    &&& post.wf()
    &&& (crate::parser::is_expr(ast) ==> post.vars_map() == pre.vars_map())
    &&& (ast matches AST::Number(s) ==> post.vars_map() == pre.vars_map() && post.funcs_map()
        == pre.funcs_map() && (match r {
        Ok(n) => crate::num::literal_shape(s@) && n.big == crate::num::lit_of(s@),
        Err(e) => !crate::num::literal_shape(s@) && (e matches EvalError::InvalidNumberLiteral(t)
            && t@ == s@),
    }))
    &&& (ast matches AST::Variable(name) ==> post.vars_map() == pre.vars_map() && post.funcs_map()
        == pre.funcs_map() && (match r {
        Ok(v) => pre.vars_map().contains_key(name@) && v == pre.vars_map()[name@],
        Err(e) => !pre.vars_map().contains_key(name@) && (e matches EvalError::UndefinedVariable(n)
            && n@ == name@),
    }))
    &&& (ast matches AST::Assign(name, e) ==> (crate::parser::is_expr(*e) ==> (r matches Ok(v)
        ==> post.vars_map() == pre.vars_map().insert(name@, v))))
    &&& (ast matches AST::FunctionDefinition { name, arg_names, body } ==> (match r {
        Ok(n) => names_unique(arg_names@) && crate::num::is_zero_of(n.big) && post.vars_map()
            == pre.vars_map() && post.funcs_map() == pre.funcs_map().insert(
            name@,
            (Function::UserDefined { params: arg_names, body }),
        ),
        Err(e) => !names_unique(arg_names@) && (e matches EvalError::DuplicateParameterName(_))
            && post.vars_map() == pre.vars_map() && post.funcs_map() == pre.funcs_map(),
    }))
    &&& (ast matches AST::FunctionCall(name, args) ==> {
        &&& (!pre.funcs_map().contains_key(name@) ==> (r matches Err(e) && (e
            matches EvalError::UndefinedFunction(n) && n@ == name@)))
        &&& (pre.funcs_map().contains_key(name@) && args@.len() != arity_of(
            pre.funcs_map()[name@],
        ) ==> (r matches Err(e) && e matches EvalError::WrongArity { .. }))
    })
    &&& (ast matches AST::Lines(ls) ==> ((forall|i: int|
        0 <= i < ls@.len() ==> (#[trigger] ls@[i]) is None) ==> (r matches Ok(n)
        && crate::num::is_zero_of(n.big) && post.vars_map() == pre.vars_map() && post.funcs_map()
        == pre.funcs_map())))
}

pub const MAX_CALL_DEPTH: u64 = 1000;

/// Evaluates a tree against a context.
///
/// Nested user-defined calls deeper than `MAX_CALL_DEPTH` fail with a
/// recursion error rather than exhausting the host's stack.
pub fn evaluate(ast: &AST, ctx: &mut Context) -> (r: Result<Number, EvalError>)
    requires
        old(ctx).wf(),
    ensures
        eval_post(*ast, *old(ctx), *final(ctx), r),
        eval_rel(
            *final(ctx),
            r,
            spec_eval(
                ast_view(*ast),
                old(ctx).vars_map(),
                funcs_view(old(ctx).funcs_map()),
                MAX_CALL_DEPTH as nat,
            ),
        ),
{
    eval_node(ast, ctx, MAX_CALL_DEPTH)
}

fn eval_node(ast: &AST, ctx: &mut Context, depth: u64) -> (r: Result<Number, EvalError>)
    requires
        old(ctx).wf(),
    ensures
        eval_post(*ast, *old(ctx), *final(ctx), r),
        eval_rel(
            *final(ctx),
            r,
            spec_eval(
                ast_view(*ast),
                old(ctx).vars_map(),
                funcs_view(old(ctx).funcs_map()),
                depth as nat,
            ),
        ),
    decreases depth, *ast, 1int,
{
    match ast {
        AST::Lines(ls) => eval_lines(ls, ctx, depth),
        AST::Number(s) => {
            if !crate::num::check_literal(s.as_str()) {
                return Err(EvalError::InvalidNumberLiteral(s.clone()));
            }
            match Number::from_literal(s.as_str()) {
                Some(n) => Ok(n),
                None => vstd::pervasive::unreached(),
            }
        },
        AST::Variable(name) => {
            match ctx.get_var(name.as_str()) {
                Some(v) => Ok(v),
                None => Err(EvalError::UndefinedVariable(name.clone())),
            }
        },
        AST::Add(l, r2) => {
            let a = eval_node(l, ctx, depth)?;
            let b = eval_node(r2, ctx, depth)?;
            Ok(a.add(&b))
        },
        AST::Subtract(l, r2) => {
            let a = eval_node(l, ctx, depth)?;
            let b = eval_node(r2, ctx, depth)?;
            Ok(a.sub(&b))
        },
        AST::Multiply(l, r2) => {
            let a = eval_node(l, ctx, depth)?;
            let b = eval_node(r2, ctx, depth)?;
            Ok(a.mul(&b))
        },
        AST::Divide(l, r2) => {
            let a = eval_node(l, ctx, depth)?;
            let b = eval_node(r2, ctx, depth)?;
            Ok(a.div(&b))
        },
        AST::Modulo(l, r2) => {
            let a = eval_node(l, ctx, depth)?;
            let b = eval_node(r2, ctx, depth)?;
            eval_modulo(&a, &b)
        },
        AST::Power(l, r2) => {
            let a = eval_node(l, ctx, depth)?;
            let b = eval_node(r2, ctx, depth)?;
            Ok(a.pow(&b))
        },
        AST::UnaryMinus(e) => {
            let v = eval_node(e, ctx, depth)?;
            Ok(v.neg())
        },
        AST::Brackets(e) => eval_node(e, ctx, depth),
        AST::Assign(name, e) => {
            let v = eval_node(e, ctx, depth)?;
            ctx.set_var(name.as_str(), v);
            Ok(v)
        },
        AST::FunctionCall(name, args) => eval_call(ast, name, args, ctx, depth),
        AST::FunctionDefinition { name, arg_names, body } => {
            proof {
                lemma_names_unique(arg_names@);
            }
            match find_duplicate_name(rc_deref(arg_names)) {
                Some(dup) => Err(EvalError::DuplicateParameterName(dup)),
                None => {
                    let ghost m = ctx.funcs_map();
                    let f = Function::UserDefined {
                        params: rc_clone(arg_names),
                        body: rc_clone(body),
                    };
                    proof {
                        lemma_funcs_view_insert(m, name@, f);
                    }
                    ctx.register_function(name.as_str(), f);
                    Ok(Number::zero())
                },
            }
        },
        AST::IfStatement { condition, body, else_body } => {
            let c = eval_node(condition, ctx, depth)?;
            if !c.is_zero() {
                eval_node(body, ctx, depth)
            } else {
                match else_body {
                    Some(e) => eval_node(e, ctx, depth),
                    None => Ok(Number::zero()),
                }
            }
        },
    }
}

/// Resolves the callee, checks the argument count against its arity,
/// evaluates the arguments in the caller's scope, and then runs a builtin
/// directly or a user-defined body in a fresh scope that binds the
/// parameters positionally. The function table is shared with that scope;
/// the caller's variables are not.
#[verifier::loop_isolation(false)]
fn eval_call(
    ast: &AST,
    name: &String,
    args: &Vec<AST>,
    ctx: &mut Context,
    depth: u64,
) -> (r: Result<Number, EvalError>)
    requires
        old(ctx).wf(),
        *ast == AST::FunctionCall(*name, *args),
    ensures
        eval_post(*ast, *old(ctx), *final(ctx), r),
        eval_rel(
            *final(ctx),
            r,
            spec_eval(
                ast_view(*ast),
                old(ctx).vars_map(),
                funcs_view(old(ctx).funcs_map()),
                depth as nat,
            ),
        ),
    decreases depth, *ast, 0int,
{
    let ghost argsv = crate::parser::args_view(args@);
    let ghost m0 = old(ctx).vars_map();
    let ghost f0 = funcs_view(old(ctx).funcs_map());
    let ghost d = depth as nat;
    proof {
        crate::parser::lemma_args_view(args@);
    }
    let f = match ctx.get_function(name.as_str()) {
        Some(f) => f,
        None => {
            return Err(EvalError::UndefinedFunction(name.clone()));
        },
    };
    let arity: usize = match &f {
        Function::Builtin { arity, .. } => *arity,
        Function::UserDefined { params, .. } => rc_deref(params).len(),
    };
    if args.len() != arity {
        return Err(EvalError::WrongArity { expected: arity, got: args.len() });
    }
    let mut vals: Vec<Number> = Vec::new();
    let mut j: usize = 0;
    while j < args.len()
        invariant
            j <= args@.len(),
            vals@.len() == j,
            ctx.wf(),
            crate::parser::is_expr(*ast) ==> ctx.vars_map() == old(ctx).vars_map(),
            spec_eval_args(argsv, 0, m0, f0, d, Seq::empty()) == spec_eval_args(
                argsv,
                j as int,
                ctx.vars_map(),
                funcs_view(ctx.funcs_map()),
                d,
                vals@,
            ),
        decreases args@.len() - j,
    {
        proof {
            if crate::parser::is_expr(*ast) {
                assert(forall|q: int|
                    0 <= q < args@.len() ==> crate::parser::is_expr(#[trigger] args@[q]));
                assert(crate::parser::is_expr(args@[j as int]));
            }
            assert(argsv[j as int] == ast_view(args@[j as int]));
        }
        let v = eval_node(&args[j], ctx, depth)?;
        vals.push(v);
        j += 1;
    }
    match f {
        Function::Builtin { op, .. } => apply_builtin(op, &vals),
        Function::UserDefined { params, body } => {
            if depth == 0 {
                return Err(EvalError::RecursionLimitReached);
            }
            let ps = rc_deref(&params);
            let mut scope: Vec<(String, Number)> = Vec::new();
            let mut k: usize = 0;
            while k < ps.len()
                invariant
                    k <= ps@.len(),
                    ps@.len() == vals@.len(),
                    scope@.len() == k,
                    forall|q: int|
                        0 <= q < k ==> (#[trigger] scope@[q]).0@ == ps@[q]@ && scope@[q].1
                            == vals@[q],
                decreases ps@.len() - k,
            {
                scope.push((ps[k].clone(), vals[k]));
                k += 1;
            }
            proof {
                assert(names_unique(ps@));
                assert forall|p: int, q: int| 0 <= p < q < scope@.len() implies (
                #[trigger] scope@[p]).0@ != (#[trigger] scope@[q]).0@ by {
                    assert(ps@[p]@ != ps@[q]@);
                }
                lemma_bind_params(scope@, ps@, vals@);
            }
            core::mem::swap(&mut ctx.vars, &mut scope);
            let res = eval_node(rc_deref(&body), ctx, depth - 1);
            core::mem::swap(&mut ctx.vars, &mut scope);
            res
        },
    }
}

#[verifier::loop_isolation(false)]
fn eval_lines(ls: &Vec<Option<AST>>, ctx: &mut Context, depth: u64) -> (r: Result<
    Number,
    EvalError,
>)
    requires
        old(ctx).wf(),
    ensures
        final(ctx).wf(),
        (forall|i: int| 0 <= i < ls@.len() ==> (#[trigger] ls@[i]) is None) ==> (r matches Ok(n)
            && crate::num::is_zero_of(n.big) && final(ctx).vars_map() == old(ctx).vars_map()
            && final(ctx).funcs_map() == old(ctx).funcs_map()),
        eval_rel(
            *final(ctx),
            r,
            spec_eval_lines(
                crate::parser::lines_view(ls@),
                0,
                old(ctx).vars_map(),
                funcs_view(old(ctx).funcs_map()),
                depth as nat,
                zero_num(),
            ),
        ),
    decreases depth, *ls, 0int,
{
    let ghost lv = crate::parser::lines_view(ls@);
    let ghost m0 = old(ctx).vars_map();
    let ghost f0 = funcs_view(old(ctx).funcs_map());
    let ghost d = depth as nat;
    proof {
        crate::parser::lemma_lines_view(ls@);
    }
    let mut result = Number::zero();
    let mut i: usize = 0;
    while i < ls.len()
        invariant
            i <= ls@.len(),
            ctx.wf(),
            (forall|k: int| 0 <= k < i ==> (#[trigger] ls@[k]) is None) ==> (crate::num::is_zero_of(
                result.big,
            ) && ctx.vars_map() == old(ctx).vars_map() && ctx.funcs_map() == old(ctx).funcs_map()),
            spec_eval_lines(lv, 0, m0, f0, d, zero_num()) == spec_eval_lines(
                lv,
                i as int,
                ctx.vars_map(),
                funcs_view(ctx.funcs_map()),
                d,
                result,
            ),
        decreases ls@.len() - i,
    {
        match &ls[i] {
            Some(stmt) => {
                result = eval_node(stmt, ctx, depth)?;
            },
            None => {},
        }
        i += 1;
    }
    Ok(result)
}

/// The remainder of truncating division; a zero divisor is a hard error for
/// any dividend.
pub fn eval_modulo(a: &Number, b: &Number) -> (r: Result<Number, EvalError>)
    ensures
        crate::num::is_zero_of(b.big) <==> (r matches Err(e) && e is ModuloByZero),
        !crate::num::is_zero_of(b.big) ==> (r matches Ok(n) && n.big == crate::num::rem_of(
            a.big,
            b.big,
        )),
        res_view(r) == spec_modulo(*a, *b),
{
    if b.is_zero() {
        Err(EvalError::ModuloByZero)
    } else {
        Ok(a.rem(b))
    }
}

} // verus!
