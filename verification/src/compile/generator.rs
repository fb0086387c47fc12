use vstd::prelude::*;

use crate::syntax::ast::{models, Number, SExp, SpecAtom, SpecSExp};

verus! {

broadcast use {
    vstd::seq::axiom_seq_index_decreases,
    vstd::std_specs::vec::axiom_vec_decreases_to_view,
    vstd::std_specs::vec::axiom_vec_index_decreases,
};

/// The arithmetic operators.
#[derive(Clone, Copy, Debug, PartialEq, Eq)]
pub enum OP {
    Add,
    Sub,
    Mul,
    Div,
}

/// Where a definition puts its variable.
#[derive(Clone, Copy, Debug, PartialEq, Eq)]
pub enum ScopeType {
    Closure,
    Local,
    Global,
}

/// Code that computes a float: a constant, a load of a global variable, or
/// the constant folding of an operator over two such pieces.
#[derive(Debug, PartialEq)]
pub enum FloatCode {
    Const(Number),
    Load(String),
    Fold(OP, Box<FloatCode>, Box<FloatCode>),
}

pub enum SpecFloat {
    Const(Number),
    Load(Seq<char>),
    Fold(OP, Box<SpecFloat>, Box<SpecFloat>),
}

impl FloatCode {
    pub open spec fn model(&self) -> SpecFloat
        decreases self,
    {
        match self {
            FloatCode::Const(n) => SpecFloat::Const(*n),
            FloatCode::Load(s) => SpecFloat::Load(s@),
            FloatCode::Fold(op, a, b) => SpecFloat::Fold(*op, Box::new(a.model()), Box::new(b.model())),
        }
    }

    /// A copy of this code.
    pub fn copy_code(&self) -> (r: FloatCode)
        ensures
            r.model() == self.model(),
        decreases self,
    {
        match self {
            FloatCode::Const(n) => FloatCode::Const(*n),
            FloatCode::Load(s) => FloatCode::Load(s.clone()),
            FloatCode::Fold(op, a, b) => {
                let a2 = (**a).copy_code();
                let b2 = (**b).copy_code();
                FloatCode::Fold(*op, Box::new(a2), Box::new(b2))
            },
        }
    }
}

impl View for FloatCode {
    type V = SpecFloat;

    open spec fn view(&self) -> SpecFloat {
        self.model()
    }
}

/// What an expression compiles to: float code, the null pointer `NIL`, or
/// one of the booleans `T` and `F`.
#[derive(Debug, PartialEq)]
pub enum Value {
    Float(FloatCode),
    Nil,
    True,
    False,
}

pub enum SpecValue {
    Float(SpecFloat),
    Nil,
    True,
    False,
}

impl View for Value {
    type V = SpecValue;

    open spec fn view(&self) -> SpecValue {
        match self {
            Value::Float(f) => SpecValue::Float(f@),
            Value::Nil => SpecValue::Nil,
            Value::True => SpecValue::True,
            Value::False => SpecValue::False,
        }
    }
}

impl Value {
    pub fn copy_value(&self) -> (r: Value)
        ensures
            r@ == self@,
    {
        match self {
            Value::Float(f) => Value::Float(f.copy_code()),
            Value::Nil => Value::Nil,
            Value::True => Value::True,
            Value::False => Value::False,
        }
    }
}

/// The errors that compiling reports, each with its message.
#[derive(Clone, Copy, Debug, PartialEq, Eq)]
pub enum CompileError {
    /// A dotted pair where an expression is expected (`"shiran"`).
    Shiran,
    /// A call whose head is not a symbol (`"inv call"`).
    InvCall,
    /// An unknown function (`"func"`).
    Func,
    /// A missing or superfluous argument (`""`).
    Empty,
    /// A definition without a value (`"damene"`).
    Damene,
    /// An unbound symbol (`"nai"`).
    Nai,
}

impl CompileError {
    /// The message that the compiler reports.
    pub fn message(&self) -> (r: &'static str)
        ensures
            r@ == spec_message(*self),
    {
        proof {
            reveal_strlit("shiran");
            reveal_strlit("inv call");
            reveal_strlit("func");
            reveal_strlit("");
            reveal_strlit("damene");
            reveal_strlit("nai");
        }
        match self {
            CompileError::Shiran => "shiran",
            CompileError::InvCall => "inv call",
            CompileError::Func => "func",
            CompileError::Empty => "",
            CompileError::Damene => "damene",
            CompileError::Nai => "nai",
        }
    }
}

pub open spec fn spec_message(e: CompileError) -> Seq<char> {
    match e {
        CompileError::Shiran => seq!['s', 'h', 'i', 'r', 'a', 'n'],
        CompileError::InvCall => seq!['i', 'n', 'v', ' ', 'c', 'a', 'l', 'l'],
        CompileError::Func => seq!['f', 'u', 'n', 'c'],
        CompileError::Empty => Seq::empty(),
        CompileError::Damene => seq!['d', 'a', 'm', 'e', 'n', 'e'],
        CompileError::Nai => seq!['n', 'a', 'i'],
    }
}

/// The builtin values that are not floats: `NIL`, `T` and `F`.
#[derive(Clone, Copy, Debug, PartialEq, Eq)]
pub enum Builtin {
    Nil,
    True,
    False,
}

/// Inputs on which the compiler stops the program.
#[derive(Clone, Copy, Debug, PartialEq, Eq)]
pub enum Abort {
    /// Not implemented: a one-element or empty list, a list headed by a
    /// list, or a definition in a closure scope.
    NotImplemented,
    /// Unreachable: an operand of arithmetic that is not a float.
    Unreachable,
    /// A global variable whose value is not a float but the builtin given.
    NotAFloat(Builtin),
}

/// The outcome of compiling an expression.
#[derive(Debug, PartialEq)]
pub enum Outcome {
    Value(Value),
    Error(CompileError),
    Abort(Abort),
}

pub enum SpecOutcome {
    Value(SpecValue),
    Error(CompileError),
    Abort(Abort),
}

impl View for Outcome {
    type V = SpecOutcome;

    open spec fn view(&self) -> SpecOutcome {
        match self {
            Outcome::Value(v) => SpecOutcome::Value(v@),
            Outcome::Error(e) => SpecOutcome::Error(*e),
            Outcome::Abort(a) => SpecOutcome::Abort(*a),
        }
    }
}

/// What compiling does to the code generator, in order.  The loads of
/// global variables are not among them: a load is float code
/// (`FloatCode::Load`), built only where the value it loads is used, so a
/// global looked up for a value that is then discarded is never loaded.
#[derive(Debug, PartialEq)]
pub enum Effect {
    /// A global variable named `name` (upper case), initialised by the code.
    DefineGlobal(String, FloatCode),
    /// A stack slot named `name`, holding the value.
    StoreLocal(String, Value),
    /// A call of `llvm.stacksave`, whose result is pushed on the stack of
    /// saved stack pointers.
    StackSave,
    /// A call of `llvm.stackrestore` with the stack pointer popped from the
    /// stack of saved stack pointers.
    StackRestore,
    /// The trace that `let*` prints: its bindings and its body.
    TraceLet(Vec<SExp>, Vec<SExp>),
}

pub enum SpecEffect {
    DefineGlobal(Seq<char>, SpecFloat),
    StoreLocal(Seq<char>, SpecValue),
    StackSave,
    StackRestore,
    TraceLet(Seq<SpecSExp>, Seq<SpecSExp>),
}

impl View for Effect {
    type V = SpecEffect;

    open spec fn view(&self) -> SpecEffect {
        match self {
            Effect::DefineGlobal(n, f) => SpecEffect::DefineGlobal(n@, f@),
            Effect::StoreLocal(n, v) => SpecEffect::StoreLocal(n@, v@),
            Effect::StackSave => SpecEffect::StackSave,
            Effect::StackRestore => SpecEffect::StackRestore,
            Effect::TraceLet(h, t) => SpecEffect::TraceLet(models(h@), models(t@)),
        }
    }
}

pub open spec fn effects_model(v: Seq<Effect>) -> Seq<SpecEffect> {
    Seq::new(v.len(), |i: int| v[i]@)
}

/// A run of the compiler: its outcome, the effects it had, and the global
/// variables that the module holds afterwards.
pub struct SpecRun {
    pub outcome: SpecOutcome,
    pub effects: Seq<SpecEffect>,
    pub globals: Seq<Seq<char>>,
}

pub open spec fn run_of(outcome: SpecOutcome, effects: Seq<SpecEffect>, globals: Seq<Seq<char>>) -> SpecRun {
    SpecRun { outcome, effects, globals }
}

/// `c.to_ascii_uppercase()`.
pub open spec fn upper_char(c: char) -> char {
    if 97 <= c as u32 <= 122 {
        ((c as u32) - 32) as char
    } else {
        c
    }
}

/// `s.to_ascii_uppercase()`.
pub open spec fn ascii_upper(s: Seq<char>) -> Seq<char> {
    Seq::new(s.len(), |i: int| upper_char(s[i]))
}

/// The builtin symbols: `NIL`, `T` and `F`.
pub open spec fn spec_builtin(name: Seq<char>) -> Option<SpecValue> {
    if name == seq!['N', 'I', 'L'] {
        Some(SpecValue::Nil)
    } else if name == seq!['T'] {
        Some(SpecValue::True)
    } else if name == seq!['F'] {
        Some(SpecValue::False)
    } else {
        None
    }
}

/// `symbol()`: a global variable of that name (in upper case), else a
/// builtin, else the error `"nai"`.
pub open spec fn spec_symbol_value(g: Seq<Seq<char>>, s: Seq<char>) -> SpecOutcome {
    let u = ascii_upper(s);
    if g.contains(u) {
        SpecOutcome::Value(SpecValue::Float(SpecFloat::Load(u)))
    } else {
        match spec_builtin(u) {
            Some(v) => SpecOutcome::Value(v),
            None => SpecOutcome::Error(CompileError::Nai),
        }
    }
}

/// `atom()`.
pub open spec fn spec_atom_value(g: Seq<Seq<char>>, a: SpecAtom) -> SpecOutcome {
    match a {
        SpecAtom::Number(n) => SpecOutcome::Value(SpecValue::Float(SpecFloat::Const(n))),
        SpecAtom::Symbol(s) => spec_symbol_value(g, s),
    }
}

/// `expr()`.
pub open spec fn spec_expr(g: Seq<Seq<char>>, e: SpecSExp) -> SpecRun
    decreases e, 0int, 0int,
{
    match e {
        SpecSExp::Atom(a) => run_of(spec_atom_value(g, a), Seq::empty(), g),
        SpecSExp::Dotted(_, _) => run_of(SpecOutcome::Error(CompileError::Shiran), Seq::empty(), g),
        SpecSExp::List(v) => if v.len() == 1 {
            run_of(SpecOutcome::Abort(Abort::NotImplemented), Seq::empty(), g)
        } else if v.len() >= 2 && v[0] is Atom {
            spec_call(g, v)
        } else {
            run_of(SpecOutcome::Abort(Abort::NotImplemented), Seq::empty(), g)
        },
    }
}

/// `call()`: a call whose head is a symbol.
pub open spec fn spec_call(g: Seq<Seq<char>>, v: Seq<SpecSExp>) -> SpecRun
    decreases v, 5int, 0int,
{
    if v.len() > 0 {
        match v[0] {
            SpecSExp::Atom(SpecAtom::Symbol(s)) => spec_find_function(g, s, v),
            _ => run_of(SpecOutcome::Error(CompileError::InvCall), Seq::empty(), g),
        }
    } else {
        run_of(SpecOutcome::Error(CompileError::InvCall), Seq::empty(), g)
    }
}

/// `find_function()`: the builtin functions, by their exact names.
pub open spec fn spec_find_function(g: Seq<Seq<char>>, s: Seq<char>, v: Seq<SpecSExp>) -> SpecRun
    decreases v, 4int, 0int,
{
    if s == seq!['+'] {
        spec_fold_op(g, OP::Add, v)
    } else if s == seq!['-'] {
        spec_fold_op(g, OP::Sub, v)
    } else if s == seq!['*'] {
        spec_fold_op(g, OP::Mul, v)
    } else if s == seq!['/'] {
        spec_fold_op(g, OP::Div, v)
    } else if s == seq!['l', 'e', 't', '*'] {
        spec_let_local(g, v)
    } else if s == seq!['d', 'e', 'f', '!'] {
        spec_def_var(g, v, 1, ScopeType::Global)
    } else {
        run_of(SpecOutcome::Error(CompileError::Func), Seq::empty(), g)
    }
}

/// `fold_op()` on the arguments `v[1..]`: the first must compile to a float;
/// each later one that compiles to a float is folded in, and the others that
/// fail are passed over.
pub open spec fn spec_fold_op(g: Seq<Seq<char>>, op: OP, v: Seq<SpecSExp>) -> SpecRun
    decreases v, 3int, 0int,
{
    if v.len() < 2 {
        run_of(SpecOutcome::Error(CompileError::Empty), Seq::empty(), g)
    } else {
        let r = spec_expr(g, v[1]);
        match r.outcome {
            SpecOutcome::Value(SpecValue::Float(f)) => {
                let rest = spec_fold_rest(r.globals, op, f, v, 2);
                run_of(rest.outcome, r.effects + rest.effects, rest.globals)
            },
            SpecOutcome::Value(_) => run_of(
                SpecOutcome::Abort(Abort::Unreachable),
                r.effects,
                r.globals,
            ),
            o => run_of(o, r.effects, r.globals),
        }
    }
}

/// The fold over `v[i..]`, with `acc` folded so far.
pub open spec fn spec_fold_rest(
    g: Seq<Seq<char>>,
    op: OP,
    acc: SpecFloat,
    v: Seq<SpecSExp>,
    i: int,
) -> SpecRun
    decreases v, 2int, v.len() - i,
{
    if !(0 <= i < v.len()) {
        run_of(SpecOutcome::Value(SpecValue::Float(acc)), Seq::empty(), g)
    } else {
        let r = spec_expr(g, v[i]);
        match r.outcome {
            SpecOutcome::Value(SpecValue::Float(f)) => {
                let rest = spec_fold_rest(
                    r.globals,
                    op,
                    SpecFloat::Fold(op, Box::new(acc), Box::new(f)),
                    v,
                    i + 1,
                );
                run_of(rest.outcome, r.effects + rest.effects, rest.globals)
            },
            SpecOutcome::Value(_) => run_of(
                SpecOutcome::Abort(Abort::Unreachable),
                r.effects,
                r.globals,
            ),
            SpecOutcome::Error(_) => {
                let rest = spec_fold_rest(r.globals, op, acc, v, i + 1);
                run_of(rest.outcome, r.effects + rest.effects, rest.globals)
            },
            SpecOutcome::Abort(a) => run_of(SpecOutcome::Abort(a), r.effects, r.globals),
        }
    }
}

/// `let_local()`: `(let* (name value) ...)` prints its bindings and body,
/// saves the stack pointer, and defines `name` in a closure scope.
pub open spec fn spec_let_local(g: Seq<Seq<char>>, v: Seq<SpecSExp>) -> SpecRun
    decreases v, 3int, 0int,
{
    if v.len() >= 2 && v[1] is List {
        let s = v[1]->List_0;
        let d = spec_def_var(g, s, 0, ScopeType::Closure);
        run_of(
            d.outcome,
            seq![SpecEffect::TraceLet(s, v.subrange(2, v.len() as int)), SpecEffect::StackSave]
                + d.effects,
            d.globals,
        )
    } else {
        run_of(SpecOutcome::Error(CompileError::InvCall), Seq::empty(), g)
    }
}

/// `alloca_and_store()`.
pub open spec fn spec_store(
    g: Seq<Seq<char>>,
    val: SpecValue,
    name: Seq<char>,
    scope: ScopeType,
) -> SpecRun {
    match scope {
        ScopeType::Closure => run_of(SpecOutcome::Abort(Abort::NotImplemented), Seq::empty(), g),
        ScopeType::Local => run_of(
            SpecOutcome::Value(val),
            seq![SpecEffect::StoreLocal(name, val)],
            g,
        ),
        ScopeType::Global => match val {
            SpecValue::Float(f) => run_of(
                SpecOutcome::Value(val),
                seq![SpecEffect::DefineGlobal(ascii_upper(name), f)],
                g.push(ascii_upper(name)),
            ),
            SpecValue::Nil => run_of(SpecOutcome::Abort(Abort::NotAFloat(Builtin::Nil)), Seq::empty(), g),
            SpecValue::True => run_of(SpecOutcome::Abort(Abort::NotAFloat(Builtin::True)), Seq::empty(), g),
            SpecValue::False => run_of(SpecOutcome::Abort(Abort::NotAFloat(Builtin::False)), Seq::empty(), g),
        },
    }
}

/// `def_var()` on `w[from..]`: a symbol, then a value, and nothing more.
/// The value is compiled before the symbol is checked, and the variable is
/// stored before a superfluous argument is reported.
pub open spec fn spec_def_var(g: Seq<Seq<char>>, w: Seq<SpecSExp>, from: int, scope: ScopeType) -> SpecRun
    decreases w, 2int, 0int,
{
    if !(0 <= from < w.len()) {
        run_of(SpecOutcome::Error(CompileError::Empty), Seq::empty(), g)
    } else if w.len() <= from + 1 {
        run_of(SpecOutcome::Error(CompileError::Damene), Seq::empty(), g)
    } else {
        let r = spec_expr(g, w[from + 1]);
        match r.outcome {
            SpecOutcome::Value(val) => match w[from] {
                SpecSExp::Atom(SpecAtom::Symbol(name)) => {
                    let st = spec_store(r.globals, val, name, scope);
                    let out = match st.outcome {
                        SpecOutcome::Value(_) => if w.len() > from + 2 {
                            SpecOutcome::Error(CompileError::Empty)
                        } else {
                            SpecOutcome::Value(val)
                        },
                        o => o,
                    };
                    run_of(out, r.effects + st.effects, st.globals)
                },
                _ => run_of(SpecOutcome::Error(CompileError::Empty), r.effects, r.globals),
            },
            o => run_of(o, r.effects, r.globals),
        }
    }
}

/// The compiler's knowledge of the module: the global variables it holds,
/// and the stack pointers it has saved and not yet restored.
pub struct Generator {
    pub(crate) globals: Vec<String>,
    /// The saved stack pointers, oldest first, each named by the number of
    /// saves made before it.
    pub(crate) saved: Ghost<Seq<nat>>,
    /// How many times the stack pointer has been saved.
    pub(crate) saves: Ghost<nat>,
}

impl View for Generator {
    type V = Seq<Seq<char>>;

    closed spec fn view(&self) -> Seq<Seq<char>> {
        Seq::new(self.globals@.len(), |i: int| self.globals@[i]@)
    }
}

impl Generator {
    /// The stack pointers saved and not yet restored, oldest first; the
    /// pointer of the `k`-th save (counting from 0) is named `k`.
    pub closed spec fn saved_stack(&self) -> Seq<nat> {
        self.saved@
    }

    /// How many times the stack pointer has been saved.
    pub closed spec fn save_count(&self) -> nat {
        self.saves@
    }
}

/// How many times a run of effects saves the stack pointer.
pub open spec fn saves_in(effects: Seq<SpecEffect>) -> nat
    decreases effects.len(),
{
    if effects.len() == 0 {
        0
    } else {
        saves_in(effects.drop_last()) + if effects.last() is StackSave {
            1nat
        } else {
            0nat
        }
    }
}

/// The names of `k` saves made one after another, the first named `from`.
pub open spec fn fresh_ids(from: nat, k: nat) -> Seq<nat> {
    Seq::new(k, |i: int| (from + i) as nat)
}

/// How the saved stack pointers follow a run of effects that saves and does
/// not restore: each save pushes a pointer named by the count of saves.
pub open spec fn saves_follow(before: Generator, after: Generator, effects: Seq<SpecEffect>) -> bool {
    &&& after.save_count() == before.save_count() + saves_in(effects)
    &&& after.saved_stack() == before.saved_stack() + fresh_ids(before.save_count(), saves_in(effects))
}

/// `llvm_stacksave()`: the stack pointer is pushed, named by the count of
/// saves, and the module's globals stay.
pub open spec fn saves_pointer(before: Generator, after: Generator) -> bool {
    &&& after@ == before@
    &&& after.saved_stack() == before.saved_stack().push(before.save_count())
    &&& after.save_count() == before.save_count() + 1
}

/// `llvm_stackrestore()`: the pointer saved last is popped, and the module's
/// globals stay.
pub open spec fn restores_pointer(before: Generator, after: Generator) -> bool {
    &&& after@ == before@
    &&& after.saved_stack() == before.saved_stack().drop_last()
    &&& after.save_count() == before.save_count()
}

/// How a call of the compiler relates to a run.
pub open spec fn ran(
    before: Generator,
    after: Generator,
    effects_before: Seq<Effect>,
    effects_after: Seq<Effect>,
    r: Outcome,
    run: SpecRun,
) -> bool {
    &&& after@ == run.globals
    &&& saves_follow(before, after, run.effects)
    &&& effects_model(effects_after) == effects_model(effects_before) + run.effects
    &&& r@ == run.outcome
}

pub proof fn lemma_saves_in_append(a: Seq<SpecEffect>, b: Seq<SpecEffect>)
    ensures
        saves_in(a + b) == saves_in(a) + saves_in(b),
    decreases b.len(),
{
    if b.len() == 0 {
        assert(a + b =~= a);
    } else {
        lemma_saves_in_append(a, b.drop_last());
        assert((a + b).drop_last() =~= a + b.drop_last());
        assert((a + b).last() == b.last());
    }
}

/// Nothing is saved by a run without saves.
pub broadcast proof fn lemma_no_fresh_ids(s: Seq<nat>, from: nat)
    ensures
        #[trigger] (s + fresh_ids(from, 0)) == s,
{
    assert(s + fresh_ids(from, 0) =~= s);
}

/// One effect saves once if it is a save.
pub proof fn lemma_saves_in_one(e: SpecEffect)
    ensures
        saves_in(seq![e]) == if e is StackSave {
            1nat
        } else {
            0nat
        },
{
    assert(seq![e].drop_last() =~= Seq::<SpecEffect>::empty());
    assert(saves_in(Seq::<SpecEffect>::empty()) == 0);
    assert(seq![e].last() == e);
}

/// Two runs one after the other save what each saves, in order.
pub proof fn lemma_saves_chain(
    g0: Generator,
    g1: Generator,
    g2: Generator,
    e1: Seq<SpecEffect>,
    e2: Seq<SpecEffect>,
)
    requires
        saves_follow(g0, g1, e1),
        saves_follow(g1, g2, e2),
    ensures
        saves_follow(g0, g2, e1 + e2),
{
    lemma_saves_in_append(e1, e2);
    let c = g0.save_count();
    let a = saves_in(e1);
    let b = saves_in(e2);
    assert(g0.saved_stack() + fresh_ids(c, a) + fresh_ids(c + a, b) =~= g0.saved_stack()
        + fresh_ids(c, a + b));
}

impl Generator {
    /// A compiler for a module without global variables.
    pub fn new() -> (r: Generator)
        ensures
            r@ == Seq::<Seq<char>>::empty(),
            r.saved_stack() == Seq::<nat>::empty(),
            r.save_count() == 0,
    {
        let r = Generator { globals: Vec::new(), saved: Ghost(Seq::empty()), saves: Ghost(0) };
        assert(r@ =~= Seq::<Seq<char>>::empty());
        r
    }

    /// Pushes the stack pointer that is saved now.
    pub(crate) fn push_saved(&mut self)
        ensures
            saves_pointer(*old(self), *final(self)),
    {
        proof {
            self.saved@ = self.saved@.push(self.saves@);
            self.saves@ = self.saves@ + 1;
        }
    }

    /// Pops the stack pointer saved last.
    pub(crate) fn pop_saved(&mut self)
        requires
            old(self).saved_stack().len() > 0,
        ensures
            restores_pointer(*old(self), *final(self)),
    {
        proof {
            self.saved@ = self.saved@.drop_last();
        }
    }

    /// Records a global variable that the module holds.
    pub fn add_known_global(&mut self, name: String)
        ensures
            final(self)@ == old(self)@.push(name@),
            final(self).saved_stack() == old(self).saved_stack(),
            final(self).save_count() == old(self).save_count(),
    {
        self.globals.push(name);
        assert(final(self)@ =~= old(self)@.push(name@));
    }

    /// Whether the module holds a global variable named `name`.
    pub fn has_global(&self, name: &String) -> (r: bool)
        ensures
            r == self@.contains(name@),
    {
        let mut i: usize = 0;
        while i < self.globals.len()
            invariant
                i <= self.globals@.len(),
                forall|j: int| 0 <= j < i ==> self@[j] != name@,
            decreases self.globals@.len() - i,
        {
            if self.globals[i] == *name {
                assert(self@[i as int] == name@);
                return true;
            }
            i = i + 1;
        }
        proof {
            if self@.contains(name@) {
                let j = choose|j: int| 0 <= j < self@.len() && self@[j] == name@;
                assert(self@[j] != name@);
            }
        }
        false
    }

    /// `expr()`: compiles an expression, appending its effects to `effects`.
    pub fn expr(&mut self, ast: &SExp, effects: &mut Vec<Effect>) -> (r: Outcome)
        ensures
            ran(*old(self), *final(self), old(effects)@, final(effects)@, r, spec_expr(old(self)@, ast@)),
        decreases ast, 0int,
    {
        broadcast use lemma_no_fresh_ids;

        match ast {
            SExp::Atom(v) => self.atom(v),
            SExp::List(v) => {
                proof {
                    crate::syntax::ast::lemma_list_model(*v);
                }
                if v.len() == 1 {
                    Outcome::Abort(Abort::NotImplemented)
                } else if v.len() >= 2 && is_atom(&v[0]) {
                    self.call(v, effects)
                } else {
                    Outcome::Abort(Abort::NotImplemented)
                }
            },
            SExp::Dotted(_, _) => Outcome::Error(CompileError::Shiran),
        }
    }
}

/// What evaluating a line does.
pub enum EvalAction {
    /// Nothing was read: an empty line is printed.
    Blank,
    /// The expression compiled to this value, which the function `lambda`
    /// returns and the interpreter runs.
    Return(Value),
    /// Compiling failed with this message.
    Report(&'static str),
    /// The compiler stops the program.
    Stop(Abort),
}

/// How the action relates to the outcome of compiling.
pub open spec fn action_agrees(r: EvalAction, outcome: SpecOutcome) -> bool {
    match outcome {
        SpecOutcome::Value(v) => r matches EvalAction::Return(w) && w@ == v,
        SpecOutcome::Error(e) => r matches EvalAction::Report(m) && m@ == spec_message(e),
        SpecOutcome::Abort(a) => r == EvalAction::Stop(a),
    }
}

impl Generator {
    /// The decisions of evaluating a line: nothing read prints an empty
    /// line; an expression is compiled, and its value is run, its error
    /// reported, or its abort carried out.
    pub fn eval(&mut self, ast: &Option<SExp>, effects: &mut Vec<Effect>) -> (r: EvalAction)
        ensures
            match ast {
                None => {
                    &&& r is Blank
                    &&& *final(self) == *old(self)
                    &&& final(effects)@ == old(effects)@
                },
                Some(e) => {
                    let run = spec_expr(old(self)@, e@);
                    &&& final(self)@ == run.globals
                    &&& saves_follow(*old(self), *final(self), run.effects)
                    &&& effects_model(final(effects)@) == effects_model(old(effects)@) + run.effects
                    &&& action_agrees(r, run.outcome)
                },
            },
    {
        match ast {
            None => EvalAction::Blank,
            Some(e) => match self.expr(e, effects) {
                Outcome::Value(v) => EvalAction::Return(v),
                Outcome::Error(err) => EvalAction::Report(err.message()),
                Outcome::Abort(a) => EvalAction::Stop(a),
            },
        }
    }
}

impl Default for Generator {
    fn default() -> (r: Generator)
        ensures
            r@ == Seq::<Seq<char>>::empty(),
            r.saved_stack() == Seq::<nat>::empty(),
            r.save_count() == 0,
    {
        Generator::new()
    }
}

pub fn is_atom(e: &SExp) -> (r: bool)
    ensures
        r == (e@ is Atom),
{
    match e {
        SExp::Atom(_) => true,
        _ => false,
    }
}

} // verus!
