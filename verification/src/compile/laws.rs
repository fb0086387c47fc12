use vstd::prelude::*;

use super::generator::{
    ran, restores_pointer, saves_in, saves_pointer, Effect, Generator, Outcome,
    ascii_upper, spec_call, spec_def_var, spec_expr, spec_find_function, spec_fold_op,
    spec_fold_rest, spec_let_local, spec_store, upper_char, ScopeType, SpecEffect, SpecFloat,
    SpecOutcome, SpecRun, SpecValue, OP,
};
use crate::syntax::ast::{SpecAtom, SpecSExp};

verus! {

/// Upper-casing a character twice is upper-casing it once.
pub proof fn lemma_upper_char_idempotent(c: char)
    ensures
        upper_char(upper_char(c)) == upper_char(c),
{
}

/// Upper-casing twice is upper-casing once.
pub proof fn law_ascii_upper_idempotent(s: Seq<char>)
    ensures
        ascii_upper(ascii_upper(s)) == ascii_upper(s),
{
    assert forall|i: int| 0 <= i < s.len() implies #[trigger] ascii_upper(ascii_upper(s))[i]
        == ascii_upper(s)[i] by {
        lemma_upper_char_idempotent(s[i]);
    }
    assert(ascii_upper(ascii_upper(s)) =~= ascii_upper(s));
}

/// Symbols are looked up without regard to ASCII case: a symbol compiles
/// exactly as its upper-case spelling does.
pub proof fn law_symbols_ignore_ascii_case(g: Seq<Seq<char>>, s: Seq<char>)
    ensures
        spec_expr(g, SpecSExp::Atom(SpecAtom::Symbol(s))) == spec_expr(
            g,
            SpecSExp::Atom(SpecAtom::Symbol(ascii_upper(s))),
        ),
{
    law_ascii_upper_idempotent(s);
}

/// A definition in a closure scope (the one `let*` makes) never succeeds:
/// it fails, or it stops at the store.
pub proof fn law_closure_definition_never_succeeds(g: Seq<Seq<char>>, w: Seq<SpecSExp>, from: int)
    ensures
        !(spec_def_var(g, w, from, ScopeType::Closure).outcome is Value),
{
}

/// The form `(def! name rhs)`.
pub open spec fn def_form(name: Seq<char>, rhs: SpecSExp) -> SpecSExp {
    SpecSExp::List(
        seq![
            SpecSExp::Atom(SpecAtom::Symbol(seq!['d', 'e', 'f', '!'])),
            SpecSExp::Atom(SpecAtom::Symbol(name)),
            rhs,
        ],
    )
}

/// What `(def! name rhs)` defines is found again: when the definition
/// succeeds, its value is float code `f`, its last effect defines the global
/// `NAME` (upper case) with `f`, and afterwards any spelling of the name that
/// upper-cases alike compiles to a load of that global.
pub proof fn law_definition_is_found_again(
    g: Seq<Seq<char>>,
    name: Seq<char>,
    alias: Seq<char>,
    rhs: SpecSExp,
)
    requires
        ascii_upper(alias) == ascii_upper(name),
    ensures
        ({
            let run = spec_expr(g, def_form(name, rhs));
            run.outcome matches SpecOutcome::Value(v) ==> {
                &&& v matches SpecValue::Float(f)
                &&& run.effects.len() > 0
                &&& run.effects.last() == SpecEffect::DefineGlobal(ascii_upper(name), f)
                &&& spec_expr(run.globals, SpecSExp::Atom(SpecAtom::Symbol(alias))).outcome
                    == SpecOutcome::Value(SpecValue::Float(SpecFloat::Load(ascii_upper(name))))
            }
        }),
{
    let e = def_form(name, rhs);
    let v = e->List_0;
    assert(v[0] == SpecSExp::Atom(SpecAtom::Symbol(seq!['d', 'e', 'f', '!'])));
    let run = spec_expr(g, e);
    assert(seq!['d', 'e', 'f', '!'] != seq!['+']);
    assert(seq!['d', 'e', 'f', '!'] != seq!['-']);
    assert(seq!['d', 'e', 'f', '!'] != seq!['*']);
    assert(seq!['d', 'e', 'f', '!'] != seq!['/']);
    assert(seq!['d', 'e', 'f', '!'] != seq!['l', 'e', 't', '*']);
    assert(run == spec_def_var(g, v, 1, ScopeType::Global));
    if run.outcome is Value {
        let r = spec_expr(g, v[2]);
        let val = r.outcome->Value_0;
        let st = spec_store(r.globals, val, name, ScopeType::Global);
        assert(run.globals == r.globals.push(ascii_upper(name)));
        assert(run.globals.contains(ascii_upper(name))) by {
            assert(run.globals[run.globals.len() - 1] == ascii_upper(name));
        }
        law_ascii_upper_idempotent(name);
    }
}

/// The names of the globals that a list of effects defines, in order.
pub open spec fn defined_names(effects: Seq<SpecEffect>) -> Seq<Seq<char>>
    decreases effects.len(),
{
    if effects.len() == 0 {
        Seq::empty()
    } else {
        defined_names(effects.drop_last()) + match effects.last() {
            SpecEffect::DefineGlobal(n, _) => seq![n],
            _ => Seq::empty(),
        }
    }
}

/// The names defined by two runs of effects, one after the other.
pub proof fn lemma_defined_names_append(a: Seq<SpecEffect>, b: Seq<SpecEffect>)
    ensures
        defined_names(a + b) == defined_names(a) + defined_names(b),
    decreases b.len(),
{
    if b.len() == 0 {
        assert(a + b =~= a);
        assert(defined_names(a) + defined_names(b) =~= defined_names(a));
    } else {
        lemma_defined_names_append(a, b.drop_last());
        assert((a + b).drop_last() =~= a + b.drop_last());
        assert((a + b).last() == b.last());
        let tail = match b.last() {
            SpecEffect::DefineGlobal(n, _) => seq![n],
            _ => Seq::empty(),
        };
        assert(defined_names(a) + defined_names(b.drop_last()) + tail =~= defined_names(a) + (
        defined_names(b.drop_last()) + tail));
    }
}

/// The globals a run leaves are those it found, followed by those its effects define.
pub open spec fn accounts(g: Seq<Seq<char>>, run: SpecRun) -> bool {
    run.globals == g + defined_names(run.effects)
}

proof fn lemma_accounts_empty(g: Seq<Seq<char>>)
    ensures
        g + defined_names(Seq::<SpecEffect>::empty()) == g,
{
    assert(g + defined_names(Seq::<SpecEffect>::empty()) =~= g);
}

proof fn lemma_accounts_chain(g: Seq<Seq<char>>, r1: SpecRun, r2: SpecRun)
    requires
        accounts(g, r1),
        accounts(r1.globals, r2),
    ensures
        r2.globals == g + defined_names(r1.effects + r2.effects),
{
    lemma_defined_names_append(r1.effects, r2.effects);
    assert(g + defined_names(r1.effects) + defined_names(r2.effects) =~= g + (defined_names(
        r1.effects,
    ) + defined_names(r2.effects)));
}

/// Compiling only ever adds globals, and announces each one it adds: the
/// module's globals afterwards are those before, followed by the names of the
/// `DefineGlobal` effects of the run, in order.
pub proof fn law_globals_follow_effects(g: Seq<Seq<char>>, e: SpecSExp)
    ensures
        accounts(g, spec_expr(g, e)),
    decreases e, 0int, 0int,
{
    lemma_accounts_empty(g);
    match e {
        SpecSExp::List(v) => {
            if v.len() >= 2 && v[0] is Atom {
                lemma_call_accounts(g, v);
            }
        },
        _ => {},
    }
}

proof fn lemma_call_accounts(g: Seq<Seq<char>>, v: Seq<SpecSExp>)
    ensures
        accounts(g, spec_call(g, v)),
    decreases v, 5int, 0int,
{
    lemma_accounts_empty(g);
    if v.len() > 0 {
        match v[0] {
            SpecSExp::Atom(SpecAtom::Symbol(s)) => lemma_find_accounts(g, s, v),
            _ => {},
        }
    }
}

proof fn lemma_find_accounts(g: Seq<Seq<char>>, s: Seq<char>, v: Seq<SpecSExp>)
    ensures
        accounts(g, spec_find_function(g, s, v)),
    decreases v, 4int, 0int,
{
    lemma_accounts_empty(g);
    if s == seq!['+'] {
        lemma_fold_accounts(g, OP::Add, v);
    } else if s == seq!['-'] {
        lemma_fold_accounts(g, OP::Sub, v);
    } else if s == seq!['*'] {
        lemma_fold_accounts(g, OP::Mul, v);
    } else if s == seq!['/'] {
        lemma_fold_accounts(g, OP::Div, v);
    } else if s == seq!['l', 'e', 't', '*'] {
        lemma_let_accounts(g, v);
    } else if s == seq!['d', 'e', 'f', '!'] {
        lemma_def_accounts(g, v, 1, ScopeType::Global);
    }
}

proof fn lemma_fold_accounts(g: Seq<Seq<char>>, op: OP, v: Seq<SpecSExp>)
    ensures
        accounts(g, spec_fold_op(g, op, v)),
    decreases v, 3int, 0int,
{
    lemma_accounts_empty(g);
    if v.len() >= 2 {
        let r = spec_expr(g, v[1]);
        law_globals_follow_effects(g, v[1]);
        match r.outcome {
            SpecOutcome::Value(SpecValue::Float(f)) => {
                lemma_fold_rest_accounts(r.globals, op, f, v, 2);
                lemma_accounts_chain(g, r, spec_fold_rest(r.globals, op, f, v, 2));
            },
            _ => {},
        }
    }
}

proof fn lemma_fold_rest_accounts(g: Seq<Seq<char>>, op: OP, acc: SpecFloat, v: Seq<SpecSExp>, i: int)
    ensures
        accounts(g, spec_fold_rest(g, op, acc, v, i)),
    decreases v, 2int, v.len() - i,
{
    lemma_accounts_empty(g);
    if 0 <= i < v.len() {
        let r = spec_expr(g, v[i]);
        law_globals_follow_effects(g, v[i]);
        match r.outcome {
            SpecOutcome::Value(SpecValue::Float(f)) => {
                let acc2 = SpecFloat::Fold(op, Box::new(acc), Box::new(f));
                lemma_fold_rest_accounts(r.globals, op, acc2, v, i + 1);
                lemma_accounts_chain(g, r, spec_fold_rest(r.globals, op, acc2, v, i + 1));
            },
            SpecOutcome::Error(_) => {
                lemma_fold_rest_accounts(r.globals, op, acc, v, i + 1);
                lemma_accounts_chain(g, r, spec_fold_rest(r.globals, op, acc, v, i + 1));
            },
            _ => {},
        }
    }
}

proof fn lemma_let_accounts(g: Seq<Seq<char>>, v: Seq<SpecSExp>)
    ensures
        accounts(g, spec_let_local(g, v)),
    decreases v, 3int, 0int,
{
    lemma_accounts_empty(g);
    if v.len() >= 2 && v[1] is List {
        let s = v[1]->List_0;
        let d = spec_def_var(g, s, 0, ScopeType::Closure);
        lemma_def_accounts(g, s, 0, ScopeType::Closure);
        let pre = seq![SpecEffect::TraceLet(s, v.subrange(2, v.len() as int)), SpecEffect::StackSave];
        lemma_defined_names_append(pre, d.effects);
        assert(defined_names(pre) =~= Seq::<Seq<char>>::empty()) by {
            let one = seq![SpecEffect::TraceLet(s, v.subrange(2, v.len() as int))];
            assert(pre.drop_last() =~= one);
            assert(one.drop_last() =~= Seq::<SpecEffect>::empty());
            assert(defined_names(one) =~= Seq::<Seq<char>>::empty());
        }
        assert(defined_names(pre) + defined_names(d.effects) =~= defined_names(d.effects));
    }
}

proof fn lemma_store_accounts(g: Seq<Seq<char>>, val: SpecValue, name: Seq<char>, scope: ScopeType)
    ensures
        accounts(g, spec_store(g, val, name, scope)),
{
    lemma_accounts_empty(g);
    let st = spec_store(g, val, name, scope);
    assert(st.effects.len() <= 1);
    if st.effects.len() == 1 {
        assert(st.effects.drop_last() =~= Seq::<SpecEffect>::empty());
    }
    assert(st.globals =~= g + defined_names(st.effects));
}

proof fn lemma_def_accounts(g: Seq<Seq<char>>, w: Seq<SpecSExp>, from: int, scope: ScopeType)
    ensures
        accounts(g, spec_def_var(g, w, from, scope)),
    decreases w, 2int, 0int,
{
    lemma_accounts_empty(g);
    if 0 <= from < w.len() && w.len() > from + 1 {
        let r = spec_expr(g, w[from + 1]);
        law_globals_follow_effects(g, w[from + 1]);
        match r.outcome {
            SpecOutcome::Value(val) => match w[from] {
                SpecSExp::Atom(SpecAtom::Symbol(name)) => {
                    lemma_store_accounts(r.globals, val, name, scope);
                    lemma_accounts_chain(g, r, spec_store(r.globals, val, name, scope));
                },
                _ => {},
            },
            _ => {},
        }
    }
}

proof fn lemma_fold_rest_is_float(g: Seq<Seq<char>>, op: OP, acc: SpecFloat, v: Seq<SpecSExp>, i: int)
    ensures
        spec_fold_rest(g, op, acc, v, i).outcome matches SpecOutcome::Value(x) ==> x is Float,
    decreases v.len() - i,
{
    if 0 <= i < v.len() {
        let r = spec_expr(g, v[i]);
        match r.outcome {
            SpecOutcome::Value(SpecValue::Float(f)) => {
                lemma_fold_rest_is_float(
                    r.globals,
                    op,
                    SpecFloat::Fold(op, Box::new(acc), Box::new(f)),
                    v,
                    i + 1,
                );
            },
            SpecOutcome::Error(_) => {
                lemma_fold_rest_is_float(r.globals, op, acc, v, i + 1);
            },
            _ => {},
        }
    }
}

/// Arithmetic that compiles gives float code: when folding an operator over
/// the arguments of `(+ ...)`, `(- ...)`, `(* ...)` or `(/ ...)` compiles to
/// a value, that value is a float.
pub proof fn law_arithmetic_compiles_to_float(g: Seq<Seq<char>>, op: OP, v: Seq<SpecSExp>)
    ensures
        spec_fold_op(g, op, v).outcome matches SpecOutcome::Value(x) ==> x is Float,
{
    if v.len() >= 2 {
        let r = spec_expr(g, v[1]);
        match r.outcome {
            SpecOutcome::Value(SpecValue::Float(f)) => {
                lemma_fold_rest_is_float(r.globals, op, f, v, 2);
            },
            _ => {},
        }
    }
}

/// The stack pointers are restored last in, first out: a restore right after
/// a save takes back the pointer that save pushed, and leaves the saved
/// pointers as they were before the save.
pub proof fn law_restore_undoes_save(before: Generator, saved: Generator, restored: Generator)
    requires
        saves_pointer(before, saved),
        restores_pointer(saved, restored),
    ensures
        saved.saved_stack().last() == before.save_count(),
        restored.saved_stack() == before.saved_stack(),
        restored@ == before@,
{
    assert(saved.saved_stack().drop_last() =~= before.saved_stack());
}

/// Compiling an expression only ever saves: the saved pointers afterwards
/// are those before, followed by one fresh pointer for each save among the
/// run's effects, in order; none is restored.
pub proof fn law_compiling_only_saves(
    before: Generator,
    after: Generator,
    effects_before: Seq<Effect>,
    effects_after: Seq<Effect>,
    r: Outcome,
    e: SpecSExp,
)
    requires
        ran(before, after, effects_before, effects_after, r, spec_expr(before@, e)),
    ensures
        after.saved_stack().subrange(0, before.saved_stack().len() as int) == before.saved_stack(),
        after.saved_stack().len() == before.saved_stack().len() + saves_in(spec_expr(before@, e).effects),
        forall|j: int|
            before.saved_stack().len() <= j < after.saved_stack().len() ==> #[trigger] after.saved_stack()[j]
                == before.save_count() + (j - before.saved_stack().len()),
{
    assert(after.saved_stack().subrange(0, before.saved_stack().len() as int) =~= before.saved_stack());
}

/// Upper-casing maps each ASCII lower-case letter to its capital, 32 below
/// it, and leaves every other character as it is.
pub proof fn law_ascii_upper_capitalises(s: Seq<char>)
    ensures
        ascii_upper(s).len() == s.len(),
        forall|i: int|
            0 <= i < s.len() && 97 <= (#[trigger] s[i]) as u32 <= 122 ==> ascii_upper(s)[i] as u32
                == s[i] as u32 - 32,
        forall|i: int|
            0 <= i < s.len() && !(97 <= (#[trigger] s[i]) as u32 <= 122) ==> ascii_upper(s)[i] == s[i],
{
}

/// Two spellings of a symbol that differ only in the ASCII case of their
/// letters compile alike: to a load of the same global, the same builtin or
/// the same error.
pub proof fn law_case_variants_compile_alike(g: Seq<Seq<char>>, s: Seq<char>, t: Seq<char>)
    requires
        s.len() == t.len(),
        forall|i: int|
            0 <= i < s.len() ==> {
                ||| #[trigger] s[i] == #[trigger] t[i]
                ||| 97 <= s[i] as u32 <= 122 && t[i] as u32 == s[i] as u32 - 32
                ||| 97 <= t[i] as u32 <= 122 && s[i] as u32 == t[i] as u32 - 32
            },
    ensures
        spec_expr(g, SpecSExp::Atom(SpecAtom::Symbol(s))) == spec_expr(
            g,
            SpecSExp::Atom(SpecAtom::Symbol(t)),
        ),
{
    law_ascii_upper_capitalises(s);
    law_ascii_upper_capitalises(t);
    assert forall|i: int| 0 <= i < s.len() implies ascii_upper(s)[i] == ascii_upper(t)[i] by {
        assert(s[i] == t[i] || (97 <= s[i] as u32 <= 122 && t[i] as u32 == s[i] as u32 - 32) || (97
            <= t[i] as u32 <= 122 && s[i] as u32 == t[i] as u32 - 32));
        if s[i] != t[i] {
            assert(ascii_upper(s)[i] as u32 == ascii_upper(t)[i] as u32);
        }
    }
    assert(ascii_upper(s) =~= ascii_upper(t));
}

/// A definition `(def! name rhs)` whose right-hand side compiles to float
/// code `f` always succeeds with `f`, whatever the module already holds (a
/// name defined before included): its effects are those of `rhs` followed
/// by the definition of the global `NAME`, which the module then holds.
pub proof fn law_definition_succeeds(g: Seq<Seq<char>>, name: Seq<char>, rhs: SpecSExp, f: SpecFloat)
    requires
        spec_expr(g, rhs).outcome == SpecOutcome::Value(SpecValue::Float(f)),
    ensures
        ({
            let r = spec_expr(g, rhs);
            let run = spec_expr(g, def_form(name, rhs));
            &&& run.outcome == SpecOutcome::Value(SpecValue::Float(f))
            &&& run.effects == r.effects.push(SpecEffect::DefineGlobal(ascii_upper(name), f))
            &&& run.globals == r.globals.push(ascii_upper(name))
        }),
{
    let e = def_form(name, rhs);
    let v = e->List_0;
    assert(v[0] == SpecSExp::Atom(SpecAtom::Symbol(seq!['d', 'e', 'f', '!'])));
    assert(seq!['d', 'e', 'f', '!'] != seq!['+']);
    assert(seq!['d', 'e', 'f', '!'] != seq!['-']);
    assert(seq!['d', 'e', 'f', '!'] != seq!['*']);
    assert(seq!['d', 'e', 'f', '!'] != seq!['/']);
    assert(seq!['d', 'e', 'f', '!'] != seq!['l', 'e', 't', '*']);
    assert(spec_expr(g, e) == spec_def_var(g, v, 1, ScopeType::Global));
    let r = spec_expr(g, rhs);
    assert(v[2] == rhs);
    assert(r.effects + seq![SpecEffect::DefineGlobal(ascii_upper(name), f)] =~= r.effects.push(
        SpecEffect::DefineGlobal(ascii_upper(name), f),
    ));
}

/// The form `(op a b)`.
pub open spec fn binary_form(op: Seq<char>, a: SpecSExp, b: SpecSExp) -> SpecSExp {
    SpecSExp::List(seq![SpecSExp::Atom(SpecAtom::Symbol(op)), a, b])
}

/// The form `(op a b c)`.
pub open spec fn ternary_form(op: Seq<char>, a: SpecSExp, b: SpecSExp, c: SpecSExp) -> SpecSExp {
    SpecSExp::List(seq![SpecSExp::Atom(SpecAtom::Symbol(op)), a, b, c])
}

/// Which operator each arithmetic symbol names: `+` adds, `-` subtracts,
/// `*` multiplies and `/` divides.
pub open spec fn names_operator(name: Seq<char>, op: OP) -> bool {
    ||| name == seq!['+'] && op == OP::Add
    ||| name == seq!['-'] && op == OP::Sub
    ||| name == seq!['*'] && op == OP::Mul
    ||| name == seq!['/'] && op == OP::Div
}

proof fn lemma_arithmetic_call(g: Seq<Seq<char>>, name: Seq<char>, op: OP, v: Seq<SpecSExp>)
    requires
        names_operator(name, op),
        v.len() >= 2,
        v[0] == SpecSExp::Atom(SpecAtom::Symbol(name)),
    ensures
        spec_expr(g, SpecSExp::List(v)) == spec_fold_op(g, op, v),
{
    assert(seq!['+'][0] == '+' && seq!['-'][0] == '-' && seq!['*'][0] == '*' && seq!['/'][0]
        == '/');
    assert(seq!['+'] != seq!['-']);
    assert(seq!['+'] != seq!['*']);
    assert(seq!['+'] != seq!['/']);
    assert(seq!['-'] != seq!['*']);
    assert(seq!['-'] != seq!['/']);
    assert(seq!['*'] != seq!['/']);
    assert(spec_expr(g, SpecSExp::List(v)) == spec_call(g, v));
    assert(spec_call(g, v) == spec_find_function(g, name, v));
}

/// Each of `+ - * /` applies its own operator, its left operand first:
/// when `a` and then `b` compile to float code, `(op a b)` compiles to
/// `op` applied to the code of `a` and the code of `b`, with the effects of
/// `a` followed by those of `b`.
pub proof fn law_binary_arithmetic(g: Seq<Seq<char>>, name: Seq<char>, op: OP, a: SpecSExp, b: SpecSExp)
    requires
        names_operator(name, op),
        spec_expr(g, a).outcome is Value,
        spec_expr(g, a).outcome->Value_0 is Float,
        spec_expr(spec_expr(g, a).globals, b).outcome is Value,
        spec_expr(spec_expr(g, a).globals, b).outcome->Value_0 is Float,
    ensures
        ({
            let ra = spec_expr(g, a);
            let rb = spec_expr(ra.globals, b);
            let fa = ra.outcome->Value_0->Float_0;
            let fb = rb.outcome->Value_0->Float_0;
            let run = spec_expr(g, binary_form(name, a, b));
            &&& run.outcome == SpecOutcome::Value(
                SpecValue::Float(SpecFloat::Fold(op, Box::new(fa), Box::new(fb))),
            )
            &&& run.effects == ra.effects + rb.effects
            &&& run.globals == rb.globals
        }),
{
    let v = binary_form(name, a, b)->List_0;
    lemma_arithmetic_call(g, name, op, v);
    let ra = spec_expr(g, a);
    let rb = spec_expr(ra.globals, b);
    let fa = ra.outcome->Value_0->Float_0;
    let acc = SpecFloat::Fold(op, Box::new(fa), Box::new(rb.outcome->Value_0->Float_0));
    assert(v[1] == a && v[2] == b);
    assert(spec_fold_rest(rb.globals, op, acc, v, 3).effects == Seq::<SpecEffect>::empty());
    assert(rb.effects + Seq::<SpecEffect>::empty() =~= rb.effects);
}

/// Arithmetic folds from the left: when `a`, `b` and `c` compile to float
/// code in turn, `(op a b c)` compiles to `op` applied to (`op` applied to
/// the codes of `a` and `b`) and the code of `c`.
pub proof fn law_arithmetic_folds_left(
    g: Seq<Seq<char>>,
    name: Seq<char>,
    op: OP,
    a: SpecSExp,
    b: SpecSExp,
    c: SpecSExp,
)
    requires
        names_operator(name, op),
        spec_expr(g, a).outcome is Value,
        spec_expr(g, a).outcome->Value_0 is Float,
        spec_expr(spec_expr(g, a).globals, b).outcome is Value,
        spec_expr(spec_expr(g, a).globals, b).outcome->Value_0 is Float,
        spec_expr(spec_expr(spec_expr(g, a).globals, b).globals, c).outcome is Value,
        spec_expr(spec_expr(spec_expr(g, a).globals, b).globals, c).outcome->Value_0 is Float,
    ensures
        ({
            let ra = spec_expr(g, a);
            let rb = spec_expr(ra.globals, b);
            let rc = spec_expr(rb.globals, c);
            let fa = ra.outcome->Value_0->Float_0;
            let fb = rb.outcome->Value_0->Float_0;
            let fc = rc.outcome->Value_0->Float_0;
            let run = spec_expr(g, ternary_form(name, a, b, c));
            &&& run.outcome == SpecOutcome::Value(
                SpecValue::Float(
                    SpecFloat::Fold(
                        op,
                        Box::new(SpecFloat::Fold(op, Box::new(fa), Box::new(fb))),
                        Box::new(fc),
                    ),
                ),
            )
            &&& run.effects == ra.effects + rb.effects + rc.effects
            &&& run.globals == rc.globals
        }),
{
    let v = ternary_form(name, a, b, c)->List_0;
    lemma_arithmetic_call(g, name, op, v);
    let ra = spec_expr(g, a);
    let rb = spec_expr(ra.globals, b);
    let rc = spec_expr(rb.globals, c);
    let fa = ra.outcome->Value_0->Float_0;
    let fb = rb.outcome->Value_0->Float_0;
    let fc = rc.outcome->Value_0->Float_0;
    let acc1 = SpecFloat::Fold(op, Box::new(fa), Box::new(fb));
    let acc2 = SpecFloat::Fold(op, Box::new(acc1), Box::new(fc));
    assert(v[1] == a && v[2] == b && v[3] == c);
    assert(spec_fold_rest(rc.globals, op, acc2, v, 4).effects == Seq::<SpecEffect>::empty());
    assert(rc.effects + Seq::<SpecEffect>::empty() =~= rc.effects);
    assert(ra.effects + (rb.effects + rc.effects) =~= ra.effects + rb.effects + rc.effects);
}

} // verus!
