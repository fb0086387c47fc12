use vstd::prelude::*;

use super::generator::{
    fresh_ids, saves_in, lemma_no_fresh_ids, lemma_saves_chain, lemma_saves_in_append, lemma_saves_in_one, restores_pointer, saves_follow,
    saves_pointer,
    effects_model, ran, run_of, spec_def_var, spec_expr, spec_fold_op, spec_fold_rest,
    spec_let_local, spec_store, Abort, CompileError, Effect, FloatCode, Generator, Outcome,
    ScopeType, SpecEffect, Value, OP,
};
use crate::syntax::ast::{models, SExp};

verus! {

broadcast use {
    lemma_no_fresh_ids,
    vstd::seq::axiom_seq_index_decreases,
    vstd::std_specs::vec::axiom_vec_decreases_to_view,
    vstd::std_specs::vec::axiom_vec_index_decreases,
};

/// Copies of `v[from..]`.
pub fn clone_from(v: &Vec<SExp>, from: usize) -> (r: Vec<SExp>)
    requires
        from <= v@.len(),
    ensures
        models(r@) == models(v@).subrange(from as int, v@.len() as int),
{
    let mut out: Vec<SExp> = Vec::new();
    let mut i = from;
    while i < v.len()
        invariant
            from <= i <= v@.len(),
            models(out@) =~= models(v@).subrange(from as int, i as int),
        decreases v@.len() - i,
    {
        let ghost o = out@;
        out.push(v[i].deep_clone());
        assert(models(out@) =~= models(o).push(v@[i as int]@));
        i = i + 1;
    }
    out
}

impl Generator {
    /// `llvm_stacksave()`: saves the stack pointer, pushing it on the saved
    /// pointers.
    pub fn llvm_stacksave(&mut self, effects: &mut Vec<Effect>)
        ensures
            saves_pointer(*old(self), *final(self)),
            effects_model(final(effects)@) == effects_model(old(effects)@).push(SpecEffect::StackSave),
    {
        let ghost e0 = effects@;
        effects.push(Effect::StackSave);
        self.push_saved();
        assert(effects_model(effects@) =~= effects_model(e0).push(SpecEffect::StackSave));
    }

    /// `llvm_stackrestore()`: restores the stack pointer saved last, popping
    /// it from the saved pointers (there must be one).
    pub fn llvm_stackrestore(&mut self, effects: &mut Vec<Effect>)
        requires
            old(self).saved_stack().len() > 0,
        ensures
            restores_pointer(*old(self), *final(self)),
            effects_model(final(effects)@) == effects_model(old(effects)@).push(SpecEffect::StackRestore),
    {
        let ghost e0 = effects@;
        effects.push(Effect::StackRestore);
        self.pop_saved();
        assert(effects_model(effects@) =~= effects_model(e0).push(SpecEffect::StackRestore));
    }

    /// `let_local()`: prints the bindings and the body, saves the stack
    /// pointer, and defines the binding in a closure scope.  A definition in
    /// a closure scope never succeeds, so the body is never compiled and the
    /// stack pointer is never restored.
    pub fn let_local(&mut self, fun: &Vec<SExp>, effects: &mut Vec<Effect>) -> (r: Outcome)
        ensures
            ran(*old(self), *final(self), old(effects)@, final(effects)@, r, spec_let_local(old(self)@, models(fun@))),
        decreases fun, 3int,
    {
        if fun.len() >= 2 {
            match &fun[1] {
                SExp::List(s) => {
                    proof {
                        crate::syntax::ast::lemma_list_model(*s);
                        assert(decreases_to!(*fun => fun[1]));
                    }
                    let ghost g0 = *self;
                    let ghost e0 = effects@;
                    let head = clone_from(s, 0);
                    let tail = clone_from(fun, 2);
                    assert(models(s@).subrange(0, s@.len() as int) =~= models(s@));
                    let ev = Effect::TraceLet(head, tail);
                    let ghost trace = SpecEffect::TraceLet(models(s@), models(fun@).subrange(2, fun@.len() as int));
                    assert(ev@ == trace);
                    effects.push(ev);
                    assert(effects_model(effects@) =~= effects_model(e0).push(trace));
                    self.llvm_stacksave(effects);
                    let ghost pre = seq![trace, SpecEffect::StackSave];
                    assert(effects_model(effects@) =~= effects_model(e0) + pre);
                    proof {
                        assert(pre.drop_last() =~= seq![trace]);
                        lemma_saves_in_one(trace);
                        assert(pre.last() == SpecEffect::StackSave);
                        assert(saves_in(pre) == 1);
                        assert(g0.saved_stack().push(g0.save_count()) =~= g0.saved_stack() + fresh_ids(
                            g0.save_count(),
                            1,
                        ));
                        assert(saves_follow(g0, *self, pre));
                    }
                    let ghost g1 = *self;
                    let d = self.def_var(s, 0, ScopeType::Closure, effects);
                    let ghost dr = spec_def_var(g1@, models(s@), 0, ScopeType::Closure);
                    assert(effects_model(effects@) =~= effects_model(e0) + (pre + dr.effects));
                    proof {
                        lemma_saves_chain(g0, g1, *self, pre, dr.effects);
                    }
                    return d;
                },
                _ => {},
            }
        }
        assert(effects_model(effects@) =~= effects_model(effects@) + Seq::<SpecEffect>::empty());
        Outcome::Error(CompileError::InvCall)
    }

    /// `def_var()` on `value[from..]`.
    pub fn def_var(&mut self, value: &Vec<SExp>, from: usize, scope: ScopeType, effects: &mut Vec<Effect>) -> (r: Outcome)
        ensures
            ran(*old(self), *final(self), old(effects)@, final(effects)@, r, spec_def_var(old(self)@, models(value@), from as int, scope)),
        decreases value, 2int,
    {
        if from >= value.len() {
            assert(effects_model(effects@) =~= effects_model(effects@) + Seq::<SpecEffect>::empty());
            return Outcome::Error(CompileError::Empty);
        }
        if value.len() - from <= 1 {
            assert(effects_model(effects@) =~= effects_model(effects@) + Seq::<SpecEffect>::empty());
            return Outcome::Error(CompileError::Damene);
        }
        let ghost g0 = self@;
        let ghost s0 = *self;
        let ghost e0 = effects@;
        let rhs = self.expr(&value[from + 1], effects);
        let ghost g1 = self@;
        let ghost s1 = *self;
        let ghost e1 = effects@;
        match rhs {
            Outcome::Value(val) => match value[from].is_call() {
                Some(name) => {
                    let st = self.alloca_and_store(&val, name, scope, effects);
                    let ghost e2 = effects@;
                    let ghost sr = spec_expr(g0, value@[from + 1]@);
                    let ghost ss = spec_store(g1, val@, name@, scope);
                    assert(effects_model(e2) =~= effects_model(e0) + (sr.effects + ss.effects));
                    proof {
                        lemma_saves_chain(s0, s1, *self, sr.effects, ss.effects);
                    }
                    match st {
                        Outcome::Value(_) => {
                            if value.len() - from > 2 {
                                Outcome::Error(CompileError::Empty)
                            } else {
                                Outcome::Value(val)
                            }
                        },
                        o => o,
                    }
                },
                None => Outcome::Error(CompileError::Empty),
            },
            o => o,
        }
    }

    /// `fold_op()`: folds `op` over the arguments `fun[1..]`.
    pub fn fold_op(&mut self, op: OP, fun: &Vec<SExp>, effects: &mut Vec<Effect>) -> (r: Outcome)
        ensures
            ran(*old(self), *final(self), old(effects)@, final(effects)@, r, spec_fold_op(old(self)@, op, models(fun@))),
        decreases fun, 3int,
    {
        if fun.len() < 2 {
            assert(effects_model(effects@) =~= effects_model(effects@) + Seq::<SpecEffect>::empty());
            return Outcome::Error(CompileError::Empty);
        }
        let ghost m = models(fun@);
        let ghost g0 = self@;
        let ghost s0 = *self;
        let ghost e0 = effects@;
        let first = self.expr(&fun[1], effects);
        let mut acc = match first {
            Outcome::Value(Value::Float(f)) => f,
            Outcome::Value(_) => return Outcome::Abort(Abort::Unreachable),
            o => return o,
        };
        let ghost r1 = spec_expr(g0, m[1]);
        let ghost done = r1.effects;
        assert(spec_fold_op(g0, op, m) == run_of(
            spec_fold_rest(self@, op, acc@, m, 2).outcome,
            done + spec_fold_rest(self@, op, acc@, m, 2).effects,
            spec_fold_rest(self@, op, acc@, m, 2).globals,
        ));
        let mut i: usize = 2;
        #[verifier::loop_isolation(false)]
        while i < fun.len()
            invariant
                2 <= i <= fun@.len(),
                m == models(fun@),
                effects_model(effects@) == effects_model(e0) + done,
                saves_follow(s0, *self, done),
                spec_fold_op(g0, op, m) == run_of(
                    spec_fold_rest(self@, op, acc@, m, i as int).outcome,
                    done + spec_fold_rest(self@, op, acc@, m, i as int).effects,
                    spec_fold_rest(self@, op, acc@, m, i as int).globals,
                ),
            decreases fun@.len() - i,
        {
            let ghost gi = self@;
            let ghost si = *self;
            let ghost ei = effects@;
            let ghost acc0 = acc@;
            let r = self.expr(&fun[i], effects);
            let ghost ri = spec_expr(gi, m[i as int]);
            match r {
                Outcome::Value(Value::Float(f)) => {
                    acc = FloatCode::Fold(op, Box::new(acc), Box::new(f));
                },
                Outcome::Value(_) => {
                    assert(effects_model(effects@) =~= effects_model(e0) + (done + ri.effects));
                    proof {
                        lemma_saves_chain(s0, si, *self, done, ri.effects);
                    }
                    return Outcome::Abort(Abort::Unreachable);
                },
                Outcome::Error(_) => {},
                Outcome::Abort(a) => {
                    assert(effects_model(effects@) =~= effects_model(e0) + (done + ri.effects));
                    proof {
                        lemma_saves_chain(s0, si, *self, done, ri.effects);
                    }
                    return Outcome::Abort(a);
                },
            }
            proof {
                lemma_saves_chain(s0, si, *self, done, ri.effects);
                let rest = spec_fold_rest(self@, op, acc@, m, i + 1);
                assert(done + (ri.effects + rest.effects) =~= (done + ri.effects) + rest.effects);
                assert(effects_model(effects@) =~= effects_model(e0) + (done + ri.effects));
                done = done + ri.effects;
            }
            i = i + 1;
        }
        assert(done + Seq::<SpecEffect>::empty() =~= done);
        proof {
            lemma_saves_in_append(done, Seq::<SpecEffect>::empty());
        }
        Outcome::Value(Value::Float(acc))
    }
}

} // verus!
