use vstd::prelude::*;

use super::generator::{
    lemma_no_fresh_ids, lemma_saves_chain, lemma_saves_in_one, saves_follow,
    effects_model, ran, spec_call, spec_find_function, CompileError, Effect, Generator, Outcome,
    ScopeType, SpecEffect, OP,
};
use super::value::text;
use crate::syntax::ast::{models, DataType, SExp};

verus! {

broadcast use {
    lemma_no_fresh_ids,
    vstd::seq::axiom_seq_index_decreases,
    vstd::std_specs::vec::axiom_vec_decreases_to_view,
    vstd::std_specs::vec::axiom_vec_index_decreases,
};

impl Generator {
    /// `call()`: a list whose head is a symbol names a function.
    pub fn call(&mut self, fun: &Vec<SExp>, effects: &mut Vec<Effect>) -> (r: Outcome)
        ensures
            ran(*old(self), *final(self), old(effects)@, final(effects)@, r, spec_call(old(self)@, models(fun@))),
        decreases fun, 5int,
    {
        if fun.len() > 0 {
            match &fun[0] {
                SExp::Atom(DataType::Symbol(s)) => {
                    return self.find_function(s, fun, effects);
                },
                _ => {},
            }
        }
        assert(effects_model(effects@) =~= effects_model(effects@) + Seq::<SpecEffect>::empty());
        Outcome::Error(CompileError::InvCall)
    }

    /// `find_function()`: `+`, `-`, `*`, `/`, `let*` and `def!`; the
    /// arguments are `fun[1..]`.
    pub fn find_function(&mut self, symbol: &String, fun: &Vec<SExp>, effects: &mut Vec<Effect>) -> (r: Outcome)
        ensures
            ran(*old(self), *final(self), old(effects)@, final(effects)@, r, spec_find_function(old(self)@, symbol@, models(fun@))),
        decreases fun, 4int,
    {
        let add = text("+");
        let sub = text("-");
        let mul = text("*");
        let div = text("/");
        let let_star = text("let*");
        let def = text("def!");
        proof {
            reveal_strlit("+");
            reveal_strlit("-");
            reveal_strlit("*");
            reveal_strlit("/");
            reveal_strlit("let*");
            reveal_strlit("def!");
            assert(add@ =~= seq!['+']);
            assert(sub@ =~= seq!['-']);
            assert(mul@ =~= seq!['*']);
            assert(div@ =~= seq!['/']);
            assert(let_star@ =~= seq!['l', 'e', 't', '*']);
            assert(def@ =~= seq!['d', 'e', 'f', '!']);
        }
        if *symbol == add {
            self.fold_op(OP::Add, fun, effects)
        } else if *symbol == sub {
            self.fold_op(OP::Sub, fun, effects)
        } else if *symbol == mul {
            self.fold_op(OP::Mul, fun, effects)
        } else if *symbol == div {
            self.fold_op(OP::Div, fun, effects)
        } else if *symbol == let_star {
            self.let_local(fun, effects)
        } else if *symbol == def {
            self.def_var(fun, 1, ScopeType::Global, effects)
        } else {
            assert(effects_model(effects@) =~= effects_model(effects@) + Seq::<SpecEffect>::empty());
            Outcome::Error(CompileError::Func)
        }
    }
}

} // verus!
