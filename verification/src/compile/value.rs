use vstd::prelude::*;

use super::generator::{
    Builtin,
    lemma_no_fresh_ids, lemma_saves_chain, lemma_saves_in_one, saves_follow,
    ascii_upper, effects_model, ran, spec_store, spec_symbol_value, spec_atom_value, upper_char,
    Abort, CompileError, Effect, FloatCode, Generator, Outcome, ScopeType, SpecEffect, SpecFloat,
    Value,
};
use crate::parser::value::push_char;
use crate::syntax::ast::{DataType, Number};

verus! {

broadcast use lemma_no_fresh_ids;

/// `s.to_ascii_uppercase()`.
pub fn to_ascii_uppercase(s: &String) -> (r: String)
    ensures
        r@ == ascii_upper(s@),
{
    let chars = crate::parser::chars_of(s.as_str());
    let mut out = String::new();
    let mut i: usize = 0;
    while i < chars.len()
        invariant
            i <= chars@.len(),
            chars@ == s@,
            out@ =~= ascii_upper(s@).subrange(0, i as int),
        decreases chars@.len() - i,
    {
        let c = chars[i];
        let n = c as u32;
        let u = if 97 <= n && n <= 122 {
            let b: u8 = (n - 32) as u8;
            b as char
        } else {
            c
        };
        assert(u == upper_char(c));
        push_char(&mut out, u);
        i = i + 1;
    }
    assert(ascii_upper(s@).subrange(0, i as int) =~= ascii_upper(s@));
    out
}

/// A `String` holding the text of `t`.
pub fn text(t: &str) -> (r: String)
    ensures
        r@ == t@,
{
    t.to_owned()
}

impl Generator {
    /// `floating()`: a float constant.
    pub fn floating(&self, value: Number) -> (r: FloatCode)
        ensures
            r@ == SpecFloat::Const(value),
    {
        FloatCode::Const(value)
    }

    /// `symbol()`.
    pub fn symbol(&self, sym: &String) -> (r: Outcome)
        ensures
            r@ == spec_symbol_value(self@, sym@),
    {
        let symbol = to_ascii_uppercase(sym);
        if self.has_global(&symbol) {
            return Outcome::Value(Value::Float(FloatCode::Load(symbol)));
        }
        let nil = text("NIL");
        let t = text("T");
        let f = text("F");
        proof {
            reveal_strlit("NIL");
            reveal_strlit("T");
            reveal_strlit("F");
            assert(nil@ =~= seq!['N', 'I', 'L']);
            assert(t@ =~= seq!['T']);
            assert(f@ =~= seq!['F']);
        }
        if symbol == nil {
            Outcome::Value(Value::Nil)
        } else if symbol == t {
            Outcome::Value(Value::True)
        } else if symbol == f {
            Outcome::Value(Value::False)
        } else {
            Outcome::Error(CompileError::Nai)
        }
    }

    /// `atom()`.
    pub fn atom(&self, value: &DataType) -> (r: Outcome)
        ensures
            r@ == spec_atom_value(self@, value@),
    {
        match value {
            DataType::Number(n) => Outcome::Value(Value::Float(self.floating(*n))),
            DataType::Symbol(s) => self.symbol(s),
        }
    }

    /// `alloca_and_store()`.
    pub fn alloca_and_store(
        &mut self,
        val: &Value,
        symbol: String,
        scope: ScopeType,
        effects: &mut Vec<Effect>,
    ) -> (r: Outcome)
        ensures
            ran(*old(self), *final(self), old(effects)@, final(effects)@, r, spec_store(old(self)@, val@, symbol@, scope)),
    {
        match scope {
            ScopeType::Local => {
                let ghost e0 = effects@;
                effects.push(Effect::StoreLocal(symbol, val.copy_value()));
                assert(effects_model(effects@) =~= effects_model(e0) + seq![SpecEffect::StoreLocal(symbol@, val@)]);
                proof {
                    lemma_saves_in_one(SpecEffect::StoreLocal(symbol@, val@));
                }
                Outcome::Value(val.copy_value())
            },
            ScopeType::Closure => {
                assert(effects_model(effects@) =~= effects_model(effects@) + Seq::<SpecEffect>::empty());
                Outcome::Abort(Abort::NotImplemented)
            },
            ScopeType::Global => self.add_global_variable(symbol, val, effects),
        }
    }

    /// `add_global_variable()`: a global variable named after `symbol` in
    /// upper case, initialised with `val`, which must be float code.
    pub fn add_global_variable(&mut self, symbol: String, val: &Value, effects: &mut Vec<Effect>) -> (r: Outcome)
        ensures
            ran(*old(self), *final(self), old(effects)@, final(effects)@, r, spec_store(old(self)@, val@, symbol@, ScopeType::Global)),
    {
        match val {
            Value::Float(f) => {
                let name = to_ascii_uppercase(&symbol);
                let ghost upper = name@;
                let ghost e0 = effects@;
                effects.push(Effect::DefineGlobal(name.clone(), f.copy_code()));
                assert(effects_model(effects@) =~= effects_model(e0) + seq![SpecEffect::DefineGlobal(name@, f@)]);
                self.add_known_global(name);
                proof {
                    lemma_saves_in_one(SpecEffect::DefineGlobal(upper, f@));
                }
                Outcome::Value(val.copy_value())
            },
            Value::Nil => {
                assert(effects_model(effects@) =~= effects_model(effects@) + Seq::<SpecEffect>::empty());
                Outcome::Abort(Abort::NotAFloat(Builtin::Nil))
            },
            Value::True => {
                assert(effects_model(effects@) =~= effects_model(effects@) + Seq::<SpecEffect>::empty());
                Outcome::Abort(Abort::NotAFloat(Builtin::True))
            },
            Value::False => {
                assert(effects_model(effects@) =~= effects_model(effects@) + Seq::<SpecEffect>::empty());
                Outcome::Abort(Abort::NotAFloat(Builtin::False))
            },
        }
    }
}

} // verus!
