use vstd::prelude::*;

use crate::parser::value::push_char;

verus! {

broadcast use {
    vstd::seq::axiom_seq_index_decreases,
    vstd::std_specs::vec::axiom_vec_decreases_to_view,
    vstd::std_specs::vec::axiom_vec_index_decreases,
    vstd::seq::axiom_seq_subrange_decreases,
};

/// A number literal as the reader sees it: an optional leading minus, the
/// value of the decimal digits before the point, and the value of the
/// decimal digits after it.  Two numbers are equal when their literals
/// agree in these parts, which is finer than the equality of the floats
/// they stand for (`1.5` and `1.50`, `0` and `-0` differ here).
#[derive(Clone, Copy, Debug, PartialEq, Eq)]
pub struct Number {
    pub negative: bool,
    pub integer: i64,
    pub fraction: Option<i64>,
}

#[derive(Debug, PartialEq)]
pub enum DataType {
    Symbol(String),
    Number(Number),
}

#[derive(Debug, PartialEq)]
pub enum SExp {
    Atom(DataType),
    Dotted(Box<SExp>, Box<SExp>),
    List(Vec<SExp>),
}

/// The mathematical value of an atom.
pub enum SpecAtom {
    Symbol(Seq<char>),
    Number(Number),
}

/// The mathematical value of an s-expression.
#[verifier::ext_equal]
pub enum SpecSExp {
    Atom(SpecAtom),
    Dotted(Box<SpecSExp>, Box<SpecSExp>),
    List(Seq<SpecSExp>),
}

impl View for DataType {
    type V = SpecAtom;

    open spec fn view(&self) -> SpecAtom {
        match self {
            DataType::Symbol(s) => SpecAtom::Symbol(s@),
            DataType::Number(n) => SpecAtom::Number(*n),
        }
    }
}

impl SExp {
    /// The mathematical value of this s-expression.
    pub open spec fn model(&self) -> SpecSExp
        decreases self,
    {
        match self {
            SExp::Atom(a) => SpecSExp::Atom(a@),
            SExp::Dotted(l, r) => SpecSExp::Dotted(Box::new(l.model()), Box::new(r.model())),
            SExp::List(v) => SpecSExp::List(
                Seq::new(
                    v.len() as nat,
                    |i: int|
                        if 0 <= i < v.len() {
                            v@[i].model()
                        } else {
                            SpecSExp::List(Seq::empty())
                        },
                ),
            ),
        }
    }
}

impl SExp {
    /// The empty list, which reads as the symbol `NIL`.
    pub fn new_nil() -> (r: SExp)
        ensures
            r@ == SpecSExp::Atom(SpecAtom::Symbol(seq!['N', 'I', 'L'])),
    {
        let s = "NIL";
        proof {
            reveal_strlit("NIL");
            assert(s@ =~= seq!['N', 'I', 'L']);
        }
        let name = s.to_owned();
        let r = SExp::Atom(DataType::Symbol(name));
        assert(r@ == SpecSExp::Atom(SpecAtom::Symbol(name@)));
        r
    }
}

impl DataType {
    /// A copy of this atom.
    pub fn copy_atom(&self) -> (r: DataType)
        ensures
            r@ == self@,
    {
        match self {
            DataType::Symbol(s) => DataType::Symbol(s.clone()),
            DataType::Number(n) => DataType::Number(*n),
        }
    }
}

impl SExp {
    /// The name of the function that this expression calls when it heads a
    /// list: the symbol that it is.
    pub fn is_call(&self) -> (r: Option<String>)
        ensures
            match self@ {
                SpecSExp::Atom(SpecAtom::Symbol(s)) => r matches Some(t) && t@ == s,
                _ => r is None,
            },
    {
        match self {
            SExp::Atom(DataType::Symbol(s)) => Some(s.clone()),
            _ => None,
        }
    }

    /// A copy of this s-expression, node by node.
    pub fn deep_clone(&self) -> (r: SExp)
        ensures
            r@ == self@,
        decreases self,
    {
        match self {
            SExp::Atom(a) => SExp::Atom(a.copy_atom()),
            SExp::Dotted(l, r) => {
                let l2 = (**l).deep_clone();
                let r2 = (**r).deep_clone();
                SExp::Dotted(Box::new(l2), Box::new(r2))
            },
            SExp::List(v) => {
                let mut out: Vec<SExp> = Vec::new();
                let mut i: usize = 0;
                #[verifier::loop_isolation(false)]
                while i < v.len()
                    invariant
                        i <= v@.len(),
                        out@.len() == i,
                        forall|j: int| 0 <= j < i ==> (#[trigger] out@[j]).model() == v@[j].model(),
                    decreases v@.len() - i,
                {
                    proof {
                        assert(decreases_to!(*v => v[i as int]));
                    }
                    let e = v[i].deep_clone();
                    out.push(e);
                    i = i + 1;
                }
                let r = SExp::List(out);
                proof {
                    let a = r.model();
                    let b = self.model();
                    assert(a->List_0 =~= b->List_0);
                }
                r
            },
        }
    }
}

impl Clone for DataType {
    fn clone(&self) -> (r: DataType)
        ensures
            r@ == self@,
    {
        self.copy_atom()
    }
}

impl Clone for SExp {
    fn clone(&self) -> (r: SExp)
        ensures
            r@ == self@,
    {
        self.deep_clone()
    }
}

/// The value of a sequence of expressions.
pub open spec fn models(v: Seq<SExp>) -> Seq<SpecSExp> {
    Seq::new(v.len(), |i: int| v[i]@)
}

pub proof fn lemma_list_model(v: Vec<SExp>)
    ensures
        SExp::List(v)@ == SpecSExp::List(models(v@)),
{
    let e = SExp::List(v);
    let m = e.model();
    assert(m is List);
    let l = m->List_0;
    assert(l.len() == v@.len());
    assert forall|i: int| 0 <= i < v@.len() implies l[i] == models(v@)[i] by {
        assert(l[i] == v@[i].model());
    }
    assert(l =~= models(v@));
}

impl View for SExp {
    type V = SpecSExp;

    open spec fn view(&self) -> SpecSExp {
        self.model()
    }
}

/// The decimal digit `d`.
pub open spec fn digit_char(d: int) -> char {
    (('0' as u32) + d) as char
}

/// The decimal digits of `n`, without leading zeros.
pub open spec fn nat_digits(n: nat) -> Seq<char>
    decreases n,
{
    if n < 10 {
        seq![digit_char(n as int)]
    } else {
        nat_digits(n / 10).push(digit_char((n % 10) as int))
    }
}

/// `n` in decimal.
pub open spec fn int_text(n: int) -> Seq<char> {
    if n < 0 {
        seq!['-'] + nat_digits((-n) as nat)
    } else {
        nat_digits(n as nat)
    }
}

/// How a number is written: its sign, its integer digits and, after a
/// point, its fraction digits.  These are the literal's digits, not the
/// value as a float: `1.50` shows as `1.50` where its value 1.5 shows as
/// `1.5`; the float and how it prints are left to the program around the
/// library.
pub open spec fn number_text(x: Number) -> Seq<char> {
    (if x.negative {
        seq!['-']
    } else {
        Seq::empty()
    }) + int_text(x.integer as int) + match x.fraction {
        Some(f) => seq!['.'] + int_text(f as int),
        None => Seq::empty(),
    }
}

pub open spec fn atom_text(a: SpecAtom) -> Seq<char> {
    match a {
        SpecAtom::Symbol(s) => s,
        SpecAtom::Number(n) => number_text(n),
    }
}

/// How an s-expression is displayed: `( a . b )` for a dotted pair and
/// `( a b c )` for a list.
pub open spec fn display(e: SpecSExp) -> Seq<char>
    decreases e,
{
    match e {
        SpecSExp::Atom(a) => atom_text(a),
        SpecSExp::Dotted(l, r) => seq!['(', ' '] + display(*l) + seq![' ', '.', ' '] + display(*r)
            + seq![' ', ')'],
        SpecSExp::List(v) => seq!['('] + list_items(v) + seq![' ', ')'],
    }
}

/// Each item of a list, after a space.
pub open spec fn list_items(v: Seq<SpecSExp>) -> Seq<char>
    decreases v,
{
    if v.len() == 0 {
        Seq::empty()
    } else {
        list_items(v.drop_last()) + seq![' '] + display(v.last())
    }
}

/// Appends the characters of `t` to `out`.
pub fn push_text(out: &mut String, t: &str)
    ensures
        final(out)@ == old(out)@ + t@,
{
    let chars = crate::parser::chars_of(t);
    let mut i: usize = 0;
    while i < chars.len()
        invariant
            i <= chars@.len(),
            chars@ == t@,
            out@ =~= old(out)@ + t@.subrange(0, i as int),
        decreases chars@.len() - i,
    {
        push_char(out, chars[i]);
        i = i + 1;
    }
    assert(t@.subrange(0, i as int) =~= t@);
}

/// Appends the decimal digits of `m` to `out`.
pub fn push_digits(out: &mut String, m: u64)
    ensures
        final(out)@ == old(out)@ + nat_digits(m as nat),
    decreases m,
{
    if m >= 10 {
        push_digits(out, m / 10);
    }
    let d = (m % 10) as u32 + '0' as u32;
    let b: u8 = d as u8;
    push_char(out, b as char);
    proof {
        assert(b as char == digit_char((m % 10) as int));
        if m >= 10 {
            assert(final(out)@ =~= old(out)@ + nat_digits(m as nat));
        } else {
            assert(final(out)@ =~= old(out)@ + nat_digits(m as nat));
        }
    }
}

/// Appends `n` in decimal to `out`.
pub fn push_int(out: &mut String, n: i64)
    ensures
        final(out)@ == old(out)@ + int_text(n as int),
{
    if n < 0 {
        push_char(out, '-');
        let m: u64 = (0 - (n as i128)) as u64;
        push_digits(out, m);
        assert(final(out)@ =~= old(out)@ + int_text(n as int));
    } else {
        push_digits(out, n as u64);
    }
}

impl Number {
    /// Appends how this number is written to `out`.
    pub fn push_to(&self, out: &mut String)
        ensures
            final(out)@ == old(out)@ + number_text(*self),
    {
        let ghost o = out@;
        if self.negative {
            push_char(out, '-');
        }
        push_int(out, self.integer);
        match self.fraction {
            Some(f) => {
                push_char(out, '.');
                push_int(out, f);
            },
            None => {},
        }
        assert(out@ =~= o + number_text(*self));
    }
}

impl DataType {
    /// Appends this atom's text to `out`.
    pub fn push_to(&self, out: &mut String)
        ensures
            final(out)@ == old(out)@ + atom_text(self@),
    {
        match self {
            DataType::Symbol(s) => {
                let chars = crate::parser::chars_of(s.as_str());
                let mut i: usize = 0;
                while i < chars.len()
                    invariant
                        i <= chars@.len(),
                        chars@ == s@,
                        out@ =~= old(out)@ + s@.subrange(0, i as int),
                    decreases chars@.len() - i,
                {
                    push_char(out, chars[i]);
                    i = i + 1;
                }
                assert(s@.subrange(0, i as int) =~= s@);
            },
            DataType::Number(n) => n.push_to(out),
        }
    }

    /// The text of this atom: a symbol's name, or the number's literal digits
    /// as `number_text` gives them (not the float it stands for).
    pub fn to_string(&self) -> (r: String)
        ensures
            r@ == atom_text(self@),
    {
        let mut out = String::new();
        self.push_to(&mut out);
        assert(out@ =~= atom_text(self@));
        out
    }
}

impl SExp {
    /// Appends how this s-expression is displayed to `out`.
    pub fn push_to(&self, out: &mut String)
        ensures
            final(out)@ == old(out)@ + display(self@),
        decreases self,
    {
        match self {
            SExp::Atom(a) => a.push_to(out),
            SExp::Dotted(l, r) => {
                push_text(out, "( ");
                (**l).push_to(out);
                push_text(out, " . ");
                (**r).push_to(out);
                push_text(out, " )");
                proof {
                    reveal_strlit("( ");
                    reveal_strlit(" . ");
                    reveal_strlit(" )");
                    assert(out@ =~= old(out)@ + display(self@));
                }
            },
            SExp::List(v) => {
                proof {
                    lemma_list_model(*v);
                }
                let ghost m = models(v@);
                push_text(out, "(");
                let ghost start = out@;
                let mut i: usize = 0;
                #[verifier::loop_isolation(false)]
                while i < v.len()
                    invariant
                        i <= v@.len(),
                        out@ == start + list_items(m.take(i as int)),
                    decreases v@.len() - i,
                {
                    proof {
                        assert(decreases_to!(*v => v[i as int]));
                    }
                    push_char(out, ' ');
                    v[i].push_to(out);
                    proof {
                        assert(m.take(i + 1).drop_last() =~= m.take(i as int));
                        assert(out@ =~= start + list_items(m.take(i + 1)));
                    }
                    i = i + 1;
                }
                push_text(out, " )");
                proof {
                    reveal_strlit("(");
                    reveal_strlit(" )");
                    assert(m.take(i as int) =~= m);
                    assert(out@ =~= old(out)@ + display(self@));
                }
            },
        }
    }

    /// How this s-expression is displayed, numbers by their literal digits.
    pub fn to_string(&self) -> (r: String)
        ensures
            r@ == display(self@),
    {
        let mut out = String::new();
        self.push_to(&mut out);
        assert(out@ =~= display(self@));
        out
    }
}

} // verus!
