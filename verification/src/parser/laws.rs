use vstd::prelude::*;

use super::value::{
    digits_value, in_class, is_digit_char, is_reserved_char, is_white_space,
    lemma_digits_value_nonneg, lemma_run_end, run_end, skip_ws, spec_atom, spec_floating,
    spec_integer, spec_lexer, spec_number, spec_sign, spec_symbol, head_seq, number_of, CharClass,
};
use super::{
    lemma_lexer_advances, spec_dotted, spec_error_position, spec_exp, spec_grammer, spec_list,
    spec_list_rest, spec_nil, spec_paren, SpecStep,
};
use crate::syntax::ast::{
    atom_text, digit_char, int_text, nat_digits, number_text, Number, SpecAtom, SpecSExp,
};

verus! {

broadcast use {vstd::seq::axiom_seq_index_decreases, vstd::seq::axiom_seq_subrange_decreases};

/// A symbol as the reader produces it: not empty, free of reserved
/// characters, and not starting like a number (a digit, or a minus followed
/// by a digit).
pub open spec fn wf_symbol(t: Seq<char>) -> bool {
    &&& t.len() > 0
    &&& forall|i: int| 0 <= i < t.len() ==> !is_reserved_char(#[trigger] t[i])
    &&& !is_digit_char(t[0])
    &&& (t[0] == '-' && t.len() > 1 ==> !is_digit_char(t[1]))
}

/// A number as the reader produces it: its digits before and after the
/// point denote non-negative values.
pub open spec fn wf_number(n: Number) -> bool {
    &&& n.integer >= 0
    &&& (n.fraction matches Some(f) ==> f >= 0)
}

pub open spec fn wf_atom(a: SpecAtom) -> bool {
    match a {
        SpecAtom::Symbol(t) => wf_symbol(t),
        SpecAtom::Number(n) => wf_number(n),
    }
}

/// Every atom of `e` is one the reader can produce.
pub open spec fn wf_sexp(e: SpecSExp) -> bool
    decreases e,
{
    match e {
        SpecSExp::Atom(a) => wf_atom(a),
        SpecSExp::Dotted(l, r) => wf_sexp(*l) && wf_sexp(*r),
        SpecSExp::List(v) => wf_items(v),
    }
}

/// Every item of `v` is well formed.
pub open spec fn wf_items(v: Seq<SpecSExp>) -> bool
    decreases v,
{
    if v.len() == 0 {
        true
    } else {
        wf_items(v.drop_last()) && wf_sexp(v.last())
    }
}

proof fn lemma_integer(s: Seq<char>, p: int)
    requires
        0 <= p <= s.len(),
    ensures
        spec_integer(s, p) matches SpecStep::Done(n, q) ==> n >= 0 && p < q <= s.len(),
        spec_integer(s, p) matches SpecStep::Fail(false, _) ==> !(p < s.len() && is_digit_char(s[p])),
{
    lemma_run_end(s, p, CharClass::Digit);
    let q = run_end(s, p, CharClass::Digit);
    if q > p {
        lemma_digits_value_nonneg(s, p, q);
    }
}

proof fn lemma_floating(s: Seq<char>, p: int)
    requires
        0 <= p <= s.len(),
    ensures
        spec_floating(s, p) matches SpecStep::Done(v, q) ==> {
            &&& v.0 >= 0
            &&& (v.1 matches Some(f) ==> f >= 0)
            &&& p < q <= s.len()
        },
        spec_floating(s, p) matches SpecStep::Fail(false, _) ==> !(p < s.len() && is_digit_char(
            s[p],
        )),
{
    lemma_integer(s, p);
    match spec_integer(s, p) {
        SpecStep::Done(n, q) => {
            if q < s.len() && s[q] == '.' {
                lemma_integer(s, q + 1);
            }
        },
        _ => {},
    }
}

proof fn lemma_symbol(s: Seq<char>, p: int, head: Option<char>)
    requires
        0 <= p <= s.len(),
    ensures
        spec_symbol(s, p, head) matches SpecStep::Done(a, q) ==> {
            &&& p < q <= s.len()
            &&& a matches SpecAtom::Symbol(t) && {
                &&& t == super::value::head_seq(head) + s.subrange(
                    p,
                    run_end(s, p, CharClass::SymbolChar),
                )
                &&& forall|i: int|
                    p <= i < run_end(s, p, CharClass::SymbolChar) ==> !is_reserved_char(
                        #[trigger] s[i],
                    )
                &&& p < run_end(s, p, CharClass::SymbolChar)
            }
        },
{
    lemma_run_end(s, p, CharClass::SymbolChar);
    let q = run_end(s, p, CharClass::SymbolChar);
    lemma_run_end(s, q, CharClass::Space);
    assert forall|i: int| p <= i < q implies !is_reserved_char(#[trigger] s[i]) by {
        assert(in_class(CharClass::SymbolChar, s[i]));
    }
}

/// An atom that the reader reads is well formed, and reading it moves on.
pub proof fn lemma_atom_wf(s: Seq<char>, p: int)
    requires
        0 <= p <= s.len(),
    ensures
        spec_atom(s, p) matches SpecStep::Done(a, q) ==> wf_atom(a) && p < q <= s.len(),
{
    lemma_run_end(s, p, CharClass::Space);
    let q0 = skip_ws(s, p);
    lemma_floating(s, q0);
    if q0 < s.len() {
        lemma_floating(s, q0 + 1);
        lemma_symbol(s, q0 + 1, Some('-'));
        lemma_run_end(s, q0 + 1, CharClass::Space);
    }
    lemma_symbol(s, q0, None);
    let r = match spec_number(s, q0) {
        SpecStep::Fail(false, _) => match spec_sign(s, q0) {
            SpecStep::Fail(false, _) => spec_symbol(s, q0, None),
            o => o,
        },
        o => o,
    };
    match r {
        SpecStep::Done(a, q1) => {
            lemma_run_end(s, q1, CharClass::Space);
            match spec_number(s, q0) {
                SpecStep::Fail(false, _) => match spec_sign(s, q0) {
                    SpecStep::Fail(false, _) => {
                        let t = a->Symbol_0;
                        assert(t[0] == s[q0]);
                        assert forall|i: int| 0 <= i < t.len() implies !is_reserved_char(
                            #[trigger] t[i],
                        ) by {
                            assert(t[i] == s[q0 + i]);
                        }
                    },
                    SpecStep::Done(_, _) => {
                        match spec_floating(s, q0 + 1) {
                            SpecStep::Fail(false, _) => match spec_symbol(s, q0 + 1, Some('-')) {
                                SpecStep::Done(b, _) => {
                                    let t = b->Symbol_0;
                                    assert(t[0] == '-');
                                    assert forall|i: int|
                                        0 <= i < t.len() implies !is_reserved_char(
                                        #[trigger] t[i],
                                    ) by {
                                        if i > 0 {
                                            assert(t[i] == s[q0 + i]);
                                        }
                                    }
                                    if t.len() > 1 {
                                        assert(t[1] == s[q0 + 1]);
                                    }
                                },
                                _ => {
                                    let t = seq!['-'];
                                    assert forall|i: int|
                                        0 <= i < t.len() implies !is_reserved_char(
                                        #[trigger] t[i],
                                    ) by {}
                                },
                            },
                            _ => {},
                        }
                    },
                    _ => {},
                },
                _ => {},
            }
        },
        _ => {},
    }
}

/// An expression that the reader reads is well formed, and reading it moves on.
pub proof fn lemma_exp_wf(s: Seq<char>, p: int)
    requires
        0 <= p <= s.len(),
    ensures
        spec_exp(s, p) matches SpecStep::Done(e, q) ==> wf_sexp(e) && p < q <= s.len(),
    decreases s.len() - p, 3int,
{
    lemma_atom_wf(s, p);
    lemma_paren_wf(s, p);
}

proof fn lemma_paren_wf(s: Seq<char>, p: int)
    requires
        0 <= p <= s.len(),
    ensures
        spec_paren(s, p) matches SpecStep::Done(e, q) ==> wf_sexp(e) && p < q <= s.len(),
    decreases s.len() - p, 2int,
{
    lemma_lexer_advances(s, p, '(');
    match spec_lexer(s, p, '(') {
        SpecStep::Done(_, q) => {
            lemma_lexer_advances(s, q, ')');
            lemma_dotted_wf(s, q);
            lemma_list_wf(s, q);
            let t = seq!['N', 'I', 'L'];
            assert(spec_nil() == SpecSExp::Atom(SpecAtom::Symbol(t)));
            assert forall|i: int| 0 <= i < t.len() implies !is_reserved_char(#[trigger] t[i]) by {}
        },
        _ => {},
    }
}

proof fn lemma_dotted_wf(s: Seq<char>, q: int)
    requires
        0 <= q <= s.len(),
    ensures
        spec_dotted(s, q) matches SpecStep::Done(e, r) ==> wf_sexp(e) && q < r <= s.len(),
    decreases s.len() - q, 4int,
{
    lemma_exp_wf(s, q);
    match spec_exp(s, q) {
        SpecStep::Done(a, q1) => {
            if q <= q1 <= s.len() {
                lemma_lexer_advances(s, q1, '.');
                match spec_lexer(s, q1, '.') {
                    SpecStep::Done(_, q2) => {
                        lemma_exp_wf(s, q2);
                        match spec_exp(s, q2) {
                            SpecStep::Done(b, q3) => {
                                if q2 <= q3 <= s.len() {
                                    lemma_lexer_advances(s, q3, ')');
                                }
                            },
                            _ => {},
                        }
                    },
                    _ => {},
                }
            }
        },
        _ => {},
    }
}

proof fn lemma_list_wf(s: Seq<char>, q: int)
    requires
        0 <= q <= s.len(),
    ensures
        spec_list(s, q) matches SpecStep::Done(e, r) ==> wf_sexp(e) && q < r <= s.len(),
    decreases s.len() - q, 4int,
{
    lemma_exp_wf(s, q);
    match spec_exp(s, q) {
        SpecStep::Done(e, q1) => {
            if q < q1 <= s.len() {
                let one = seq![e];
                assert(one.drop_last() =~= Seq::<SpecSExp>::empty());
                assert(one.last() == e);
                assert(wf_items(Seq::<SpecSExp>::empty()));
                assert(wf_items(one));
                lemma_list_rest_wf(s, q1, one);
            }
        },
        _ => {},
    }
}

proof fn lemma_list_rest_wf(s: Seq<char>, r: int, acc: Seq<SpecSExp>)
    requires
        0 <= r <= s.len(),
        wf_items(acc),
    ensures
        spec_list_rest(s, r, acc) matches SpecStep::Done(e, x) ==> wf_sexp(e) && r < x <= s.len(),
    decreases s.len() - r, 4int,
{
    lemma_run_end(s, r, CharClass::Space);
    let r1 = skip_ws(s, r);
    lemma_exp_wf(s, r1);
    match spec_exp(s, r1) {
        SpecStep::Done(e, r2) => {
            if r1 < r2 <= s.len() {
                let acc2 = acc.push(e);
                assert(acc2.drop_last() =~= acc);
                lemma_list_rest_wf(s, r2, acc2);
            }
        },
        _ => {
            lemma_lexer_advances(s, r, ')');

        },
    }
}

/// What the reader reads is well formed: every symbol in it is non-empty,
/// free of reserved characters and does not start like a number, and every
/// number is written with non-negative digits.  An expression is read from
/// at least one character; a comment reads up to the end of its line.
pub proof fn law_read_is_well_formed(s: Seq<char>)
    ensures
        spec_grammer(s) matches Some((Some(e), n)) ==> wf_sexp(e) && 0 < n <= s.len(),
        spec_grammer(s) matches Some((None, n)) ==> {
            &&& 0 < n <= s.len()
            &&& s[0] == ';'
            &&& forall|i: int| 1 <= i < n ==> #[trigger] s[i] != '\n'
            &&& (n < s.len() ==> s[n] == '\n')
        },
{
    lemma_exp_wf(s, 0);
    if s.len() > 0 {
        lemma_run_end(s, 1, CharClass::NotNewline);
        assert forall|i: int| 1 <= i < run_end(s, 1, CharClass::NotNewline) implies #[trigger] s[i]
            != '\n' by {
            assert(in_class(CharClass::NotNewline, s[i]));
        }
    }
}

/// A line that starts with `;` is a comment: it reads as nothing, up to the
/// end of the line.
pub proof fn law_comment_reads_as_nothing(s: Seq<char>)
    requires
        s.len() > 0,
        s[0] == ';',
    ensures
        spec_grammer(s) == Some((None::<SpecSExp>, run_end(s, 1, CharClass::NotNewline))),
{
    assert(run_end(s, 0, CharClass::Space) == 0);
    assert(run_end(s, 0, CharClass::Digit) == 0);
    assert(run_end(s, 0, CharClass::SymbolChar) == 0);
    assert(spec_atom(s, 0) == SpecStep::<SpecAtom>::Fail(false, 0));
    assert(spec_lexer(s, 0, '(') == SpecStep::<char>::Fail(false, 0));
}

/// White space before an opening parenthesis is consumed by the reading of
/// an atom, which then fails: such an input is rejected, and the error is
/// reported at the parenthesis.
pub proof fn law_space_before_paren_is_rejected(s: Seq<char>, k: int)
    requires
        0 < k < s.len(),
        forall|i: int| 0 <= i < k ==> is_white_space(#[trigger] s[i]),
        s[k] == '(',
    ensures
        spec_grammer(s) is None,
        spec_error_position(s) == k,
{
    lemma_run_end_block(s, 0, k, CharClass::Space);
    assert(run_end(s, k, CharClass::Digit) == k);
    assert(run_end(s, k, CharClass::SymbolChar) == k);
    assert(spec_atom(s, 0) == SpecStep::<SpecAtom>::Fail(true, k));
}

/// A run of class `k` that fills `[p, q)` and is not continued at `q` ends at `q`.
pub proof fn lemma_run_end_block(s: Seq<char>, p: int, q: int, k: CharClass)
    requires
        0 <= p <= q <= s.len(),
        forall|i: int| p <= i < q ==> in_class(k, #[trigger] s[i]),
        q == s.len() || !in_class(k, s[q]),
    ensures
        run_end(s, p, k) == q,
    decreases q - p,
{
    if p < q {
        lemma_run_end_block(s, p + 1, q, k);
    }
}

/// The decimal digits of `n` are digits, and denote `n`.
pub proof fn lemma_nat_digits(n: nat)
    ensures
        nat_digits(n).len() >= 1,
        forall|i: int| 0 <= i < nat_digits(n).len() ==> is_digit_char(#[trigger] nat_digits(n)[i]),
        digits_value(nat_digits(n)) == n,
    decreases n,
{
    let d = nat_digits(n);
    if n < 10 {
        assert(digit_char(n as int) as u32 == '0' as u32 + n);
        assert(d.drop_last() =~= Seq::<char>::empty());
        assert(digits_value(Seq::<char>::empty()) == 0);
        assert(d.last() == digit_char(n as int));
    } else {
        lemma_nat_digits(n / 10);
        let c = digit_char((n % 10) as int);
        assert(c as u32 == '0' as u32 + n % 10);
        assert(d.drop_last() =~= nat_digits(n / 10));
        assert(d.last() == c);
        assert forall|i: int| 0 <= i < d.len() implies is_digit_char(#[trigger] d[i]) by {
            if i < d.len() - 1 {
                assert(d[i] == nat_digits(n / 10)[i]);
            }
        }
        assert((n / 10) * 10 + n % 10 == n);
    }
}

/// The digits of `n`, standing at `p` and not followed by another digit,
/// read as `n`.
proof fn lemma_integer_reads(s: Seq<char>, p: int, n: nat)
    requires
        0 <= p,
        p + nat_digits(n).len() <= s.len(),
        s.subrange(p, p + nat_digits(n).len()) == nat_digits(n),
        n <= i64::MAX,
        p + nat_digits(n).len() == s.len() || !is_digit_char(s[p + nat_digits(n).len()]),
    ensures
        spec_integer(s, p) == SpecStep::Done(n as i64, p + nat_digits(n).len()),
{
    let d = nat_digits(n);
    let q = p + d.len();
    lemma_nat_digits(n);
    assert forall|i: int| p <= i < q implies in_class(CharClass::Digit, #[trigger] s[i]) by {
        assert(s[i] == d[i - p]);
    }
    lemma_run_end_block(s, p, q, CharClass::Digit);
}

/// The unsigned part of a number's text, standing at `o` and running to the
/// end, reads as that number's digits.
proof fn lemma_floating_reads(s: Seq<char>, o: int, x: Number)
    requires
        wf_number(x),
        0 <= o <= s.len(),
        s.subrange(o, s.len() as int) == int_text(x.integer as int) + match x.fraction {
            Some(f) => seq!['.'] + int_text(f as int),
            None => Seq::empty(),
        },
    ensures
        spec_floating(s, o) == SpecStep::Done((x.integer, x.fraction), s.len() as int),
{
    let d1 = nat_digits(x.integer as nat);
    let l1 = d1.len();
    let rest = s.subrange(o, s.len() as int);
    assert(s.subrange(o, o + l1) =~= rest.subrange(0, l1 as int));
    assert(rest.subrange(0, l1 as int) =~= d1);
    match x.fraction {
        Some(f) => {
            let d2 = nat_digits(f as nat);
            let tail = seq!['.'] + d2;
            assert(int_text(f as int) == d2);
            assert(rest =~= d1 + tail);
            assert(rest.len() == l1 + 1 + d2.len());
            assert(s[o + l1] == rest[l1 as int]);
            assert(rest[l1 as int] == '.');
            lemma_integer_reads(s, o, x.integer as nat);
            assert(s.subrange(o + l1 + 1, o + l1 + 1 + d2.len()) =~= d2) by {
                assert forall|i: int| 0 <= i < d2.len() implies s.subrange(
                    o + l1 + 1,
                    o + l1 + 1 + d2.len(),
                )[i] == d2[i] by {
                    assert(s[o + l1 + 1 + i] == rest[l1 + 1 + i]);
                }
            }
            lemma_integer_reads(s, o + l1 + 1, f as nat);
        },
        None => {
            lemma_integer_reads(s, o, x.integer as nat);
        },
    }
}

/// A well-formed number's text reads back as that number.
proof fn lemma_number_reads_back(x: Number)
    requires
        wf_number(x),
    ensures
        spec_atom(number_text(x), 0) == SpecStep::Done(
            SpecAtom::Number(x),
            number_text(x).len() as int,
        ),
{
    let t = number_text(x);
    let body = int_text(x.integer as int) + match x.fraction {
        Some(f) => seq!['.'] + int_text(f as int),
        None => Seq::empty(),
    };
    lemma_nat_digits(x.integer as nat);
    lemma_run_end(t, t.len() as int, CharClass::Space);
    if x.negative {
        assert(t =~= seq!['-'] + body);
        assert(t.subrange(1, t.len() as int) =~= body);
        lemma_floating_reads(t, 1, x);
        assert(run_end(t, 0, CharClass::Space) == 0);
        assert(run_end(t, 0, CharClass::Digit) == 0);
        assert(number_of(true, (x.integer, x.fraction)) == x);
    } else {
        assert(t =~= body);
        assert(t.subrange(0, t.len() as int) =~= body);
        lemma_floating_reads(t, 0, x);
        assert(t[0] == body[0]);
        assert(is_digit_char(t[0]));
        assert(run_end(t, 0, CharClass::Space) == 0);
        assert(number_of(false, (x.integer, x.fraction)) == x);
    }
}

/// A well-formed symbol's name reads back as that symbol.
proof fn lemma_symbol_reads_back(t: Seq<char>)
    requires
        wf_symbol(t),
    ensures
        spec_atom(t, 0) == SpecStep::Done(SpecAtom::Symbol(t), t.len() as int),
{
    let n = t.len() as int;
    assert(run_end(t, 0, CharClass::Space) == 0);
    assert(run_end(t, 0, CharClass::Digit) == 0);
    lemma_run_end(t, n, CharClass::Space);
    assert forall|i: int| 0 <= i < n implies in_class(CharClass::SymbolChar, #[trigger] t[i]) by {}
    if t[0] == '-' {
        assert(run_end(t, 1, CharClass::Digit) == 1);
        if n > 1 {
            lemma_run_end_block(t, 1, n, CharClass::SymbolChar);
            assert(head_seq(Some('-')) + t.subrange(1, n) =~= t);
        } else {
            assert(run_end(t, 1, CharClass::SymbolChar) == 1);
            assert(t =~= seq!['-']);
        }
    } else {
        lemma_run_end_block(t, 0, n, CharClass::SymbolChar);
        assert(head_seq(None) + t.subrange(0, n) =~= t);
    }
}

/// An atom's text reads back as that atom, for every atom the reader can
/// produce: the whole text is read.
pub proof fn law_atom_text_reads_back(a: SpecAtom)
    requires
        wf_atom(a),
    ensures
        spec_grammer(atom_text(a)) == Some(
            (Some(SpecSExp::Atom(a)), atom_text(a).len() as int),
        ),
{
    match a {
        SpecAtom::Symbol(t) => lemma_symbol_reads_back(t),
        SpecAtom::Number(x) => lemma_number_reads_back(x),
    }
}

/// An expression cannot start with `)`.
proof fn lemma_no_expression_at_close(s: Seq<char>, q: int)
    requires
        0 <= q < s.len(),
        s[q] == ')',
    ensures
        !(spec_exp(s, q) is Done),
{
    assert(run_end(s, q, CharClass::Space) == q);
    assert(run_end(s, q, CharClass::Digit) == q);
    assert(run_end(s, q, CharClass::SymbolChar) == q);
    assert(spec_atom(s, q) is Fail);
    assert(spec_lexer(s, q, '(') is Fail);
}

/// A dotted pair is read whatever its sides are, lists included: where `(`
/// stands at `p`, directly followed by an expression `a`, then `.`, an
/// expression `b` and `)`, the expression read at `p` is the pair of `a`
/// and `b`, ending after the `)`.  Read from the start of an input that it
/// fills, it is what the whole input reads as.
pub proof fn law_dotted_pair_reads(
    s: Seq<char>,
    p: int,
    a: SpecSExp,
    q1: int,
    q2: int,
    b: SpecSExp,
    q3: int,
    q4: int,
)
    requires
        0 <= p,
        p + 1 < s.len(),
        s[p] == '(',
        !is_white_space(s[p + 1]),
        spec_exp(s, p + 1) == SpecStep::Done(a, q1),
        spec_lexer(s, q1, '.') == SpecStep::Done('.', q2),
        spec_exp(s, q2) == SpecStep::Done(b, q3),
        spec_lexer(s, q3, ')') == SpecStep::Done(')', q4),
    ensures
        spec_exp(s, p) == SpecStep::Done(SpecSExp::Dotted(Box::new(a), Box::new(b)), q4),
        p == 0 && q4 == s.len() ==> spec_grammer(s) == Some(
            (Some(SpecSExp::Dotted(Box::new(a), Box::new(b))), s.len() as int),
        ),
{
    let q = p + 1;
    assert(run_end(s, p, CharClass::Space) == p);
    assert(run_end(s, p, CharClass::Digit) == p);
    assert(run_end(s, p, CharClass::SymbolChar) == p);
    assert(spec_atom(s, p) == SpecStep::<SpecAtom>::Fail(false, p));
    assert(spec_lexer(s, p, '(') == SpecStep::Done('(', q));
    if s[q] == ')' {
        lemma_no_expression_at_close(s, q);
    }
    assert(run_end(s, q, CharClass::Space) == q);
    assert(spec_lexer(s, q, ')') == SpecStep::<char>::Fail(false, q));
    lemma_exp_wf(s, q);
    lemma_lexer_advances(s, q1, '.');
    lemma_exp_wf(s, q2);
    assert(spec_dotted(s, q) == SpecStep::Done(SpecSExp::Dotted(Box::new(a), Box::new(b)), q4));
    assert(spec_paren(s, p) == SpecStep::Done(SpecSExp::Dotted(Box::new(a), Box::new(b)), q4));
}

} // verus!
