use vstd::prelude::*;

pub mod laws;
pub mod value;

use self::value::{
    atom, lemma_run_end, lexer, skip_run, spaces, spec_atom, spec_lexer, skip_ws, run_end,
    CharClass,
};
use crate::syntax::ast::{lemma_list_model, models, SExp, SpecAtom, SpecSExp};
use vstd::std_specs::iter::IteratorSpec;

verus! {

/// What a piece of the grammar did at a position of the input.
pub enum Step<T> {
    /// It succeeded with a value, and reading goes on at the position given.
    Done(T, usize),
    /// It failed; the flag tells whether it had consumed input before it
    /// failed (an alternative after it is then not tried), and the position
    /// is where the failure is reported.
    Fail(bool, usize),
}

/// The mathematical counterpart of `Step`.
pub enum SpecStep<V> {
    Done(V, int),
    Fail(bool, int),
}

impl<T: View> View for Step<T> {
    type V = SpecStep<T::V>;

    open spec fn view(&self) -> SpecStep<T::V> {
        match self {
            Step::Done(t, n) => SpecStep::Done(t@, *n as int),
            Step::Fail(c, x) => SpecStep::Fail(*c, *x as int),
        }
    }
}

/// The empty list, which reads as the symbol `NIL`.
pub open spec fn spec_nil() -> SpecSExp {
    SpecSExp::Atom(SpecAtom::Symbol(seq!['N', 'I', 'L']))
}

/// Reading a token moves on, and stays in the input.
pub proof fn lemma_lexer_advances(s: Seq<char>, p: int, c: char)
    requires
        0 <= p <= s.len(),
    ensures
        spec_lexer(s, p, c) matches SpecStep::Done(_, q) ==> p < q <= s.len(),
{
    lemma_run_end(s, p, CharClass::Space);
}

/// An expression: an atom, or else a parenthesised expression.
pub open spec fn spec_exp(s: Seq<char>, p: int) -> SpecStep<SpecSExp>
    decreases s.len() - p, 3int,
{
    if !(0 <= p <= s.len()) {
        SpecStep::Fail(false, p)
    } else {
        match spec_atom(s, p) {
            SpecStep::Done(a, q) => SpecStep::Done(SpecSExp::Atom(a), q),
            SpecStep::Fail(true, x) => SpecStep::Fail(true, x),
            SpecStep::Fail(false, _) => spec_paren(s, p),
        }
    }
}

/// A parenthesised expression: an opening parenthesis, then `)` (the empty list, read as
/// `NIL`), a dotted pair, or a list.  When the list fails without consuming,
/// the error is reported at the farther of its failure and the dotted pair's.
pub open spec fn spec_paren(s: Seq<char>, p: int) -> SpecStep<SpecSExp>
    decreases s.len() - p, 2int,
{
    if !(0 <= p <= s.len()) {
        SpecStep::Fail(false, p)
    } else {
        match spec_lexer(s, p, '(') {
            SpecStep::Fail(c, x) => SpecStep::Fail(c, x),
            SpecStep::Done(_, q) => {
                proof {
                    lemma_lexer_advances(s, p, '(');
                }
                match spec_lexer(s, q, ')') {
                    SpecStep::Done(_, r) => SpecStep::Done(spec_nil(), r),
                    SpecStep::Fail(true, x) => SpecStep::Fail(true, x),
                    SpecStep::Fail(false, _) => match spec_dotted(s, q) {
                        SpecStep::Done(v, r) => SpecStep::Done(v, r),
                        SpecStep::Fail(_, k) => match spec_list(s, q) {
                            SpecStep::Done(v, r) => SpecStep::Done(v, r),
                            SpecStep::Fail(true, j) => SpecStep::Fail(true, j),
                            SpecStep::Fail(false, j) => SpecStep::Fail(true, if k < j { j } else { k }),
                        },
                    },
                }
            },
        }
    }
}

/// A dotted pair after its opening parenthesis, `a . b)`; it fails without
/// consuming, whatever it read, so that a list is tried next.
pub open spec fn spec_dotted(s: Seq<char>, q: int) -> SpecStep<SpecSExp>
    decreases s.len() - q, 4int,
{
    if !(0 <= q <= s.len()) {
        SpecStep::Fail(false, q)
    } else {
        match spec_exp(s, q) {
            SpecStep::Done(a, q1) => if !(q <= q1 <= s.len()) {
                SpecStep::Fail(false, q)
            } else {
                match spec_lexer(s, q1, '.') {
                    SpecStep::Done(_, q2) => {
                        proof {
                            lemma_lexer_advances(s, q1, '.');
                        }
                        match spec_exp(s, q2) {
                            SpecStep::Done(b, q3) => if !(q2 <= q3 <= s.len()) {
                                SpecStep::Fail(false, q)
                            } else {
                                match spec_lexer(s, q3, ')') {
                                    SpecStep::Done(_, q4) => SpecStep::Done(
                                        SpecSExp::Dotted(Box::new(a), Box::new(b)),
                                        q4,
                                    ),
                                    SpecStep::Fail(_, x) => SpecStep::Fail(false, x),
                                }
                            },
                            SpecStep::Fail(_, x) => SpecStep::Fail(false, x),
                        }
                    },
                    SpecStep::Fail(_, x) => SpecStep::Fail(false, x),
                }
            },
            SpecStep::Fail(_, x) => SpecStep::Fail(false, x),
        }
    }
}

/// A list after its opening parenthesis: expressions separated by white
/// space, then `)`.
pub open spec fn spec_list(s: Seq<char>, q: int) -> SpecStep<SpecSExp>
    decreases s.len() - q, 4int,
{
    if !(0 <= q <= s.len()) {
        SpecStep::Fail(false, q)
    } else {
        match spec_exp(s, q) {
            SpecStep::Fail(c, x) => SpecStep::Fail(c, x),
            SpecStep::Done(e, q1) => if !(q < q1 <= s.len()) {
                SpecStep::Fail(true, q1)
            } else {
                spec_list_rest(s, q1, seq![e])
            },
        }
    }
}

/// The rest of a list after its elements `acc`, reading from `r`.
pub open spec fn spec_list_rest(s: Seq<char>, r: int, acc: Seq<SpecSExp>) -> SpecStep<SpecSExp>
    decreases s.len() - r, 4int,
{
    if !(0 <= r <= s.len()) {
        SpecStep::Fail(true, r)
    } else {
        let r1 = skip_ws(s, r);
        proof {
            lemma_run_end(s, r, CharClass::Space);
        }
        match spec_exp(s, r1) {
            SpecStep::Done(e, r2) => if !(r1 < r2 <= s.len()) {
                SpecStep::Fail(true, r2)
            } else {
                spec_list_rest(s, r2, acc.push(e))
            },
            SpecStep::Fail(true, x) => SpecStep::Fail(true, x),
            SpecStep::Fail(false, x) => if r1 > r {
                SpecStep::Fail(true, x)
            } else {
                match spec_lexer(s, r, ')') {
                    SpecStep::Done(_, r3) => SpecStep::Done(SpecSExp::List(acc), r3),
                    SpecStep::Fail(_, y) => SpecStep::Fail(true, y),
                }
            },
        }
    }
}

fn nil() -> (r: SExp)
    ensures
        r@ == spec_nil(),
{
    SExp::new_nil()
}

/// Reads an expression at `p`.
pub fn exp(s: &[char], p: usize) -> (r: Step<SExp>)
    requires
        p <= s@.len(),
    ensures
        r@ == spec_exp(s@, p as int),
        r matches Step::Done(_, n) ==> p < n <= s@.len(),
    decreases s@.len() - p, 3int,
{
    match atom(s, p) {
        Step::Done(a, q) => Step::Done(SExp::Atom(a), q),
        Step::Fail(true, x) => Step::Fail(true, x),
        Step::Fail(false, _) => paren(s, p),
    }
}

/// Reads a parenthesised expression at `p`.
fn paren(s: &[char], p: usize) -> (r: Step<SExp>)
    requires
        p <= s@.len(),
    ensures
        r@ == spec_paren(s@, p as int),
        r matches Step::Done(_, n) ==> p < n <= s@.len(),
    decreases s@.len() - p, 2int,
{
    match lexer(s, p, '(') {
        Step::Fail(c, x) => Step::Fail(c, x),
        Step::Done(_, q) => match lexer(s, q, ')') {
            Step::Done(_, r) => Step::Done(nil(), r),
            Step::Fail(true, x) => Step::Fail(true, x),
            Step::Fail(false, _) => match dotted(s, q) {
                Step::Done(v, r) => Step::Done(v, r),
                Step::Fail(_, k) => match list(s, q) {
                    Step::Done(v, r) => Step::Done(v, r),
                    Step::Fail(true, j) => Step::Fail(true, j),
                    Step::Fail(false, j) => Step::Fail(true, if k < j { j } else { k }),
                },
            },
        },
    }
}

/// Reads a dotted pair after its opening parenthesis.
fn dotted(s: &[char], q: usize) -> (r: Step<SExp>)
    requires
        q <= s@.len(),
    ensures
        r@ == spec_dotted(s@, q as int),
        r matches Step::Done(_, n) ==> q < n <= s@.len(),
    decreases s@.len() - q, 4int,
{
    match exp(s, q) {
        Step::Done(a, q1) => match lexer(s, q1, '.') {
            Step::Done(_, q2) => match exp(s, q2) {
                Step::Done(b, q3) => match lexer(s, q3, ')') {
                    Step::Done(_, q4) => Step::Done(SExp::Dotted(Box::new(a), Box::new(b)), q4),
                    Step::Fail(_, x) => Step::Fail(false, x),
                },
                Step::Fail(_, x) => Step::Fail(false, x),
            },
            Step::Fail(_, x) => Step::Fail(false, x),
        },
        Step::Fail(_, x) => Step::Fail(false, x),
    }
}

/// Reads a list after its opening parenthesis: one expression, then more,
/// each after white space, then `)`.
fn list(s: &[char], q: usize) -> (r: Step<SExp>)
    requires
        q <= s@.len(),
    ensures
        r@ == spec_list(s@, q as int),
        r matches Step::Done(_, n) ==> q < n <= s@.len(),
    decreases s@.len() - q, 4int,
{
    let first = match exp(s, q) {
        Step::Fail(c, x) => return Step::Fail(c, x),
        Step::Done(e, q1) => (e, q1),
    };
    let (e, q1) = first;
    let mut acc: Vec<SExp> = Vec::new();
    acc.push(e);
    let mut r = q1;
    assert(models(acc@) =~= seq![e@]);
    loop
        invariant
            q < r <= s@.len(),
            spec_list(s@, q as int) == spec_list_rest(s@, r as int, models(acc@)),
        decreases s@.len() - r,
    {
        let r1 = spaces(s, r);
        match exp(s, r1) {
            Step::Done(e, r2) => {
                let ghost old_acc = acc@;
                acc.push(e);
                assert(models(acc@) =~= models(old_acc).push(e@));
                r = r2;
            },
            Step::Fail(true, x) => return Step::Fail(true, x),
            Step::Fail(false, x) => {
                if r1 > r {
                    return Step::Fail(true, x);
                }
                return match lexer(s, r, ')') {
                    Step::Done(_, r3) => {
                        proof {
                            lemma_list_model(acc);
                        }
                        Step::Done(SExp::List(acc), r3)
                    },
                    Step::Fail(_, y) => Step::Fail(true, y),
                };
            },
        }
    }
}

/// A comment, from `;` to the end of the line.
pub open spec fn spec_comment(s: Seq<char>) -> Option<(Option<SpecSExp>, int)> {
    if 0 < s.len() && s[0] == ';' {
        Some((None, run_end(s, 1, CharClass::NotNewline)))
    } else {
        None
    }
}

/// One expression, or else a comment (which reads as
/// nothing).  `None` is a syntax error; otherwise the result comes with the
/// number of characters read.
pub open spec fn spec_grammer(s: Seq<char>) -> Option<(Option<SpecSExp>, int)> {
    match spec_exp(s, 0) {
        SpecStep::Done(e, n) => Some((Some(e), n)),
        SpecStep::Fail(true, _) => None,
        SpecStep::Fail(false, _) => spec_comment(s),
    }
}

/// Where a syntax error is reported: where reading failed after it had
/// consumed input, or else the farthest place at which an alternative failed
/// (the comment fails at the start).
pub open spec fn spec_error_position(s: Seq<char>) -> int {
    match spec_exp(s, 0) {
        SpecStep::Fail(true, x) => x,
        SpecStep::Fail(false, x) => if x < 0 {
            0
        } else {
            x
        },
        SpecStep::Done(_, _) => 0,
    }
}

pub open spec fn opt_model(e: Option<SExp>) -> Option<SpecSExp> {
    match e {
        Some(e) => Some(e@),
        None => None,
    }
}

/// The input could not be read as an expression: the error names the
/// position, counted in characters, at which it is reported.
#[derive(Debug, PartialEq, Eq)]
pub struct ParseError {
    pub position: usize,
}

/// What a call of `grammer` on `s` gave, in terms of `spec_grammer`.
pub open spec fn grammer_agrees(r: Result<(Option<SExp>, usize), ParseError>, s: Seq<char>) -> bool {
    match r {
        Ok((e, n)) => spec_grammer(s) == Some((opt_model(e), n as int)),
        Err(err) => spec_grammer(s) is None && err.position == spec_error_position(s),
    }
}

/// Reads a comment at the start of `s`.
fn comment(s: &[char]) -> (r: Option<usize>)
    ensures
        r is None <==> spec_comment(s@) is None,
        r matches Some(n) ==> spec_comment(s@) == Some((None::<SpecSExp>, n as int)) && n <= s@.len(),
{
    if 0 < s.len() && s[0] == ';' {
        Some(skip_run(s, 1, CharClass::NotNewline))
    } else {
        None
    }
}

/// Reads an expression from the start of `s`.  A second alternative of the
/// grammar, a sequence of expressions read as a list, starts with the same
/// expression at the same place, so it fails whenever it is reached, and is not
/// run.
pub fn grammer_chars(s: &[char]) -> (r: Result<(Option<SExp>, usize), ParseError>)
    ensures
        grammer_agrees(r, s@),
        r matches Ok((_, n)) ==> n <= s@.len(),
{
    match exp(s, 0) {
        Step::Done(e, n) => Ok((Some(e), n)),
        Step::Fail(true, x) => Err(ParseError { position: x }),
        Step::Fail(false, x) => match comment(s) {
            Some(n) => Ok((None, n)),
            None => Err(ParseError { position: x }),
        },
    }
}

/// The characters of `s`, in order.
pub fn chars_of(s: &str) -> (r: Vec<char>)
    ensures
        r@ == s@,
{
    broadcast use vstd::string::group_string_axioms;

    let mut out: Vec<char> = Vec::new();
    let mut it = s.chars();
    loop
        invariant
            out@ + it.remaining() == s@,
            it.decrease() is Some,
        ensures
            out@ == s@,
        decreases it.decrease()->0,
    {
        match it.next() {
            Some(c) => {
                out.push(c);
            },
            None => {
                break;
            },
        }
    }
    out
}

/// Reads one expression (or a comment) from
/// the start of `input`, and says how many characters it read.
pub fn grammer(input: &str) -> (r: Result<(Option<SExp>, usize), ParseError>)
    ensures
        grammer_agrees(r, input@),
        r matches Ok((_, n)) ==> n <= input@.len(),
{
    let chars = chars_of(input);
    grammer_chars(chars.as_slice())
}

} // verus!
