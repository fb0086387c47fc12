use vstd::prelude::*;

use super::{SpecStep, Step};
use crate::syntax::ast::{DataType, Number, SpecAtom};

verus! {

/// The characters of Unicode's `White_Space` property, which is what both
/// `char::is_whitespace` and the `\s` class of a regular expression match.
pub open spec fn is_white_space(c: char) -> bool {
    let n = c as u32;
    ||| 9 <= n <= 13
    ||| n == 32
    ||| n == 0x85
    ||| n == 0xa0
    ||| n == 0x1680
    ||| 0x2000 <= n <= 0x200a
    ||| n == 0x2028
    ||| n == 0x2029
    ||| n == 0x202f
    ||| n == 0x205f
    ||| n == 0x3000
}

/// Characters that end a symbol: white space, brackets, quotes, comma and
/// semicolon.
pub open spec fn is_reserved_char(c: char) -> bool {
    ||| is_white_space(c)
    ||| c == '['
    ||| c == ']'
    ||| c == '{'
    ||| c == '}'
    ||| c == '('
    ||| c == ')'
    ||| c == '\''
    ||| c == '"'
    ||| c == '`'
    ||| c == ','
    ||| c == ';'
}

pub open spec fn is_digit_char(c: char) -> bool {
    '0' as u32 <= c as u32 <= '9' as u32
}

/// The classes of characters that the reader skips or collects in runs.
#[derive(Clone, Copy, Debug, PartialEq, Eq)]
pub enum CharClass {
    Space,
    Digit,
    SymbolChar,
    NotNewline,
}

pub open spec fn in_class(k: CharClass, c: char) -> bool {
    match k {
        CharClass::Space => is_white_space(c),
        CharClass::Digit => is_digit_char(c),
        CharClass::SymbolChar => !is_reserved_char(c),
        CharClass::NotNewline => c != '\n',
    }
}

/// The position just after the longest run of characters of class `k` that
/// starts at `p`.
pub open spec fn run_end(s: Seq<char>, p: int, k: CharClass) -> int
    decreases s.len() - p,
{
    if 0 <= p < s.len() && in_class(k, s[p]) {
        run_end(s, p + 1, k)
    } else {
        p
    }
}

pub open spec fn skip_ws(s: Seq<char>, p: int) -> int {
    run_end(s, p, CharClass::Space)
}

pub proof fn lemma_run_end(s: Seq<char>, p: int, k: CharClass)
    requires
        0 <= p <= s.len(),
    ensures
        p <= run_end(s, p, k) <= s.len(),
        forall|i: int| p <= i < run_end(s, p, k) ==> in_class(k, #[trigger] s[i]),
        run_end(s, p, k) < s.len() ==> !in_class(k, s[run_end(s, p, k)]),
    decreases s.len() - p,
{
    if p < s.len() && in_class(k, s[p]) {
        lemma_run_end(s, p + 1, k);
    }
}

/// The number that a run of decimal digits denotes.
pub open spec fn digits_value(d: Seq<char>) -> int
    decreases d.len(),
{
    if d.len() == 0 {
        0
    } else {
        digits_value(d.drop_last()) * 10 + (d.last() as u32 - '0' as u32)
    }
}

pub proof fn lemma_digits_value_monotone(s: Seq<char>, p: int, i: int, j: int)
    requires
        0 <= p <= i <= j <= s.len(),
        forall|k: int| p <= k < j ==> is_digit_char(#[trigger] s[k]),
    ensures
        0 <= digits_value(s.subrange(p, i)) <= digits_value(s.subrange(p, j)),
    decreases j - i,
{
    if i < j {
        lemma_digits_value_monotone(s, p, i, j - 1);
        assert(s.subrange(p, j).drop_last() =~= s.subrange(p, j - 1));
        assert(is_digit_char(s[j - 1]));
    } else {
        lemma_digits_value_nonneg(s, p, i);
    }
}

pub proof fn lemma_digits_value_nonneg(s: Seq<char>, p: int, i: int)
    requires
        0 <= p <= i <= s.len(),
        forall|k: int| p <= k < i ==> is_digit_char(#[trigger] s[k]),
    ensures
        0 <= digits_value(s.subrange(p, i)),
    decreases i - p,
{
    if p < i {
        lemma_digits_value_nonneg(s, p, i - 1);
        assert(s.subrange(p, i).drop_last() =~= s.subrange(p, i - 1));
        assert(is_digit_char(s[i - 1]));
    }
}

/// A run of decimal digits read as an `i64`; a value too large fails,
/// reported at the first digit.
pub open spec fn spec_integer(s: Seq<char>, p: int) -> SpecStep<i64> {
    let q = run_end(s, p, CharClass::Digit);
    if q == p {
        SpecStep::Fail(false, p)
    } else if digits_value(s.subrange(p, q)) > i64::MAX {
        SpecStep::Fail(true, p)
    } else {
        SpecStep::Done(digits_value(s.subrange(p, q)) as i64, q)
    }
}

/// Digits, optionally followed by a point and more digits.
pub open spec fn spec_floating(s: Seq<char>, p: int) -> SpecStep<(i64, Option<i64>)> {
    match spec_integer(s, p) {
        SpecStep::Fail(c, x) => SpecStep::Fail(c, x),
        SpecStep::Done(n, q) => if q < s.len() && s[q] == '.' {
            match spec_integer(s, q + 1) {
                SpecStep::Done(f, r) => SpecStep::Done((n, Some(f)), r),
                SpecStep::Fail(_, _) => SpecStep::Fail(true, q + 1),
            }
        } else {
            SpecStep::Done((n, None), q)
        },
    }
}

pub open spec fn number_of(negative: bool, v: (i64, Option<i64>)) -> Number {
    Number { negative, integer: v.0, fraction: v.1 }
}

/// An unsigned number literal.
pub open spec fn spec_number(s: Seq<char>, p: int) -> SpecStep<SpecAtom> {
    match spec_floating(s, p) {
        SpecStep::Fail(c, x) => SpecStep::Fail(c, x),
        SpecStep::Done(v, q) => SpecStep::Done(SpecAtom::Number(number_of(false, v)), q),
    }
}

/// A symbol: a run of symbol characters, with `head` put in front,
/// and the white space after it.
pub open spec fn spec_symbol(s: Seq<char>, p: int, head: Option<char>) -> SpecStep<SpecAtom> {
    let q = run_end(s, p, CharClass::SymbolChar);
    if q == p {
        SpecStep::Fail(false, p)
    } else {
        SpecStep::Done(SpecAtom::Symbol(head_seq(head) + s.subrange(p, q)), skip_ws(s, q))
    }
}

pub open spec fn head_seq(head: Option<char>) -> Seq<char> {
    match head {
        Some(h) => seq![h],
        None => Seq::empty(),
    }
}

/// A minus, then a number (negated), a symbol that keeps the
/// minus, or the bare symbol `-`.
pub open spec fn spec_sign(s: Seq<char>, p: int) -> SpecStep<SpecAtom> {
    if !(0 <= p < s.len() && s[p] == '-') {
        SpecStep::Fail(false, p)
    } else {
        match spec_floating(s, p + 1) {
            SpecStep::Done(v, q) => SpecStep::Done(SpecAtom::Number(number_of(true, v)), q),
            SpecStep::Fail(true, x) => SpecStep::Fail(true, x),
            SpecStep::Fail(false, _) => match spec_symbol(s, p + 1, Some('-')) {
                SpecStep::Done(a, q) => SpecStep::Done(a, q),
                SpecStep::Fail(_, _) => SpecStep::Done(SpecAtom::Symbol(seq!['-']), skip_ws(s, p + 1)),
            },
        }
    }
}

/// An atom: leading white space, a number, a signed atom or a symbol, and
/// the white space after it.
pub open spec fn spec_atom(s: Seq<char>, p: int) -> SpecStep<SpecAtom> {
    let q0 = skip_ws(s, p);
    let r = match spec_number(s, q0) {
        SpecStep::Fail(false, _) => match spec_sign(s, q0) {
            SpecStep::Fail(false, _) => spec_symbol(s, q0, None),
            o => o,
        },
        o => o,
    };
    match r {
        SpecStep::Done(a, q1) => SpecStep::Done(a, skip_ws(s, q1)),
        SpecStep::Fail(c, x) => SpecStep::Fail(c || q0 > p, x),
    }
}

/// A token: white space, then the character `c`.
pub open spec fn spec_lexer(s: Seq<char>, p: int, c: char) -> SpecStep<char> {
    let q = skip_ws(s, p);
    if q < s.len() && s[q] == c {
        SpecStep::Done(c, q + 1)
    } else {
        SpecStep::Fail(q > p, q)
    }
}

/// The regular expression that names the reserved characters.
pub open spec fn reserved_pattern() -> Seq<char> {
    seq!['[', '\\', 's', '\\', '[', '\\', ']', '{', '}', '(', ')', '\'', '"', '`', ',', ';', ']']
}

/// What `regex::Regex::new(pattern)` followed by `is_match` on the
/// one-character string `c` gives: `None` when the pattern does not compile.
pub uninterp spec fn regex_char_match(pattern: Seq<char>, c: char) -> Option<bool>;

/// Compiles `pattern` with `regex::Regex::new` and asks `Regex::is_match`
/// whether it matches the one-character string made of `c`.  For the
/// reserved-character pattern the contract states what the regex crate's
/// documentation gives for that class: `\s` is Unicode `White_Space`, and the
/// other members are the listed ASCII characters.
#[verifier::external_body]
fn regex_matches_char(pattern: &str, c: char) -> (r: Option<bool>)
    ensures
        r == regex_char_match(pattern@, c),
        pattern@ == reserved_pattern() ==> r == Some(is_reserved_char(c)),
{
    match regex::Regex::new(pattern) {
        Ok(re) => Some(re.is_match(&c.to_string())),
        Err(_) => None,
    }
}

/// Whether `c` may stand in a symbol: the reserved-character pattern does
/// not match.  Alphabetic characters, which a symbol also accepts, are never
/// reserved, so this is the whole test for a symbol's character.
pub fn buildin_symbol(c: char) -> (r: bool)
    ensures
        r == !is_reserved_char(c),
{
    let pattern = "[\\s\\[\\]{}()'\"`,;]";
    proof {
        reveal_strlit("[\\s\\[\\]{}()'\"`,;]");
        assert(pattern@ =~= reserved_pattern());
    }
    match regex_matches_char(pattern, c) {
        Some(m) => !m,
        None => false,
    }
}

/// White space in the sense of `char::is_whitespace`.
pub fn is_space(c: char) -> (r: bool)
    ensures
        r == is_white_space(c),
{
    let n = c as u32;
    (9 <= n && n <= 13) || n == 32 || n == 0x85 || n == 0xa0 || n == 0x1680 || (0x2000 <= n
        && n <= 0x200a) || n == 0x2028 || n == 0x2029 || n == 0x202f || n == 0x205f || n == 0x3000
}

/// An ASCII letter: a symbol character, accepted without the
/// reserved-character pattern being consulted.
fn is_ascii_letter(c: char) -> (r: bool)
    ensures
        r == (('a' <= c && c <= 'z') || ('A' <= c && c <= 'Z')),
        r ==> !is_reserved_char(c),
{
    ('a' <= c && c <= 'z') || ('A' <= c && c <= 'Z')
}

fn in_class_exec(k: CharClass, c: char) -> (r: bool)
    ensures
        r == in_class(k, c),
{
    match k {
        CharClass::Space => is_space(c),
        CharClass::Digit => '0' as u32 <= c as u32 && c as u32 <= '9' as u32,
        CharClass::SymbolChar => is_ascii_letter(c) || buildin_symbol(c),
        CharClass::NotNewline => c != '\n',
    }
}

/// Skips the run of characters of class `k` that starts at `p`.
pub fn skip_run(s: &[char], p: usize, k: CharClass) -> (q: usize)
    requires
        p <= s@.len(),
    ensures
        q == run_end(s@, p as int, k),
        p <= q <= s@.len(),
{
    let mut q = p;
    while q < s.len() && in_class_exec(k, s[q])
        invariant
            p <= q <= s@.len(),
            run_end(s@, q as int, k) == run_end(s@, p as int, k),
        decreases s@.len() - q,
    {
        q = q + 1;
    }
    proof {
        lemma_run_end(s@, p as int, k);
    }
    q
}

/// Skips the white space at `p`.
pub fn spaces(s: &[char], p: usize) -> (q: usize)
    requires
        p <= s@.len(),
    ensures
        q == skip_ws(s@, p as int),
        p <= q <= s@.len(),
{
    skip_run(s, p, CharClass::Space)
}

/// Reads a run of decimal digits at `p` as an `i64`.
pub fn integer(s: &[char], p: usize) -> (r: Step<i64>)
    requires
        p <= s@.len(),
    ensures
        r@ == spec_integer(s@, p as int),
        r matches Step::Done(_, n) ==> p < n <= s@.len(),
{
    let q = skip_run(s, p, CharClass::Digit);
    if q == p {
        return Step::Fail(false, p);
    }
    proof {
        lemma_run_end(s@, p as int, CharClass::Digit);
    }
    let mut acc: i64 = 0;
    let mut i = p;
    while i < q
        invariant
            p <= i <= q <= s@.len(),
            q == run_end(s@, p as int, CharClass::Digit),
            forall|k: int| p <= k < q ==> is_digit_char(#[trigger] s@[k]),
            acc == digits_value(s@.subrange(p as int, i as int)),
            0 <= acc,
        decreases q - i,
    {
        assert(is_digit_char(s@[i as int]));
        let d = (s[i] as u32 - '0' as u32) as i64;
        assert(s@.subrange(p as int, i + 1).drop_last() =~= s@.subrange(p as int, i as int));
        if acc > (i64::MAX - d) / 10 {
            proof {
                assert(acc * 10 + d > i64::MAX) by (nonlinear_arith)
                    requires
                        acc > (i64::MAX - d) / 10,
                        0 <= d <= 9,
                ;
                lemma_digits_value_monotone(s@, p as int, i + 1, q as int);
            }
            return Step::Fail(true, p);
        }
        assert(acc * 10 + d <= i64::MAX) by (nonlinear_arith)
            requires
                acc <= (i64::MAX - d) / 10,
                0 <= d <= 9,
                0 <= acc,
        ;
        acc = acc * 10 + d;
        i = i + 1;
    }
    assert(s@.subrange(p as int, q as int) =~= s@.subrange(p as int, i as int));
    Step::Done(acc, q)
}

/// Reads digits at `p`, optionally followed by a point and more digits.
pub fn floating(s: &[char], p: usize) -> (r: Step<(i64, Option<i64>)>)
    requires
        p <= s@.len(),
    ensures
        r@ == spec_floating(s@, p as int),
        r matches Step::Done(_, n) ==> p < n <= s@.len(),
{
    match integer(s, p) {
        Step::Fail(c, x) => Step::Fail(c, x),
        Step::Done(n, q) => {
            if q < s.len() && s[q] == '.' {
                match integer(s, q + 1) {
                    Step::Done(f, r) => Step::Done((n, Some(f)), r),
                    Step::Fail(_, _) => Step::Fail(true, q + 1),
                }
            } else {
                Step::Done((n, None), q)
            }
        },
    }
}

/// Reads an unsigned number literal at `p`.
pub fn number(s: &[char], p: usize) -> (r: Step<DataType>)
    requires
        p <= s@.len(),
    ensures
        r@ == spec_number(s@, p as int),
        r matches Step::Done(_, n) ==> p < n <= s@.len(),
{
    match floating(s, p) {
        Step::Fail(c, x) => Step::Fail(c, x),
        Step::Done(v, q) => Step::Done(
            DataType::Number(Number { negative: false, integer: v.0, fraction: v.1 }),
            q,
        ),
    }
}

/// Appends `c` to `s` with `String::push`.
#[verifier::external_body]
pub(crate) fn push_char(s: &mut String, c: char)
    ensures
        final(s)@ == old(s)@.push(c),
{
    s.push(c);
}

/// Reads a symbol at `p`, with `head` put in front.
pub fn symbol(s: &[char], p: usize, head: Option<char>) -> (r: Step<DataType>)
    requires
        p <= s@.len(),
    ensures
        r@ == spec_symbol(s@, p as int, head),
        r matches Step::Done(_, n) ==> p < n <= s@.len(),
{
    let q = skip_run(s, p, CharClass::SymbolChar);
    if q == p {
        return Step::Fail(false, p);
    }
    let mut text = String::new();
    match head {
        Some(h) => push_char(&mut text, h),
        None => {},
    }
    let ghost start = text@;
    assert(start =~= head_seq(head));
    let mut i = p;
    while i < q
        invariant
            p <= i <= q <= s@.len(),
            text@ =~= start + s@.subrange(p as int, i as int),
        decreases q - i,
    {
        push_char(&mut text, s[i]);
        i = i + 1;
    }
    let r = spaces(s, q);
    Step::Done(DataType::Symbol(text), r)
}

/// Reads an atom that starts with a minus at `p`.
pub fn sign(s: &[char], p: usize) -> (r: Step<DataType>)
    requires
        p <= s@.len(),
    ensures
        r@ == spec_sign(s@, p as int),
        r matches Step::Done(_, n) ==> p < n <= s@.len(),
{
    if !(p < s.len() && s[p] == '-') {
        return Step::Fail(false, p);
    }
    match floating(s, p + 1) {
        Step::Done(v, q) => Step::Done(
            DataType::Number(Number { negative: true, integer: v.0, fraction: v.1 }),
            q,
        ),
        Step::Fail(true, x) => Step::Fail(true, x),
        Step::Fail(false, _) => match symbol(s, p + 1, Some('-')) {
            Step::Done(a, q) => Step::Done(a, q),
            Step::Fail(_, _) => {
                let mut text = String::new();
                push_char(&mut text, '-');
                let q = spaces(s, p + 1);
                assert(text@ =~= seq!['-']);
                Step::Done(DataType::Symbol(text), q)
            },
        },
    }
}

/// Reads an atom at `p`: leading white space, a number, a signed atom or a
/// symbol, and the white space after it.
pub fn atom(s: &[char], p: usize) -> (r: Step<DataType>)
    requires
        p <= s@.len(),
    ensures
        r@ == spec_atom(s@, p as int),
        r matches Step::Done(_, n) ==> p < n <= s@.len(),
{
    let q0 = spaces(s, p);
    let r = match number(s, q0) {
        Step::Fail(false, _) => match sign(s, q0) {
            Step::Fail(false, _) => symbol(s, q0, None),
            o => o,
        },
        o => o,
    };
    match r {
        Step::Done(a, q1) => {
            let q2 = spaces(s, q1);
            Step::Done(a, q2)
        },
        Step::Fail(c, x) => Step::Fail(c || q0 > p, x),
    }
}

/// Reads a token at `p`: white space, then the character `c`.
pub fn lexer(s: &[char], p: usize, c: char) -> (r: Step<char>)
    requires
        p <= s@.len(),
    ensures
        r@ == spec_lexer(s@, p as int, c),
        r matches Step::Done(_, n) ==> p < n <= s@.len(),
{
    let q = spaces(s, p);
    if q < s.len() && s[q] == c {
        Step::Done(c, q + 1)
    } else {
        Step::Fail(q > p, q)
    }
}

} // verus!
