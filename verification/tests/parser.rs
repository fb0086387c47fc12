use rlisp::parser::value::{atom, buildin_symbol, lexer};
use rlisp::parser::{grammer, ParseError, Step};
use rlisp::syntax::ast::{DataType, Number, SExp};

use combine::error::ParseResult;
use combine::parser::char::{digit, letter, spaces};
use combine::parser::combinator::from_str;
use combine::parser::function::parser;
use combine::stream::easy;
use combine::{attempt, choice, many1, optional, satisfy, sep_by1, skip_many, token, Parser};
use regex::Regex;

fn sym(s: &str) -> SExp {
    SExp::Atom(DataType::Symbol(s.to_string()))
}

fn num(negative: bool, integer: i64, fraction: Option<i64>) -> SExp {
    SExp::Atom(DataType::Number(Number { negative, integer, fraction }))
}

fn read(s: &str) -> Result<(Option<SExp>, usize), ParseError> {
    grammer(s)
}

#[test]
fn parse() {}

#[test]
fn reads_atoms() {
    assert_eq!(read("abc"), Ok((Some(sym("abc")), 3)));
    assert_eq!(read("abc def"), Ok((Some(sym("abc")), 4)));
    assert_eq!(read("a.b"), Ok((Some(sym("a.b")), 3)));
    assert_eq!(read("1.5"), Ok((Some(num(false, 1, Some(5))), 3)));
    assert_eq!(read("1.05"), Ok((Some(num(false, 1, Some(5))), 4)));
    assert_eq!(read("-5"), Ok((Some(num(true, 5, None)), 2)));
    assert_eq!(read("-x"), Ok((Some(sym("-x")), 2)));
    assert_eq!(read("-"), Ok((Some(sym("-")), 1)));
    assert_eq!(read("- 5"), Ok((Some(sym("-")), 2)));
    assert_eq!(read("1a"), Ok((Some(num(false, 1, None)), 1)));
    assert_eq!(read("   x  "), Ok((Some(sym("x")), 6)));
    assert_eq!(read("9223372036854775807"), Ok((Some(num(false, i64::MAX, None)), 19)));
}

#[test]
fn reads_lists_and_pairs() {
    assert_eq!(
        read("(+ 1 2)"),
        Ok((Some(SExp::List(vec![sym("+"), num(false, 1, None), num(false, 2, None)])), 7))
    );
    assert_eq!(read("()"), Ok((Some(SExp::new_nil()), 2)));
    assert_eq!(read("( )"), Ok((Some(SExp::new_nil()), 3)));
    assert_eq!(read("(a . b)"), Ok((Some(SExp::Dotted(Box::new(sym("a")), Box::new(sym("b")))), 7)));
    assert_eq!(
        read("(a (b) c)"),
        Ok((Some(SExp::List(vec![sym("a"), SExp::List(vec![sym("b")]), sym("c")])), 9))
    );
    assert_eq!(
        read("(1 . 2 3)"),
        Ok((
            Some(SExp::List(vec![num(false, 1, None), sym("."), num(false, 2, None), num(false, 3, None)])),
            9
        ))
    );
}

#[test]
fn reads_comments() {
    assert_eq!(read("; comment\n(a)"), Ok((None, 9)));
    assert_eq!(read(";"), Ok((None, 1)));
}

#[test]
fn rejects_malformed_input() {
    assert_eq!(read(""), Err(ParseError { position: 0 }));
    assert_eq!(read("\n"), Err(ParseError { position: 1 }));
    assert_eq!(read(")"), Err(ParseError { position: 0 }));
    assert_eq!(read(" (a)"), Err(ParseError { position: 1 }));
    assert_eq!(read("( a)"), Err(ParseError { position: 2 }));
    assert_eq!(read("(a (b) )"), Err(ParseError { position: 7 }));
    assert_eq!(read("(a b"), Err(ParseError { position: 4 }));
    assert_eq!(read("1."), Err(ParseError { position: 2 }));
    assert_eq!(read("'a"), Err(ParseError { position: 0 }));
    assert_eq!(read("9223372036854775808"), Err(ParseError { position: 0 }));
}

#[test]
fn atom_and_lexer_steps() {
    let s: Vec<char> = "  foo (".chars().collect();
    match atom(&s, 0) {
        Step::Done(a, n) => {
            assert_eq!(a, DataType::Symbol("foo".to_string()));
            assert_eq!(n, 6);
        }
        Step::Fail(_, _) => panic!("atom failed"),
    }
    match lexer(&s, 5, '(') {
        Step::Done(c, n) => {
            assert_eq!(c, '(');
            assert_eq!(n, 7);
        }
        Step::Fail(_, _) => panic!("lexer failed"),
    }
    assert!(matches!(lexer(&s, 0, '('), Step::Fail(true, 2)));
    assert!(matches!(lexer(&s, 7, '('), Step::Fail(false, 7)));
    assert!(matches!(atom(&s, 6), Step::Fail(false, 6)));
}

#[test]
fn reserved_characters_end_symbols() {
    for c in ['a', '-', '.', '!', '*', 'é', '0'] {
        assert!(buildin_symbol(c), "{:?}", c);
    }
    for c in ['(', ')', '[', ']', '{', '}', '\'', '"', '`', ',', ';', ' ', '\n', '\t', '\u{a0}', '\u{3000}'] {
        assert!(!buildin_symbol(c), "{:?}", c);
    }
}

#[test]
fn law_read_is_well_formed_example() {
    assert_eq!(read("(a;b)"), Err(ParseError { position: 2 }));
    assert_eq!(read("a,b"), Ok((Some(sym("a")), 1)));
    assert_eq!(read("(x\"y)"), Err(ParseError { position: 2 }));
    assert_eq!(read("-1a"), Ok((Some(num(true, 1, None)), 2)));
    assert_eq!(read("; line\nmore"), Ok((None, 6)));
}

#[test]
fn law_space_before_paren_example() {
    assert_eq!(read("  (a)"), Err(ParseError { position: 2 }));
    assert_eq!(read("\t()"), Err(ParseError { position: 1 }));
    assert_eq!(read("(a)"), Ok((Some(SExp::List(vec![sym("a")])), 3)));
}

#[test]
fn law_atom_text_reads_back_example() {
    let atoms = vec![
        DataType::Symbol("abc".to_string()),
        DataType::Symbol("-".to_string()),
        DataType::Symbol("-x".to_string()),
        DataType::Symbol(".5".to_string()),
        DataType::Symbol("def!".to_string()),
        DataType::Number(Number { negative: false, integer: 0, fraction: None }),
        DataType::Number(Number { negative: true, integer: 12, fraction: Some(50) }),
        DataType::Number(Number { negative: false, integer: i64::MAX, fraction: Some(7) }),
    ];
    for a in atoms {
        let text = a.to_string();
        assert_eq!(read(&text), Ok((Some(SExp::Atom(a)), text.chars().count())));
    }
}

#[test]
fn displayed_lists_do_not_read_back() {
    let l = SExp::List(vec![sym("a"), sym("b")]);
    assert_eq!(l.to_string(), "( a b )");
    assert_eq!(read(&l.to_string()), Err(ParseError { position: 2 }));
}

// The grammar as the combine crate runs it.

type In<'a> = easy::Stream<&'a str>;
type Fp<'a> = fn(&mut In<'a>) -> ParseResult<SExp, In<'a>>;

fn c_lexer<'a>(c: char) -> impl Parser<Input = In<'a>, Output = char> {
    optional(spaces()).with(token(c))
}

fn c_integer<'a>() -> impl Parser<Input = In<'a>, Output = i64> {
    from_str(many1::<String, _>(digit()))
}

fn c_floating<'a>() -> impl Parser<Input = In<'a>, Output = (i64, Option<i64>)> {
    (c_integer(), optional(token('.').with(c_integer())))
}

fn reserved() -> &'static Regex {
    static RESERVED: std::sync::OnceLock<Regex> = std::sync::OnceLock::new();
    RESERVED.get_or_init(|| Regex::new(r#"[\s\[\]{}()'"`,;]"#).unwrap())
}

fn c_buildin_symbol<'a>() -> impl Parser<Input = In<'a>, Output = char> {
    satisfy(move |t: char| !reserved().is_match(&t.to_string()))
}

fn c_symbol<'a>(head: Option<char>) -> impl Parser<Input = In<'a>, Output = DataType> {
    (many1(letter().or(c_buildin_symbol())).skip(spaces()))
        .map(move |t: String| head.map_or(format!("{}", t), |h| format!("{}{}", h, t)))
        .map(DataType::Symbol)
}

fn c_sign<'a>() -> impl Parser<Input = In<'a>, Output = DataType> {
    token('-').with(choice((
        c_floating().map(|(n, f)| DataType::Number(Number { negative: true, integer: n, fraction: f })),
        c_symbol(Some('-')),
        spaces().map(|_| DataType::Symbol("-".to_string())),
    )))
}

fn c_atom<'a>() -> impl Parser<Input = In<'a>, Output = DataType> {
    optional(spaces())
        .with(choice((
            c_floating().map(|(n, f)| DataType::Number(Number { negative: false, integer: n, fraction: f })),
            c_sign(),
            c_symbol(None),
        )))
        .skip(spaces())
}

fn c_exp_fn<'a>(input: &mut In<'a>) -> ParseResult<SExp, In<'a>> {
    choice((c_atom().map(SExp::Atom), c_paren())).parse_stream(input)
}

fn c_exp<'a>() -> Fp<'a> {
    c_exp_fn
}

fn c_dotted_fn<'a>(input: &mut In<'a>) -> ParseResult<SExp, In<'a>> {
    (parser(c_exp()), c_lexer('.'), parser(c_exp()), c_lexer(')'))
        .map(|v| SExp::Dotted(Box::new(v.0), Box::new(v.2)))
        .parse_stream(input)
}

fn c_list_fn<'a>(input: &mut In<'a>) -> ParseResult<SExp, In<'a>> {
    sep_by1(parser(c_exp()), spaces()).skip(c_lexer(')')).map(SExp::List).parse_stream(input)
}

fn c_paren<'a>() -> impl Parser<Input = In<'a>, Output = SExp> {
    let dotted: Fp<'a> = c_dotted_fn;
    let list: Fp<'a> = c_list_fn;
    c_lexer('(').with(choice((
        c_lexer(')').map(|_| SExp::new_nil()),
        attempt(parser(dotted)),
        parser(list),
    )))
}

fn c_whitespace<'a>() -> impl Parser<Input = In<'a>, Output = ()> {
    (token(';'), skip_many(satisfy(|c| c != '\n'))).map(|_| ())
}

fn c_grammer<'a>() -> impl Parser<Input = In<'a>, Output = Option<SExp>> {
    ((parser(c_exp()).or(many1(parser(c_exp())).map(SExp::List))).map(|e| Some(e)))
        .or(c_whitespace().map(|_| None))
}

fn reference(input: &str) -> Result<(Option<SExp>, usize), ParseError> {
    match c_grammer().easy_parse(input) {
        Ok((v, rest)) => Ok((v, input.chars().count() - rest.chars().count())),
        Err(err) => {
            let byte = err.map_position(|p| p.translate_position(input)).position;
            Err(ParseError { position: input[..byte].chars().count() })
        }
    }
}

fn compare(input: &str) {
    assert_eq!(read(input), reference(input), "on input {:?}", input);
}

const SMALL_ALPHABET: [char; 8] = ['(', ')', ' ', 'a', '1', '.', '-', ';'];

/// Every input of length `len` over the small alphabet whose first character
/// is one of `first`.
fn compare_all(len: usize, first: &[char]) {
    let mut inputs: Vec<String> = first.iter().map(|c| c.to_string()).collect();
    for _ in 1..len {
        let mut next = vec![];
        for s in &inputs {
            for c in SMALL_ALPHABET.iter() {
                let mut t = s.clone();
                t.push(*c);
                next.push(t);
            }
        }
        inputs = next;
    }
    for s in &inputs {
        compare(s);
    }
}

#[test]
fn agrees_with_combine_on_small_inputs() {
    compare("");
    for len in 1..4 {
        compare_all(len, &SMALL_ALPHABET);
    }
}

#[test]
fn agrees_with_combine_on_four_characters_opening() {
    compare_all(4, &SMALL_ALPHABET[..3]);
}

#[test]
fn agrees_with_combine_on_four_characters_other() {
    compare_all(4, &SMALL_ALPHABET[3..]);
}

/// `count` random inputs of up to 13 characters, from `seed`.
fn compare_random(mut seed: u64, count: usize) {
    let alphabet = ['(', ')', ' ', 'a', 'b', '1', '2', '.', '-', ';', '\n', '\t', 'é', '"', ',', '0', '\u{a0}'];
    for _ in 0..count {
        seed = seed.wrapping_mul(6364136223846793005).wrapping_add(1442695040888963407);
        let len = (seed >> 33) % 14;
        let mut s = String::new();
        for _ in 0..len {
            seed = seed.wrapping_mul(6364136223846793005).wrapping_add(1442695040888963407);
            s.push(alphabet[((seed >> 33) % alphabet.len() as u64) as usize]);
        }
        compare(&s);
    }
}

#[test]
fn agrees_with_combine_on_random_inputs() {
    compare_random(0x2545F4914F6CDD1D, 1500);
    for s in [
        "(a (b c) (d . e) 12.5 -3 - -x)",
        "((a))",
        "(() ())",
        "(a . (b . c))",
        "(def! x (+ 1 2))",
        "(let* (a 1) a)",
        "99999999999999999999",
        "1.99999999999999999999",
        "(a\tb)",
        "(a\u{a0}b)",
    ] {
        compare(s);
    }
}

#[test]
fn agrees_with_combine_on_more_random_inputs() {
    compare_random(0x9E3779B97F4A7C15, 1500);
}

#[test]
fn agrees_with_combine_on_further_random_inputs() {
    compare_random(0xD1B54A32D192ED03, 1500);
}

#[test]
fn agrees_with_combine_on_last_random_inputs() {
    compare_random(0x94D049BB133111EB, 1500);
}
