use rlisp::syntax::ast::{DataType, Number, SExp};

fn integer(n: i64) -> Number {
    Number { negative: n < 0, integer: n.abs(), fraction: None }
}

#[test]
fn atom_display() {
    // Value
    let test_symbol = String::from("SYMBOL");
    let symbol = DataType::Symbol(test_symbol.clone());

    let test_number = -31319.;
    let number = DataType::Number(integer(-31319));

    assert_eq!(test_symbol, symbol.clone().to_string());
    assert_eq!(format!("{}", test_number), number.to_string());
}

#[test]
fn exrp_display() {
    // Value
    let test_symbol = String::from("SYMBOL");
    let symbol = DataType::Symbol(test_symbol.clone());

    let _test_number = -31319.;
    let _number = DataType::Number(integer(-31319));

    // Expr
    let atom = SExp::Atom(symbol.clone());
    let dotted = SExp::Dotted(Box::new(atom.clone()), Box::new(atom.clone()));
    let list = SExp::List(vec![atom.clone(), atom.clone(), atom.clone()]);

    assert_eq!(test_symbol, atom.clone().to_string());
    assert_eq!(
        format!("( {} . {} )", atom.clone().to_string(), atom.clone().to_string()),
        dotted.to_string()
    );
    assert_eq!(
        format!(
            "( {} {} {} )",
            atom.clone().to_string(),
            atom.clone().to_string(),
            atom.clone().to_string()
        ),
        list.to_string()
    );
}

#[test]
fn expr_method() {
    // make nil
    let test_nil = String::from("NIL");
    assert_eq!(test_nil, SExp::new_nil().to_string());

    // symbol check
    let call_symbol = SExp::Atom(DataType::Symbol("add".to_string()));
    let not_call_symbol = SExp::Atom(DataType::Number(integer(0)));
    assert!(call_symbol.is_call().is_some());
    assert!(not_call_symbol.is_call().is_none());
}

#[test]
fn display_of_numbers() {
    let n = |negative, integer, fraction| DataType::Number(Number { negative, integer, fraction });
    assert_eq!(n(false, 0, None).to_string(), "0");
    assert_eq!(n(true, 0, None).to_string(), "-0");
    assert_eq!(n(false, 1234567, None).to_string(), "1234567");
    assert_eq!(n(true, 12, Some(5)).to_string(), "-12.5");
    assert_eq!(n(false, i64::MAX, None).to_string(), "9223372036854775807");
    assert_eq!(n(false, i64::MIN, None).to_string(), "-9223372036854775808");
}

#[test]
fn display_of_nested_expressions() {
    let sym = |s: &str| SExp::Atom(DataType::Symbol(s.to_string()));
    let inner = SExp::List(vec![sym("b"), sym("c")]);
    let e = SExp::List(vec![sym("a"), inner, SExp::Dotted(Box::new(sym("x")), Box::new(sym("y")))]);
    assert_eq!(e.to_string(), "( a ( b c ) ( x . y ) )");
    assert_eq!(SExp::List(vec![]).to_string(), "( )");
}

#[test]
fn is_call_names_the_symbol() {
    let e = SExp::Atom(DataType::Symbol("def!".to_string()));
    assert_eq!(e.is_call(), Some("def!".to_string()));
    let l = SExp::List(vec![e.clone()]);
    assert_eq!(l.is_call(), None);
}

#[test]
fn clone_copies_deeply() {
    let sym = |s: &str| SExp::Atom(DataType::Symbol(s.to_string()));
    let e = SExp::List(vec![sym("a"), SExp::Dotted(Box::new(sym("b")), Box::new(sym("c")))]);
    let c = e.clone();
    assert_eq!(c, e);
    assert_eq!(c.to_string(), e.to_string());
}
