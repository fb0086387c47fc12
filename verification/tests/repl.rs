use rlisp::parser::ParseError;
use rlisp::repl::{repl_step, ReplAction};
use rlisp::syntax::ast::{DataType, Number, SExp};

fn sym(s: &str) -> SExp {
    SExp::Atom(DataType::Symbol(s.to_string()))
}

#[test]
fn quit_ends_the_loop() {
    assert!(matches!(repl_step("quit\n"), ReplAction::Quit));
    assert!(matches!(repl_step("quitting"), ReplAction::Quit));
    assert!(!matches!(repl_step("qui\n"), ReplAction::Quit));
    assert!(!matches!(repl_step(" quit"), ReplAction::Quit));
}

#[test]
fn lines_are_read_as_expressions() {
    match repl_step("(+ 1 x)\n") {
        ReplAction::Eval(Some(e)) => {
            let one = SExp::Atom(DataType::Number(Number { negative: false, integer: 1, fraction: None }));
            assert_eq!(e, SExp::List(vec![sym("+"), one, sym("x")]));
        }
        _ => panic!("line not read"),
    }
    assert!(matches!(repl_step("; nothing\n"), ReplAction::Eval(None)));
    assert!(matches!(repl_step("(\n"), ReplAction::Report(ParseError { position: 2 })));
    assert!(matches!(repl_step("\n"), ReplAction::Report(ParseError { position: 1 })));
    assert!(matches!(repl_step("(a 1.)\n"), ReplAction::Report(ParseError { position: 5 })));
}
