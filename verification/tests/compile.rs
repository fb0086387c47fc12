use rlisp::compile::generator::{
    Abort, Builtin, CompileError, Effect, EvalAction, FloatCode, Generator, Outcome, Value, OP,
};
use rlisp::parser::grammer;
use rlisp::syntax::ast::{DataType, Number, SExp};

fn parse(s: &str) -> SExp {
    grammer(s).unwrap().0.unwrap()
}

fn run(g: &mut Generator, s: &str) -> (Outcome, Vec<Effect>) {
    let mut effects = Vec::new();
    let out = g.expr(&parse(s), &mut effects);
    (out, effects)
}

fn c(n: i64) -> FloatCode {
    FloatCode::Const(Number { negative: false, integer: n, fraction: None })
}

fn fold(op: OP, a: FloatCode, b: FloatCode) -> FloatCode {
    FloatCode::Fold(op, Box::new(a), Box::new(b))
}

fn sym(s: &str) -> SExp {
    SExp::Atom(DataType::Symbol(s.to_string()))
}

#[test]
fn compiles_arithmetic() {
    let mut g = Generator::new();
    let (out, effects) = run(&mut g, "(+ 1 2 3)");
    assert_eq!(out, Outcome::Value(Value::Float(fold(OP::Add, fold(OP::Add, c(1), c(2)), c(3)))));
    assert!(effects.is_empty());
    let (out, _) = run(&mut g, "(/ 8 (* 2 -3))");
    let minus3 = FloatCode::Const(Number { negative: true, integer: 3, fraction: None });
    assert_eq!(out, Outcome::Value(Value::Float(fold(OP::Div, c(8), fold(OP::Mul, c(2), minus3)))));
    let (out, _) = run(&mut g, "(- 4)");
    assert_eq!(out, Outcome::Value(Value::Float(c(4))));
}

#[test]
fn skips_failing_operands_after_the_first() {
    let mut g = Generator::new();
    let (out, _) = run(&mut g, "(+ 1 y 2)");
    assert_eq!(out, Outcome::Value(Value::Float(fold(OP::Add, c(1), c(2)))));
    let (out, _) = run(&mut g, "(+ y 1)");
    assert_eq!(out, Outcome::Error(CompileError::Nai));
}

#[test]
fn resolves_symbols() {
    let mut g = Generator::new();
    assert_eq!(run(&mut g, "5").0, Outcome::Value(Value::Float(c(5))));
    assert_eq!(run(&mut g, "nil").0, Outcome::Value(Value::Nil));
    assert_eq!(run(&mut g, "t").0, Outcome::Value(Value::True));
    assert_eq!(run(&mut g, "F").0, Outcome::Value(Value::False));
    assert_eq!(run(&mut g, "x").0, Outcome::Error(CompileError::Nai));
}

#[test]
fn a_definition_is_found_again() {
    let mut g = Generator::new();
    let (out, effects) = run(&mut g, "(def! x 5)");
    assert_eq!(out, Outcome::Value(Value::Float(c(5))));
    assert_eq!(effects, vec![Effect::DefineGlobal("X".to_string(), c(5))]);
    assert!(g.has_global(&"X".to_string()));
    assert_eq!(run(&mut g, "x").0, Outcome::Value(Value::Float(FloatCode::Load("X".to_string()))));
    assert_eq!(run(&mut g, "X").0, Outcome::Value(Value::Float(FloatCode::Load("X".to_string()))));
    let (out, _) = run(&mut g, "(+ x 1)");
    assert_eq!(out, Outcome::Value(Value::Float(fold(OP::Add, FloatCode::Load("X".to_string()), c(1)))));
}

#[test]
fn known_globals_are_found() {
    let mut g = Generator::new();
    g.add_known_global("STDOUT".to_string());
    assert_eq!(run(&mut g, "stdout").0, Outcome::Value(Value::Float(FloatCode::Load("STDOUT".to_string()))));
}

#[test]
fn definition_errors() {
    let mut g = Generator::new();
    let (out, effects) = run(&mut g, "(def! x 5 6)");
    assert_eq!(out, Outcome::Error(CompileError::Empty));
    assert_eq!(effects, vec![Effect::DefineGlobal("X".to_string(), c(5))]);
    let (out, effects) = run(&mut g, "(def! 1 5)");
    assert_eq!(out, Outcome::Error(CompileError::Empty));
    assert!(effects.is_empty());
    assert_eq!(run(&mut g, "(def! y)").0, Outcome::Error(CompileError::Damene));
    assert_eq!(run(&mut g, "(def! y zz)").0, Outcome::Error(CompileError::Nai));
    assert_eq!(run(&mut g, "(def! y nil)").0, Outcome::Abort(Abort::NotAFloat(Builtin::Nil)));
    assert_eq!(run(&mut g, "(def! y t)").0, Outcome::Abort(Abort::NotAFloat(Builtin::True)));
}

#[test]
fn call_errors() {
    let mut g = Generator::new();
    assert_eq!(run(&mut g, "(foo 1)").0, Outcome::Error(CompileError::Func));
    assert_eq!(run(&mut g, "(1 2)").0, Outcome::Error(CompileError::InvCall));
    assert_eq!(run(&mut g, "(a . b)").0, Outcome::Error(CompileError::Shiran));
    assert_eq!(run(&mut g, "(+)").0, Outcome::Abort(Abort::NotImplemented));
    assert_eq!(run(&mut g, "((a) 2)").0, Outcome::Abort(Abort::NotImplemented));
    assert_eq!(run(&mut g, "(+ nil 1)").0, Outcome::Abort(Abort::Unreachable));
    assert_eq!(run(&mut g, "(+ 1 nil)").0, Outcome::Abort(Abort::Unreachable));
    let mut effects = Vec::new();
    assert_eq!(g.expr(&SExp::List(vec![]), &mut effects), Outcome::Abort(Abort::NotImplemented));
}

#[test]
fn let_star() {
    let mut g = Generator::new();
    let (out, effects) = run(&mut g, "(let* (a 1) a)");
    assert_eq!(out, Outcome::Abort(Abort::NotImplemented));
    let one = SExp::Atom(DataType::Number(Number { negative: false, integer: 1, fraction: None }));
    assert_eq!(
        effects,
        vec![Effect::TraceLet(vec![sym("a"), one], vec![sym("a")]), Effect::StackSave]
    );
    let (out, effects) = run(&mut g, "(let* (a) a)");
    assert_eq!(out, Outcome::Error(CompileError::Damene));
    assert_eq!(effects.len(), 2);
    assert_eq!(run(&mut g, "(let* a)").0, Outcome::Error(CompileError::InvCall));
}

#[test]
fn error_messages() {
    assert_eq!(CompileError::Shiran.message(), "shiran");
    assert_eq!(CompileError::InvCall.message(), "inv call");
    assert_eq!(CompileError::Func.message(), "func");
    assert_eq!(CompileError::Empty.message(), "");
    assert_eq!(CompileError::Damene.message(), "damene");
    assert_eq!(CompileError::Nai.message(), "nai");
}

#[test]
fn stack_pointer_effects() {
    let mut g = Generator::new();
    let mut effects = Vec::new();
    g.llvm_stacksave(&mut effects);
    g.llvm_stackrestore(&mut effects);
    assert_eq!(effects, vec![Effect::StackSave, Effect::StackRestore]);
}

#[test]
fn default_generator_knows_no_globals() {
    let mut g = Generator::default();
    assert!(!g.has_global(&"X".to_string()));
    assert_eq!(run(&mut g, "x").0, Outcome::Error(CompileError::Nai));
}

#[test]
fn eval_actions() {
    let mut g = Generator::new();
    let mut effects = Vec::new();
    assert!(matches!(g.eval(&None, &mut effects), EvalAction::Blank));
    assert!(effects.is_empty());
    match g.eval(&Some(parse("(def! y 2)")), &mut effects) {
        EvalAction::Return(v) => assert_eq!(v, Value::Float(c(2))),
        _ => panic!("definition failed"),
    }
    assert_eq!(effects, vec![Effect::DefineGlobal("Y".to_string(), c(2))]);
    assert!(matches!(g.eval(&Some(parse("zz")), &mut effects), EvalAction::Report("nai")));
    assert!(matches!(g.eval(&Some(parse("(a . b)")), &mut effects), EvalAction::Report("shiran")));
    assert!(matches!(
        g.eval(&Some(parse("(let* (a 1) a)")), &mut effects),
        EvalAction::Stop(Abort::NotImplemented)
    ));
}

#[test]
fn law_symbols_ignore_ascii_case_example() {
    let mut g = Generator::new();
    run(&mut g, "(def! Foo 1)");
    let load = Outcome::Value(Value::Float(FloatCode::Load("FOO".to_string())));
    assert_eq!(run(&mut g, "foo").0, load);
    assert_eq!(run(&mut g, "fOo").0, load);
    assert_eq!(run(&mut g, "FOO").0, load);
}

#[test]
fn law_closure_definition_example() {
    let mut g = Generator::new();
    for s in ["(let* (a 1) a)", "(let* (a 1 2) a)", "(let* (a) 1)", "(let* (1 2) 3)"] {
        assert!(!matches!(run(&mut g, s).0, Outcome::Value(_)), "on {}", s);
    }
}

#[test]
fn law_globals_follow_effects_example() {
    let mut g = Generator::new();
    let (_, effects) = run(&mut g, "(+ (def! a 1) (def! b (def! c 2)) zz (def! d nil))");
    assert_eq!(
        effects,
        vec![
            Effect::DefineGlobal("A".to_string(), c(1)),
            Effect::DefineGlobal("C".to_string(), c(2)),
            Effect::DefineGlobal("B".to_string(), c(2)),
        ]
    );
    for name in ["A", "B", "C"] {
        assert!(g.has_global(&name.to_string()));
    }
    assert!(!g.has_global(&"D".to_string()));
}

#[test]
fn law_arithmetic_compiles_to_float_example() {
    let mut g = Generator::new();
    for s in ["(+ 1 2)", "(* 1 zz 2)", "(- (def! q 3) q)", "(/ 1 (+ 2 3))", "(+ 1 t)", "(* zz)"] {
        match run(&mut g, s).0 {
            Outcome::Value(v) => assert!(matches!(v, Value::Float(_)), "on {}", s),
            _ => {}
        }
    }
}
