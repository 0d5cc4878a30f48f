use liszp::error::{Error, ErrorKind};
use liszp::eval::eval_main::{Limits, Progress};
use liszp::eval::evaluator::Evaluator;
use liszp::macros::{
    parse_macro_definition, recursively_expand_macros, to_executable_expression, Found,
};
use liszp::read::read;
use liszp::value::Value;
use std::rc::Rc;

fn limits() -> Limits {
    Limits { expansion_depth: 16, steps: 100_000 }
}

fn run_in(evaluator: &mut Evaluator, source: &str) -> Result<Vec<Rc<Value>>, Error> {
    let mut results = Vec::new();
    for form in read(source, "<test>")?.iter() {
        match evaluator.eval(form, &limits())? {
            Progress::Done(v) => results.push(v),
            Progress::Pending(_) => panic!("the program did not end"),
            Progress::Float(_, _) => panic!("the program asked for floating-point arithmetic"),
        }
    }
    Ok(results)
}

fn expand(
    evaluator: &mut Evaluator,
    source: &str,
    depth: usize,
    fuel: usize,
) -> Result<Rc<Value>, Error> {
    match recursively_expand_macros(&one(source), evaluator, depth, fuel)? {
        Progress::Done(v) => Ok(v),
        other => panic!("the expansion did not end: {:?}", other),
    }
}

fn one(source: &str) -> Rc<Value> {
    read(source, "<test>").unwrap().remove(0)
}

#[test]
fn a_definition_installs_the_macro_and_gives_nil() {
    let mut evaluator = Evaluator::new();
    assert!(evaluator.lookup_macro("when").is_none());
    let results = run_in(&mut evaluator, "(defmacro (when c body) (if c body nil))").unwrap();
    assert_eq!(results[0].to_text(), "nil");
    let function = evaluator.lookup_macro("when").unwrap();
    assert_eq!(function.to_text(), "(lambda (c body) (if c body nil))");
}

#[test]
fn a_macro_cannot_be_defined_twice() {
    let mut evaluator = Evaluator::new();
    run_in(&mut evaluator, "(defmacro (m x) x)").unwrap();
    let error = run_in(&mut evaluator, "(defmacro (m y) y)").unwrap_err();
    assert_eq!(error.get_kind(), ErrorKind::Expansion);
    assert_eq!(error.get_message(), "macro 'm' has already been defined");
    assert_eq!(evaluator.lookup_macro("m").unwrap().to_text(), "(lambda (x) x)");
}

#[test]
fn a_malformed_definition_is_an_expansion_error() {
    for source in [
        "(defmacro)",
        "(defmacro (m x))",
        "(defmacro m x)",
        "(defmacro () x)",
        "(defmacro (m x) x y)",
        "(defmacro (1 x) x)",
        "(defmacro (m 1) x)",
        "(defmacro (m (x)) x)",
    ] {
        let mut evaluator = Evaluator::new();
        let error = run_in(&mut evaluator, source).unwrap_err();
        assert_eq!(error.get_kind(), ErrorKind::Expansion, "{}", source);
    }
}

#[test]
fn a_definition_inside_an_expression_is_an_expansion_error() {
    for source in ["(f (defmacro (m x) x))", "((defmacro (m x) x))", "(if true (defmacro (m x) x) 1)"] {
        let mut evaluator = Evaluator::new();
        let error = run_in(&mut evaluator, source).unwrap_err();
        assert_eq!(error.get_kind(), ErrorKind::Expansion, "{}", source);
    }
}

#[test]
fn parse_macro_definition_tells_definitions_from_other_forms() {
    assert!(matches!(parse_macro_definition(&one("(def x 1)")).unwrap(), Found::Other));
    assert!(matches!(parse_macro_definition(&one("x")).unwrap(), Found::Other));
    assert!(matches!(parse_macro_definition(&one("(f (defmacro (m) 1))")).unwrap(), Found::Other));
    match parse_macro_definition(&one("(defmacro (m a b) (cons a b))")).unwrap() {
        Found::Macro(name, function) => {
            assert_eq!(name, "m");
            assert_eq!(function.to_text(), "(lambda (a b) (cons a b))");
        }
        Found::Other => panic!("expected a definition"),
    }
    match parse_macro_definition(&one("(defmacro (m) 1)")).unwrap() {
        Found::Macro(name, function) => {
            assert_eq!(name, "m");
            assert_eq!(function.to_text(), "(lambda nil 1)");
        }
        Found::Other => panic!("expected a definition"),
    }
}

#[test]
fn the_arguments_of_a_macro_are_not_evaluated() {
    let mut evaluator = Evaluator::new();
    let results = run_in(
        &mut evaluator,
        "(defmacro (second a b) b) (second (undefined 1 2) (+ 1 2))",
    )
    .unwrap();
    assert_eq!(results[1].to_text(), "3");
}

#[test]
fn the_expansion_takes_the_place_of_the_call() {
    let mut evaluator = Evaluator::new();
    run_in(&mut evaluator, "(defmacro (swap a b) (cons b (cons a nil)))").unwrap();
    let expanded = expand(&mut evaluator, "(f (swap 1 x) 3)", 8, 1000).unwrap();
    assert_eq!(expanded.to_text(), "(f (x 1) 3)");
    let expanded = expand(&mut evaluator, "(swap (swap 1 2) 3)", 8, 1000).unwrap();
    assert_eq!(expanded.to_text(), "(3 (2 1))");
    let unchanged = expand(&mut evaluator, "(f (g 1) \"s\" x)", 8, 1000).unwrap();
    assert_eq!(unchanged.to_text(), "(f (g 1) \"s\" x)");
    let atom = expand(&mut evaluator, "swap", 8, 1000).unwrap();
    assert_eq!(atom.to_text(), "swap");
}

#[test]
fn what_a_macro_expands_to_is_expanded_again() {
    let mut evaluator = Evaluator::new();
    run_in(
        &mut evaluator,
        "(defmacro (inc x) (cons '+ (cons x (cons 1 nil)))) (defmacro (inc2 x) (cons 'inc (cons (cons 'inc (cons x nil)) nil)))",
    )
    .unwrap();
    let expanded = expand(&mut evaluator, "(inc2 5)", 8, 1000).unwrap();
    assert_eq!(expanded.to_text(), "(&inc (&inc 5))");
    let results = run_in(&mut evaluator, "(inc 5)").unwrap();
    assert_eq!(results[0].to_text(), "6");
}

#[test]
fn a_macro_that_expands_to_itself_ends_in_an_error() {
    let mut evaluator = Evaluator::new();
    run_in(&mut evaluator, "(defmacro (loop x) (cons 'loop (cons x nil)))").unwrap();
    let error = expand(&mut evaluator, "(loop 1)", 0, 1000).unwrap_err();
    assert_eq!(error.get_kind(), ErrorKind::Expansion);
    run_in(&mut evaluator, "(defmacro (again x) (cons (car '(again)) (cons x nil)))").unwrap();
    let expanded = expand(&mut evaluator, "(again 1)", 3, 1000).unwrap();
    assert_eq!(expanded.to_text(), "(&again 1)");
}

#[test]
fn a_macro_body_that_does_not_end_is_handed_back_to_be_gone_on_with() {
    let mut evaluator = Evaluator::new();
    run_in(&mut evaluator, "(def spin (lambda (n) (spin n))) (defmacro (m x) (spin x))").unwrap();
    let mut progress = recursively_expand_macros(&one("(m 1)"), &mut evaluator, 8, 500).unwrap();
    for _ in 0..3 {
        progress = match progress {
            Progress::Pending(job) => evaluator.advance(job, 500).unwrap(),
            other => panic!("expected the job back, got {:?}", other),
        };
    }
}

#[test]
fn an_error_in_a_macro_body_is_the_error_of_the_expansion() {
    let mut evaluator = Evaluator::new();
    run_in(&mut evaluator, "(defmacro (m x) (car x))").unwrap();
    let error = run_in(&mut evaluator, "(m 5)").unwrap_err();
    assert_eq!(error.get_kind(), ErrorKind::Evaluation);
    run_in(&mut evaluator, "(defmacro (p x) (panic \"no\"))").unwrap();
    let error = run_in(&mut evaluator, "(p 5)").unwrap_err();
    assert_eq!(error.get_kind(), ErrorKind::UserPanic);
    run_in(&mut evaluator, "(defmacro (bad x) (lambda))").unwrap();
    let error = run_in(&mut evaluator, "(bad 5)").unwrap_err();
    assert_eq!(error.get_kind(), ErrorKind::Transform);
}

#[test]
fn a_macro_body_may_use_what_is_defined() {
    let mut evaluator = Evaluator::new();
    let results = run_in(
        &mut evaluator,
        "(def list2 (lambda (a b) (cons a (cons b nil)))) (defmacro (neg x) (list2 '- x)) (neg (+ 2 3))",
    )
    .unwrap();
    assert_eq!(results[2].to_text(), "-5");
}

#[test]
fn what_a_macro_body_prints_is_written_at_expansion() {
    let mut evaluator = Evaluator::new();
    run_in(&mut evaluator, "(defmacro (noisy x) (car (cons x (cons (print \"expanding\") nil))))").unwrap();
    let expanded = expand(&mut evaluator, "(noisy (+ 1 2))", 8, 1000).unwrap();
    assert_eq!(expanded.to_text(), "(+ 1 2)");
    assert_eq!(evaluator.take_output(), vec!["\"expanding\""]);
}

#[test]
fn preprocess_expands_formats_and_converts() {
    let mut evaluator = Evaluator::new();
    run_in(&mut evaluator, "(defmacro (swap a b) (cons b (cons a nil)))").unwrap();
    match evaluator.preprocess(&one("(swap 1 f)"), &limits()).unwrap() {
        Progress::Done(ready) => assert_eq!(ready.to_text(), "(&f no-continuation 1)"),
        other => panic!("expected the form made ready, got {:?}", other),
    }
}

#[test]
fn the_call_of_a_macro_quotes_pairs_and_names_only() {
    let function = one("(lambda (a b c) a)");
    let args = one("((f 1) x 5)");
    let call = to_executable_expression(&function, &args).unwrap();
    let items = call.to_list().unwrap();
    assert_eq!(items.len(), 5);
    assert!(matches!(&*items[0], Value::Lambda { args, .. } if args == &vec!["@@k", "&a", "&b", "&c"]));
    assert_eq!(items[1].to_text(), "no-continuation");
    assert_eq!(items[2].to_text(), "'(f 1)");
    assert_eq!(items[3].to_text(), "'x");
    assert_eq!(items[4].to_text(), "5");
    assert!(to_executable_expression(&one("(lambda)"), &args).is_err());
}

#[test]
fn floating_point_arithmetic_in_a_macro_body_is_asked_of_the_host() {
    let mut evaluator = Evaluator::new();
    run_in(&mut evaluator, "(defmacro (half x) (cons '+ (cons (/ x 2.0) (cons 1 nil))))").unwrap();
    let (request, job) = match evaluator.eval(&one("(half 3)"), &limits()).unwrap() {
        Progress::Float(request, job) => (request, job),
        other => panic!("expected a question, got {:?}", other),
    };
    assert_eq!(request.operator, "&/");
    assert_eq!(request.operands.len(), 2);
    assert_eq!(request.operands[0].to_text(), "3");
    assert_eq!(request.operands[1].to_text(), "2.0");
    let job = job.answer(&request, &Value::float("1.5"));
    let (request, job) = match evaluator.advance(job, 1000).unwrap() {
        Progress::Float(request, job) => (request, job),
        other => panic!("expected the question of the form itself, got {:?}", other),
    };
    assert_eq!(request.operator, "&+");
    assert_eq!(request.operands[0].to_text(), "1.5");
    assert_eq!(request.operands[1].to_text(), "1");
    let job = job.answer(&request, &Value::float("2.5"));
    match evaluator.advance(job, 1000).unwrap() {
        Progress::Done(v) => assert_eq!(v.to_text(), "2.5"),
        other => panic!("expected the end, got {:?}", other),
    }
}

#[test]
fn an_expansion_goes_on_with_the_answer_to_its_question() {
    let mut evaluator = Evaluator::new();
    run_in(&mut evaluator, "(defmacro (scaled x) (cons 'f (cons (* x 1.5) nil)))").unwrap();
    let (request, job) =
        match recursively_expand_macros(&one("(g (scaled 2) 7)"), &mut evaluator, 8, 1000).unwrap() {
            Progress::Float(request, job) => (request, job),
            other => panic!("expected a question, got {:?}", other),
        };
    assert_eq!(request.operator, "&*");
    let job = job.answer(&request, &Value::float("3.0"));
    match evaluator.advance(job, 1000).unwrap() {
        Progress::Done(v) => assert_eq!(v.to_text(), "(g (&f 3.0) 7)"),
        other => panic!("expected the expansion, got {:?}", other),
    }
}

#[test]
fn a_job_that_waits_cannot_be_gone_on_with() {
    let mut evaluator = Evaluator::new();
    let job = match evaluator.eval(&one("(+ 1 2.0)"), &limits()).unwrap() {
        Progress::Float(_, job) => job,
        other => panic!("expected a question, got {:?}", other),
    };
    let error = evaluator.advance(job, 10).unwrap_err();
    assert_eq!(error.get_kind(), ErrorKind::Evaluation);
    assert_eq!(error.get_message(), "the job waits for the answer to its question");
}

#[test]
fn expansion_errors_say_what_is_wrong() {
    let mut evaluator = Evaluator::new();
    run_in(&mut evaluator, "(defmacro (m x) x)").unwrap();
    assert_eq!(
        run_in(&mut evaluator, "(f (defmacro (n x) x))").unwrap_err().get_message(),
        "cannot define a macro inside an expression"
    );
    assert_eq!(
        expand(&mut evaluator, "(m 1)", 0, 100).unwrap_err().get_message(),
        "macro expansion is nested too deep"
    );
    assert_eq!(
        run_in(&mut evaluator, "(defmacro m x)").unwrap_err().get_message(),
        "expected syntax (defmacro (<name> <args>..) <macro-body>)"
    );
}

#[test]
fn expansion_and_preprocessing_install_a_definition_too() {
    let mut evaluator = Evaluator::new();
    assert_eq!(expand(&mut evaluator, "(defmacro (m x) x)", 4, 100).unwrap().to_text(), "nil");
    assert_eq!(evaluator.lookup_macro("m").unwrap().to_text(), "(lambda (x) x)");
    let error = expand(&mut evaluator, "(defmacro (m y) y)", 4, 100).unwrap_err();
    assert_eq!(error.get_message(), "macro 'm' has already been defined");
    match evaluator.preprocess(&one("(defmacro (n x) x)"), &limits()).unwrap() {
        Progress::Done(ready) => assert_eq!(ready.to_text(), "(no-continuation nil)"),
        other => panic!("expected nil made ready, got {:?}", other),
    }
    assert!(evaluator.lookup_macro("n").is_some());
}
