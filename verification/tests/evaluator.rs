use liszp::cps::convert_expr;
use liszp::error::{Error, ErrorKind};
use liszp::eval::builtin;
use liszp::eval::env::Env;
use liszp::eval::eval_main::{Limits, Progress};
use liszp::eval::evaluator::{Evaluator, Outcome};
use liszp::eval::lambda::{evaluate_lambda_funcall, recursively_bind_args};
use liszp::eval::operators::{self, Step};
use liszp::format::format_names;
use liszp::integer::Integer;
use liszp::read::read;
use liszp::value::Value;
use std::rc::Rc;

fn limits() -> Limits {
    Limits { expansion_depth: 64, steps: 1_000_000 }
}

fn run_in(evaluator: &mut Evaluator, source: &str) -> Result<Vec<Rc<Value>>, Error> {
    let mut results = Vec::new();
    for form in read(source, "<test>")?.iter() {
        match evaluator.eval(form, &limits())? {
            Progress::Done(v) => results.push(v),
            Progress::Pending(_) => panic!("the program did not end"),
            Progress::Float(_, _) => panic!("the program asked for floating-point arithmetic"),
        }
    }
    Ok(results)
}

fn value_of(source: &str) -> String {
    let mut evaluator = Evaluator::new();
    match run_in(&mut evaluator, source) {
        Ok(results) => results.last().unwrap().to_text(),
        Err(e) => panic!("{}", e.display(true)),
    }
}

fn error_of(source: &str) -> Error {
    let mut evaluator = Evaluator::new();
    match run_in(&mut evaluator, source) {
        Ok(results) => panic!("expected an error, got {}", results.last().unwrap().to_text()),
        Err(e) => e,
    }
}

fn num(n: usize) -> Rc<Value> {
    Value::integer(Integer::from_usize(n))
}

fn args_of(source: &str) -> Vec<Rc<Value>> {
    read(source, "<test>").unwrap().iter().map(format_names).collect()
}

#[test]
fn literals_evaluate_to_themselves() {
    assert_eq!(value_of("5"), "5");
    assert_eq!(value_of("\"s\""), "\"s\"");
    assert_eq!(value_of("true"), "true");
    assert_eq!(value_of("nil"), "nil");
    assert_eq!(value_of("1.5"), "1.5");
}

#[test]
fn a_defined_name_evaluates_to_its_value() {
    assert_eq!(value_of("(def x 7) x"), "7");
    assert_eq!(value_of("(def x 7) (def x 8) x"), "8");
    assert_eq!(value_of("(def x 7)"), "nil");
}

#[test]
fn arithmetic_on_integers() {
    assert_eq!(value_of("(+ 1 2 3 4)"), "10");
    assert_eq!(value_of("(- 10 1 2)"), "7");
    assert_eq!(value_of("(* 2 3 4)"), "24");
    assert_eq!(value_of("(/ 100 5 2)"), "10");
    assert_eq!(value_of("(+ 5)"), "5");
    assert_eq!(value_of("(* 5)"), "5");
    assert_eq!(value_of("(/ 5)"), "5");
    assert_eq!(value_of("(- 5)"), "-5");
    assert_eq!(value_of("(- (- 5))"), "5");
    assert_eq!(value_of("(/ 7 2)"), "3");
    assert_eq!(value_of("(/ (- 7) 2)"), "-3");
    assert_eq!(value_of("(/ 7 (- 2))"), "-3");
    assert_eq!(value_of("(+ (* 2 3) (- 10 4))"), "12");
}

#[test]
fn arithmetic_does_not_overflow() {
    assert_eq!(value_of("(* 18446744073709551616 18446744073709551616)"), "340282366920938463463374607431768211456");
    assert_eq!(value_of("(+ 9223372036854775807 1)"), "9223372036854775808");
    assert_eq!(value_of("(- 0 18446744073709551616)"), "-18446744073709551616");
}

#[test]
fn modulo_of_integers() {
    assert_eq!(value_of("(% 7 2)"), "1");
    assert_eq!(value_of("(% (- 7) 2)"), "-1");
    assert_eq!(value_of("(% 7 (- 2))"), "1");
    assert_eq!(value_of("(% 6 3)"), "0");
}

#[test]
fn arithmetic_errors() {
    for source in ["(+)", "(+ 1 true)", "(+ 1 \"2\")", "(- nil)", "(+ 1 x)", "(% 1)", "(% 1 2 3)", "(% 1.5 2)", "(% 1 2.5)", "(% true 2)", "(% 1 0)", "(/ 1 0)", "(/ 4 2 0)"] {
        assert_eq!(error_of(source).get_kind(), ErrorKind::Evaluation, "{}", source);
    }
    assert_eq!(error_of("(/ 4 2 0)").get_message(), "division by zero");
    assert_eq!(error_of("(% 4 0)").get_message(), "division by zero");
}

#[test]
fn comparisons_of_integers() {
    assert_eq!(value_of("(< 1 2)"), "true");
    assert_eq!(value_of("(< 2 1)"), "false");
    assert_eq!(value_of("(< 2 2)"), "false");
    assert_eq!(value_of("(> 2 1)"), "true");
    assert_eq!(value_of("(> 1 2)"), "false");
    assert_eq!(value_of("(<= 2 2)"), "true");
    assert_eq!(value_of("(<= 3 2)"), "false");
    assert_eq!(value_of("(>= 2 2)"), "true");
    assert_eq!(value_of("(>= 1 2)"), "false");
    assert_eq!(value_of("(== 2 2)"), "true");
    assert_eq!(value_of("(== 2 3)"), "false");
    assert_eq!(value_of("(!= 2 3)"), "true");
    assert_eq!(value_of("(!= 2 2)"), "false");
    assert_eq!(value_of("(< (- 10) (- 2))"), "true");
    assert_eq!(value_of("(== 0x10 16)"), "true");
}

#[test]
fn comparison_errors() {
    for source in ["(< 1)", "(< 1 2 3)", "(< 1 true)", "(== \"a\" \"a\")", "(< 1 x)"] {
        assert_eq!(error_of(source).get_kind(), ErrorKind::Evaluation, "{}", source);
    }
}

#[test]
fn logic_on_booleans() {
    assert_eq!(value_of("(and true true)"), "true");
    assert_eq!(value_of("(and true false)"), "false");
    assert_eq!(value_of("(or false false)"), "false");
    assert_eq!(value_of("(or false true)"), "true");
    assert_eq!(value_of("(xor true true)"), "false");
    assert_eq!(value_of("(xor true false)"), "true");
    assert_eq!(value_of("(not true)"), "false");
    assert_eq!(value_of("(not false)"), "true");
    assert_eq!(value_of("(and (< 1 2) (not (< 2 1)))"), "true");
}

#[test]
fn logic_errors() {
    for source in ["(and true)", "(and true 1)", "(or 1 true)", "(xor true true true)", "(not 1)", "(not)", "(not true false)"] {
        assert_eq!(error_of(source).get_kind(), ErrorKind::Evaluation, "{}", source);
    }
}

#[test]
fn a_conditional_takes_one_branch_only() {
    assert_eq!(value_of("(if true 1 2)"), "1");
    assert_eq!(value_of("(if false 1 2)"), "2");
    assert_eq!(value_of("(if (< 1 2) (+ 1 1) (/ 1 0))"), "2");
    assert_eq!(value_of("(+ 1 (if false 10 20))"), "21");
    assert_eq!(error_of("(if 1 2 3)").get_kind(), ErrorKind::Evaluation);
    assert_eq!(error_of("(if nil 2 3)").get_kind(), ErrorKind::Evaluation);
}

#[test]
fn quotation_and_lists() {
    assert_eq!(value_of("'a"), "'&a");
    assert_eq!(value_of("'(1 2)"), "'(1 2)");
    assert_eq!(value_of("(quote 5)"), "'5");
    assert_eq!(value_of("(cons 1 2)"), "'(1 . 2)");
    assert_eq!(value_of("(cons 1 nil)"), "'(1)");
    assert_eq!(value_of("(cons 1 '(2 3))"), "'(1 2 3)");
    assert_eq!(value_of("(cons '(1) '(2))"), "'((1) 2)");
    assert_eq!(value_of("(car '(1 2 3))"), "1");
    assert_eq!(value_of("(cdr '(1 2 3))"), "'(2 3)");
    assert_eq!(value_of("(cdr '(1))"), "nil");
    assert_eq!(value_of("(car '((1 2) 3))"), "'(1 2)");
    assert_eq!(value_of("(car (cdr (cons 1 (cons 2 nil))))"), "2");
}

#[test]
fn list_errors() {
    for source in ["(car 5)", "(car '5)", "(car nil)", "(car)", "(car '(1) '(2))", "(cdr '())", "(cons 1)", "(cons 1 2 3)", "(car x)"] {
        assert_eq!(error_of(source).get_kind(), ErrorKind::Evaluation, "{}", source);
    }
}

#[test]
fn eval_runs_what_is_quoted() {
    assert_eq!(value_of("(eval '(+ 1 2))"), "3");
    assert_eq!(value_of("(eval 5)"), "5");
    assert_eq!(value_of("(def x 4) (eval 'x)"), "4");
    assert_eq!(value_of("(eval (cons '+ '(1 2)))"), "3");
    assert_eq!(value_of("(+ 1 (eval '(* 2 3)))"), "7");
    assert_eq!(error_of("(eval '(lambda))").get_kind(), ErrorKind::Transform);
    assert_eq!(error_of("(eval)").get_kind(), ErrorKind::Evaluation);
}

#[test]
fn an_unquote_splices_a_computed_value() {
    assert_eq!(value_of("'(1 ,(+ 1 1) 3)"), "'(1 2 3)");
    assert_eq!(value_of("(def x 5) '(a ,x)"), "'(&a &x)");
}

#[test]
fn structural_equality() {
    assert_eq!(value_of("(equals? 1 1)"), "true");
    assert_eq!(value_of("(equals? 1 2)"), "false");
    assert_eq!(value_of("(equals? 1 \"1\")"), "false");
    assert_eq!(value_of("(equals? \"a\" \"a\")"), "true");
    assert_eq!(value_of("(equals? '(1 (2 3)) '(1 (2 3)))"), "true");
    assert_eq!(value_of("(equals? '(1 (2 3)) '(1 (2 4)))"), "false");
    assert_eq!(value_of("(equals? 'a 'a)"), "true");
    assert_eq!(value_of("(equals? 'a 'b)"), "false");
    assert_eq!(value_of("(equals? 'a '(a))"), "false");
    assert_eq!(value_of("(equals? nil '())"), "false");
    assert_eq!(value_of("(equals? nil nil)"), "true");
    assert_eq!(value_of("(equals? 1.5 1.5)"), "true");
    assert_eq!(value_of("(equals? (+ 1 1) 2)"), "true");
    assert_eq!(value_of("(equals? 0x10 16)"), "true");
    assert_eq!(error_of("(equals? 1)").get_kind(), ErrorKind::Evaluation);
}

#[test]
fn equality_is_an_equivalence() {
    let values = read("1 2 \"a\" 1.5 x nil true (1 2) (1 (2)) 1 (1 2)", "<test>").unwrap();
    for a in values.iter() {
        assert!(a.equals(a));
        for b in values.iter() {
            assert_eq!(a.equals(b), b.equals(a));
            for c in values.iter() {
                if a.equals(b) && b.equals(c) {
                    assert!(a.equals(c));
                }
            }
        }
    }
    let quoted_a = Value::quoted(&values[7]);
    let quoted_b = Value::quoted(&values[10]);
    let quoted_c = Value::quoted(&values[8]);
    assert!(quoted_a.equals(&quoted_b));
    assert!(!quoted_a.equals(&quoted_c));
    assert!(!quoted_a.equals(&values[7]));
}

#[test]
fn type_predicates_look_through_one_quotation() {
    assert_eq!(value_of("(int? 5)"), "true");
    assert_eq!(value_of("(int? 1.5)"), "false");
    assert_eq!(value_of("(int? '5)"), "true");
    assert_eq!(value_of("(float? 1.5)"), "true");
    assert_eq!(value_of("(float? 1)"), "false");
    assert_eq!(value_of("(str? \"s\")"), "true");
    assert_eq!(value_of("(str? 's')"), "true");
    assert_eq!(value_of("(str? 1)"), "false");
    assert_eq!(value_of("(bool? true)"), "true");
    assert_eq!(value_of("(bool? nil)"), "false");
    assert_eq!(value_of("(nil? nil)"), "true");
    assert_eq!(value_of("(nil? '())"), "true");
    assert_eq!(value_of("(nil? 0)"), "false");
    assert_eq!(value_of("(cons? '(1 2))"), "true");
    assert_eq!(value_of("(cons? (cons 1 2))"), "true");
    assert_eq!(value_of("(cons? nil)"), "false");
    assert_eq!(value_of("(name? 'a)"), "true");
    assert_eq!(value_of("(name? '(a))"), "false");
    assert_eq!(value_of("(name? 1)"), "false");
    assert_eq!(value_of("(def n 1) (int? n)"), "true");
}

#[test]
fn the_quote_predicate_asks_the_value_itself() {
    assert_eq!(value_of("(quote? 'a)"), "true");
    assert_eq!(value_of("(quote? '(1 2))"), "true");
    assert_eq!(value_of("(quote? 1)"), "false");
    assert_eq!(value_of("(quote? (car '(1 2)))"), "false");
    assert_eq!(value_of("(quote? (car '(a b)))"), "true");
}

#[test]
fn predicate_errors() {
    for source in ["(int?)", "(int? 1 2)", "(nil? x)", "(quote?)"] {
        assert_eq!(error_of(source).get_kind(), ErrorKind::Evaluation, "{}", source);
    }
}

#[test]
fn printing_goes_to_the_output_in_order() {
    let mut evaluator = Evaluator::new();
    let results = run_in(&mut evaluator, "(print 1) (println \"two\") (print '(3 4)) (println (+ 2 3)) (print 'x)").unwrap();
    assert_eq!(results[0].to_text(), "1");
    assert_eq!(results[1].to_text(), "\"two\"");
    assert_eq!(evaluator.take_output(), vec!["1", "\"two\"\n", "'(3 4)", "5\n", "'&x"]);
    assert!(evaluator.take_output().is_empty());
}

#[test]
fn printing_inside_an_expression_happens_in_evaluation_order() {
    let mut evaluator = Evaluator::new();
    let results = run_in(&mut evaluator, "(+ (print 1) (* (print 2) (print 3)))").unwrap();
    assert_eq!(results[0].to_text(), "7");
    assert_eq!(evaluator.take_output(), vec!["1", "2", "3"]);
}

#[test]
fn what_was_printed_before_an_error_stays() {
    let mut evaluator = Evaluator::new();
    assert!(run_in(&mut evaluator, "(+ (print 1) (/ 1 0))").is_err());
    assert_eq!(evaluator.take_output(), vec!["1"]);
}

#[test]
fn print_errors() {
    for source in ["(print)", "(println 1 2)", "(print x)"] {
        assert_eq!(error_of(source).get_kind(), ErrorKind::Evaluation, "{}", source);
    }
}

#[test]
fn a_panic_ends_the_program_with_its_message() {
    let error = error_of("(panic \"boom\")");
    assert_eq!(error.get_kind(), ErrorKind::UserPanic);
    assert_eq!(error.get_message(), "\"boom\"");
    let error = error_of("(def x 3) (+ 1 (panic x))");
    assert_eq!(error.get_kind(), ErrorKind::UserPanic);
    assert_eq!(error.get_message(), "3");
    assert_eq!(error_of("(panic)").get_kind(), ErrorKind::Evaluation);
    assert_eq!(error_of("(panic y)").get_kind(), ErrorKind::Evaluation);
}

#[test]
fn definitions_need_a_name() {
    for source in ["(def 1 2)", "(def x)", "(def x 1 2)", "(def \"x\" 1)"] {
        assert_eq!(error_of(source).get_kind(), ErrorKind::Evaluation, "{}", source);
    }
}

#[test]
fn procedures() {
    assert_eq!(value_of("((lambda (x y) (* x y)) 6 7)"), "42");
    assert_eq!(value_of("((lambda () 5))"), "5");
    assert_eq!(value_of("((lambda x (+ x 1)) 5)"), "6");
    assert_eq!(value_of("(def square (lambda (x) (* x x))) (square (square 3))"), "81");
    assert_eq!(value_of("(def twice (lambda (f x) (f (f x)))) (def inc (lambda (n) (+ n 1))) (twice inc 5)"), "7");
    assert_eq!(value_of("(def make-adder (lambda (n) (lambda (m) (+ n m)))) ((make-adder 3) 4)"), "7");
    assert_eq!(value_of("(lambda (x) x)"), "<function>");
}

#[test]
fn recursion_is_as_deep_as_the_steps_allow() {
    let source = "(def count (lambda (n acc) (if (== n 0) acc (count (- n 1) (+ acc 1))))) (count 2000 0)";
    assert_eq!(value_of(source), "2000");
    let source = "(def sum (lambda (n) (if (== n 0) 0 (+ n (sum (- n 1)))))) (sum 300)";
    assert_eq!(value_of(source), "45150");
    let source = "(def fib (lambda (n) (if (< n 2) n (+ (fib (- n 1)) (fib (- n 2)))))) (fib 15)";
    assert_eq!(value_of(source), "610");
}

#[test]
fn an_inner_parameter_hides_an_outer_one() {
    assert_eq!(value_of("((lambda (x) ((lambda (x) (+ x 1)) 10)) 1)"), "11");
    assert_eq!(value_of("((lambda (x) (+ x ((lambda (x) (* x 2)) 10))) 1)"), "21");
}

#[test]
fn a_call_leaves_the_global_names_as_they_were() {
    assert_eq!(value_of("(def n 100) (def f (lambda (n) (* n 2))) (f 5) n"), "100");
    assert_eq!(value_of("(def n 100) (def f (lambda (n) (* n 2))) (+ (f 5) n)"), "110");
    let error = error_of("(def f (lambda (fresh) fresh)) (f 5) fresh");
    assert_eq!(error.get_kind(), ErrorKind::Evaluation);
    assert_eq!(error.get_message(), "Unbound name 'fresh'");
}

#[test]
fn call_errors() {
    let error = error_of("(f 1)");
    assert_eq!(error.get_kind(), ErrorKind::Evaluation);
    assert_eq!(error.get_message(), "Unbound name 'f'");
    let error = error_of("(def x 5) (x 1)");
    assert_eq!(error.get_message(), "attempt to call a non-function value");
    let error = error_of("(1 2)");
    assert_eq!(error.get_message(), "attempt to call a non-function value");
    let error = error_of("(\"f\" 2)");
    assert_eq!(error.get_message(), "attempt to call a non-function value");
    let error = error_of("(def f (lambda (a b) a)) (f 1)");
    assert_eq!(error.get_kind(), ErrorKind::Evaluation);
    assert_eq!(error.get_message(), "function takes 3 arguments but received 2");
    assert_eq!(
        error.display(true),
        "Liszp: function takes 3 arguments but received 2\nstack trace:\n-> in function 'f'"
    );
    let error = error_of("((lambda (a) a) 1 2)");
    assert_eq!(error.get_message(), "function takes 2 arguments but received 3");
    assert_eq!(
        error.display(false),
        "Liszp: function takes 2 arguments but received 3\nstack trace:\n-> in lambda function"
    );
}

#[test]
fn a_run_that_uses_up_its_steps_can_be_gone_on_with() {
    let mut evaluator = Evaluator::new();
    run_in(&mut evaluator, "(def count (lambda (n acc) (if (== n 0) acc (count (- n 1) (+ acc 1)))))").unwrap();
    let form = &read("(count 50 0)", "<test>").unwrap()[0];
    let few = Limits { expansion_depth: 8, steps: 10 };
    let mut progress = evaluator.eval(form, &few).unwrap();
    let mut rounds = 0;
    let value = loop {
        progress = match progress {
            Progress::Done(v) => break v,
            Progress::Pending(job) => {
                rounds += 1;
                evaluator.advance(job, 10).unwrap()
            }
            Progress::Float(_, _) => panic!("no floats here"),
        };
    };
    assert_eq!(value.to_text(), "50");
    assert!(rounds > 10);
}

#[test]
fn no_steps_means_nothing_is_done() {
    let mut evaluator = Evaluator::new();
    let start = convert_expr(&format_names(&read("(print 1)", "<test>").unwrap()[0])).unwrap();
    match evaluator.run(&start, 0).unwrap() {
        Outcome::Pending(current) => assert!(current.equals(&start)),
        _ => panic!("expected the run to be pending"),
    }
    assert!(evaluator.take_output().is_empty());
    match evaluator.run(&start, 1).unwrap() {
        Outcome::Pending(current) => assert_eq!(current.to_text(), "(no-continuation 1)"),
        _ => panic!("expected the run to be pending"),
    }
    assert_eq!(evaluator.take_output(), vec!["1"]);
}

#[test]
fn a_float_operand_makes_a_question_for_the_host() {
    let mut evaluator = Evaluator::new();
    let form = &read("(+ 1 (* 2 1.5))", "<test>").unwrap()[0];
    let request = match evaluator.eval(form, &limits()).unwrap() {
        Progress::Float(request, _) => request,
        _ => panic!("expected a question"),
    };
    assert_eq!(request.operator, "&*");
    assert_eq!(request.operands.len(), 2);
    assert_eq!(request.operands[0].to_text(), "2");
    assert!(matches!(&*request.operands[1], Value::Float(n) if n == "1.5"));
    let next = Evaluator::resume(&request, &Value::float("3.0"));
    let request = match evaluator.run(&next, 100).unwrap() {
        Outcome::Float(request) => request,
        _ => panic!("expected a second question"),
    };
    assert_eq!(request.operator, "&+");
    assert_eq!(request.operands[0].to_text(), "1");
    assert_eq!(request.operands[1].to_text(), "3.0");
    let next = Evaluator::resume(&request, &Value::float("4.0"));
    match evaluator.run(&next, 100).unwrap() {
        Outcome::Done(v) => assert!(matches!(&*v, Value::Float(n) if n == "4.0")),
        _ => panic!("expected the end"),
    }
}

#[test]
fn comparisons_and_modulo_of_floats_are_questions_too() {
    let mut evaluator = Evaluator::new();
    for (source, operator) in [("(< 1 2.5)", "&<"), ("(== 1.5 1.5)", "&=="), ("(>= 2.5 1)", "&>="), ("(% 5.5 2.0)", "&%"), ("(- 1.5)", "&-")] {
        let form = &read(source, "<test>").unwrap()[0];
        match evaluator.eval(form, &limits()).unwrap() {
            Progress::Float(request, _) => assert_eq!(request.operator, operator),
            _ => panic!("expected a question for {}", source),
        }
    }
}

#[test]
fn one_step_at_a_time() {
    let mut evaluator = Evaluator::new();
    let start = convert_expr(&format_names(&read("(+ 1 (* 2 3))", "<test>").unwrap()[0])).unwrap();
    let second = match evaluator.step(&start).unwrap() {
        Step::Next(v) => v,
        _ => panic!("expected a next expression"),
    };
    assert_eq!(second.to_text(), "(<function> 6)");
    let third = match evaluator.step(&second).unwrap() {
        Step::Next(v) => v,
        _ => panic!("expected a next expression"),
    };
    assert_eq!(third.to_text(), "(&+ no-continuation 1 6)");
    let fourth = match evaluator.step(&third).unwrap() {
        Step::Next(v) => v,
        _ => panic!("expected a next expression"),
    };
    assert_eq!(fourth.to_text(), "(no-continuation 7)");
    match evaluator.step(&fourth).unwrap() {
        Step::Halt(v) => assert_eq!(v.to_text(), "7"),
        _ => panic!("expected the end"),
    }
    match evaluator.step(&num(7)).unwrap() {
        Step::Halt(v) => assert_eq!(v.to_text(), "7"),
        _ => panic!("expected the end"),
    }
}

#[test]
fn a_call_must_have_a_proper_list_of_arguments() {
    let mut evaluator = Evaluator::new();
    let call = Value::pair(&Value::named("&+"), &num(1));
    assert_eq!(evaluator.step(&call).err().unwrap().get_kind(), ErrorKind::Evaluation);
}

#[test]
fn the_last_continuation_looks_its_argument_up() {
    let mut evaluator = Evaluator::new();
    evaluator.define("&x", &num(9));
    let call = Value::cons_list(&vec![Value::named("no-continuation"), Value::named("&x")]);
    match evaluator.step(&call).unwrap() {
        Step::Halt(v) => assert_eq!(v.to_text(), "9"),
        _ => panic!("expected the end"),
    }
    let call = Value::cons_list(&vec![Value::named("no-continuation"), num(1), num(2)]);
    assert!(evaluator.step(&call).is_err());
    let call = Value::cons_list(&vec![Value::named("no-continuation"), Value::named("&y")]);
    assert!(evaluator.step(&call).is_err());
}

#[test]
fn the_environment_keeps_the_latest_definition() {
    let mut env = Env::new();
    assert!(env.lookup("&x").is_none());
    env.define("&x", &num(1));
    env.define("&y", &num(2));
    env.define("&x", &num(3));
    assert_eq!(env.lookup("&x").unwrap().to_text(), "3");
    assert_eq!(env.lookup("&y").unwrap().to_text(), "2");
    assert!(env.lookup("x").is_none());
    assert_eq!(env.resolve(&Value::named("&x")).unwrap().to_text(), "3");
    assert_eq!(env.resolve(&num(5)).unwrap().to_text(), "5");
    let error = env.resolve(&Value::named("&zed")).unwrap_err();
    assert_eq!(error.get_message(), "Unbound name 'zed'");
    let error = env.resolve(&Value::named("zed")).unwrap_err();
    assert_eq!(error.get_message(), "Unbound name 'zed'");
}

#[test]
fn builtins_hand_their_result_to_the_continuation() {
    let mut env = Env::new();
    env.define("&x", &num(4));
    let mut out = Vec::new();
    assert_eq!(builtin::car(&args_of("k '(1 2)").iter().cloned().map(|v| unquote_syntax(&v)).collect(), &env).unwrap().to_text(), "(&k 1)");
    assert_eq!(builtin::cons(&args_of("k x 2"), &env).unwrap().to_text(), "(&k '(4 . 2))");
    assert_eq!(builtin::if_expr(&args_of("true (k 1) (k 2)"), &env).unwrap().to_text(), "(&k 1)");
    assert_eq!(builtin::if_expr(&args_of("false (k 1) (k 2)"), &env).unwrap().to_text(), "(&k 2)");
    assert_eq!(builtin::quote_value(&args_of("k (a b)")).unwrap().to_text(), "(&k '(&a &b))");
    assert_eq!(builtin::values_are_equal(&args_of("k x 4"), &env).unwrap().to_text(), "(&k true)");
    assert_eq!(builtin::value_is_int(&args_of("k x"), &env).unwrap().to_text(), "(&k true)");
    assert_eq!(builtin::value_is_bool(&args_of("k x"), &env).unwrap().to_text(), "(&k false)");
    assert_eq!(builtin::value_is_cons(&args_of("k x"), &env).unwrap().to_text(), "(&k false)");
    assert_eq!(builtin::value_is_float(&args_of("k 1.5"), &env).unwrap().to_text(), "(&k true)");
    assert_eq!(builtin::value_is_nil(&args_of("k nil"), &env).unwrap().to_text(), "(&k true)");
    assert_eq!(builtin::value_is_name(&args_of("k 5"), &env).unwrap().to_text(), "(&k false)");
    assert_eq!(builtin::value_is_str(&args_of("k \"s\""), &env).unwrap().to_text(), "(&k true)");
    assert_eq!(builtin::value_is_quote(&args_of("k 5"), &env).unwrap().to_text(), "(&k false)");
    assert_eq!(builtin::eval_quoted(&args_of("k 5"), &env).unwrap().to_text(), "(&k 5)");
    assert_eq!(builtin::print_value(&args_of("k x"), &env, true, &mut out).unwrap().to_text(), "(&k 4)");
    assert_eq!(out, vec!["4\n"]);
    assert_eq!(builtin::define_value(&args_of("k y 6"), &mut env).unwrap().to_text(), "(&k nil)");
    assert_eq!(env.lookup("&y").unwrap().to_text(), "6");
    assert_eq!(builtin::panic(&args_of("k x"), &env).unwrap_err().get_kind(), ErrorKind::UserPanic);
    assert_eq!(operators::logical_operation(&"&and".to_string(), &args_of("k true false"), &env).unwrap().to_text(), "(&k false)");
    assert_eq!(operators::logical_negation(&args_of("k false"), &env).unwrap().to_text(), "(&k true)");
    match operators::arithmetic_expression(&"&+".to_string(), &args_of("k x 1"), &env).unwrap() {
        Step::Next(v) => assert_eq!(v.to_text(), "(&k 5)"),
        _ => panic!("expected a value"),
    }
    match operators::modulo(&args_of("k 9 x"), &env).unwrap() {
        Step::Next(v) => assert_eq!(v.to_text(), "(&k 1)"),
        _ => panic!("expected a value"),
    }
    match operators::comparison(&"&<".to_string(), &args_of("k x 5"), &env).unwrap() {
        Step::Next(v) => assert_eq!(v.to_text(), "(&k true)"),
        _ => panic!("expected a value"),
    }
    assert!(operators::arithmetic_expression(&"&^".to_string(), &args_of("k 1 2"), &env).is_err());
    assert!(operators::comparison(&"&<>".to_string(), &args_of("k 1 2"), &env).is_err());
    assert!(operators::logical_operation(&"&nand".to_string(), &args_of("k true true"), &env).is_err());
}

fn unquote_syntax(value: &Rc<Value>) -> Rc<Value> {
    match value.to_list() {
        Some(items) if items.len() == 2 && items[0].name() == "&quote" => Value::quoted(&items[1]),
        _ => value.clone(),
    }
}

#[test]
fn cdr_of_a_quoted_pair() {
    let env = Env::new();
    let list = Value::quoted(&Value::cons_list(&vec![num(1), Value::named("&b")]));
    let args = vec![Value::named("&k"), list];
    assert_eq!(builtin::cdr(&args, &env).unwrap().to_text(), "(&k '(&b))");
    assert_eq!(builtin::car(&args, &env).unwrap().to_text(), "(&k 1)");
}

#[test]
fn arguments_take_the_place_of_parameters() {
    let body = format_names(&read("(f x (lambda (x) (g x y)) '(x) y)", "<test>").unwrap()[0]);
    let converted_inner = Value::lambda(&vec!["&x".to_string()], &format_names(&read("(g x y)", "<test>").unwrap()[0]));
    let body = Value::cons_list(&vec![Value::named("&f"), Value::named("&x"), converted_inner, Value::named("&y")]);
    let names = vec!["&x".to_string(), "&y".to_string()];
    let values = vec![num(1), num(2)];
    let bound = recursively_bind_args(&body, &names, &values, &vec![]);
    match &*bound.to_list().unwrap()[2] {
        Value::Lambda { args, body } => {
            assert_eq!(args, &vec!["&x".to_string()]);
            assert_eq!(body.to_text(), "(&g &x 2)");
        }
        _ => panic!("expected a procedure"),
    }
    assert_eq!(bound.to_list().unwrap()[1].to_text(), "1");
    assert_eq!(bound.to_list().unwrap()[3].to_text(), "2");
    let hidden = recursively_bind_args(&body, &names, &values, &vec!["&y".to_string()]);
    assert_eq!(hidden.to_list().unwrap()[3].to_text(), "&y");
}

#[test]
fn the_later_of_two_parameters_of_one_name_counts() {
    let body = Value::named("&x");
    let names = vec!["&x".to_string(), "&x".to_string()];
    let values = vec![num(1), num(2)];
    assert_eq!(recursively_bind_args(&body, &names, &values, &vec![]).to_text(), "2");
    let function = Value::lambda(&names, &body);
    assert_eq!(evaluate_lambda_funcall(&function, &values).unwrap().to_text(), "2");
    assert!(evaluate_lambda_funcall(&function, &vec![num(1)]).is_err());
    assert!(evaluate_lambda_funcall(&num(1), &vec![]).is_err());
}

#[test]
fn what_is_quoted_already_is_not_quoted_again() {
    assert_eq!(value_of("((lambda (x) (quote x)) 'a)"), "'&x");
    assert_eq!(value_of("(quote (quote a))"), "'(&quote &a)");
    let env = Env::new();
    let quoted = Value::quoted(&num(1));
    let args = vec![Value::named("&k"), quoted];
    assert_eq!(builtin::quote_value(&args).unwrap().to_text(), "(&k '1)");
    assert_eq!(builtin::eval_quoted(&vec![Value::named("&k"), Value::quoted(&Value::cons_list(&vec![Value::named("&f"), num(1)]))], &env).unwrap().to_text(), "(&f &k 1)");
}

#[test]
fn a_conditional_in_what_eval_runs_is_lifted() {
    assert_eq!(value_of("(eval '(+ 1 (if true 2 3)))"), "3");
    assert_eq!(value_of("(def x 10) (eval '(if (< x 5) 'small 'big))"), "'&big");
}

#[test]
fn what_is_quoted_keeps_its_names_in_a_call() {
    assert_eq!(value_of("((lambda (x) '(x y)) 1)"), "'(&x &y)");
    assert_eq!(value_of("((lambda (x) (cons x '(x))) 1)"), "'(1 &x)");
    assert_eq!(value_of("((lambda (x) '(a ,(+ x 1) x)) 5)"), "'(&a 6 &x)");
    assert_eq!(value_of("((lambda (x) '(a ,x x)) 5)"), "'(&a 5 &x)");
    assert_eq!(value_of("((lambda (x y) '(,y ,x)) 1 '(2 3))"), "'('(2 3) 1)");
    assert_eq!(value_of("((lambda (x) ((lambda (y) '(,(* x y) ,(+ x y))) 3)) 5)"), "'(15 8)");
}

#[test]
fn only_made_up_names_are_replaced_in_quoted_data() {
    let k = Value::named("&k");
    let data = Value::cons_list(&vec![Value::named("&x"), Value::named("@@k0"), Value::named("@@k1")]);
    let body = Value::cons_list(&vec![Value::named("&quote"), Value::named("&x"), data]);
    let names = vec!["&x".to_string(), "@@k0".to_string(), "@@k1".to_string()];
    let values = vec![k, num(1), num(2)];
    let bound = recursively_bind_args(&body, &names, &values, &vec![]);
    assert_eq!(bound.to_text(), "(&quote &k (&x 1 2))");
    let hidden = recursively_bind_args(&body, &names, &values, &vec!["@@k1".to_string()]);
    assert_eq!(hidden.to_text(), "(&quote &k (&x 1 @@k1))");
}

#[test]
fn every_failure_says_the_same_each_time() {
    let sources = [
        "(car 5)", "(cdr)", "(cons 1)", "(eval)", "(eval '(lambda))", "(if 1 2 3)", "(if)",
        "(quote)", "(equals? 1)", "(int?)", "(print)", "(panic)", "(def 1 2)", "(def x)",
        "(+)", "(+ 1 true)", "(+ 1 y)", "(/ 1 0)", "(% 1 0)", "(% 1)", "(% 1.5 2)", "(% true 1)",
        "(< 1)", "(< 1 true)", "(and 1 true)", "(and true)", "(not 1)", "(not)", "(f 1)", "(1 2)",
        "((lambda (a) a))", "undefined", "(lambda)", "(if true)", "(defmacro)", "(g (defmacro (m) 1))",
    ];
    for source in sources {
        let first = error_of(source);
        let second = error_of(source);
        assert_eq!(first.get_kind(), second.get_kind(), "{}", source);
        assert_eq!(first.display(true), second.display(true), "{}", source);
    }
}

#[test]
fn failures_of_built_ins_say_what_is_wrong() {
    assert_eq!(error_of("(car 5)").get_message(), "function 'car' expected to receive cons pair");
    assert_eq!(error_of("(car)").get_message(), "function 'car' takes 1 argument");
    assert_eq!(error_of("(car y)").get_message(), "Unbound name 'y'");
    assert_eq!(error_of("(cons y z)").get_message(), "Unbound name 'y'");
    assert_eq!(error_of("(cons 1 z)").get_message(), "Unbound name 'z'");
    assert_eq!(error_of("(+ 1 true)").get_message(), "an arithmetic expression takes numeric arguments");
    assert_eq!(error_of("(+ 1 y 2)").get_message(), "Unbound name 'y'");
    assert_eq!(error_of("(+ true y)").get_message(), "an arithmetic expression takes numeric arguments");
    assert_eq!(error_of("(+)").get_message(), "an arithmetic expression takes at least 1 argument");
    assert_eq!(error_of("(% 1.5 2)").get_message(), "cannot take the integer modulo of a float");
    assert_eq!(error_of("(< 1 true)").get_message(), "comparisons take two numeric values");
    assert_eq!(error_of("(and 1 true)").get_message(), "logical expressions take boolean arguments");
    assert_eq!(error_of("(not 1)").get_message(), "'not' expressions take a boolean argument");
    assert_eq!(error_of("(if 1 2 3)").get_message(), "if expression expected a boolean condition");
    assert_eq!(error_of("(def 1 2)").get_message(), "expected name in def expression");
    assert_eq!(error_of("(int?)").get_message(), "a type predicate takes exactly one argument");
    assert_eq!(error_of("(panic)").get_message(), "expected syntax (panic <message>)");
    assert_eq!(error_of("undefined").get_message(), "Unbound name 'undefined'");
    let transform = error_of("(lambda)");
    assert_eq!(transform.get_kind(), ErrorKind::Transform);
    assert_eq!(transform.get_message(), error_of("(f (if 1))").get_message());
    assert_eq!(error_of("(eval '(lambda))").get_message(), transform.get_message());
}
