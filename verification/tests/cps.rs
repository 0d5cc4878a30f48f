use liszp::cps::{convert_expr, CPSConverter};
use liszp::error::ErrorKind;
use liszp::format::format_names;
use liszp::read::read;
use liszp::value::Value;
use std::rc::Rc;

fn show(value: &Value) -> String {
    match value {
        Value::Cons { car, cdr } => {
            let mut text = format!("({}", show(car));
            let mut rest: &Value = cdr;
            loop {
                match rest {
                    Value::Cons { car, cdr } => {
                        text.push_str(&format!(" {}", show(car)));
                        rest = cdr;
                    }
                    Value::Nil => break,
                    other => {
                        text.push_str(&format!(" . {}", show(other)));
                        break;
                    }
                }
            }
            text.push(')');
            text
        }
        Value::Lambda { args, body } => format!("(lambda ({}) {})", args.join(" "), show(body)),
        Value::Quote(inner) => format!("'{}", show(inner)),
        other => other.to_text(),
    }
}

fn form(source: &str) -> Rc<Value> {
    let forms = read(source, "<test>").unwrap();
    assert_eq!(forms.len(), 1);
    format_names(&forms[0])
}

fn converted(source: &str) -> String {
    show(&convert_expr(&form(source)).unwrap())
}

fn count_name(value: &Value, name: &str) -> usize {
    match value {
        Value::Name(n) => (n == name) as usize,
        Value::Cons { car, cdr } => count_name(car, name) + count_name(cdr, name),
        Value::Lambda { body, .. } => count_name(body, name),
        Value::Quote(inner) => count_name(inner, name),
        _ => 0,
    }
}

fn is_name(value: &Value, name: &str) -> bool {
    matches!(value, Value::Name(n) if n == name)
}

fn calls_are_atomic(value: &Value) -> bool {
    match value {
        Value::Cons { car, cdr } => {
            if is_name(car, "&if") {
                cdr.to_list().unwrap().iter().all(|item| calls_are_atomic(item))
            } else if is_name(car, "&quote") {
                calls_are_atomic(&cdr.to_list().unwrap()[0])
            } else {
                let items = value.to_list().unwrap();
                items.iter().all(|item| !item.is_cons() && calls_are_atomic(item))
            }
        }
        Value::Lambda { body, .. } => calls_are_atomic(body),
        _ => true,
    }
}

#[test]
fn an_atom_goes_to_the_continuation() {
    assert_eq!(converted("5"), "(no-continuation 5)");
    assert_eq!(converted("x"), "(no-continuation &x)");
    assert_eq!(converted("\"text\""), "(no-continuation \"text\")");
    assert_eq!(converted("()"), "(no-continuation nil)");
}

#[test]
fn a_call_gets_its_continuation_after_its_head() {
    assert_eq!(converted("(+ 1 2)"), "(&+ no-continuation 1 2)");
    assert_eq!(converted("(f)"), "(&f no-continuation)");
}

#[test]
fn nested_calls_are_chained_innermost_first() {
    assert_eq!(
        converted("(f (g 1))"),
        "(&g (lambda (@@k0) (&f no-continuation @@k0)) 1)"
    );
    assert_eq!(
        converted("(+ (* 1 2) (- 3 4))"),
        "(&* (lambda (@@k0) (&- (lambda (@@k1) (&+ no-continuation @@k0 @@k1)) 3 4)) 1 2)"
    );
    assert_eq!(
        converted("(f (g (h 1)) 2)"),
        "(&h (lambda (@@k0) (&g (lambda (@@k1) (&f no-continuation @@k1 2)) @@k0)) 1)"
    );
}

#[test]
fn the_head_of_a_call_may_be_a_call() {
    assert_eq!(
        converted("((f 1) 2)"),
        "(&f (lambda (@@k0) (@@k0 no-continuation 2)) 1)"
    );
}

#[test]
fn labels_count_beyond_nine() {
    let text = converted("(f (a) (a) (a) (a) (a) (a) (a) (a) (a) (a) (a))");
    assert!(text.contains("(lambda (@@k10) (&f no-continuation @@k0 @@k1 @@k2 @@k3 @@k4 @@k5 @@k6 @@k7 @@k8 @@k9 @@k10))"));
}

#[test]
fn a_conditional_chooses_between_two_conversions() {
    assert_eq!(
        converted("(if c 1 2)"),
        "((lambda (@@k-if) (&if @@k-if (no-continuation 1) (no-continuation 2))) &c)"
    );
    assert_eq!(
        converted("(if (p 1) (f 2) (g 3))"),
        "(&p (lambda (@@k-if) (&if @@k-if (&f no-continuation 2) (&g no-continuation 3))) 1)"
    );
}

#[test]
fn a_conditional_inside_a_call_is_lifted_over_it() {
    assert_eq!(
        converted("(+ 1 (if c 2 3))"),
        "((lambda (@@k-if) (&if @@k-if (&+ no-continuation 1 2) (&+ no-continuation 1 3))) &c)"
    );
}

#[test]
fn nested_conditionals_are_lifted_one_after_the_other() {
    assert_eq!(
        converted("(f (if a 1 2) (if b 3 4))"),
        "((lambda (@@k-if) (&if @@k-if \
         ((lambda (@@k-if) (&if @@k-if (&f no-continuation 1 3) (&f no-continuation 1 4))) &b) \
         ((lambda (@@k-if) (&if @@k-if (&f no-continuation 2 3) (&f no-continuation 2 4))) &b))) &a)"
    );
}

#[test]
fn a_conditional_under_a_lambda_or_a_quote_stays_there() {
    assert_eq!(
        converted("(f (lambda (x) (if x 1 2)))"),
        "(&f no-continuation (lambda (@@k &x) ((lambda (@@k-if) (&if @@k-if (@@k 1) (@@k 2))) &x)))"
    );
    assert_eq!(
        converted("(f '(if x 1 2))"),
        "(&quote (lambda (@@k0) (&f no-continuation @@k0)) (&if &x 1 2))"
    );
}

#[test]
fn a_lambda_takes_its_continuation_first() {
    assert_eq!(
        converted("(lambda (x y) (+ x y))"),
        "(no-continuation (lambda (@@k &x &y) (&+ @@k &x &y)))"
    );
    assert_eq!(converted("(lambda () 1)"), "(no-continuation (lambda (@@k) (@@k 1)))");
}

#[test]
fn a_lambda_of_one_bare_name_takes_that_parameter() {
    assert_eq!(converted("(lambda x x)"), "(no-continuation (lambda (@@k &x) (@@k &x)))");
}

#[test]
fn a_quotation_is_carried_unchanged() {
    assert_eq!(converted("'(a (b c))"), "(&quote no-continuation (&a (&b &c)))");
    assert_eq!(converted("'x"), "(&quote no-continuation &x)");
}

#[test]
fn an_unquote_is_computed_before_the_quotation() {
    assert_eq!(
        converted("'(a ,(f 1))"),
        "(&f (lambda (@@k0) (&quote no-continuation (&a @@k0))) 1)"
    );
    assert_eq!(
        converted("'(a ,x)"),
        "((lambda (@@k0) (&quote no-continuation (&a @@k0))) &x)"
    );
    assert_eq!(
        converted("'(,1 ,(f 2))"),
        "((lambda (@@k0) (&f (lambda (@@k1) (&quote no-continuation (@@k0 @@k1))) 2)) 1)"
    );
}

#[test]
fn a_malformed_lambda_is_a_transform_error() {
    for source in ["(lambda (x))", "(lambda)", "(lambda (x) 1 2)", "(lambda (1) x)", "(lambda 5 x)"] {
        let error = convert_expr(&form(source)).unwrap_err();
        assert_eq!(error.get_kind(), ErrorKind::Transform);
    }
}

#[test]
fn a_malformed_conditional_is_a_transform_error() {
    for source in ["(if c 1)", "(if)", "(if c 1 2 3)", "(f (if c 1))"] {
        let error = convert_expr(&form(source)).unwrap_err();
        assert_eq!(error.get_kind(), ErrorKind::Transform);
    }
}

#[test]
fn a_malformed_quotation_is_a_transform_error() {
    for source in ["(quote)", "(quote a b)", "'(a (unquote))", "'(a (unquote b c))"] {
        let error = convert_expr(&form(source)).unwrap_err();
        assert_eq!(error.get_kind(), ErrorKind::Transform);
    }
}

#[test]
fn a_call_that_is_no_proper_list_is_a_transform_error() {
    let one = Value::integer(liszp::integer::Integer::from_usize(1));
    let call = Value::pair(&Value::named("&f"), &one);
    assert_eq!(convert_expr(&call).unwrap_err().get_kind(), ErrorKind::Transform);
}

#[test]
fn every_call_of_a_conversion_has_atoms_for_arguments() {
    for source in [
        "5",
        "(f (g (h 1) (i 2)) (j 3))",
        "(f (if (p (q 1)) (g (h 1)) 2) (lambda (x) (f (g x))))",
        "'(a ,(f (g 1)) (b ,(h 2)))",
        "((lambda (x) (* x (f x))) (g 2))",
        "(def fact (lambda (n) (if (== n 0) 1 (* n (fact (- n 1))))))",
    ] {
        let result = convert_expr(&form(source)).unwrap();
        assert!(calls_are_atomic(&result), "{}", show(&result));
    }
}

#[test]
fn the_last_continuation_occurs_once_without_a_conditional() {
    for source in [
        "5",
        "(f (g (h 1) (i 2)) (j 3))",
        "(f (lambda (x) (if x 1 2)))",
        "'(a ,(f (g 1)) (b ,(h 2)))",
    ] {
        let result = convert_expr(&form(source)).unwrap();
        assert_eq!(count_name(&result, "no-continuation"), 1, "{}", show(&result));
    }
}

#[test]
fn the_last_continuation_occurs_once_for_each_branch() {
    let result = convert_expr(&form("(if true 1 2)")).unwrap();
    assert_eq!(count_name(&result, "no-continuation"), 2);
    let result = convert_expr(&form("(f (if a 1 2) (if b 3 4))")).unwrap();
    assert_eq!(count_name(&result, "no-continuation"), 4);
    let result = convert_expr(&form("(if (if a b c) 1 2)")).unwrap();
    assert_eq!(count_name(&result, "no-continuation"), 4);
}

#[test]
fn converting_a_conversion_gives_another_tree() {
    let once = convert_expr(&form("5")).unwrap();
    let twice = convert_expr(&once).unwrap();
    assert_eq!(show(&once), "(no-continuation 5)");
    assert_eq!(show(&twice), "(no-continuation no-continuation 5)");
    assert!(!once.equals(&twice));
    let once = convert_expr(&form("(f (g 1))")).unwrap();
    let twice = convert_expr(&once).unwrap();
    assert_eq!(
        show(&twice),
        "(&g no-continuation (lambda (@@k0) (&f no-continuation @@k0)) 1)"
    );
}

#[test]
fn find_conditional_takes_the_first_in_reading_order() {
    let expr = form("(f (g (if a 1 2)) (if b 3 4))");
    let found = CPSConverter::find_conditional(&expr).unwrap();
    assert_eq!(show(&found), "(&if &a 1 2)");
    assert_eq!(
        show(&CPSConverter::without_conditional(&expr, true)),
        "(&f (&g 1) (&if &b 3 4))"
    );
    assert_eq!(
        show(&CPSConverter::without_conditional(&expr, false)),
        "(&f (&g 2) (&if &b 3 4))"
    );
    assert!(CPSConverter::find_conditional(&form("(f (lambda (x) (if x 1 2)))")).is_none());
}

#[test]
fn conversion_with_a_given_continuation() {
    let k = Value::named("&k");
    let result = CPSConverter::convert_expr_with_continuation(&form("(f 1)"), &k).unwrap();
    assert_eq!(show(&result), "(&f &k 1)");
}

#[test]
fn formatting_prefixes_every_name_once() {
    let forms = read("(def x (lambda (y) '(y &z)))", "<test>").unwrap();
    let once = format_names(&forms[0]);
    assert_eq!(once.to_text(), "(&def &x (&lambda (&y) (&quote (&y &z))))");
    let twice = format_names(&once);
    assert!(once.equals(&twice));
}
