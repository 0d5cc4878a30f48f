use liszp::integer::Integer;
use liszp::value::{copy_names, same_names, Value};
use std::rc::Rc;

fn num(n: usize) -> Rc<Value> {
    Value::integer(Integer::from_usize(n))
}

#[test]
fn values_are_shown_as_they_are_written() {
    assert_eq!(Value::nil().to_text(), "nil");
    assert_eq!(Value::boolean(true).to_text(), "true");
    assert_eq!(Value::boolean(false).to_text(), "false");
    assert_eq!(num(42).to_text(), "42");
    assert_eq!(Value::integer(Integer::from_usize(42).negated()).to_text(), "-42");
    assert_eq!(Value::float("1.5").to_text(), "1.5");
    assert_eq!(Value::text("\"hi\"").to_text(), "\"hi\"");
    assert_eq!(Value::named("&x").to_text(), "&x");
    assert_eq!(Value::quoted(&num(1)).to_text(), "'1");
    assert_eq!(Value::quoted(&Value::quoted(&Value::named("a"))).to_text(), "''a");
    assert_eq!(Value::lambda(&vec!["x".to_string()], &num(1)).to_text(), "<function>");
}

#[test]
fn lists_are_shown_in_round_brackets() {
    let list = Value::cons_list(&vec![num(1), num(2), num(3)]);
    assert_eq!(list.to_text(), "(1 2 3)");
    assert_eq!(Value::cons_list(&vec![num(1)]).to_text(), "(1)");
    assert_eq!(Value::cons_list(&vec![]).to_text(), "nil");
    let nested = Value::cons_list(&vec![list, Value::nil(), Value::cons_list(&vec![Value::named("a")])]);
    assert_eq!(nested.to_text(), "((1 2 3) nil (a))");
}

#[test]
fn a_tail_that_is_no_list_comes_after_a_point() {
    assert_eq!(Value::pair(&num(1), &num(2)).to_text(), "(1 . 2)");
    let improper = Value::pair(&num(1), &Value::pair(&num(2), &num(3)));
    assert_eq!(improper.to_text(), "(1 2 . 3)");
    assert_eq!(Value::pair(&num(1), &Value::quoted(&Value::nil())).to_text(), "(1 . 'nil)");
}

#[test]
fn to_list_takes_proper_lists_only() {
    let items = vec![num(1), Value::named("a"), Value::nil()];
    let list = Value::cons_list(&items);
    let back = list.to_list().unwrap();
    assert_eq!(back.len(), 3);
    for (a, b) in items.iter().zip(back.iter()) {
        assert!(a.equals(b));
    }
    assert_eq!(Value::nil().to_list().unwrap().len(), 0);
    assert!(num(1).to_list().is_none());
    assert!(Value::named("a").to_list().is_none());
    assert!(Value::pair(&num(1), &num(2)).to_list().is_none());
    assert!(Value::pair(&num(1), &Value::pair(&num(2), &num(3))).to_list().is_none());
    assert!(Value::quoted(&list).to_list().is_none());
}

#[test]
fn cons_makes_a_pair() {
    let pair = Value::cons(&num(1), &Value::nil());
    assert!(pair.is_cons());
    assert!(!pair.is_nil());
    assert_eq!(pair.to_text(), "(1)");
    assert!(pair.rc().equals(&Value::cons_list(&vec![num(1)])));
    assert!(Value::nil().is_nil());
    assert!(!Value::nil().is_cons());
    assert!(!num(0).is_nil());
}

#[test]
fn name_gives_the_text_of_a_name_only() {
    assert_eq!(Value::named("foo").name(), "foo");
    assert_eq!(Value::text("foo").name(), "");
    assert_eq!(num(1).name(), "");
    assert_eq!(Value::nil().name(), "");
    assert_eq!(Value::cons_list(&vec![Value::named("a")]).name(), "");
}

#[test]
fn equality_goes_by_structure() {
    assert!(num(1).equals(&num(1)));
    assert!(!num(1).equals(&num(2)));
    assert!(!num(1).equals(&Value::float("1")));
    assert!(!num(1).equals(&Value::text("1")));
    assert!(!Value::named("a").equals(&Value::text("a")));
    assert!(Value::text("a").equals(&Value::text("a")));
    assert!(Value::float("1.5").equals(&Value::float("1.5")));
    assert!(!Value::float("1.5").equals(&Value::float("1.50")));
    assert!(Value::boolean(true).equals(&Value::boolean(true)));
    assert!(!Value::boolean(true).equals(&Value::boolean(false)));
    assert!(!Value::nil().equals(&Value::boolean(false)));
    let a = Value::cons_list(&vec![num(1), Value::cons_list(&vec![num(2)])]);
    let b = Value::cons_list(&vec![num(1), Value::cons_list(&vec![num(2)])]);
    let c = Value::cons_list(&vec![num(1), Value::cons_list(&vec![num(3)])]);
    assert!(a.equals(&b));
    assert!(!a.equals(&c));
    assert!(Value::quoted(&a).equals(&Value::quoted(&b)));
    assert!(!Value::quoted(&a).equals(&Value::quoted(&c)));
    assert!(!Value::quoted(&a).equals(&a));
    let f = Value::lambda(&vec!["x".to_string()], &a);
    let g = Value::lambda(&vec!["x".to_string()], &b);
    let h = Value::lambda(&vec!["y".to_string()], &a);
    let i = Value::lambda(&vec!["x".to_string()], &c);
    assert!(f.equals(&g));
    assert!(!f.equals(&h));
    assert!(!f.equals(&i));
}

#[test]
fn names_are_copied_and_compared_in_order() {
    let names = vec!["a".to_string(), "b".to_string()];
    assert_eq!(copy_names(&names), names);
    assert!(same_names(&names, &copy_names(&names)));
    assert!(!same_names(&names, &vec!["b".to_string(), "a".to_string()]));
    assert!(!same_names(&names, &vec!["a".to_string()]));
    assert!(same_names(&vec![], &vec![]));
}

#[test]
fn len_and_index_of_a_list() {
    let list = Value::cons_list(&vec![num(10), num(20), num(30)]);
    assert_eq!(list.len(), 3);
    assert_eq!(Value::nil().len(), 0);
    assert_eq!(list.index(0).unwrap().to_text(), "10");
    assert_eq!(list.index(2).unwrap().to_text(), "30");
    assert!(list.index(3).is_none());
    assert!(Value::nil().index(0).is_none());
    let chain = Value::pair(&num(1), &Value::pair(&num(2), &num(3)));
    assert_eq!(chain.len(), 2);
    assert_eq!(chain.index(1).unwrap().to_text(), "2");
    assert!(chain.index(2).is_none());
    assert_eq!(num(5).len(), 0);
    assert_eq!(chain.items().len(), 2);
}

#[test]
fn refcounted_gives_the_same_value() {
    let list = Value::cons_list(&vec![num(1), Value::named("a")]);
    for value in [
        Value::nil(),
        Value::boolean(true),
        num(5),
        Value::float("1.5"),
        Value::text("\"s\""),
        Value::named("n"),
        Value::quoted(&list),
        Value::lambda(&vec!["x".to_string()], &list),
        list.clone(),
    ] {
        let again = value.refcounted();
        assert!(again.equals(&value));
        assert!(!Rc::ptr_eq(&again, &value));
    }
}
