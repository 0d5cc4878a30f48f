//! The rewrite into continuation-passing style. Every call gets the
//! continuation that takes its result as its first argument; a conditional
//! inside a call is lifted over the call, so that each branch ends in the
//! continuation of the whole; a procedure gets one more parameter, the
//! continuation it returns to.

use vstd::prelude::*;
use vstd::string::*;
use std::rc::Rc;
use crate::error::{fails_with, Error, ErrorKind, Failure};
use crate::text::{decimal_of, is_text, joined, nat_text};
use crate::value::{list_items, list_of, share, term_of, terms_of, Term, Value};

verus! {

/// The name of the continuation in which a top-level expression ends.
pub open spec fn sentinel() -> Seq<char> {
    "no-continuation"@
}

/// The parameter that stands for the result of the `i`-th call.
pub open spec fn label(i: nat) -> Seq<char> {
    "@@k"@ + nat_text(i)
}

/// The name `name` as a tree.
pub open spec fn named(name: Seq<char>) -> Term {
    Term::Name(name)
}

/// Whether the head of a form keeps lifting out: the inside of a procedure
/// or of a quotation is converted on its own, or not at all.
pub open spec fn is_closed_head(h: Term) -> bool {
    h == named("&lambda"@) || h == named("&quote"@)
}

/// The number of pairs and leaves of a tree, not counting what is inside a
/// procedure value or a quoted value.
pub open spec fn size(t: Term) -> nat
    decreases t,
{
    match t {
        Term::Cons(a, b) => 1 + size(*a) + size(*b),
        _ => 1,
    }
}

/// The first conditional of the form `t`, in reading order, that is not
/// inside a `&lambda` or a `&quote`.
pub open spec fn find_conditional(t: Term) -> Option<Term>
    decreases t, 1nat,
{
    match t {
        Term::Cons(h, _) => if *h == named("&if"@) {
            Some(t)
        } else if is_closed_head(*h) {
            None
        } else {
            find_in_items(t)
        },
        _ => None,
    }
}

/// The first conditional among the items of the chain `t`.
pub open spec fn find_in_items(t: Term) -> Option<Term>
    decreases t, 0nat,
{
    match t {
        Term::Cons(a, b) => match find_conditional(*a) {
            Some(c) => Some(c),
            None => find_in_items(*b),
        },
        _ => None,
    }
}

/// The test and the two branches of `(&if test a b)`; `None` for a form of
/// any other shape.
pub open spec fn conditional_parts(t: Term) -> Option<(Term, Term, Term)> {
    match t {
        Term::Cons(_, r1) => match *r1 {
            Term::Cons(test, r2) => match *r2 {
                Term::Cons(a, r3) => match *r3 {
                    Term::Cons(b, r4) => if *r4 is Nil {
                        Some((*test, *a, *b))
                    } else {
                        None
                    },
                    _ => None,
                },
                _ => None,
            },
            _ => None,
        },
        _ => None,
    }
}

/// The branch of the conditional `c` that is kept.
pub open spec fn kept_branch(c: Term, keep_first: bool) -> Term {
    match conditional_parts(c) {
        Some((_, a, b)) => if keep_first {
            a
        } else {
            b
        },
        None => c,
    }
}

/// The form `t` with its first conditional replaced by one of its branches.
pub open spec fn without_conditional(t: Term, keep_first: bool) -> Term
    decreases t, 1nat,
{
    match t {
        Term::Cons(h, _) => if *h == named("&if"@) {
            kept_branch(t, keep_first)
        } else if is_closed_head(*h) {
            t
        } else {
            without_in_items(t, keep_first)
        },
        _ => t,
    }
}

/// The chain `t` with the first conditional among its items replaced by one
/// of its branches.
pub open spec fn without_in_items(t: Term, keep_first: bool) -> Term
    decreases t, 0nat,
{
    match t {
        Term::Cons(a, b) => if find_conditional(*a) is Some {
            Term::Cons(Box::new(without_conditional(*a, keep_first)), b)
        } else {
            Term::Cons(a, Box::new(without_in_items(*b, keep_first)))
        },
        _ => t,
    }
}

/// The conditional that is found is a part of the form, and each of its
/// three parts is smaller than it.
pub proof fn lemma_found_is_part(t: Term)
    ensures
        match find_conditional(t) {
            Some(c) => size(c) <= size(t),
            None => true,
        },
        match find_in_items(t) {
            Some(c) => size(c) < size(t),
            None => true,
        },
    decreases t,
{
    match t {
        Term::Cons(a, b) => {
            lemma_found_is_part(*a);
            lemma_found_is_part(*b);
        },
        _ => {},
    }
}

/// The parts of a conditional are smaller than the conditional.
pub proof fn lemma_parts_are_smaller(c: Term)
    ensures
        match conditional_parts(c) {
            Some((test, a, b)) => size(test) < size(c) && size(a) < size(c) && size(b) < size(c),
            None => true,
        },
{
    reveal_with_fuel(size, 5);
}

/// Replacing the first conditional by a branch makes the form smaller.
pub proof fn lemma_without_is_smaller(t: Term, keep_first: bool)
    ensures
        match find_conditional(t) {
            Some(c) => conditional_parts(c) is Some ==> size(without_conditional(t, keep_first))
                < size(t),
            None => true,
        },
        match find_in_items(t) {
            Some(c) => conditional_parts(c) is Some ==> size(without_in_items(t, keep_first))
                < size(t),
            None => true,
        },
    decreases t,
{
    match t {
        Term::Cons(a, b) => {
            lemma_without_is_smaller(*a, keep_first);
            lemma_without_is_smaller(*b, keep_first);
            lemma_parts_are_smaller(t);
        },
        _ => {},
    }
}

/// The names of the parameters in a parameter list.
pub open spec fn names_in_list(t: Term) -> Option<Seq<Seq<char>>>
    decreases t,
{
    match t {
        Term::Nil => Some(Seq::empty()),
        Term::Cons(a, b) => match (*a, names_in_list(*b)) {
            (Term::Name(n), Some(rest)) => Some(seq![n] + rest),
            _ => None,
        },
        _ => None,
    }
}

/// The names of the parameters of a procedure: one name standing alone, or
/// a proper list of names.
pub open spec fn parameter_names(t: Term) -> Option<Seq<Seq<char>>> {
    match t {
        Term::Name(n) => Some(seq![n]),
        _ => names_in_list(t),
    }
}

/// The call `form` with the continuation `k` put in after its head; where
/// `form` is an atom, the continuation applied to it.
pub open spec fn with_continuation(form: Term, k: Term) -> Term {
    match form {
        Term::Cons(h, rest) => Term::Cons(h, Box::new(Term::Cons(Box::new(k), rest))),
        _ => list_of(seq![k, form]),
    }
}

/// The procedure of one parameter that goes on with `body`.
pub open spec fn continuation(parameter: Seq<char>, body: Term) -> Term {
    Term::Lambda(seq![parameter], Box::new(body))
}

/// The calls `calls[i..]` chained: each hands its result, under its label,
/// to the next, and the last hands its result to `k`.
pub open spec fn assembled(calls: Seq<Term>, i: nat, k: Term) -> Term
    decreases calls.len() - i,
{
    if i + 1 >= calls.len() {
        if i < calls.len() {
            with_continuation(calls[i as int], k)
        } else {
            k
        }
    } else {
        with_continuation(calls[i as int], continuation(label(i), assembled(calls, i + 1, k)))
    }
}

/// The label of the call that was noted last.
pub open spec fn last_label(calls: Seq<Term>) -> Term {
    named(label((calls.len() - 1) as nat))
}

/// The expression `t` in continuation-passing style, ending in `k`; `None`
/// where a conditional, a procedure or a quotation in it is malformed, or a
/// call is no proper list.
///
/// A conditional is lifted first: the expression is converted once with
/// each branch in the conditional's place, and the test is converted with
/// the choice between the two as its continuation. An expression without a
/// conditional has its calls noted innermost first and chained.
pub open spec fn converted(t: Term, k: Term) -> Option<Term>
    decreases size(t), 3nat,
{
    match find_conditional(t) {
        Some(c) => match conditional_parts(c) {
            Some((test, _, _)) => {
                proof {
                    lemma_without_is_smaller(t, true);
                    lemma_without_is_smaller(t, false);
                    lemma_found_is_part(t);
                    lemma_parts_are_smaller(c);
                }
                match (
                    converted(without_conditional(t, true), k),
                    converted(without_conditional(t, false), k),
                ) {
                    (Some(first), Some(second)) => converted(
                        test,
                        continuation(
                            "@@k-if"@,
                            list_of(seq![named("&if"@), named("@@k-if"@), first, second]),
                        ),
                    ),
                    _ => None,
                }
            },
            None => None,
        },
        None => match noted_form(t, Seq::empty()) {
            Some((calls, atom)) => Some(
                if calls.len() == 0 {
                    list_of(seq![k, atom])
                } else {
                    assembled(calls, 0, k)
                },
            ),
            None => None,
        },
    }
}

/// Notes the calls of the form `t` after those in `calls`, innermost first,
/// and gives what stands for `t` in its parent: `t` itself where it is an
/// atom, the converted procedure where it is a `&lambda`, and else the label
/// of its own call.
pub open spec fn noted_form(t: Term, calls: Seq<Term>) -> Option<(Seq<Term>, Term)>
    decreases size(t), 2nat,
{
    match t {
        Term::Cons(h, rest) => if list_items(*rest) is None {
            None
        } else if *h == named("&lambda"@) {
            match converted_lambda(*rest) {
                Some(l) => Some((calls, l)),
                None => None,
            }
        } else if *h == named("&quote"@) {
            match *rest {
                Term::Cons(q, tail) => if *tail is Nil {
                    match unquoted_form(*q, calls) {
                        Some((c, q2)) => {
                            let all = c.push(list_of(seq![*h, q2]));
                            Some((all, last_label(all)))
                        },
                        None => None,
                    }
                } else {
                    None
                },
                _ => None,
            }
        } else {
            match noted_items(t, calls) {
                Some((c, call)) => {
                    let all = c.push(call);
                    Some((all, last_label(all)))
                },
                None => None,
            }
        },
        _ => Some((calls, t)),
    }
}

/// Notes the calls of each item of the chain `t`, and gives the chain with
/// each item replaced by what stands for it.
pub open spec fn noted_items(t: Term, calls: Seq<Term>) -> Option<(Seq<Term>, Term)>
    decreases size(t), 1nat,
{
    match t {
        Term::Cons(a, b) => match noted_form(*a, calls) {
            Some((c1, a1)) => match noted_items(*b, c1) {
                Some((c2, b1)) => Some((c2, Term::Cons(Box::new(a1), Box::new(b1)))),
                None => None,
            },
            None => None,
        },
        _ => Some((calls, t)),
    }
}

/// The quoted tree `t` with each `(&unquote e)` in it replaced by what
/// stands for `e`, whose calls are noted. An atom that is unquoted is noted
/// like a call: it is handed to the continuation, and its label stands for
/// it in the quoted tree.
pub open spec fn unquoted_form(t: Term, calls: Seq<Term>) -> Option<(Seq<Term>, Term)>
    decreases size(t), 2nat,
{
    match t {
        Term::Cons(h, rest) => if *h == named("&unquote"@) {
            match *rest {
                Term::Cons(e, tail) => if *tail is Nil {
                    proof {
                        reveal_with_fuel(size, 3);
                    }
                    if *e is Cons {
                        noted_form(*e, calls)
                    } else {
                        let all = calls.push(*e);
                        Some((all, last_label(all)))
                    }
                } else {
                    None
                },
                _ => None,
            }
        } else {
            unquoted_items(t, calls)
        },
        _ => Some((calls, t)),
    }
}

/// `unquoted_form` of each item of the chain `t`.
pub open spec fn unquoted_items(t: Term, calls: Seq<Term>) -> Option<(Seq<Term>, Term)>
    decreases size(t), 1nat,
{
    match t {
        Term::Cons(a, b) => match unquoted_form(*a, calls) {
            Some((c1, a1)) => match unquoted_items(*b, c1) {
                Some((c2, b1)) => Some((c2, Term::Cons(Box::new(a1), Box::new(b1)))),
                None => None,
            },
            None => None,
        },
        _ => Some((calls, t)),
    }
}

/// The procedure that `(&lambda args body)` becomes, given what follows the
/// head: the continuation `@@k` is its first parameter, and its body is
/// converted to end in `@@k`.
pub open spec fn converted_lambda(rest: Term) -> Option<Term>
    decreases size(rest), 4nat,
{
    match rest {
        Term::Cons(args, r2) => match *r2 {
            Term::Cons(body, r3) => if *r3 is Nil {
                proof {
                    reveal_with_fuel(size, 3);
                }
                match (parameter_names(*args), converted(*body, named("@@k"@))) {
                    (Some(names), Some(b)) => Some(
                        Term::Lambda(seq!["@@k"@] + names, Box::new(b)),
                    ),
                    _ => None,
                }
            } else {
                None
            },
            _ => None,
        },
        _ => None,
    }
}

/// The failure of a conversion: a `lambda`, `if`, `quote` or `unquote` of
/// the wrong shape, or a call that is no proper list.
pub open spec fn malformed() -> Failure {
    Failure {
        kind: ErrorKind::Transform,
        message: "expected (lambda <args> <body>), (if <condition> <true case> <false case>), (quote <value>), (unquote <value>), or a call that is a proper list"@,
    }
}

/// The error for an expression that cannot be converted.
pub fn malformation() -> (e: Error)
    ensures
        fails_with(Err::<(), Error>(e), malformed()),
{
    Error::of_kind(
        ErrorKind::Transform,
        "expected (lambda <args> <body>), (if <condition> <true case> <false case>), (quote <value>), (unquote <value>), or a call that is a proper list",
    )
}

/// Whether `v` is the name written `literal`.
pub fn is_named(v: &Value, literal: &str) -> (r: bool)
    ensures
        r == (v@ == named(literal@)),
{
    match v {
        Value::Name(n) => is_text(n, literal),
        _ => false,
    }
}

/// The name of the parameter that stands for the result of the `i`-th call.
pub fn label_name(i: usize) -> (r: String)
    ensures
        r@ == label(i as nat),
{
    let digits = decimal_of(i);
    joined("@@k", digits.as_str())
}

/// The list of the two given values.
pub fn list_of_two(a: &Rc<Value>, b: &Rc<Value>) -> (r: Rc<Value>)
    ensures
        r@ == list_of(seq![a@, b@]),
{
    let nil = Value::nil();
    let tail = Value::pair(b, &nil);
    let r = Value::pair(a, &tail);
    proof {
        reveal_with_fuel(list_of, 3);
    }
    r
}

/// The procedure of the one parameter `parameter` with the body `body`.
pub fn continuation_of(parameter: String, body: &Rc<Value>) -> (r: Rc<Value>)
    ensures
        r@ == continuation(parameter@, body@),
{
    let mut args: Vec<String> = Vec::new();
    args.push(parameter);
    assert(args.deep_view() =~= seq![parameter@]);
    Rc::new(Value::Lambda { args, body: share(body) })
}

/// Holds the calls noted so far for one expression, innermost first, and
/// the continuation in which the expression ends.
pub struct CPSConverter {
    dfs_expr_components: Vec<Rc<Value>>,
    continuation: Rc<Value>,
}

impl CPSConverter {
    /// The calls noted so far.
    pub closed spec fn calls(&self) -> Seq<Term> {
        terms_of(self.dfs_expr_components@)
    }

    /// The continuation in which the expression ends.
    pub closed spec fn ending(&self) -> Term {
        self.continuation@
    }

    /// A converter that has noted nothing and ends in `continuation`.
    pub fn new(continuation: &Rc<Value>) -> (r: CPSConverter)
        ensures
            r.calls() == Seq::<Term>::empty(),
            r.ending() == continuation@,
    {
        let r = CPSConverter {
            dfs_expr_components: Vec::new(),
            continuation: share(continuation),
        };
        r
    }

    /// The first conditional of `expr` that is not inside a `&lambda` or a
    /// `&quote`, if there is one.
    pub fn find_conditional(expr: &Rc<Value>) -> (r: Option<Rc<Value>>)
        ensures
            match r {
                Some(c) => find_conditional(expr@) == Some(c@),
                None => find_conditional(expr@) is None,
            },
        decreases expr, 1nat,
    {
        match &**expr {
            Value::Cons { car, cdr: _ } => {
                if is_named(car, "&if") {
                    Some(share(expr))
                } else if is_named(car, "&lambda") || is_named(car, "&quote") {
                    None
                } else {
                    Self::find_in_items(expr)
                }
            },
            _ => None,
        }
    }

    fn find_in_items(expr: &Rc<Value>) -> (r: Option<Rc<Value>>)
        ensures
            match r {
                Some(c) => find_in_items(expr@) == Some(c@),
                None => find_in_items(expr@) is None,
            },
        decreases expr, 0nat,
    {
        match &**expr {
            Value::Cons { car, cdr } => match Self::find_conditional(car) {
                Some(c) => Some(c),
                None => Self::find_in_items(cdr),
            },
            _ => None,
        }
    }

    /// The test and the two branches of `(&if test a b)`.
    pub fn conditional_parts(c: &Rc<Value>) -> (r: Option<(Rc<Value>, Rc<Value>, Rc<Value>)>)
        ensures
            match r {
                Some((test, a, b)) => conditional_parts(c@) == Some((test@, a@, b@)),
                None => conditional_parts(c@) is None,
            },
    {
        proof {
            reveal_with_fuel(term_of, 5);
        }
        if let Value::Cons { car: _, cdr: r1 } = &**c {
            if let Value::Cons { car: test, cdr: r2 } = &**r1 {
                if let Value::Cons { car: a, cdr: r3 } = &**r2 {
                    if let Value::Cons { car: b, cdr: r4 } = &**r3 {
                        if r4.is_nil() {
                            return Some((share(test), share(a), share(b)));
                        }
                    }
                }
            }
        }
        None
    }

    /// `expr` with its first conditional replaced by its first branch, or
    /// by its second.
    pub fn without_conditional(expr: &Rc<Value>, keep_first: bool) -> (r: Rc<Value>)
        ensures
            r@ == without_conditional(expr@, keep_first),
        decreases expr, 1nat,
    {
        match &**expr {
            Value::Cons { car, cdr: _ } => {
                if is_named(car, "&if") {
                    match Self::conditional_parts(expr) {
                        Some((_, a, b)) => if keep_first {
                            a
                        } else {
                            b
                        },
                        None => share(expr),
                    }
                } else if is_named(car, "&lambda") || is_named(car, "&quote") {
                    share(expr)
                } else {
                    Self::without_in_items(expr, keep_first)
                }
            },
            _ => share(expr),
        }
    }

    fn without_in_items(expr: &Rc<Value>, keep_first: bool) -> (r: Rc<Value>)
        ensures
            r@ == without_in_items(expr@, keep_first),
        decreases expr, 0nat,
    {
        match &**expr {
            Value::Cons { car, cdr } => {
                if Self::find_conditional(car).is_some() {
                    let a = Self::without_conditional(car, keep_first);
                    Value::pair(&a, cdr)
                } else {
                    let b = Self::without_in_items(cdr, keep_first);
                    Value::pair(car, &b)
                }
            },
            _ => share(expr),
        }
    }

    fn names_in_list(args: &Rc<Value>, names: &mut Vec<String>) -> (ok: bool)
        ensures
            match names_in_list(args@) {
                Some(more) => ok && final(names).deep_view() == old(names).deep_view() + more,
                None => !ok,
            },
        decreases args,
    {
        proof {
            reveal_with_fuel(term_of, 2);
        }
        match &**args {
            Value::Nil => true,
            Value::Cons { car, cdr } => match &**car {
                Value::Name(n) => {
                    names.push(n.clone());
                    Self::names_in_list(cdr, names)
                },
                _ => false,
            },
            _ => false,
        }
    }

    /// What follows the head of `(&lambda args body)`, as a procedure that
    /// takes its continuation `@@k` first and ends in it.
    pub fn convert_lambda(rest: &Rc<Value>) -> (r: Result<Rc<Value>, Error>)
        ensures
            match converted_lambda(rest@) {
                Some(l) => r is Ok && r->Ok_0@ == l,
                None => fails_with(r, malformed()),
            },
        decreases size(rest@), 4nat,
    {
        proof {
            reveal_with_fuel(term_of, 3);
        }
        if let Value::Cons { car: args, cdr: r2 } = &**rest {
            if let Value::Cons { car: body, cdr: r3 } = &**r2 {
                if r3.is_nil() {
                    let mut names: Vec<String> = Vec::new();
                    names.push(String::from_str("@@k"));
                    assert(names.deep_view() =~= seq!["@@k"@]);
                    let ok = match &**args {
                        Value::Name(n) => {
                            names.push(n.clone());
                            assert(names.deep_view() =~= seq!["@@k"@] + seq![n@]);
                            true
                        },
                        _ => Self::names_in_list(args, &mut names),
                    };
                    if !ok {
                        return Err(
                            malformation(),
                        );
                    }
                    proof {
                        reveal_with_fuel(size, 3);
                    }
                    let k = Value::named("@@k");
                    let converted_body = Self::convert_expr_with_continuation(body, &k)?;
                    return Ok(Rc::new(Value::Lambda { args: names, body: converted_body }));
                }
            }
        }
        Err(malformation())
    }

    /// Notes `call` as the next call and gives its label.
    fn note(&mut self, call: Rc<Value>) -> (r: Rc<Value>)
        ensures
            final(self).calls() == old(self).calls().push(call@),
            final(self).ending() == old(self).ending(),
            r@ == last_label(final(self).calls()),
    {
        let index = self.dfs_expr_components.len();
        self.dfs_expr_components.push(call);
        Rc::new(Value::Name(label_name(index)))
    }

    /// Notes the calls of `expr`, innermost first, and gives what stands
    /// for `expr` in its parent.
    fn note_form(&mut self, expr: &Rc<Value>) -> (r: Result<Rc<Value>, Error>)
        ensures
            match noted_form(expr@, old(self).calls()) {
                Some((calls, atom)) => r is Ok && r->Ok_0@ == atom && final(self).calls() == calls
                    && final(self).ending() == old(self).ending(),
                None => fails_with(r, malformed()),
            },
        decreases size(expr@), 2nat,
    {
        match &**expr {
            Value::Cons { car, cdr } => {
                if cdr.to_list().is_none() {
                    Err(malformation())
                } else if is_named(car, "&lambda") {
                    Self::convert_lambda(cdr)
                } else if is_named(car, "&quote") {
                    self.convert_quote(expr)
                } else {
                    let call = self.note_items(expr)?;
                    Ok(self.note(call))
                }
            },
            _ => Ok(share(expr)),
        }
    }

    fn note_items(&mut self, expr: &Rc<Value>) -> (r: Result<Rc<Value>, Error>)
        ensures
            match noted_items(expr@, old(self).calls()) {
                Some((calls, chain)) => r is Ok && r->Ok_0@ == chain && final(self).calls()
                    == calls && final(self).ending() == old(self).ending(),
                None => fails_with(r, malformed()),
            },
        decreases size(expr@), 1nat,
    {
        match &**expr {
            Value::Cons { car, cdr } => {
                let a = self.note_form(car)?;
                let b = self.note_items(cdr)?;
                Ok(Value::pair(&a, &b))
            },
            _ => Ok(share(expr)),
        }
    }

    /// Notes `(&quote q)` as a call, after the calls of what is unquoted
    /// inside `q`, and gives its label.
    pub fn convert_quote(&mut self, expr: &Rc<Value>) -> (r: Result<Rc<Value>, Error>)
        requires
            expr@ matches Term::Cons(h, rest) && *h == named("&quote"@),
        ensures
            match noted_form(expr@, old(self).calls()) {
                Some((calls, atom)) => r is Ok && r->Ok_0@ == atom && final(self).calls() == calls
                    && final(self).ending() == old(self).ending(),
                None => fails_with(r, malformed()),
            },
        decreases size(expr@), 1nat,
    {
        proof {
            reveal_with_fuel(term_of, 3);
            reveal_with_fuel(size, 3);
            reveal_with_fuel(list_items, 3);
            reveal_strlit("&lambda");
            reveal_strlit("&quote");
            assert("&lambda"@.len() != "&quote"@.len());
        }
        if let Value::Cons { car: head, cdr: rest } = &**expr {
            if let Value::Cons { car: q, cdr: tail } = &**rest {
                if tail.is_nil() {
                    let q2 = self.unquote_form(q)?;
                    let call = list_of_two(head, &q2);
                    return Ok(self.note(call));
                }
            }
        }
        Err(malformation())
    }

    fn unquote_form(&mut self, expr: &Rc<Value>) -> (r: Result<Rc<Value>, Error>)
        ensures
            match unquoted_form(expr@, old(self).calls()) {
                Some((calls, atom)) => r is Ok && r->Ok_0@ == atom && final(self).calls() == calls
                    && final(self).ending() == old(self).ending(),
                None => fails_with(r, malformed()),
            },
        decreases size(expr@), 2nat,
    {
        proof {
            reveal_with_fuel(term_of, 3);
            reveal_with_fuel(size, 3);
        }
        match &**expr {
            Value::Cons { car, cdr } => {
                if is_named(car, "&unquote") {
                    if let Value::Cons { car: e, cdr: tail } = &**cdr {
                        if tail.is_nil() {
                            return if e.is_cons() {
                                self.note_form(e)
                            } else {
                                Ok(self.note(share(e)))
                            };
                        }
                    }
                    Err(
                        malformation(),
                    )
                } else {
                    self.unquote_items(expr)
                }
            },
            _ => Ok(share(expr)),
        }
    }

    fn unquote_items(&mut self, expr: &Rc<Value>) -> (r: Result<Rc<Value>, Error>)
        ensures
            match unquoted_items(expr@, old(self).calls()) {
                Some((calls, chain)) => r is Ok && r->Ok_0@ == chain && final(self).calls()
                    == calls && final(self).ending() == old(self).ending(),
                None => fails_with(r, malformed()),
            },
        decreases size(expr@), 1nat,
    {
        match &**expr {
            Value::Cons { car, cdr } => {
                let a = self.unquote_form(car)?;
                let b = self.unquote_items(cdr)?;
                Ok(Value::pair(&a, &b))
            },
            _ => Ok(share(expr)),
        }
    }

    fn with_continuation(form: &Rc<Value>, k: &Rc<Value>) -> (r: Rc<Value>)
        ensures
            r@ == with_continuation(form@, k@),
    {
        match &**form {
            Value::Cons { car, cdr } => {
                let rest = Value::pair(k, cdr);
                Value::pair(car, &rest)
            },
            _ => list_of_two(k, form),
        }
    }

    /// The noted calls chained, the last ending in the converter's
    /// continuation; where no call was noted, the continuation applied to
    /// `atom`.
    pub fn assemble_cps_expression(&self, atom: &Rc<Value>) -> (r: Rc<Value>)
        ensures
            r@ == (if self.calls().len() == 0 {
                list_of(seq![self.ending(), atom@])
            } else {
                assembled(self.calls(), 0, self.ending())
            }),
    {
        let n = self.dfs_expr_components.len();
        if n == 0 {
            return list_of_two(&self.continuation, atom);
        }
        let mut i: usize = n - 1;
        let mut result = Self::with_continuation(&self.dfs_expr_components[i], &self.continuation);
        while i > 0
            invariant
                i < n,
                n == self.dfs_expr_components@.len(),
                result@ == assembled(self.calls(), i as nat, self.ending()),
            decreases i,
        {
            i = i - 1;
            let k = continuation_of(label_name(i), &result);
            result = Self::with_continuation(&self.dfs_expr_components[i], &k);
        }
        result
    }

    /// `expr` in continuation-passing style, ending in `continuation`.
    pub fn convert_expr_with_continuation(expr: &Rc<Value>, continuation: &Rc<Value>) -> (r:
        Result<Rc<Value>, Error>)
        ensures
            match converted(expr@, continuation@) {
                Some(t) => r is Ok && r->Ok_0@ == t,
                None => fails_with(r, malformed()),
            },
        decreases size(expr@), 3nat,
    {
        match Self::find_conditional(expr) {
            Some(c) => Self::convert_conditional(expr, &c, continuation),
            None => {
                let mut converter = Self::new(continuation);
                let atom = converter.note_form(expr)?;
                Ok(converter.assemble_cps_expression(&atom))
            },
        }
    }

    /// `expr`, whose first conditional is `c`, in continuation-passing
    /// style: the test of `c` is converted, and its continuation chooses
    /// between `expr` converted with the one branch in the place of `c` and
    /// with the other.
    pub fn convert_conditional(expr: &Rc<Value>, c: &Rc<Value>, continuation: &Rc<Value>) -> (r:
        Result<Rc<Value>, Error>)
        requires
            find_conditional(expr@) == Some(c@),
        ensures
            match converted(expr@, continuation@) {
                Some(t) => r is Ok && r->Ok_0@ == t,
                None => fails_with(r, malformed()),
            },
        decreases size(expr@), 2nat,
    {
        match Self::conditional_parts(c) {
            Some((test, _, _)) => {
                proof {
                    lemma_without_is_smaller(expr@, true);
                    lemma_without_is_smaller(expr@, false);
                    lemma_found_is_part(expr@);
                    lemma_parts_are_smaller(c@);
                }
                let with_first = Self::without_conditional(expr, true);
                let with_second = Self::without_conditional(expr, false);
                let first = Self::convert_expr_with_continuation(&with_first, continuation)?;
                let second = Self::convert_expr_with_continuation(&with_second, continuation)?;
                let mut items: Vec<Rc<Value>> = Vec::new();
                items.push(Value::named("&if"));
                items.push(Value::named("@@k-if"));
                items.push(first);
                items.push(second);
                assert(terms_of(items@) =~= seq![
                    named("&if"@),
                    named("@@k-if"@),
                    first@,
                    second@,
                ]);
                let choice = Value::cons_list(&items);
                let k = continuation_of(String::from_str("@@k-if"), &choice);
                Self::convert_expr_with_continuation(&test, &k)
            },
            None => Err(
                malformation(),
            ),
        }
    }
}

/// `expr` in continuation-passing style, ending in the continuation named
/// `no-continuation`.
pub fn convert_expr(expr: &Rc<Value>) -> (r: Result<Rc<Value>, Error>)
    ensures
        match converted(expr@, named(sentinel())) {
            Some(t) => r is Ok && r->Ok_0@ == t,
            None => fails_with(r, malformed()),
        },
{
    let k = Value::named("no-continuation");
    CPSConverter::convert_expr_with_continuation(expr, &k)
}

} // verus!
