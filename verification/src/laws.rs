//! What holds of every expression in continuation-passing style: its
//! calls have atoms for arguments, its last continuation occurs once for
//! each place where it ends, and converting it once more gives another tree.

use vstd::prelude::*;
use crate::cps::{
    assembled,
    conditional_parts,
    continuation,
    converted,
    converted_lambda,
    find_conditional,
    find_in_items,
    kept_branch,
    label,
    last_label,
    lemma_found_is_part,
    lemma_parts_are_smaller,
    lemma_without_is_smaller,
    named,
    noted_form,
    noted_items,
    sentinel,
    size,
    unquoted_form,
    unquoted_items,
    with_continuation,
    without_conditional,
    without_in_items,
};
use crate::format::formatted;
use crate::lexer::Tree;
use crate::read::{parsed, parsed_items};
use crate::value::{list_items, list_of, Term};

verus! {

/// Whether every call in `t` has atoms for arguments. A call is a pair; its
/// head and its arguments must be no pairs, and the body of each procedure
/// among them must again hold such calls only. The branches of an `&if` are
/// calls themselves; of a `&quote` only the continuation is looked at, and
/// a `&lambda` is left alone.
pub open spec fn calls_are_atomic(t: Term) -> bool
    decreases t, 1nat,
{
    match t {
        Term::Cons(h, rest) => if *h == named("&if"@) {
            items_are_calls(*rest)
        } else if *h == named("&quote"@) {
            match *rest {
                Term::Cons(k, _) => calls_are_atomic(*k),
                _ => true,
            }
        } else if *h == named("&lambda"@) {
            true
        } else {
            !(*h is Cons) && calls_are_atomic(*h) && items_are_atoms(*rest)
        },
        Term::Lambda(_, body) => calls_are_atomic(*body),
        _ => true,
    }
}

/// Whether each item of the chain holds calls with atomic arguments only.
pub open spec fn items_are_calls(t: Term) -> bool
    decreases t, 0nat,
{
    match t {
        Term::Cons(a, b) => calls_are_atomic(*a) && items_are_calls(*b),
        _ => true,
    }
}

/// Whether each item of the chain is an atom, and the body of each
/// procedure among them holds calls with atomic arguments only.
pub open spec fn items_are_atoms(t: Term) -> bool
    decreases t, 0nat,
{
    match t {
        Term::Cons(a, b) => !(*a is Cons) && calls_are_atomic(*a) && items_are_atoms(*b),
        _ => true,
    }
}

/// Whether the body of each procedure value in `t` holds calls with atomic
/// arguments only. A tree that the reader made holds no procedure value.
pub open spec fn procedures_are_atomic(t: Term) -> bool
    decreases t,
{
    match t {
        Term::Cons(a, b) => procedures_are_atomic(*a) && procedures_are_atomic(*b),
        Term::Lambda(_, body) => calls_are_atomic(*body),
        _ => true,
    }
}

/// An atom that may stand as an argument.
pub open spec fn is_good_atom(t: Term) -> bool {
    !(t is Cons) && calls_are_atomic(t)
}

/// A noted call: once it has its continuation, its arguments are atomic.
pub open spec fn is_good_call(c: Term) -> bool {
    match c {
        Term::Cons(h, rest) => *h == named("&quote"@) || (is_good_atom(*h) && items_are_atoms(
            *rest,
        )),
        _ => is_good_atom(c),
    }
}

/// Whether each of the noted calls is good.
pub open spec fn are_good_calls(calls: Seq<Term>) -> bool {
    forall|i: int| 0 <= i < calls.len() ==> is_good_call(#[trigger] calls[i])
}

/// The list of two items, as pairs.
pub(crate) proof fn lemma_list_of_two(a: Term, b: Term)
    ensures
        list_of(seq![a, b]) == Term::Cons(
            Box::new(a),
            Box::new(Term::Cons(Box::new(b), Box::new(Term::Nil))),
        ),
{
    reveal_with_fuel(list_of, 3);
}

/// The list of four items, as pairs.
proof fn lemma_list_of_four(a: Term, b: Term, c: Term, d: Term)
    ensures
        list_of(seq![a, b, c, d]) == Term::Cons(
            Box::new(a),
            Box::new(
                Term::Cons(
                    Box::new(b),
                    Box::new(
                        Term::Cons(
                            Box::new(c),
                            Box::new(Term::Cons(Box::new(d), Box::new(Term::Nil))),
                        ),
                    ),
                ),
            ),
        ),
{
    reveal_with_fuel(list_of, 5);
}

/// The names of the three special heads differ from one another.
proof fn lemma_heads_differ()
    ensures
        "&if"@ != "&quote"@,
        "&if"@ != "&lambda"@,
        "&quote"@ != "&lambda"@,
{
    reveal_strlit("&if");
    reveal_strlit("&quote");
    reveal_strlit("&lambda");
    assert("&if"@.len() == 3);
    assert("&quote"@.len() == 6);
}

proof fn lemma_atoms_are_calls(t: Term)
    requires
        items_are_atoms(t),
    ensures
        items_are_calls(t),
    decreases t,
{
    match t {
        Term::Cons(a, b) => {
            lemma_atoms_are_calls(*b);
        },
        _ => {},
    }
}

proof fn lemma_good_call_with_continuation(c: Term, k: Term)
    requires
        is_good_call(c),
        is_good_atom(k),
    ensures
        calls_are_atomic(with_continuation(c, k)),
{
    lemma_heads_differ();
    match c {
        Term::Cons(h, rest) => {
            if *h == named("&if"@) {
                lemma_atoms_are_calls(*rest);
                assert(items_are_calls(Term::Cons(Box::new(k), rest)));
            } else if *h == named("&quote"@) {
            } else if *h == named("&lambda"@) {
            } else {
                assert(items_are_atoms(Term::Cons(Box::new(k), rest)));
            }
        },
        _ => {
            lemma_list_of_two(k, c);
            let nil = Term::Nil;
            let l1 = Term::Cons(Box::new(c), Box::new(nil));
            assert(items_are_calls(nil));
            assert(items_are_atoms(nil));
            assert(items_are_calls(l1));
            assert(items_are_atoms(l1));
        },
    }
}

proof fn lemma_assembled_is_atomic(calls: Seq<Term>, i: nat, k: Term)
    requires
        are_good_calls(calls),
        is_good_atom(k),
        i < calls.len(),
    ensures
        calls_are_atomic(assembled(calls, i, k)),
    decreases calls.len() - i,
{
    if i + 1 >= calls.len() {
        lemma_good_call_with_continuation(calls[i as int], k);
    } else {
        lemma_assembled_is_atomic(calls, i + 1, k);
        lemma_good_call_with_continuation(
            calls[i as int],
            continuation(label(i), assembled(calls, i + 1, k)),
        );
    }
}

proof fn lemma_parts_keep_procedures(t: Term, keep_first: bool)
    requires
        procedures_are_atomic(t),
    ensures
        match find_conditional(t) {
            Some(c) => procedures_are_atomic(c),
            None => true,
        },
        match find_in_items(t) {
            Some(c) => procedures_are_atomic(c),
            None => true,
        },
        match conditional_parts(t) {
            Some((test, a, b)) => procedures_are_atomic(test) && procedures_are_atomic(a)
                && procedures_are_atomic(b),
            None => true,
        },
        procedures_are_atomic(kept_branch(t, keep_first)),
        procedures_are_atomic(without_conditional(t, keep_first)),
        procedures_are_atomic(without_in_items(t, keep_first)),
    decreases t,
{
    reveal_with_fuel(procedures_are_atomic, 5);
    match t {
        Term::Cons(a, b) => {
            lemma_parts_keep_procedures(*a, keep_first);
            lemma_parts_keep_procedures(*b, keep_first);
        },
        _ => {},
    }
}

/// Every call of an expression in continuation-passing style has atoms
/// for arguments: names, literals, quoted values and procedures, never a
/// call. This holds of the conversion of any expression whose procedure
/// values, if it has any, are themselves of that form, into any
/// continuation that is such an atom.
pub proof fn lemma_conversion_makes_calls_atomic(t: Term, k: Term)
    requires
        procedures_are_atomic(t),
        is_good_atom(k),
    ensures
        match converted(t, k) {
            Some(r) => calls_are_atomic(r),
            None => true,
        },
    decreases size(t), 3nat,
{
    match find_conditional(t) {
        Some(c) => match conditional_parts(c) {
            Some((test, _, _)) => {
                lemma_without_is_smaller(t, true);
                lemma_without_is_smaller(t, false);
                lemma_found_is_part(t);
                lemma_parts_are_smaller(c);
                lemma_parts_keep_procedures(t, true);
                lemma_parts_keep_procedures(t, false);
                lemma_parts_keep_procedures(c, true);
                lemma_conversion_makes_calls_atomic(without_conditional(t, true), k);
                lemma_conversion_makes_calls_atomic(without_conditional(t, false), k);
                match (
                    converted(without_conditional(t, true), k),
                    converted(without_conditional(t, false), k),
                ) {
                    (Some(first), Some(second)) => {
                        let choice = list_of(
                            seq![named("&if"@), named("@@k-if"@), first, second],
                        );
                        lemma_list_of_four(named("&if"@), named("@@k-if"@), first, second);
                        let nil = Term::Nil;
                        let l1 = Term::Cons(Box::new(second), Box::new(nil));
                        let l2 = Term::Cons(Box::new(first), Box::new(l1));
                        let l3 = Term::Cons(Box::new(named("@@k-if"@)), Box::new(l2));
                        assert(items_are_calls(nil));
                        assert(items_are_calls(l1));
                        assert(items_are_calls(l2));
                        assert(calls_are_atomic(named("@@k-if"@)));
                        assert(items_are_calls(l3));
                        assert(calls_are_atomic(choice));
                        lemma_conversion_makes_calls_atomic(
                            test,
                            continuation("@@k-if"@, choice),
                        );
                    },
                    _ => {},
                }
            },
            None => {},
        },
        None => {
            lemma_noted_form_is_good(t, Seq::empty());
            match noted_form(t, Seq::empty()) {
                Some((calls, atom)) => {
                    if calls.len() == 0 {
                        lemma_list_of_two(k, atom);
                        let nil = Term::Nil;
                        let l1 = Term::Cons(Box::new(atom), Box::new(nil));
                        assert(items_are_calls(nil));
                        assert(items_are_atoms(nil));
                        assert(items_are_calls(l1));
                        assert(items_are_atoms(l1));
                    } else {
                        lemma_assembled_is_atomic(calls, 0, k);
                    }
                },
                None => {},
            }
        },
    }
}

proof fn lemma_noted_form_is_good(t: Term, calls: Seq<Term>)
    requires
        procedures_are_atomic(t),
        are_good_calls(calls),
    ensures
        match noted_form(t, calls) {
            Some((all, atom)) => are_good_calls(all) && is_good_atom(atom),
            None => true,
        },
    decreases size(t), 2nat,
{
    match t {
        Term::Cons(h, rest) => {
            if list_items(*rest) is None {
            } else if *h == named("&lambda"@) {
                lemma_converted_lambda_is_good(*rest);
            } else if *h == named("&quote"@) {
                match *rest {
                    Term::Cons(q, tail) => {
                        if *tail is Nil {
                            reveal_with_fuel(procedures_are_atomic, 3);
                            lemma_unquoted_form_is_good(*q, calls);
                            match unquoted_form(*q, calls) {
                                Some((c, q2)) => {
                                    let call = list_of(seq![*h, q2]);
                                    assert(are_good_calls(c.push(call)));
                                },
                                None => {},
                            }
                        }
                    },
                    _ => {},
                }
            } else {
                lemma_noted_items_are_good(t, calls);
                match noted_items(t, calls) {
                    Some((c, call)) => {
                        assert(are_good_calls(c.push(call)));
                    },
                    None => {},
                }
            }
        },
        _ => {},
    }
}

proof fn lemma_noted_items_are_good(t: Term, calls: Seq<Term>)
    requires
        procedures_are_atomic(t),
        are_good_calls(calls),
    ensures
        match noted_items(t, calls) {
            Some((all, chain)) => are_good_calls(all) && items_are_atoms(chain) && (t is Cons
                ==> chain is Cons) && (chain matches Term::Cons(h, _) ==> is_good_atom(*h)),
            None => true,
        },
    decreases size(t), 1nat,
{
    match t {
        Term::Cons(a, b) => {
            lemma_noted_form_is_good(*a, calls);
            match noted_form(*a, calls) {
                Some((c1, a1)) => {
                    lemma_noted_items_are_good(*b, c1);
                },
                None => {},
            }
        },
        _ => {},
    }
}

proof fn lemma_unquoted_form_is_good(t: Term, calls: Seq<Term>)
    requires
        procedures_are_atomic(t),
        are_good_calls(calls),
    ensures
        match unquoted_form(t, calls) {
            Some((all, _)) => are_good_calls(all),
            None => true,
        },
    decreases size(t), 2nat,
{
    match t {
        Term::Cons(h, rest) => {
            if *h == named("&unquote"@) {
                match *rest {
                    Term::Cons(e, tail) => {
                        if *tail is Nil {
                            reveal_with_fuel(size, 3);
                            reveal_with_fuel(procedures_are_atomic, 3);
                            lemma_noted_form_is_good(*e, calls);
                        }
                    },
                    _ => {},
                }
            } else {
                lemma_unquoted_items_are_good(t, calls);
            }
        },
        _ => {},
    }
}

proof fn lemma_unquoted_items_are_good(t: Term, calls: Seq<Term>)
    requires
        procedures_are_atomic(t),
        are_good_calls(calls),
    ensures
        match unquoted_items(t, calls) {
            Some((all, _)) => are_good_calls(all),
            None => true,
        },
    decreases size(t), 1nat,
{
    match t {
        Term::Cons(a, b) => {
            lemma_unquoted_form_is_good(*a, calls);
            match unquoted_form(*a, calls) {
                Some((c1, _)) => {
                    lemma_unquoted_items_are_good(*b, c1);
                },
                None => {},
            }
        },
        _ => {},
    }
}

proof fn lemma_converted_lambda_is_good(rest: Term)
    requires
        procedures_are_atomic(rest),
    ensures
        match converted_lambda(rest) {
            Some(l) => is_good_atom(l),
            None => true,
        },
    decreases size(rest), 4nat,
{
    match rest {
        Term::Cons(args, r2) => match *r2 {
            Term::Cons(body, r3) => {
                if *r3 is Nil {
                    reveal_with_fuel(size, 3);
                    reveal_with_fuel(procedures_are_atomic, 3);
                    lemma_conversion_makes_calls_atomic(*body, named("@@k"@));
                }
            },
            _ => {},
        },
        _ => {},
    }
}

/// How often the name `n` occurs in `t`, the bodies of procedures and
/// quoted values included.
pub open spec fn occurrences(t: Term, n: Seq<char>) -> nat
    decreases t,
{
    match t {
        Term::Name(m) => if m == n {
            1
        } else {
            0
        },
        Term::Cons(a, b) => occurrences(*a, n) + occurrences(*b, n),
        Term::Lambda(_, body) => occurrences(*body, n),
        Term::Quote(v) => occurrences(*v, n),
        _ => 0,
    }
}

/// In how many places the conversion of `t` ends: one where `t` has no
/// conditional to lift, and else, for each place where the test ends, one
/// for each place where either branch ends.
pub open spec fn endings(t: Term) -> nat
    decreases size(t),
{
    match find_conditional(t) {
        Some(c) => match conditional_parts(c) {
            Some((test, _, _)) => {
                proof {
                    lemma_without_is_smaller(t, true);
                    lemma_without_is_smaller(t, false);
                    lemma_found_is_part(t);
                    lemma_parts_are_smaller(c);
                }
                endings(test) * (endings(without_conditional(t, true)) + endings(
                    without_conditional(t, false),
                ))
            },
            None => 0,
        },
        None => 1,
    }
}

/// A name that the conversion never makes up: it does not begin with `@`
/// and is not `&if`.
pub open spec fn is_foreign(n: Seq<char>) -> bool {
    n.len() > 0 && n[0] != '@' && n != "&if"@
}

/// Whether `n` occurs in none of the noted calls.
pub open spec fn calls_lack(calls: Seq<Term>, n: Seq<char>) -> bool {
    forall|i: int| 0 <= i < calls.len() ==> occurrences(#[trigger] calls[i], n) == 0
}

proof fn lemma_made_up_names(n: Seq<char>, i: nat)
    requires
        is_foreign(n),
    ensures
        label(i) != n,
        "@@k"@ != n,
        "@@k-if"@ != n,
        "&if"@ != n,
{
    reveal_strlit("@@k");
    reveal_strlit("@@k-if");
}

proof fn lemma_parts_lack(t: Term, n: Seq<char>, keep_first: bool)
    requires
        occurrences(t, n) == 0,
    ensures
        match find_conditional(t) {
            Some(c) => occurrences(c, n) == 0,
            None => true,
        },
        match find_in_items(t) {
            Some(c) => occurrences(c, n) == 0,
            None => true,
        },
        match conditional_parts(t) {
            Some((test, a, b)) => occurrences(test, n) == 0 && occurrences(a, n) == 0
                && occurrences(b, n) == 0,
            None => true,
        },
        occurrences(kept_branch(t, keep_first), n) == 0,
        occurrences(without_conditional(t, keep_first), n) == 0,
        occurrences(without_in_items(t, keep_first), n) == 0,
    decreases t,
{
    reveal_with_fuel(occurrences, 5);
    match t {
        Term::Cons(a, b) => {
            lemma_parts_lack(*a, n, keep_first);
            lemma_parts_lack(*b, n, keep_first);
        },
        _ => {},
    }
}

proof fn lemma_assembled_count(calls: Seq<Term>, i: nat, k: Term, n: Seq<char>)
    requires
        calls_lack(calls, n),
        is_foreign(n),
        i < calls.len(),
    ensures
        occurrences(assembled(calls, i, k), n) == occurrences(k, n),
    decreases calls.len() - i,
{
    if i + 1 >= calls.len() {
        lemma_with_continuation_count(calls[i as int], k, n);
    } else {
        lemma_assembled_count(calls, i + 1, k, n);
        lemma_with_continuation_count(
            calls[i as int],
            continuation(label(i), assembled(calls, i + 1, k)),
            n,
        );
    }
}

proof fn lemma_with_continuation_count(c: Term, k: Term, n: Seq<char>)
    ensures
        occurrences(with_continuation(c, k), n) == occurrences(c, n) + occurrences(k, n),
{
    reveal_with_fuel(occurrences, 3);
    match c {
        Term::Cons(_, _) => {},
        _ => {
            lemma_list_of_two(k, c);
        },
    }
}

/// The continuation in which an expression ends occurs in its conversion
/// once for each place where the conversion ends: a name that the
/// expression does not hold, and that the conversion does not make up,
/// occurs in the conversion as often as in the continuation, times the
/// number of endings.
pub proof fn lemma_continuation_count(t: Term, k: Term, n: Seq<char>)
    requires
        occurrences(t, n) == 0,
        is_foreign(n),
    ensures
        match converted(t, k) {
            Some(r) => occurrences(r, n) == endings(t) * occurrences(k, n),
            None => true,
        },
    decreases size(t), 3nat,
{
    match find_conditional(t) {
        Some(c) => match conditional_parts(c) {
            Some((test, _, _)) => {
                lemma_without_is_smaller(t, true);
                lemma_without_is_smaller(t, false);
                lemma_found_is_part(t);
                lemma_parts_are_smaller(c);
                lemma_parts_lack(t, n, true);
                lemma_parts_lack(t, n, false);
                lemma_parts_lack(c, n, true);
                let t1 = without_conditional(t, true);
                let t2 = without_conditional(t, false);
                lemma_continuation_count(t1, k, n);
                lemma_continuation_count(t2, k, n);
                match (converted(t1, k), converted(t2, k)) {
                    (Some(first), Some(second)) => {
                        let choice = list_of(
                            seq![named("&if"@), named("@@k-if"@), first, second],
                        );
                        lemma_list_of_four(named("&if"@), named("@@k-if"@), first, second);
                        lemma_made_up_names(n, 0);
                        let nil = Term::Nil;
                        let l1 = Term::Cons(Box::new(second), Box::new(nil));
                        let l2 = Term::Cons(Box::new(first), Box::new(l1));
                        let l3 = Term::Cons(Box::new(named("@@k-if"@)), Box::new(l2));
                        assert(occurrences(l1, n) == occurrences(second, n));
                        assert(occurrences(named("@@k-if"@), n) == 0);
                        assert(occurrences(named("&if"@), n) == 0);
                        assert(occurrences(l3, n) == occurrences(l2, n));
                        assert(occurrences(choice, n) == occurrences(l2, n));
                        let k2 = continuation("@@k-if"@, choice);
                        lemma_continuation_count(test, k2, n);
                        let o = occurrences(k, n) as int;
                        let e1 = endings(t1) as int;
                        let e2 = endings(t2) as int;
                        let e = endings(test) as int;
                        assert(e * (e1 * o + e2 * o) == (e * (e1 + e2)) * o) by (nonlinear_arith);
                    },
                    _ => {},
                }
            },
            None => {},
        },
        None => {
            lemma_noted_form_lacks(t, Seq::empty(), n);
            match noted_form(t, Seq::empty()) {
                Some((calls, atom)) => {
                    if calls.len() == 0 {
                        lemma_list_of_two(k, atom);
                        let nil = Term::Nil;
                        let l1 = Term::Cons(Box::new(atom), Box::new(nil));
                        assert(occurrences(nil, n) == 0);
                        assert(occurrences(l1, n) == 0);
                    } else {
                        lemma_assembled_count(calls, 0, k, n);
                    }
                    assert(endings(t) == 1);
                },
                None => {},
            }
        },
    }
}

proof fn lemma_noted_form_lacks(t: Term, calls: Seq<Term>, n: Seq<char>)
    requires
        occurrences(t, n) == 0,
        calls_lack(calls, n),
        is_foreign(n),
    ensures
        match noted_form(t, calls) {
            Some((all, atom)) => calls_lack(all, n) && occurrences(atom, n) == 0,
            None => true,
        },
    decreases size(t), 2nat,
{
    match t {
        Term::Cons(h, rest) => {
            if list_items(*rest) is None {
            } else if *h == named("&lambda"@) {
                lemma_converted_lambda_lacks(*rest, n);
            } else if *h == named("&quote"@) {
                match *rest {
                    Term::Cons(q, tail) => {
                        if *tail is Nil {
                            reveal_with_fuel(occurrences, 3);
                            lemma_unquoted_form_lacks(*q, calls, n);
                            match unquoted_form(*q, calls) {
                                Some((c, q2)) => {
                                    let call = list_of(seq![*h, q2]);
                                    lemma_list_of_two(*h, q2);
                                    let all = c.push(call);
                                    lemma_made_up_names(n, (all.len() - 1) as nat);
                                },
                                None => {},
                            }
                        }
                    },
                    _ => {},
                }
            } else {
                lemma_noted_items_lack(t, calls, n);
                match noted_items(t, calls) {
                    Some((c, call)) => {
                        let all = c.push(call);
                        lemma_made_up_names(n, (all.len() - 1) as nat);
                    },
                    None => {},
                }
            }
        },
        _ => {},
    }
}

proof fn lemma_noted_items_lack(t: Term, calls: Seq<Term>, n: Seq<char>)
    requires
        occurrences(t, n) == 0,
        calls_lack(calls, n),
        is_foreign(n),
    ensures
        match noted_items(t, calls) {
            Some((all, chain)) => calls_lack(all, n) && occurrences(chain, n) == 0 && (t is Cons
                ==> chain is Cons),
            None => true,
        },
    decreases size(t), 1nat,
{
    match t {
        Term::Cons(a, b) => {
            lemma_noted_form_lacks(*a, calls, n);
            match noted_form(*a, calls) {
                Some((c1, a1)) => {
                    lemma_noted_items_lack(*b, c1, n);
                },
                None => {},
            }
        },
        _ => {},
    }
}

proof fn lemma_unquoted_form_lacks(t: Term, calls: Seq<Term>, n: Seq<char>)
    requires
        occurrences(t, n) == 0,
        calls_lack(calls, n),
        is_foreign(n),
    ensures
        match unquoted_form(t, calls) {
            Some((all, q)) => calls_lack(all, n) && occurrences(q, n) == 0,
            None => true,
        },
    decreases size(t), 2nat,
{
    match t {
        Term::Cons(h, rest) => {
            if *h == named("&unquote"@) {
                match *rest {
                    Term::Cons(e, tail) => {
                        if *tail is Nil {
                            reveal_with_fuel(size, 3);
                            reveal_with_fuel(occurrences, 3);
                            if *e is Cons {
                                lemma_noted_form_lacks(*e, calls, n);
                            } else {
                                let all = calls.push(*e);
                                lemma_made_up_names(n, (all.len() - 1) as nat);
                            }
                        }
                    },
                    _ => {},
                }
            } else {
                lemma_unquoted_items_lack(t, calls, n);
            }
        },
        _ => {},
    }
}

proof fn lemma_unquoted_items_lack(t: Term, calls: Seq<Term>, n: Seq<char>)
    requires
        occurrences(t, n) == 0,
        calls_lack(calls, n),
        is_foreign(n),
    ensures
        match unquoted_items(t, calls) {
            Some((all, q)) => calls_lack(all, n) && occurrences(q, n) == 0,
            None => true,
        },
    decreases size(t), 1nat,
{
    match t {
        Term::Cons(a, b) => {
            lemma_unquoted_form_lacks(*a, calls, n);
            match unquoted_form(*a, calls) {
                Some((c1, _)) => {
                    lemma_unquoted_items_lack(*b, c1, n);
                },
                None => {},
            }
        },
        _ => {},
    }
}

proof fn lemma_converted_lambda_lacks(rest: Term, n: Seq<char>)
    requires
        occurrences(rest, n) == 0,
        is_foreign(n),
    ensures
        match converted_lambda(rest) {
            Some(l) => occurrences(l, n) == 0,
            None => true,
        },
    decreases size(rest), 4nat,
{
    match rest {
        Term::Cons(args, r2) => match *r2 {
            Term::Cons(body, r3) => {
                if *r3 is Nil {
                    reveal_with_fuel(size, 3);
                    reveal_with_fuel(occurrences, 3);
                    lemma_made_up_names(n, 0);
                    lemma_continuation_count(*body, named("@@k"@), n);
                }
            },
            _ => {},
        },
        _ => {},
    }
}

/// The last continuation occurs exactly once in the conversion of an
/// expression that has no conditional outside its procedures and
/// quotations, and that does not itself hold the name `no-continuation`,
/// as no expression with formatted names does.
pub proof fn lemma_one_last_continuation(t: Term)
    requires
        occurrences(t, sentinel()) == 0,
        find_conditional(t) is None,
    ensures
        match converted(t, named(sentinel())) {
            Some(r) => occurrences(r, sentinel()) == 1,
            None => true,
        },
{
    reveal_strlit("no-continuation");
    reveal_strlit("&if");
    assert("no-continuation"@[0] == 'n');
    lemma_continuation_count(t, named(sentinel()), sentinel());
    assert(endings(t) == 1);
}

/// A call with its continuation: a pair whose head and first argument are
/// atoms.
pub open spec fn is_call_with_continuation(t: Term) -> bool {
    match t {
        Term::Cons(h, rest) => !(*h is Cons) && (match *rest {
            Term::Cons(k, _) => !(*k is Cons),
            _ => false,
        }),
        _ => false,
    }
}

proof fn lemma_conversion_is_a_call(t: Term, k: Term)
    requires
        procedures_are_atomic(t),
        is_good_atom(k),
    ensures
        match converted(t, k) {
            Some(r) => is_call_with_continuation(r),
            None => true,
        },
    decreases size(t),
{
    match find_conditional(t) {
        Some(c) => match conditional_parts(c) {
            Some((test, _, _)) => {
                lemma_found_is_part(t);
                lemma_parts_are_smaller(c);
                lemma_parts_keep_procedures(t, true);
                lemma_parts_keep_procedures(t, false);
                lemma_parts_keep_procedures(c, true);
                lemma_conversion_makes_calls_atomic(without_conditional(t, true), k);
                lemma_conversion_makes_calls_atomic(without_conditional(t, false), k);
                match (
                    converted(without_conditional(t, true), k),
                    converted(without_conditional(t, false), k),
                ) {
                    (Some(first), Some(second)) => {
                        let choice = list_of(
                            seq![named("&if"@), named("@@k-if"@), first, second],
                        );
                        lemma_list_of_four(named("&if"@), named("@@k-if"@), first, second);
                        let nil = Term::Nil;
                        let l1 = Term::Cons(Box::new(second), Box::new(nil));
                        let l2 = Term::Cons(Box::new(first), Box::new(l1));
                        let l3 = Term::Cons(Box::new(named("@@k-if"@)), Box::new(l2));
                        assert(items_are_calls(nil));
                        assert(items_are_calls(l1));
                        assert(items_are_calls(l2));
                        assert(calls_are_atomic(named("@@k-if"@)));
                        assert(items_are_calls(l3));
                        assert(calls_are_atomic(choice));
                        lemma_conversion_is_a_call(test, continuation("@@k-if"@, choice));
                    },
                    _ => {},
                }
            },
            None => {},
        },
        None => {
            lemma_noted_form_is_good(t, Seq::empty());
            match noted_form(t, Seq::empty()) {
                Some((calls, atom)) => {
                    if calls.len() == 0 {
                        lemma_list_of_two(k, atom);
                    } else {
                        let k2 = if calls.len() == 1 {
                            k
                        } else {
                            continuation(label(0), assembled(calls, 1, k))
                        };
                        if !(calls[0] is Cons) {
                            lemma_list_of_two(k2, calls[0]);
                        }
                    }
                },
                None => {},
            }
        },
    }
}

proof fn lemma_atoms_hold_no_conditional(t: Term)
    requires
        items_are_atoms(t),
    ensures
        find_in_items(t) is None,
    decreases t,
{
    match t {
        Term::Cons(a, b) => {
            lemma_atoms_hold_no_conditional(*b);
            assert(find_conditional(*a) is None);
        },
        _ => {},
    }
}

proof fn lemma_atoms_note_themselves(t: Term, calls: Seq<Term>)
    requires
        items_are_atoms(t),
    ensures
        noted_items(t, calls) == Some((calls, t)),
    decreases t,
{
    match t {
        Term::Cons(a, b) => {
            lemma_atoms_note_themselves(*b, calls);
            assert(noted_form(*a, calls) == Some((calls, *a)));
        },
        _ => {},
    }
}

/// Conversion is never idempotent. Where an expression has a conversion,
/// converting that conversion does not give it back: the head of a call is
/// followed by one more continuation each time, or the second conversion
/// takes the first for a conditional, or fails.
pub proof fn lemma_conversion_is_not_idempotent(t: Term, k: Term)
    requires
        procedures_are_atomic(t),
        is_good_atom(k),
    ensures
        match converted(t, k) {
            Some(r) => converted(r, k) != Some(r),
            None => true,
        },
{
    lemma_conversion_is_a_call(t, k);
    lemma_conversion_makes_calls_atomic(t, k);
    match converted(t, k) {
        Some(r) => {
            match r {
                Term::Cons(h, rest) => match *rest {
                    Term::Cons(x, tail) => {
                        if *h == named("&if"@) {
                            match conditional_parts(r) {
                                Some((test, _, _)) => {
                                    match (
                                        converted(without_conditional(r, true), k),
                                        converted(without_conditional(r, false), k),
                                    ) {
                                        (Some(first), Some(second)) => {
                                            let k2 = continuation(
                                                "@@k-if"@,
                                                list_of(
                                                    seq![
                                                        named("&if"@),
                                                        named("@@k-if"@),
                                                        first,
                                                        second,
                                                    ],
                                                ),
                                            );
                                            assert(noted_form(test, Seq::empty()) == Some(
                                                (Seq::<Term>::empty(), test),
                                            ));
                                            assert(converted(test, k2) == Some(
                                                list_of(seq![k2, test]),
                                            ));
                                        },
                                        _ => {},
                                    }
                                },
                                None => {},
                            }
                        } else if *h == named("&lambda"@) {
                            match converted_lambda(*rest) {
                                Some(l) => {
                                    lemma_list_of_two(k, l);
                                },
                                None => {},
                            }
                        } else if *h == named("&quote"@) {
                            if *tail is Nil {
                                reveal_with_fuel(list_items, 3);
                                lemma_list_of_two(*h, *x);
                                let call = list_of(seq![*h, *x]);
                                let all = Seq::<Term>::empty().push(call);
                                assert(noted_form(r, Seq::empty()) == Some(
                                    (all, last_label(all)),
                                ));
                            }
                        } else {
                            if list_items(*rest) is Some {
                                lemma_atoms_hold_no_conditional(*rest);
                                lemma_atoms_note_themselves(*rest, Seq::empty());
                                assert(noted_form(*h, Seq::empty()) == Some(
                                    (Seq::<Term>::empty(), *h),
                                ));
                                let all = Seq::<Term>::empty().push(r);
                                assert(noted_form(r, Seq::empty()) == Some(
                                    (all, last_label(all)),
                                ));
                            } else {
                                lemma_atoms_hold_no_conditional(*rest);
                            }
                        }
                    },
                    _ => {},
                },
                _ => {},
            }
        },
        None => {},
    }
}

/// Whether `t` is syntax: a tree of pairs, names and literals, as the
/// reader makes it, without a procedure value or a quoted value in it.
pub open spec fn is_syntax(t: Term) -> bool
    decreases t,
{
    match t {
        Term::Cons(a, b) => is_syntax(*a) && is_syntax(*b),
        Term::Lambda(_, _) => false,
        Term::Quote(_) => false,
        _ => true,
    }
}

/// Whether each of the trees is syntax.
pub open spec fn are_syntax(ts: Seq<Term>) -> bool {
    forall|i: int| 0 <= i < ts.len() ==> is_syntax(#[trigger] ts[i])
}

proof fn lemma_list_of_syntax(items: Seq<Term>)
    requires
        are_syntax(items),
    ensures
        is_syntax(list_of(items)),
    decreases items.len(),
{
    if items.len() > 0 {
        assert(are_syntax(items.drop_first())) by {
            assert forall|i: int| 0 <= i < items.drop_first().len() implies is_syntax(
                #[trigger] items.drop_first()[i],
            ) by {
                assert(items.drop_first()[i] == items[i + 1]);
            }
        }
        lemma_list_of_syntax(items.drop_first());
    }
}

/// What the reader makes of a token tree is syntax.
pub proof fn lemma_parsed_is_syntax(t: Tree)
    ensures
        match parsed(t) {
            Some(v) => is_syntax(v),
            None => true,
        },
    decreases t, 0nat,
{
    match t {
        Tree::List(body, _, _) => {
            lemma_parsed_items_are_syntax(body, body.len() as int);
            match parsed_items(body, body.len() as int) {
                Some(items) => {
                    lemma_list_of_syntax(items);
                },
                None => {},
            }
        },
        _ => {},
    }
}

proof fn lemma_parsed_items_are_syntax(items: Seq<Tree>, n: int)
    ensures
        match parsed_items(items, n) {
            Some(vs) => are_syntax(vs),
            None => true,
        },
    decreases items, n,
{
    if n <= 0 || n > items.len() {
    } else {
        lemma_parsed_items_are_syntax(items, n - 1);
        lemma_parsed_is_syntax(items[n - 1]);
    }
}

/// Formatted syntax holds no procedure value, and does not hold the name
/// `no-continuation`: each of its names is empty or begins with `&`.
pub proof fn lemma_formatted_syntax(t: Term)
    requires
        is_syntax(t),
    ensures
        is_syntax(formatted(t)),
        procedures_are_atomic(formatted(t)),
        occurrences(formatted(t), sentinel()) == 0,
    decreases t,
{
    match t {
        Term::Name(n) => {
            reveal_strlit("no-continuation");
            reveal_strlit("&");
            assert("no-continuation"@[0] == 'n');
        },
        Term::Cons(a, b) => {
            lemma_formatted_syntax(*a);
            lemma_formatted_syntax(*b);
        },
        _ => {},
    }
}

/// For every expression of a source text: in its conversion, each call
/// has atoms for arguments; and where the expression, once formatted, has
/// no conditional outside its procedures and quotations, the last
/// continuation occurs in the conversion exactly once.
pub proof fn lemma_conversion_of_source(tree: Tree)
    ensures
        match parsed(tree) {
            Some(t) => match converted(formatted(t), named(sentinel())) {
                Some(r) => calls_are_atomic(r) && (find_conditional(formatted(t)) is None
                    ==> occurrences(r, sentinel()) == 1),
                None => true,
            },
            None => true,
        },
{
    match parsed(tree) {
        Some(t) => {
            lemma_parsed_is_syntax(tree);
            lemma_formatted_syntax(t);
            lemma_conversion_makes_calls_atomic(formatted(t), named(sentinel()));
            if find_conditional(formatted(t)) is None {
                lemma_one_last_continuation(formatted(t));
            }
        },
        None => {},
    }
}

} // verus!
