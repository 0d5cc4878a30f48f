//! The trampoline. An expression in continuation-passing style is a call
//! whose arguments are atoms; one step performs that call and gives the
//! expression to go on with, until the continuation `no-continuation` is
//! called with the final value.

use vstd::prelude::*;
use vstd::string::*;
use std::rc::Rc;
use crate::error::{lambda_frame, named_frame, Error, ErrorKind, Failure};
use crate::eval::builtin;
use crate::eval::builtin::{
    applied,
    car_of,
    cdr_of,
    cons_of,
    definition_of,
    panic_of,
    equals_of,
    eval_of,
    if_of,
    print_of,
    printed,
    quote_of,
    type_test_of,
    Kind,
};
use crate::eval::env::{bound_to, resolved, unprefixed, wrong, Env, Globals};
use crate::eval::lambda::{call_of, evaluate_lambda_funcall};
use crate::eval::operators;
use crate::eval::operators::{
    arithmetic_of,
    comparison_of,
    logical_of,
    modulo_of,
    negation_of,
    next_or_fail,
    step_agrees,
    FloatRequest,
    Reduction,
    Step,
};
use crate::cps::list_of_two;
use crate::text::is_text;
use crate::value::{list_items, share, term_of, terms_of, Term, Value};

verus! {

/// `(no-continuation v)`: evaluation ends with what `v` stands for.
pub open spec fn halt_of(args: Seq<Term>, globals: Globals) -> Reduction {
    if args.len() != 1 {
        Reduction::Fail(wrong("the last continuation takes exactly one value"@))
    } else {
        match bound_to(args[0], globals) {
            Ok(v) => Reduction::Halt(v),
            Err(failure) => Reduction::Fail(failure),
        }
    }
}

/// The step for a call of one of the operators on lists, quotations and
/// text, or of the last continuation; `None` for any other name.
pub open spec fn core_reduction(n: Seq<char>, args: Seq<Term>, globals: Globals) -> Option<
    Reduction,
> {
    if n == "no-continuation"@ {
        Some(halt_of(args, globals))
    } else if n == "&def"@ {
        Some(
            match definition_of(args) {
                Ok((name, value)) => Reduction::Define(name, value, applied(args[0], Term::Nil)),
                Err(failure) => Reduction::Fail(failure),
            },
        )
    } else if n == "&if"@ {
        Some(next_or_fail(if_of(args, globals)))
    } else if n == "&quote"@ {
        Some(next_or_fail(quote_of(args)))
    } else if n == "&eval"@ {
        Some(next_or_fail(eval_of(args, globals)))
    } else if n == "&cons"@ {
        Some(next_or_fail(cons_of(args, globals)))
    } else if n == "&car"@ {
        Some(next_or_fail(car_of(args, globals)))
    } else if n == "&cdr"@ {
        Some(next_or_fail(cdr_of(args, globals)))
    } else if n == "&equals?"@ {
        Some(next_or_fail(equals_of(args, globals)))
    } else if n == "&print"@ || n == "&println"@ {
        Some(
            match print_of(args, globals) {
                Ok(t) => Reduction::Print(
                    printed(resolved(args[1], globals)->0, n == "&println"@),
                    t,
                ),
                Err(failure) => Reduction::Fail(failure),
            },
        )
    } else if n == "&panic"@ {
        Some(Reduction::Fail(panic_of(args, globals)))
    } else {
        None
    }
}

/// The kind that a type predicate asks for; `None` for any other name.
pub open spec fn predicate_kind(n: Seq<char>) -> Option<Kind> {
    if n == "&bool?"@ {
        Some(Kind::Bool)
    } else if n == "&cons?"@ {
        Some(Kind::Cons)
    } else if n == "&float?"@ {
        Some(Kind::Float)
    } else if n == "&int?"@ {
        Some(Kind::Int)
    } else if n == "&name?"@ {
        Some(Kind::Name)
    } else if n == "&nil?"@ {
        Some(Kind::Nil)
    } else if n == "&quote?"@ {
        Some(Kind::Quote)
    } else if n == "&str?"@ {
        Some(Kind::Str)
    } else {
        None
    }
}

/// Whether `n` names one of the four arithmetic operators.
pub open spec fn is_arithmetic(n: Seq<char>) -> bool {
    n == "&+"@ || n == "&-"@ || n == "&*"@ || n == "&/"@
}

/// Whether `n` names one of the six comparisons.
pub open spec fn is_comparison(n: Seq<char>) -> bool {
    n == "&<"@ || n == "&>"@ || n == "&<="@ || n == "&>="@ || n == "&=="@ || n == "&!="@
}

/// The step for a call of an arithmetic, logical or comparison operator;
/// `None` for any other name.
pub open spec fn operator_reduction(n: Seq<char>, args: Seq<Term>, globals: Globals) -> Option<
    Reduction,
> {
    if is_arithmetic(n) {
        Some(arithmetic_of(n, args, globals))
    } else if n == "&%"@ {
        Some(modulo_of(args, globals))
    } else if n == "&and"@ || n == "&or"@ || n == "&xor"@ {
        Some(next_or_fail(logical_of(n, args, globals)))
    } else if n == "&not"@ {
        Some(next_or_fail(negation_of(args, globals)))
    } else if is_comparison(n) {
        Some(comparison_of(n, args, globals))
    } else {
        None
    }
}

/// The step for a call whose head is the name `n`: a built-in operator, or
/// else the procedure that the name stands for.
pub open spec fn named_reduction(n: Seq<char>, args: Seq<Term>, globals: Globals) -> Reduction {
    match core_reduction(n, args, globals) {
        Some(r) => r,
        None => match predicate_kind(n) {
            Some(kind) => next_or_fail(type_test_of(args, globals, kind)),
            None => match operator_reduction(n, args, globals) {
                Some(r) => r,
                None => match bound_to(Term::Name(n), globals) {
                    Ok(f) => next_or_fail(call_of(f, args)),
                    Err(failure) => Reduction::Fail(failure),
                },
            },
        },
    }
}

/// One step of evaluation. A value that is no pair is final. A pair is a
/// call: its arguments must form a proper list, and its head must be a
/// name or a procedure.
pub open spec fn reduction(current: Term, globals: Globals) -> Reduction {
    match current {
        Term::Cons(h, rest) => match list_items(*rest) {
            Some(args) => match *h {
                Term::Name(n) => named_reduction(n, args, globals),
                Term::Lambda(_, _) => next_or_fail(call_of(*h, args)),
                _ => Reduction::Fail(wrong("attempt to call a non-function value"@)),
            },
            None => Reduction::Fail(wrong("expected a list of arguments"@)),
        },
        _ => Reduction::Halt(current),
    }
}

/// The trace of the error in which the step on `current` ends: the call
/// of a procedure that fails is its one frame, and any other failure has
/// none.
pub open spec fn failure_frames(current: Term, globals: Globals) -> Seq<Seq<char>> {
    match current {
        Term::Cons(h, rest) => match list_items(*rest) {
            Some(args) => match *h {
                Term::Name(n) => if core_reduction(n, args, globals) is None && predicate_kind(n)
                    is None && operator_reduction(n, args, globals) is None && resolved(
                    *h,
                    globals,
                ) is Some {
                    seq![named_frame(unprefixed(n))]
                } else {
                    Seq::empty()
                },
                Term::Lambda(_, _) => seq![lambda_frame()],
                _ => Seq::empty(),
            },
            None => Seq::empty(),
        },
        _ => Seq::empty(),
    }
}

/// Whether `e` is the error of the failure with the trace: of its kind,
/// with its message, naming no file.
pub open spec fn is_error(e: Error, failure: Failure, frames: Seq<Seq<char>>) -> bool {
    &&& e@.kind == failure.kind
    &&& e@.message == failure.message
    &&& e@.filename is None
    &&& e@.stack_trace =~= frames
}

/// What the evaluator holds between steps: the global names and the text
/// written so far.
pub struct Machine {
    pub globals: Globals,
    pub output: Seq<Seq<char>>,
}

/// The machine after a step.
pub open spec fn machine_after(r: Reduction, m: Machine) -> Machine {
    match r {
        Reduction::Define(name, value, _) => Machine {
            globals: m.globals.insert(name, value),
            output: m.output,
        },
        Reduction::Print(text, _) => Machine { globals: m.globals, output: m.output.push(text) },
        _ => m,
    }
}

/// How a run of at most `fuel` steps ends.
pub enum Ran {
    /// With the final value.
    Done(Term, Machine),
    /// With steps left to do: the expression to go on with.
    Pending(Term, Machine),
    /// With a question for the host.
    Asked(Seq<char>, Seq<Term>, Term, Machine),
    /// With an error: what failed, and the trace of the error.
    Failed(Failure, Seq<Seq<char>>, Machine),
}

/// The run of at most `fuel` steps from `current`.
pub open spec fn ran(current: Term, m: Machine, fuel: nat) -> Ran
    decreases fuel,
{
    if fuel == 0 {
        Ran::Pending(current, m)
    } else {
        match reduction(current, m.globals) {
            Reduction::Next(t) => ran(t, m, (fuel - 1) as nat),
            Reduction::Define(name, value, t) => ran(
                t,
                machine_after(Reduction::Define(name, value, t), m),
                (fuel - 1) as nat,
            ),
            Reduction::Print(text, t) => ran(
                t,
                machine_after(Reduction::Print(text, t), m),
                (fuel - 1) as nat,
            ),
            Reduction::Halt(v) => Ran::Done(v, m),
            Reduction::Ask(operator, operands, k) => Ran::Asked(operator, operands, k, m),
            Reduction::Fail(failure) => Ran::Failed(
                failure,
                failure_frames(current, m.globals),
                m,
            ),
        }
    }
}

/// How a run ends.
#[derive(Debug)]
pub enum Outcome {
    /// The final value.
    Done(Rc<Value>),
    /// The expression to go on with, where the steps allowed were used up.
    Pending(Rc<Value>),
    /// A question for the host. Its answer goes to `Evaluator::resume`.
    Float(FloatRequest),
}

/// Whether a run ended as expected, as far as its result goes.
pub open spec fn outcome_agrees(r: Result<Outcome, Error>, expected: Ran) -> bool {
    match expected {
        Ran::Done(v, _) => r matches Ok(Outcome::Done(x)) && x@ == v,
        Ran::Pending(t, _) => r matches Ok(Outcome::Pending(x)) && x@ == t,
        Ran::Asked(operator, operands, k, _) => r matches Ok(Outcome::Float(q)) && q.operator@
            == operator && terms_of(q.operands@) == operands && q.continuation@ == k,
        Ran::Failed(failure, frames, _) => r matches Err(e) && is_error(e, failure, frames),
    }
}

/// The machine that a run leaves.
pub open spec fn machine_of(r: Ran) -> Machine {
    match r {
        Ran::Done(_, m) => m,
        Ran::Pending(_, m) => m,
        Ran::Asked(_, _, _, m) => m,
        Ran::Failed(_, _, m) => m,
    }
}

fn next(r: Result<Rc<Value>, Error>) -> (s: Result<Step, Error>)
    ensures
        match r {
            Ok(v) => s matches Ok(Step::Next(x)) && x@ == v@,
            Err(e) => s matches Err(f) && f@ == e@,
        },
{
    match r {
        Ok(v) => Ok(Step::Next(v)),
        Err(e) => Err(e),
    }
}

/// The evaluator: the global names, the macros, and the text that the
/// program has written and the host has not yet taken.
pub struct Evaluator {
    env: Env,
    macros: Env,
    output: Vec<String>,
}

impl Evaluator {
    /// What the evaluator holds.
    pub closed spec fn machine(&self) -> Machine {
        Machine { globals: self.env@, output: self.output.deep_view() }
    }

    /// The macros: each name with the procedure, as it was written, that
    /// makes the expansion.
    pub closed spec fn macros(&self) -> Globals {
        self.macros@
    }

    /// An evaluator without definitions or macros that has written nothing.
    pub fn new() -> (r: Evaluator)
        ensures
            r.machine() == (Machine { globals: Map::empty(), output: Seq::empty() }),
            r.macros() == Map::<Seq<char>, Term>::empty(),
    {
        let r = Evaluator { env: Env::new(), macros: Env::new(), output: Vec::new() };
        assert(r.output.deep_view() =~= Seq::<Seq<char>>::empty());
        r
    }

    /// The procedure of the macro `name`, if there is such a macro.
    pub fn lookup_macro(&self, name: &str) -> (r: Option<Rc<Value>>)
        ensures
            match r {
                Some(f) => self.macros().contains_key(name@) && self.macros()[name@] == f@,
                None => !self.macros().contains_key(name@),
            },
    {
        self.macros.lookup(name)
    }

    /// Installs the macro `name` with the procedure `function`; `false`,
    /// and nothing changed, where there is a macro of that name already.
    pub fn define_macro(&mut self, name: &str, function: &Rc<Value>) -> (installed: bool)
        ensures
            installed == !old(self).macros().contains_key(name@),
            final(self).macros() == (if installed {
                old(self).macros().insert(name@, function@)
            } else {
                old(self).macros()
            }),
            final(self).machine() == old(self).machine(),
    {
        if self.macros.lookup(name).is_some() {
            false
        } else {
            self.macros.define(name, function);
            true
        }
    }

    /// The global names.
    pub fn get_env(&self) -> (env: &Env)
        ensures
            env@ == self.machine().globals,
    {
        &self.env
    }

    /// Defines a global name.
    pub fn define(&mut self, name: &str, value: &Rc<Value>)
        ensures
            final(self).machine() == (Machine {
                globals: old(self).machine().globals.insert(name@, value@),
                output: old(self).machine().output,
            }),
            final(self).macros() == old(self).macros(),
    {
        self.env.define(name, value);
    }

    /// Hands over the text written since the last call, oldest first.
    pub fn take_output(&mut self) -> (text: Vec<String>)
        ensures
            text.deep_view() == old(self).machine().output,
            final(self).machine() == (Machine {
                globals: old(self).machine().globals,
                output: Seq::empty(),
            }),
            final(self).macros() == old(self).macros(),
    {
        let mut text: Vec<String> = Vec::new();
        std::mem::swap(&mut text, &mut self.output);
        assert(self.output.deep_view() =~= Seq::<Seq<char>>::empty());
        text
    }

    fn core_step(&mut self, name: &String, args: &Vec<Rc<Value>>) -> (r: Option<
        Result<Step, Error>,
    >)
        ensures
            match core_reduction(name@, terms_of(args@), old(self).machine().globals) {
                Some(red) => r is Some && step_agrees(r->0, red) && final(self).machine()
                    == machine_after(red, old(self).machine()),
                None => r is None && final(self).machine() == old(self).machine(),
            },
            final(self).macros() == old(self).macros(),
            r is Some && r->0 is Err ==> r->0->Err_0@.is_plain(),
    {
        if is_text(name, "no-continuation") {
            if args.len() != 1 {
                return Some(
                    Err(
                        Error::of_kind(
                            ErrorKind::Evaluation,
                            "the last continuation takes exactly one value",
                        ),
                    ),
                );
            }
            match self.env.resolve(&args[0]) {
                Ok(v) => Some(Ok(Step::Halt(v))),
                Err(e) => Some(Err(e)),
            }
        } else if is_text(name, "&def") {
            Some(next(builtin::define_value(args, &mut self.env)))
        } else if is_text(name, "&if") {
            Some(next(builtin::if_expr(args, &self.env)))
        } else if is_text(name, "&quote") {
            Some(next(builtin::quote_value(args)))
        } else if is_text(name, "&eval") {
            Some(next(builtin::eval_quoted(args, &self.env)))
        } else if is_text(name, "&cons") {
            Some(next(builtin::cons(args, &self.env)))
        } else if is_text(name, "&car") {
            Some(next(builtin::car(args, &self.env)))
        } else if is_text(name, "&cdr") {
            Some(next(builtin::cdr(args, &self.env)))
        } else if is_text(name, "&equals?") {
            Some(next(builtin::values_are_equal(args, &self.env)))
        } else if is_text(name, "&print") || is_text(name, "&println") {
            let newline = is_text(name, "&println");
            Some(next(builtin::print_value(args, &self.env, newline, &mut self.output)))
        } else if is_text(name, "&panic") {
            Some(next(builtin::panic(args, &self.env)))
        } else {
            None
        }
    }

    fn predicate_of(name: &String) -> (r: Option<Kind>)
        ensures
            r == predicate_kind(name@),
    {
        if is_text(name, "&bool?") {
            Some(Kind::Bool)
        } else if is_text(name, "&cons?") {
            Some(Kind::Cons)
        } else if is_text(name, "&float?") {
            Some(Kind::Float)
        } else if is_text(name, "&int?") {
            Some(Kind::Int)
        } else if is_text(name, "&name?") {
            Some(Kind::Name)
        } else if is_text(name, "&nil?") {
            Some(Kind::Nil)
        } else if is_text(name, "&quote?") {
            Some(Kind::Quote)
        } else if is_text(name, "&str?") {
            Some(Kind::Str)
        } else {
            None
        }
    }

    fn operator_step(&self, name: &String, args: &Vec<Rc<Value>>) -> (r: Option<
        Result<Step, Error>,
    >)
        ensures
            match operator_reduction(name@, terms_of(args@), self.machine().globals) {
                Some(red) => r is Some && step_agrees(r->0, red) && (red is Next || red is Ask
                    || red is Fail),
                None => r is None,
            },
            r is Some && r->0 is Err ==> r->0->Err_0@.is_plain(),
    {
        proof {
            reveal_strlit("&+");
            reveal_strlit("&-");
            reveal_strlit("&*");
            reveal_strlit("&%");
            assert("&%"@[1] == '%');
        }
        if is_text(name, "&+") || is_text(name, "&-") || is_text(name, "&*") || is_text(
            name,
            "&/",
        ) {
            Some(operators::arithmetic_expression(name, args, &self.env))
        } else if is_text(name, "&%") {
            Some(operators::modulo(args, &self.env))
        } else if is_text(name, "&and") || is_text(name, "&or") || is_text(name, "&xor") {
            Some(next(operators::logical_operation(name, args, &self.env)))
        } else if is_text(name, "&not") {
            Some(next(operators::logical_negation(args, &self.env)))
        } else if is_text(name, "&<") || is_text(name, "&>") || is_text(name, "&<=") || is_text(
            name,
            "&>=",
        ) || is_text(name, "&==") || is_text(name, "&!=") {
            Some(operators::comparison(name, args, &self.env))
        } else {
            None
        }
    }

    /// One step: performs the call that `current` is.
    pub fn step(&mut self, current: &Rc<Value>) -> (r: Result<Step, Error>)
        ensures
            step_agrees(r, reduction(current@, old(self).machine().globals)),
            final(self).machine() == machine_after(
                reduction(current@, old(self).machine().globals),
                old(self).machine(),
            ),
            final(self).macros() == old(self).macros(),
            r is Err ==> r->Err_0@.filename is None && r->Err_0@.stack_trace =~= failure_frames(
                current@,
                old(self).machine().globals,
            ),
    {
        proof {
            reveal_with_fuel(term_of, 2);
        }
        match &**current {
            Value::Cons { car, cdr } => {
                let args = match cdr.to_list() {
                    Some(args) => args,
                    None => {
                        let e = Error::of_kind(
                            ErrorKind::Evaluation,
                            "expected a list of arguments",
                        );
                        return Err(e);
                    },
                };
                match &**car {
                    Value::Name(name) => {
                        match self.core_step(name, &args) {
                            Some(r) => {
                                return r;
                            },
                            None => {},
                        }
                        match Self::predicate_of(name) {
                            Some(kind) => {
                                return next(builtin::type_test(&args, &self.env, kind));
                            },
                            None => {},
                        }
                        match self.operator_step(name, &args) {
                            Some(r) => {
                                return r;
                            },
                            None => {},
                        }
                        match self.env.resolve(car) {
                            Ok(f) => match evaluate_lambda_funcall(&f, &args) {
                                Ok(v) => Ok(Step::Next(v)),
                                Err(e) => {
                                    let text = name.as_str();
                                    let n = text.unicode_len();
                                    let shown = if n > 0 && text.get_char(0) == '&' {
                                        text.substring_char(1, n)
                                    } else {
                                        text
                                    };
                                    let named = e.add_stack_trace_step(Some(shown));
                                    Err(named)
                                },
                            },
                            Err(e) => Err(e),
                        }
                    },
                    Value::Lambda { .. } => match evaluate_lambda_funcall(car, &args) {
                        Ok(v) => Ok(Step::Next(v)),
                        Err(e) => {
                            let framed = e.add_stack_trace_step(None);
                            Err(framed)
                        },
                    },
                    _ => {
                        let e = Error::of_kind(
                            ErrorKind::Evaluation,
                            "attempt to call a non-function value",
                        );
                        Err(e)
                    },
                }
            },
            _ => Ok(Step::Halt(share(current))),
        }
    }

    /// Runs `start` for at most `fuel` steps. The run ends with the final
    /// value, with the expression to go on with where the steps were used
    /// up, with a question for the host, or with an error.
    pub fn run(&mut self, start: &Rc<Value>, fuel: usize) -> (r: Result<Outcome, Error>)
        ensures
            outcome_agrees(r, ran(start@, old(self).machine(), fuel as nat)),
            final(self).machine() == machine_of(ran(start@, old(self).machine(), fuel as nat)),
            final(self).macros() == old(self).macros(),
    {
        let mut current = share(start);
        let mut left = fuel;
        let ghost whole = ran(start@, self.machine(), fuel as nat);
        loop
            invariant
                whole == ran(start@, old(self).machine(), fuel as nat),
                whole == ran(current@, self.machine(), left as nat),
                self.macros() == old(self).macros(),
            decreases left,
        {
            if left == 0 {
                return Ok(Outcome::Pending(current));
            }
            match self.step(&current) {
                Ok(Step::Next(v)) => {
                    current = v;
                    left = left - 1;
                },
                Ok(Step::Halt(v)) => {
                    return Ok(Outcome::Done(v));
                },
                Ok(Step::Float(q)) => {
                    return Ok(Outcome::Float(q));
                },
                Err(e) => {
                    return Err(e);
                },
            }
        }
    }

    /// The expression that hands the host's answer to the continuation of
    /// its question.
    pub fn resume(request: &FloatRequest, answer: &Rc<Value>) -> (r: Rc<Value>)
        ensures
            r@ == applied(request.continuation@, answer@),
    {
        list_of_two(&request.continuation, answer)
    }
}

} // verus!
