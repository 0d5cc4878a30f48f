//! One form from source to result, as a job that is done step by step. A
//! definition of a macro is installed. Any other form has its macro calls
//! expanded, its names formatted, is rewritten into continuation-passing
//! style, and is run.
//!
//! A job never waits on its own. Where its steps are used up it is handed
//! back to be gone on with; where a macro body or the form itself asks for
//! floating-point arithmetic, the question is handed out with the job, and
//! the job goes on with the answer.

use vstd::prelude::*;
use vstd::string::*;
use std::rc::Rc;
use crate::cps::{convert_expr, converted, is_named, list_of_two, malformed, named, sentinel};
use crate::error::{Error, ErrorKind, Failure};
use crate::eval::builtin::{applied, unquoted};
use crate::eval::env::{wrong, Globals};
use crate::eval::evaluator::{
    failure_frames,
    is_error,
    machine_after,
    reduction,
    Evaluator,
    Machine,
};
use crate::eval::operators::{FloatRequest, Reduction, Step};
use crate::format::{format_names, formatted};
use crate::macros::{
    definition_in,
    defined_twice,
    bad_definition,
    expansion_call,
    nested_definition,
    parse_macro_definition,
    to_executable_expression,
    too_deep,
    Definition,
    Found,
};
use crate::text::joined;
use crate::value::{list_items, share, terms_of, Term, Value};

verus! {

/// How much a form may use: how deep macro calls may be nested in what
/// macro calls expand to, and how many steps are done before the job is
/// handed back to be gone on with.
pub struct Limits {
    pub expansion_depth: usize,
    pub steps: usize,
}

/// What a job has put aside while it works on a part of a form.
pub enum FrameView {
    /// The items of a list: those that are expanded, and the rest of the
    /// list, whose first item was taken out and is being worked on.
    Items(Seq<Term>, Term),
    /// A macro call, whose expansion is being expanded in its turn; and how
    /// deep macro calls could be nested before it.
    Call(nat),
}

/// What a job is about to do.
pub enum TaskView {
    /// Expand the macro calls in the form.
    Expand(Term),
    /// Hand the expanded form to what was put aside.
    Give(Term),
    /// Go on with the run of a macro body.
    Run(Term),
    /// Go on with the run of the form itself.
    Main(Term),
    /// Wait for the answer to a question: of the form itself where the flag
    /// is set, and else of a macro body.
    Waiting(bool),
}

/// A job, as a mathematical value.
pub struct JobView {
    pub frames: Seq<FrameView>,
    pub task: TaskView,
    /// How deep macro calls may still be nested.
    pub depth: nat,
    /// Whether the form is run once it is expanded.
    pub whole: bool,
}

/// The job of expanding the form `t`.
pub open spec fn expansion_of(t: Term, depth: nat) -> JobView {
    JobView { frames: Seq::empty(), task: TaskView::Expand(t), depth, whole: false }
}

/// The job of expanding the form `t` and running it.
pub open spec fn evaluation_of(t: Term, depth: nat) -> JobView {
    JobView { frames: Seq::empty(), task: TaskView::Expand(t), depth, whole: true }
}

/// The chain of the items that ends in `tail`.
pub open spec fn chain_of(items: Seq<Term>, tail: Term) -> Term
    decreases items.len(),
{
    if items.len() == 0 {
        tail
    } else {
        Term::Cons(Box::new(items[0]), Box::new(chain_of(items.drop_first(), tail)))
    }
}

/// The failure of a step on a job that waits for an answer.
pub open spec fn waiting() -> Failure {
    wrong("the job waits for the answer to its question"@)
}

/// What one step of a job does.
pub enum Moved {
    /// The job goes on.
    Next(JobView, Machine),
    /// The job ends with the value.
    Done(Term, Machine),
    /// The host is asked to apply the operator to the operands and to hand
    /// the answer to the continuation; the job waits.
    Ask(Seq<char>, Seq<Term>, Term, JobView, Machine),
    /// The job fails: with what, and with which trace.
    Fail(Failure, Seq<Seq<char>>, Machine),
}

/// The step that begins the expansion of the form `t`. A form that is no
/// call is expanded already. A call of a macro is run: the macro's
/// procedure on the arguments as they are written. Of any other call each
/// item is expanded, the head first. A `defmacro` inside a form fails.
pub open spec fn begun(t: Term, j: JobView, macros: Globals, m: Machine) -> Moved {
    match t {
        Term::Cons(h, rest) => if list_items(*rest) is None {
            Moved::Next(JobView { task: TaskView::Give(t), ..j }, m)
        } else if *h == named("defmacro"@) {
            Moved::Fail(nested_definition(), Seq::empty(), m)
        } else if *h is Name && macros.contains_key(h->Name_0) {
            if j.depth == 0 {
                Moved::Fail(too_deep(), Seq::empty(), m)
            } else {
                match expansion_call(macros[h->Name_0], *rest) {
                    Some(call) => Moved::Next(
                        JobView {
                            frames: j.frames.push(FrameView::Call(j.depth)),
                            task: TaskView::Run(call),
                            depth: (j.depth - 1) as nat,
                            whole: j.whole,
                        },
                        m,
                    ),
                    None => Moved::Fail(malformed(), Seq::empty(), m),
                }
            }
        } else {
            Moved::Next(
                JobView {
                    frames: j.frames.push(FrameView::Items(Seq::empty(), *rest)),
                    task: TaskView::Expand(*h),
                    ..j
                },
                m,
            )
        },
        _ => Moved::Next(JobView { task: TaskView::Give(t), ..j }, m),
    }
}

/// The step that hands the expanded form `v` on. Where nothing was put
/// aside the expansion is done: the job ends with `v`, or goes on to run
/// it, formatted and in continuation-passing style. What a macro call
/// expanded to is handed further. An item of a list joins the items
/// before it, and the next item is expanded, or the list is handed on.
pub open spec fn given(v: Term, j: JobView, m: Machine) -> Moved {
    if j.frames.len() == 0 {
        if j.whole {
            match converted(formatted(v), named(sentinel())) {
                Some(cps) => Moved::Next(JobView { task: TaskView::Main(cps), ..j }, m),
                None => Moved::Fail(malformed(), Seq::empty(), m),
            }
        } else {
            Moved::Done(v, m)
        }
    } else {
        match j.frames.last() {
            FrameView::Call(depth) => Moved::Next(
                JobView {
                    frames: j.frames.drop_last(),
                    task: TaskView::Give(v),
                    depth,
                    whole: j.whole,
                },
                m,
            ),
            FrameView::Items(done, rest) => match rest {
                Term::Cons(a, b) => Moved::Next(
                    JobView {
                        frames: j.frames.drop_last().push(FrameView::Items(done.push(v), *b)),
                        task: TaskView::Expand(*a),
                        ..j
                    },
                    m,
                ),
                _ => Moved::Next(
                    JobView {
                        frames: j.frames.drop_last(),
                        task: TaskView::Give(chain_of(done.push(v), rest)),
                        ..j
                    },
                    m,
                ),
            },
        }
    }
}

/// The step of a run: one step of the evaluator on `current`. Where the
/// run of a macro body ends, what it gave, without the quotation around
/// it, is expanded in its turn; where the run of the form ends, the job
/// ends.
pub open spec fn run_on(current: Term, main: bool, j: JobView, m: Machine) -> Moved {
    let red = reduction(current, m.globals);
    match red {
        Reduction::Halt(v) => if main {
            Moved::Done(v, m)
        } else {
            Moved::Next(JobView { task: TaskView::Expand(unquoted(v)), ..j }, m)
        },
        Reduction::Ask(operator, operands, k) => Moved::Ask(
            operator,
            operands,
            k,
            JobView { task: TaskView::Waiting(main), ..j },
            m,
        ),
        Reduction::Fail(failure) => Moved::Fail(failure, failure_frames(current, m.globals), m),
        Reduction::Next(t) => Moved::Next(going_on(t, main, j), m),
        Reduction::Define(_, _, t) => Moved::Next(going_on(t, main, j), machine_after(red, m)),
        Reduction::Print(_, t) => Moved::Next(going_on(t, main, j), machine_after(red, m)),
    }
}

/// The job that goes on with the run of `t`.
pub open spec fn going_on(t: Term, main: bool, j: JobView) -> JobView {
    JobView {
        task: if main {
            TaskView::Main(t)
        } else {
            TaskView::Run(t)
        },
        ..j
    }
}

/// One step of a job.
#[verifier::opaque]
pub open spec fn moved(j: JobView, macros: Globals, m: Machine) -> Moved {
    match j.task {
        TaskView::Expand(t) => begun(t, j, macros, m),
        TaskView::Give(v) => given(v, j, m),
        TaskView::Run(c) => run_on(c, false, j, m),
        TaskView::Main(c) => run_on(c, true, j, m),
        TaskView::Waiting(_) => Moved::Fail(waiting(), Seq::empty(), m),
    }
}

/// The job with the answer to its question: it goes on with `next`, the
/// continuation applied to the answer.
pub open spec fn answered(j: JobView, next: Term) -> JobView {
    match j.task {
        TaskView::Waiting(main) => going_on(next, main, j),
        _ => j,
    }
}

/// How at most `fuel` steps of a job end.
pub enum JobRan {
    /// With the value of the job.
    Done(Term, Machine),
    /// With steps left to do.
    Pending(JobView, Machine),
    /// With a question for the host.
    Asked(Seq<char>, Seq<Term>, Term, JobView, Machine),
    /// With an error.
    Failed(Failure, Seq<Seq<char>>, Machine),
}

/// At most `fuel` steps of the job `j`.
pub open spec fn job_ran(j: JobView, macros: Globals, m: Machine, fuel: nat) -> JobRan
    decreases fuel,
{
    if fuel == 0 {
        JobRan::Pending(j, m)
    } else {
        match moved(j, macros, m) {
            Moved::Next(j2, m2) => job_ran(j2, macros, m2, (fuel - 1) as nat),
            Moved::Done(v, m2) => JobRan::Done(v, m2),
            Moved::Ask(operator, operands, k, j2, m2) => JobRan::Asked(
                operator,
                operands,
                k,
                j2,
                m2,
            ),
            Moved::Fail(failure, frames, m2) => JobRan::Failed(failure, frames, m2),
        }
    }
}

/// The machine that the steps of a job leave.
pub open spec fn machine_left(r: JobRan) -> Machine {
    match r {
        JobRan::Done(_, m) => m,
        JobRan::Pending(_, m) => m,
        JobRan::Asked(_, _, _, _, m) => m,
        JobRan::Failed(_, _, m) => m,
    }
}

/// What a job has put aside.
#[derive(Debug)]
pub enum Frame {
    Items { done: Vec<Rc<Value>>, rest: Rc<Value> },
    Call(usize),
}

/// What a job is about to do.
#[derive(Debug)]
pub enum Task {
    Expand(Rc<Value>),
    Give(Rc<Value>),
    Run(Rc<Value>),
    Main(Rc<Value>),
    Waiting(bool),
}

/// The work on one form, between two steps.
#[derive(Debug)]
pub struct Job {
    frames: Vec<Frame>,
    task: Task,
    depth: usize,
    whole: bool,
}

/// The frame as a mathematical value.
pub open spec fn frame_view(f: Frame) -> FrameView {
    match f {
        Frame::Items { done, rest } => FrameView::Items(terms_of(done@), rest@),
        Frame::Call(depth) => FrameView::Call(depth as nat),
    }
}

/// The task as a mathematical value.
pub open spec fn task_view(t: Task) -> TaskView {
    match t {
        Task::Expand(t) => TaskView::Expand(t@),
        Task::Give(t) => TaskView::Give(t@),
        Task::Run(t) => TaskView::Run(t@),
        Task::Main(t) => TaskView::Main(t@),
        Task::Waiting(main) => TaskView::Waiting(main),
    }
}

/// The frames as mathematical values.
pub open spec fn frames_view(fs: Seq<Frame>) -> Seq<FrameView> {
    Seq::new(fs.len(), |i: int| frame_view(fs[i]))
}

impl View for Job {
    type V = JobView;

    closed spec fn view(&self) -> JobView {
        JobView {
            frames: frames_view(self.frames@),
            task: task_view(self.task),
            depth: self.depth as nat,
            whole: self.whole,
        }
    }
}

/// How the steps of a job end.
#[derive(Debug)]
pub enum Progress {
    /// The value of the job.
    Done(Rc<Value>),
    /// The job, to be gone on with.
    Pending(Job),
    /// A question for the host, and the job that waits for the answer. The
    /// answer goes to `Job::answer`.
    Float(FloatRequest, Job),
}

/// Whether the steps of a job ended as expected.
pub open spec fn progress_agrees(r: Result<Progress, Error>, expected: JobRan) -> bool {
    match expected {
        JobRan::Done(v, _) => r matches Ok(Progress::Done(x)) && x@ == v,
        JobRan::Pending(j, _) => r matches Ok(Progress::Pending(x)) && x@ == j,
        JobRan::Asked(operator, operands, k, j, _) => r matches Ok(Progress::Float(q, x))
            && q.operator@ == operator && terms_of(q.operands@) == operands && q.continuation@ == k
            && x@ == j,
        JobRan::Failed(failure, frames, _) => r matches Err(e) && is_error(e, failure, frames),
    }
}

/// What one step of a job gives back.
enum Turn {
    Next(Job),
    Done(Rc<Value>),
    Float(FloatRequest, Job),
}

spec fn turn_agrees(r: Result<Turn, Error>, expected: Moved) -> bool {
    match expected {
        Moved::Next(j, _) => r matches Ok(Turn::Next(x)) && x@ == j,
        Moved::Done(v, _) => r matches Ok(Turn::Done(x)) && x@ == v,
        Moved::Ask(operator, operands, k, j, _) => r matches Ok(Turn::Float(q, x)) && q.operator@
            == operator && terms_of(q.operands@) == operands && q.continuation@ == k && x@ == j,
        Moved::Fail(failure, frames, _) => r matches Err(e) && is_error(e, failure, frames),
    }
}

spec fn machine_moved(r: Moved) -> Machine {
    match r {
        Moved::Next(_, m) => m,
        Moved::Done(_, m) => m,
        Moved::Ask(_, _, _, _, m) => m,
        Moved::Fail(_, _, m) => m,
    }
}

fn unquote(v: &Rc<Value>) -> (r: Rc<Value>)
    ensures
        r@ == unquoted(v@),
{
    match &**v {
        Value::Quote(inner) => share(inner),
        _ => share(v),
    }
}

fn failed(kind: ErrorKind, message: &str) -> (r: Result<Turn, Error>)
    ensures
        r matches Err(e) && is_error(e, Failure { kind, message: message@ }, Seq::empty()),
{
    Err(Error::of_kind(kind, message))
}

/// The chain of the items that ends in `tail`.
fn chain(items: &Vec<Rc<Value>>, tail: &Rc<Value>) -> (r: Rc<Value>)
    ensures
        r@ == chain_of(terms_of(items@), tail@),
{
    let mut r = share(tail);
    let mut i: usize = items.len();
    while i > 0
        invariant
            i <= items@.len(),
            r@ == chain_of(terms_of(items@).subrange(i as int, items@.len() as int), tail@),
        decreases i,
    {
        i = i - 1;
        let ghost part = terms_of(items@).subrange(i as int, items@.len() as int);
        assert(part.drop_first() =~= terms_of(items@).subrange(i + 1, items@.len() as int));
        r = Value::pair(&items[i], &r);
    }
    assert(terms_of(items@).subrange(0, items@.len() as int) =~= terms_of(items@));
    r
}

impl Job {
    /// The job of expanding the macro calls in `expr`.
    pub fn expansion(expr: &Rc<Value>, depth: usize) -> (r: Job)
        ensures
            r@ == expansion_of(expr@, depth as nat),
    {
        let r = Job { frames: Vec::new(), task: Task::Expand(share(expr)), depth, whole: false };
        assert(r@.frames =~= Seq::<FrameView>::empty());
        r
    }

    /// The job of expanding `expr` and running it.
    pub fn evaluation(expr: &Rc<Value>, depth: usize) -> (r: Job)
        ensures
            r@ == evaluation_of(expr@, depth as nat),
    {
        let r = Job { frames: Vec::new(), task: Task::Expand(share(expr)), depth, whole: true };
        assert(r@.frames =~= Seq::<FrameView>::empty());
        r
    }

    /// The job with the host's answer to `request`: it goes on with the
    /// continuation of the question applied to the answer. A job that does
    /// not wait stays as it is.
    pub fn answer(self, request: &FloatRequest, answer: &Rc<Value>) -> (r: Job)
        ensures
            r@ == answered(self@, applied(request.continuation@, answer@)),
    {
        let Job { frames, task, depth, whole } = self;
        match task {
            Task::Waiting(main) => {
                let next = list_of_two(&request.continuation, answer);
                if main {
                    Job { frames, task: Task::Main(next), depth, whole }
                } else {
                    Job { frames, task: Task::Run(next), depth, whole }
                }
            },
            other => Job { frames, task: other, depth, whole },
        }
    }
}

impl Evaluator {
    fn begin(&mut self, t: Rc<Value>, frames: Vec<Frame>, depth: usize, whole: bool) -> (r: Result<
        Turn,
        Error,
    >)
        ensures
            turn_agrees(
                r,
                begun(
                    t@,
                    JobView {
                        frames: frames_view(frames@),
                        task: TaskView::Expand(t@),
                        depth: depth as nat,
                        whole,
                    },
                    old(self).macros(),
                    old(self).machine(),
                ),
            ),
            final(self).machine() == old(self).machine(),
            final(self).macros() == old(self).macros(),
    {
        proof {
        }
        let mut frames = frames;
        let ghost before = frames_view(frames@);
        match &*t {
            Value::Cons { car, cdr } => {
                if cdr.to_list().is_none() {
                    return Ok(Turn::Next(Job { frames, task: Task::Give(share(&t)), depth, whole }));
                }
                if is_named(car, "defmacro") {
                    return failed(
                        ErrorKind::Expansion,
                        "cannot define a macro inside an expression",
                    );
                }
                let function = match &**car {
                    Value::Name(n) => self.lookup_macro(n.as_str()),
                    _ => None,
                };
                match function {
                    Some(f) => {
                        if depth == 0 {
                            return failed(
                                ErrorKind::Expansion,
                                "macro expansion is nested too deep",
                            );
                        }
                        match to_executable_expression(&f, cdr) {
                            Ok(call) => {
                                frames.push(Frame::Call(depth));
                                assert(frames_view(frames@) =~= before.push(
                                    FrameView::Call(depth as nat),
                                ));
                                Ok(
                                    Turn::Next(
                                        Job { frames, task: Task::Run(call), depth: depth - 1, whole },
                                    ),
                                )
                            },
                            Err(e) => Err(e),
                        }
                    },
                    None => {
                        let done: Vec<Rc<Value>> = Vec::new();
                        assert(terms_of(done@) =~= Seq::<Term>::empty());
                        frames.push(Frame::Items { done, rest: share(cdr) });
                        assert(frames_view(frames@) =~= before.push(
                            FrameView::Items(Seq::empty(), cdr@),
                        ));
                        Ok(Turn::Next(Job { frames, task: Task::Expand(share(car)), depth, whole }))
                    },
                }
            },
            _ => Ok(Turn::Next(Job { frames, task: Task::Give(share(&t)), depth, whole })),
        }
    }

    fn give(v: Rc<Value>, frames: Vec<Frame>, depth: usize, whole: bool) -> (r: Result<Turn, Error>)
        ensures
            forall|m: Machine|
                turn_agrees(
                    r,
                    #[trigger] given(
                        v@,
                        JobView {
                            frames: frames_view(frames@),
                            task: TaskView::Give(v@),
                            depth: depth as nat,
                            whole,
                        },
                        m,
                    ),
                ),
    {
        let mut frames = frames;
        let ghost before = frames_view(frames@);
        match frames.pop() {
            None => {
                if whole {
                    match convert_expr(&format_names(&v)) {
                        Ok(cps) => Ok(Turn::Next(Job { frames, task: Task::Main(cps), depth, whole })),
                        Err(e) => Err(e),
                    }
                } else {
                    Ok(Turn::Done(v))
                }
            },
            Some(Frame::Call(saved)) => {
                assert(frames_view(frames@) =~= before.drop_last());
                Ok(Turn::Next(Job { frames, task: Task::Give(v), depth: saved, whole }))
            },
            Some(Frame::Items { done, rest }) => {
                assert(frames_view(frames@) =~= before.drop_last());
                let ghost popped = frames_view(frames@);
                let mut done = done;
                let ghost had = terms_of(done@);
                done.push(v);
                assert(terms_of(done@) =~= had.push(v@));
                match &*rest {
                    Value::Cons { car, cdr } => {
                        let a = share(car);
                        let b = share(cdr);
                        frames.push(Frame::Items { done, rest: b });
                        assert(frames_view(frames@) =~= popped.push(
                            FrameView::Items(had.push(v@), cdr@),
                        ));
                        Ok(Turn::Next(Job { frames, task: Task::Expand(a), depth, whole }))
                    },
                    _ => {
                        let whole_chain = chain(&done, &rest);
                        Ok(Turn::Next(Job { frames, task: Task::Give(whole_chain), depth, whole }))
                    },
                }
            },
        }
    }

    fn run_step(
        &mut self,
        current: Rc<Value>,
        main: bool,
        frames: Vec<Frame>,
        depth: usize,
        whole: bool,
    ) -> (r: Result<Turn, Error>)
        ensures
            turn_agrees(
                r,
                run_on(
                    current@,
                    main,
                    JobView {
                        frames: frames_view(frames@),
                        task: if main {
                            TaskView::Main(current@)
                        } else {
                            TaskView::Run(current@)
                        },
                        depth: depth as nat,
                        whole,
                    },
                    old(self).machine(),
                ),
            ),
            final(self).machine() == machine_moved(
                run_on(
                    current@,
                    main,
                    JobView {
                        frames: frames_view(frames@),
                        task: if main {
                            TaskView::Main(current@)
                        } else {
                            TaskView::Run(current@)
                        },
                        depth: depth as nat,
                        whole,
                    },
                    old(self).machine(),
                ),
            ),
            final(self).macros() == old(self).macros(),
    {
        match self.step(&current) {
            Ok(Step::Next(t)) => {
                if main {
                    Ok(Turn::Next(Job { frames, task: Task::Main(t), depth, whole }))
                } else {
                    Ok(Turn::Next(Job { frames, task: Task::Run(t), depth, whole }))
                }
            },
            Ok(Step::Halt(v)) => {
                if main {
                    Ok(Turn::Done(v))
                } else {
                    Ok(Turn::Next(Job { frames, task: Task::Expand(unquote(&v)), depth, whole }))
                }
            },
            Ok(Step::Float(q)) => Ok(
                Turn::Float(q, Job { frames, task: Task::Waiting(main), depth, whole }),
            ),
            Err(e) => Err(e),
        }
    }

    fn turn(&mut self, job: Job) -> (r: Result<Turn, Error>)
        ensures
            turn_agrees(r, moved(job@, old(self).macros(), old(self).machine())),
            final(self).machine() == machine_moved(
                moved(job@, old(self).macros(), old(self).machine()),
            ),
            final(self).macros() == old(self).macros(),
    {
        proof {
            reveal(moved);
        }
        let Job { frames, task, depth, whole } = job;
        match task {
            Task::Expand(t) => self.begin(t, frames, depth, whole),
            Task::Give(v) => Self::give(v, frames, depth, whole),
            Task::Run(c) => self.run_step(c, false, frames, depth, whole),
            Task::Main(c) => self.run_step(c, true, frames, depth, whole),
            Task::Waiting(_) => failed(
                ErrorKind::Evaluation,
                "the job waits for the answer to its question",
            ),
        }
    }

    /// Does at most `fuel` steps of `job`. They end with the value of the
    /// job, with the job to be gone on with, with a question for the host
    /// and the job that waits for the answer, or with an error.
    pub fn advance(&mut self, job: Job, fuel: usize) -> (r: Result<Progress, Error>)
        ensures
            progress_agrees(
                r,
                job_ran(job@, old(self).macros(), old(self).machine(), fuel as nat),
            ),
            final(self).machine() == machine_left(
                job_ran(job@, old(self).macros(), old(self).machine(), fuel as nat),
            ),
            final(self).macros() == old(self).macros(),
    {
        let ghost whole = job_ran(job@, self.macros(), self.machine(), fuel as nat);
        let mut current = job;
        let mut left = fuel;
        loop
            invariant
                whole == job_ran(job@, old(self).macros(), old(self).machine(), fuel as nat),
                whole == job_ran(current@, self.macros(), self.machine(), left as nat),
                self.macros() == old(self).macros(),
            decreases left,
        {
            if left == 0 {
                return Ok(Progress::Pending(current));
            }
            match self.turn(current) {
                Ok(Turn::Next(next)) => {
                    current = next;
                    left = left - 1;
                },
                Ok(Turn::Done(v)) => {
                    return Ok(Progress::Done(v));
                },
                Ok(Turn::Float(q, waiting)) => {
                    return Ok(Progress::Float(q, waiting));
                },
                Err(e) => {
                    return Err(e);
                },
            }
        }
    }
}

/// How the work on a form ends, and the macros after it.
pub struct Evaluation {
    pub outcome: JobRan,
    pub macros: Globals,
}

/// The work on the top-level form `t`. The definition of a macro installs
/// it and gives `nil`, and fails where a macro of that name exists. Any
/// other form is expanded, and run as well where `whole` is set, as far as
/// `fuel` steps go.
pub open spec fn handled(
    t: Term,
    macros: Globals,
    m: Machine,
    whole: bool,
    depth: nat,
    fuel: nat,
) -> Evaluation {
    match definition_in(t) {
        Definition::Macro(name, function) => if macros.contains_key(name) {
            Evaluation { outcome: JobRan::Failed(defined_twice(name), Seq::empty(), m), macros }
        } else {
            Evaluation {
                outcome: JobRan::Done(Term::Nil, m),
                macros: macros.insert(name, function),
            }
        },
        Definition::Malformed => Evaluation {
            outcome: JobRan::Failed(bad_definition(), Seq::empty(), m),
            macros,
        },
        Definition::Other => Evaluation {
            outcome: job_ran(
                JobView { frames: Seq::empty(), task: TaskView::Expand(t), depth, whole },
                macros,
                m,
                fuel,
            ),
            macros,
        },
    }
}

/// The evaluation of the top-level form `t`.
pub open spec fn evaluation(t: Term, macros: Globals, m: Machine, limits: Limits) -> Evaluation {
    handled(t, macros, m, true, limits.expansion_depth as nat, limits.steps as nat)
}

/// The outcome with what is done made ready to run: formatted and in
/// continuation-passing style.
pub open spec fn made_ready(r: JobRan) -> JobRan {
    match r {
        JobRan::Done(x, m) => match converted(formatted(x), named(sentinel())) {
            Some(cps) => JobRan::Done(cps, m),
            None => JobRan::Failed(malformed(), Seq::empty(), m),
        },
        other => other,
    }
}

/// The top-level form `t` made ready to run: its macro calls expanded, as
/// far as the steps go, its names formatted, and in continuation-passing
/// style. The definition of a macro is installed, and what is made ready
/// is `nil`.
pub open spec fn preprocessed(t: Term, macros: Globals, m: Machine, limits: Limits) -> Evaluation {
    let done = handled(t, macros, m, false, limits.expansion_depth as nat, limits.steps as nat);
    Evaluation { outcome: made_ready(done.outcome), macros: done.macros }
}

impl Evaluator {
    /// Works on one top-level form: installs the macro it defines, or
    /// expands it, and runs it where `whole` is set.
    pub fn handle(&mut self, expr: &Rc<Value>, whole: bool, depth: usize, fuel: usize) -> (r:
        Result<Progress, Error>)
        ensures
            progress_agrees(
                r,
                handled(
                    expr@,
                    old(self).macros(),
                    old(self).machine(),
                    whole,
                    depth as nat,
                    fuel as nat,
                ).outcome,
            ),
            final(self).machine() == machine_left(
                handled(
                    expr@,
                    old(self).macros(),
                    old(self).machine(),
                    whole,
                    depth as nat,
                    fuel as nat,
                ).outcome,
            ),
            final(self).macros() == handled(
                expr@,
                old(self).macros(),
                old(self).machine(),
                whole,
                depth as nat,
                fuel as nat,
            ).macros,
    {
        match parse_macro_definition(expr) {
            Ok(Found::Macro(name, function)) => {
                if self.define_macro(name.as_str(), &function) {
                    Ok(Progress::Done(Value::nil()))
                } else {
                    let mut message = joined("macro '", name.as_str());
                    message.append("' has already been defined");
                    Err(Error::of_kind(ErrorKind::Expansion, message.as_str()))
                }
            },
            Ok(Found::Other) => {
                let job = if whole {
                    Job::evaluation(expr, depth)
                } else {
                    Job::expansion(expr, depth)
                };
                self.advance(job, fuel)
            },
            Err(e) => Err(e),
        }
    }

    /// Makes a top-level form ready to run: its macro calls are expanded,
    /// its names formatted, and it is rewritten into continuation-passing
    /// style.
    pub fn preprocess(&mut self, expr: &Rc<Value>, limits: &Limits) -> (r: Result<Progress, Error>)
        ensures
            progress_agrees(
                r,
                preprocessed(expr@, old(self).macros(), old(self).machine(), *limits).outcome,
            ),
            final(self).machine() == machine_left(
                preprocessed(expr@, old(self).macros(), old(self).machine(), *limits).outcome,
            ),
            final(self).macros() == preprocessed(
                expr@,
                old(self).macros(),
                old(self).machine(),
                *limits,
            ).macros,
    {
        match self.handle(expr, false, limits.expansion_depth, limits.steps) {
            Ok(Progress::Done(x)) => match convert_expr(&format_names(&x)) {
                Ok(cps) => Ok(Progress::Done(cps)),
                Err(e) => Err(e),
            },
            other => other,
        }
    }

    /// Evaluates one top-level form, as far as the steps go.
    pub fn eval(&mut self, expr: &Rc<Value>, limits: &Limits) -> (r: Result<Progress, Error>)
        ensures
            progress_agrees(
                r,
                evaluation(expr@, old(self).macros(), old(self).machine(), *limits).outcome,
            ),
            final(self).machine() == machine_left(
                evaluation(expr@, old(self).macros(), old(self).machine(), *limits).outcome,
            ),
            final(self).macros() == evaluation(
                expr@,
                old(self).macros(),
                old(self).machine(),
                *limits,
            ).macros,
    {
        self.handle(expr, true, limits.expansion_depth, limits.steps)
    }
}

} // verus!
