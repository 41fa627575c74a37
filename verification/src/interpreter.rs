//! The interpreter, an abstract machine whose every step does what
//! [`crate::semantics::step`] says.

use vstd::prelude::*;
use crate::continuation::{Control, Kont, MachineV, TestRun, Then};
use crate::env::{Env, position};
use crate::expr::{Expr, lemma_compound_view};
use crate::forms::{
    annotations,
    bind_each,
    cases,
    columns,
    is_symbol,
    least,
    plan_let,
    prefix,
    row,
    shortest_column,
    symbols,
    tail,
    zip_attrs,
};
use crate::host::{Action, Error, ErrorKind, Relation, Reply, Request};
use crate::semantics;
use crate::semantics::Moved;
use crate::stdlib::{Outcome, Pending, Stdlib};
use crate::value::{Value, ValueV, clone_names, lemma_array_view, lemma_object_view};

verus! {

/// The interpreter: an abstract machine that evaluates expression trees
/// step by step.
///
/// It holds the environment, the continuations that wait for values (the
/// innermost last) and what is to be done next. Whoever drives it calls
/// `step` again and again and carries out the requests that come back:
/// arithmetic on numbers, input and output.
#[derive(Debug, PartialEq)]
pub struct Interpreter {
    pub env: Env,
    pub stack: Vec<Kont>,
    pub control: Control,
}

impl View for Interpreter {
    type V = MachineV;

    open spec fn view(&self) -> MachineV {
        MachineV {
            env: self.env@,
            stack: self.stack.deep_view(),
            control: self.control.deep_view(),
        }
    }
}

impl Interpreter {
    /// Whether this state and the action `r` are what `m` says.
    pub open spec fn moved(&self, r: Action, m: Moved) -> bool {
        self@ == m.0 && r@ == m.1
    }

    /// Puts a continuation on top of the stack.
    fn push(&mut self, kont: Kont)
        ensures
            final(self)@ == (MachineV {
                stack: old(self)@.stack.push(kont.deep_view()),
                ..old(self)@
            }),
    {
        self.stack.push(kont);
        assert(self.stack.deep_view() =~= old(self).stack.deep_view().push(kont.deep_view()));
    }

    /// Goes on with `control`.
    fn proceed(&mut self, control: Control) -> (r: Action)
        ensures
            final(self).moved(
                r,
                semantics::proceed(old(self)@.env, old(self)@.stack, control.deep_view()),
            ),
    {
        self.control = control;
        Action::Continue
    }

    /// Hands `v` to whatever waits for it.
    fn give(&mut self, v: Value) -> (r: Action)
        ensures
            final(self).moved(r, semantics::give(old(self)@.env, old(self)@.stack, v@)),
    {
        self.control = Control::Return(v);
        Action::Continue
    }

    /// Stops on the error `e`.
    fn stop(&mut self, e: Error) -> (r: Action)
        ensures
            final(self).moved(r, semantics::stop(old(self)@.env, old(self)@.stack, e@)),
    {
        self.control = Control::Failed(e.clone());
        Action::Failed(e)
    }

    /// Stops on an error of `kind` about `subject`.
    fn fail(&mut self, kind: ErrorKind, subject: String) -> (r: Action)
        ensures
            final(self).moved(
                r,
                semantics::fail(old(self)@.env, old(self)@.stack, kind, subject@),
            ),
    {
        self.stop(Error { kind, subject })
    }

    /// Stops on a malformed form.
    fn malformed(&mut self) -> (r: Action)
        ensures
            final(self).moved(
                r,
                semantics::fail(
                    old(self)@.env,
                    old(self)@.stack,
                    ErrorKind::Syntax,
                    Seq::empty(),
                ),
            ),
    {
        self.fail(ErrorKind::Syntax, String::new())
    }

    /// Goes on as the outcome of a built-in says.
    fn settle(&mut self, outcome: Outcome) -> (r: Action)
        ensures
            final(self).moved(
                r,
                semantics::settle(old(self)@.env, old(self)@.stack, outcome@),
            ),
    {
        match outcome {
            Outcome::Value(v) => self.give(v),
            Outcome::Ask(request, pending) => {
                self.control = Control::Waiting(pending);
                Action::Request(request)
            },
            Outcome::Fail(e) => self.stop(e),
        }
    }

    /// An interpreter whose root frame, under handle 0, binds every
    /// built-in, and that has nothing to do yet.
    pub fn new() -> (r: Interpreter)
        ensures
            r@ == semantics::initial(),
            r@.env.distinct(),
    {
        let mut env = Env::new();
        let builtins = Stdlib::builtins();
        let mut i: usize = 0;
        while i < builtins.len()
            invariant
                i <= builtins.len(),
                env@ == semantics::install(
                    (crate::env::EnvV { frames: Seq::empty() }).extend(None),
                    0,
                    builtins.deep_view(),
                    i as nat,
                ),
                env@.distinct(),
            decreases builtins.len() - i,
        {
            env.bind(0, builtins[i].0.as_str(), builtins[i].1.clone());
            i += 1;
        }
        let r = Interpreter { env, stack: Vec::new(), control: Control::Return(Value::Nil) };
        assert(r.stack.deep_view() =~= Seq::empty());
        r
    }

    /// Schedules the forest `exprs` for evaluation in `frame`. The steps
    /// that follow evaluate the forms in order and hand on the value of the
    /// last one; with no form it is nil.
    pub fn compute(&mut self, exprs: Vec<Expr>, frame: usize)
        ensures
            final(self)@ == semantics::load(old(self)@, exprs.deep_view(), frame),
    {
        self.push(Kont::Block { items: exprs, next: 0, frame });
        self.control = Control::Return(Value::Nil);
    }

    /// One step. `reply` is the host's answer where the step before made a
    /// request, and `Reply::Nothing` otherwise.
    pub fn step(&mut self, reply: Reply) -> (r: Action)
        ensures
            final(self).moved(r, semantics::step(old(self)@, reply@)),
    {
        let mut control = Control::Return(Value::Nil);
        core::mem::swap(&mut self.control, &mut control);
        match control {
            Control::Eval { expr, frame } => self.eval(expr, frame),
            Control::Return(v) => {
                let ghost before = self.stack.deep_view();
                match self.stack.pop() {
                    Some(kont) => {
                        assert(self.stack.deep_view() =~= before.drop_last());
                        assert(kont.deep_view() == before.last());
                        self.resume(kont, v)
                    },
                    None => {
                        let r = Action::Finished(v.clone());
                        self.control = Control::Finished(v);
                        r
                    },
                }
            },
            Control::Waiting(pending) => {
                let outcome = Stdlib::resume(pending, reply);
                self.settle(outcome)
            },
            Control::Finished(v) => {
                let r = Action::Finished(v.clone());
                self.control = Control::Finished(v);
                r
            },
            Control::Failed(e) => {
                let r = Action::Failed(e.clone());
                self.control = Control::Failed(e);
                r
            },
        }
    }

    /// Evaluates `expr` in `frame`.
    pub fn eval(&mut self, expr: Expr, frame: usize) -> (r: Action)
        ensures
            final(self).moved(
                r,
                semantics::eval(old(self)@.env, old(self)@.stack, expr@, frame),
            ),
    {
        match expr {
            Expr::Number(text) => self.handle_number(text),
            Expr::String(s) => self.handle_string(s),
            Expr::Symbol(name) => self.handle_symbol(name, frame),
            Expr::Array(items) => {
                proof {
                    lemma_compound_view(items);
                }
                self.handle_array(items, frame)
            },
            Expr::List(form) => {
                proof {
                    lemma_compound_view(form);
                }
                self.handle_list(form, frame)
            },
        }
    }

    /// A numeral: the host says which number it denotes.
    pub fn handle_number(&mut self, text: String) -> (r: Action)
        ensures
            final(self).moved(r, semantics::numeral(old(self)@.env, old(self)@.stack, text@)),
    {
        self.control = Control::Waiting(Pending::Literal { text: text.clone() });
        Action::Request(Request::Decode(text))
    }

    /// A string literal is its own value.
    pub fn handle_string(&mut self, s: String) -> (r: Action)
        ensures
            final(self).moved(
                r,
                semantics::give(old(self)@.env, old(self)@.stack, ValueV::Str(s@)),
            ),
    {
        self.give(Value::String(s))
    }

    /// An array literal: its items are evaluated in order.
    pub fn handle_array(&mut self, items: Vec<Expr>, frame: usize) -> (r: Action)
        ensures
            final(self).moved(
                r,
                semantics::gather(
                    old(self)@.env,
                    old(self)@.stack,
                    items.deep_view(),
                    frame,
                    crate::continuation::ThenV::Array,
                ),
            ),
    {
        self.gather(items, frame, Then::Array)
    }

    /// A symbol: the value it is bound to, or nil.
    pub fn handle_symbol(&mut self, name: String, frame: usize) -> (r: Action)
        ensures
            final(self).moved(
                r,
                semantics::symbol(old(self)@.env, old(self)@.stack, name@, frame),
            ),
    {
        match self.env.get(frame, name.as_str()) {
            Some(v) => self.give(v),
            None => self.give(Value::Nil),
        }
    }

    /// A form of a single item: a call of a built-in without arguments, or
    /// the item itself.
    pub fn single(&mut self, item: Expr, frame: usize) -> (r: Action)
        ensures
            final(self).moved(
                r,
                semantics::single(old(self)@.env, old(self)@.stack, item@, frame),
            ),
    {
        match &item {
            Expr::Symbol(name) => {
                match self.env.get(frame, name.as_str()) {
                    Some(Value::NativeFunction(function)) => {
                        let args: Vec<Value> = Vec::new();
                        assert(args.deep_view() =~= Seq::empty());
                        let outcome = Stdlib::apply(function, args);
                        return self.settle(outcome);
                    },
                    _ => {},
                }
            },
            _ => {},
        }
        self.proceed(Control::Eval { expr: item, frame })
    }

    /// Starts the evaluation of `items` in `frame`, in order.
    fn gather(&mut self, items: Vec<Expr>, frame: usize, then: Then) -> (r: Action)
        ensures
            final(self).moved(
                r,
                semantics::gather(
                    old(self)@.env,
                    old(self)@.stack,
                    items.deep_view(),
                    frame,
                    then.deep_view(),
                ),
            ),
    {
        if items.len() == 0 {
            let values: Vec<Value> = Vec::new();
            assert(values.deep_view() =~= Seq::empty());
            self.finish(then, values)
        } else {
            let first = items[0].clone();
            let done: Vec<Value> = Vec::new();
            assert(done.deep_view() =~= Seq::empty());
            self.push(Kont::Gather { items, done, frame, then });
            self.proceed(Control::Eval { expr: first, frame })
        }
    }

    /// Starts the inline test at `run.index`, or ends the definition.
    fn start_test(&mut self, run: TestRun) -> (r: Action)
        ensures
            final(self).moved(
                r,
                semantics::start_test(old(self)@.env, old(self)@.stack, run.deep_view()),
            ),
    {
        if run.index < run.cases.len() {
            let scope = self.env.child(run.frame);
            let n = least(run.params.len(), run.cases[run.index].args.len());
            let args = prefix(&run.cases[run.index].args, n);
            let frame = run.frame;
            self.gather(args, frame, Then::Test { run, scope })
        } else {
            self.give(Value::Nil)
        }
    }

    /// Goes on to the test after the one that has passed.
    fn pass(&mut self, run: TestRun) -> (r: Action)
        ensures
            final(self).moved(
                r,
                semantics::pass(old(self)@.env, old(self)@.stack, run.deep_view()),
            ),
    {
        if run.index < usize::MAX {
            let mut run = run;
            run.index = run.index + 1;
            self.start_test(run)
        } else {
            self.give(Value::Nil)
        }
    }

    /// What follows once all values of a run of expressions are there.
    fn finish(&mut self, then: Then, values: Vec<Value>) -> (r: Action)
        ensures
            final(self).moved(
                r,
                semantics::finish(
                    old(self)@.env,
                    old(self)@.stack,
                    then.deep_view(),
                    values.deep_view(),
                ),
            ),
    {
        match then {
            Then::Array => {
                proof {
                    lemma_array_view(values);
                }
                self.give(Value::Array(values))
            },
            Then::Native { function } => {
                let outcome = Stdlib::apply(function, values);
                self.settle(outcome)
            },
            Then::Invoke { params, body, func_env } => {
                let scope = self.env.child(func_env);
                bind_each(&mut self.env, scope, &params, &values);
                self.proceed(Control::Eval { expr: body, frame: scope })
            },
            Then::Construct { class, fields, instance, frame } => {
                let attrs = zip_attrs(&fields, &values);
                proof {
                    lemma_object_view(class, attrs);
                }
                self.env.bind(frame, instance.as_str(), Value::Object { class, attrs });
                self.give(Value::Nil)
            },
            Then::Let { names, form, child, failed } => {
                bind_each(&mut self.env, child, &names, &values);
                if failed {
                    self.malformed()
                } else {
                    self.push(Kont::Block { items: form, next: 2, frame: child });
                    self.give(Value::Nil)
                }
            },
            Then::For { names, block, child } => {
                let columns = columns(&values);
                match block {
                    Some(body) => {
                        if columns.len() == 0 {
                            self.malformed()
                        } else {
                            let count = shortest_column(&columns);
                            self.push(
                                Kont::ForLoop { names, columns, index: 0, count, body, child },
                            );
                            self.give(Value::Nil)
                        }
                    },
                    None => self.malformed(),
                }
            },
            Then::Test { run, scope } => {
                if run.index < run.cases.len() {
                    bind_each(&mut self.env, scope, &run.params, &values);
                    let expected = run.cases[run.index].expected.clone();
                    let body = run.body.clone();
                    self.push(Kont::TestBody { run, scope, expected });
                    self.proceed(Control::Eval { expr: body, frame: scope })
                } else {
                    self.give(Value::Nil)
                }
            },
        }
    }
}

impl Interpreter {
    /// A parenthesized form: the head chooses between the special forms
    /// and an application.
    pub fn handle_list(&mut self, form: Vec<Expr>, frame: usize) -> (r: Action)
        ensures
            final(self).moved(
                r,
                semantics::list(old(self)@.env, old(self)@.stack, form.deep_view(), frame),
            ),
    {
        if form.len() == 0 {
            return self.give(Value::Nil);
        }
        if form.len() == 1 {
            let only = form[0].clone();
            return self.single(only, frame);
        }
        let head = match &form[0] {
            Expr::Symbol(name) => name.clone(),
            _ => {
                return self.malformed();
            },
        };
        if is_symbol(&form[0], "do") {
            self.push(Kont::Block { items: form, next: 1, frame });
            self.give(Value::Nil)
        } else if is_symbol(&form[0], "if") {
            let cond = form[1].clone();
            self.push(Kont::Branch { form, frame });
            self.proceed(Control::Eval { expr: cond, frame })
        } else if is_symbol(&form[0], "var") {
            self.var_form(form, frame)
        } else if is_symbol(&form[0], "struct") {
            self.struct_form(form, frame)
        } else if is_symbol(&form[0], "for") {
            self.for_form(form, frame)
        } else if is_symbol(&form[0], "while") {
            self.while_form(form, frame)
        } else if is_symbol(&form[0], "let") {
            self.let_form(form, frame)
        } else if is_symbol(&form[0], "fn") {
            self.fn_form(form, frame)
        } else if is_symbol(&form[0], "set") {
            self.set_form(form, frame)
        } else {
            self.application(head, form, frame)
        }
    }

    /// `(var name expr)`.
    fn var_form(&mut self, form: Vec<Expr>, frame: usize) -> (r: Action)
        requires
            form.len() >= 2,
        ensures
            final(self).moved(
                r,
                semantics::var_form(old(self)@.env, old(self)@.stack, form.deep_view(), frame),
            ),
    {
        match &form[1] {
            Expr::Symbol(name) => {
                if form.len() > 2 {
                    let value = form[2].clone();
                    self.push(Kont::Declare { name: name.clone(), frame });
                    self.proceed(Control::Eval { expr: value, frame })
                } else {
                    self.give(Value::Nil)
                }
            },
            _ => self.give(Value::Nil),
        }
    }

    /// `(struct Name (f1 ... fK))`.
    fn struct_form(&mut self, form: Vec<Expr>, frame: usize) -> (r: Action)
        requires
            form.len() >= 2,
        ensures
            final(self).moved(
                r,
                semantics::struct_form(old(self)@.env, old(self)@.stack, form.deep_view(), frame),
            ),
    {
        match &form[1] {
            Expr::Symbol(name) => {
                if form.len() > 2 {
                    match &form[2] {
                        Expr::List(fields) => {
                            proof {
                                lemma_compound_view(*fields);
                            }
                            let names = symbols(fields);
                            self.env.declare_struct(frame, name.as_str(), names);
                            self.give(Value::Nil)
                        },
                        _ => self.give(Value::Nil),
                    }
                } else {
                    self.malformed()
                }
            },
            _ => self.give(Value::Nil),
        }
    }

    /// `(for (n1 ... nP) (r1 ... rP) body)`.
    fn for_form(&mut self, form: Vec<Expr>, frame: usize) -> (r: Action)
        requires
            form.len() >= 2,
        ensures
            final(self).moved(
                r,
                semantics::for_form(old(self)@.env, old(self)@.stack, form.deep_view(), frame),
            ),
    {
        let names = match &form[1] {
            Expr::List(params) => {
                proof {
                    lemma_compound_view(*params);
                }
                symbols(params)
            },
            _ => {
                let none: Vec<String> = Vec::new();
                assert(none.deep_view() =~= Seq::empty());
                none
            },
        };
        let ranges = if form.len() > 2 {
            match &form[2] {
                Expr::List(ranges) => {
                    proof {
                        lemma_compound_view(*ranges);
                    }
                    crate::expr::clone_exprs(ranges)
                },
                _ => {
                    let none: Vec<Expr> = Vec::new();
                    assert(none.deep_view() =~= Seq::empty());
                    none
                },
            }
        } else {
            let none: Vec<Expr> = Vec::new();
            assert(none.deep_view() =~= Seq::empty());
            none
        };
        let block = if form.len() > 3 {
            Some(form[3].clone())
        } else {
            None
        };
        let child = self.env.child(frame);
        self.gather(ranges, child, Then::For { names, block, child })
    }

    /// `(while cond body)`.
    fn while_form(&mut self, form: Vec<Expr>, frame: usize) -> (r: Action)
        requires
            form.len() >= 2,
        ensures
            final(self).moved(
                r,
                semantics::while_form(old(self)@.env, old(self)@.stack, form.deep_view(), frame),
            ),
    {
        if form.len() > 2 {
            let child = self.env.child(frame);
            let cond = form[1].clone();
            let body = form[2].clone();
            self.push(
                Kont::While {
                    cond: cond.clone(),
                    body,
                    frame,
                    child,
                    last: Value::Nil,
                    in_body: false,
                },
            );
            self.proceed(Control::Eval { expr: cond, frame })
        } else {
            self.malformed()
        }
    }

    /// `(let ((n1 v1) ...) body...)`.
    fn let_form(&mut self, form: Vec<Expr>, frame: usize) -> (r: Action)
        requires
            form.len() >= 2,
        ensures
            final(self).moved(
                r,
                semantics::let_form(old(self)@.env, old(self)@.stack, form.deep_view(), frame),
            ),
    {
        let plan = match &form[1] {
            Expr::List(bindings) => {
                proof {
                    lemma_compound_view(*bindings);
                }
                plan_let(bindings)
            },
            _ => {
                let none: Vec<Expr> = Vec::new();
                assert(none.deep_view() =~= Seq::empty());
                plan_let(&none)
            },
        };
        let child = self.env.child(frame);
        self.gather(plan.1, frame, Then::Let { names: plan.0, form, child, failed: plan.2 })
    }

    /// `(fn name (p1 ... pK) decl... body)`.
    fn fn_form(&mut self, form: Vec<Expr>, frame: usize) -> (r: Action)
        requires
            form.len() >= 2,
        ensures
            final(self).moved(
                r,
                semantics::fn_form(old(self)@.env, old(self)@.stack, form.deep_view(), frame),
            ),
    {
        if form.len() > 2 {
            match (&form[1], &form[2]) {
                (Expr::Symbol(name), Expr::List(params)) => {
                    proof {
                        lemma_compound_view(*params);
                    }
                    match annotations(&form, 3) {
                        Ok(found) => {
                            if form.len() == 3 {
                                self.malformed()
                            } else {
                                let body = form[form.len() - 1].clone();
                                assert(form.deep_view().skip(3).last() == body@);
                                let names = symbols(params);
                                let tests = cases(&found);
                                let function = Value::Function {
                                    params: clone_names(&names),
                                    body: Box::new(body.clone()),
                                    func_env: frame,
                                    annotations: found,
                                };
                                self.env.bind(frame, name.as_str(), function);
                                self.start_test(
                                    TestRun {
                                        name: name.clone(),
                                        params: names,
                                        body,
                                        cases: tests,
                                        index: 0,
                                        frame,
                                    },
                                )
                            }
                        },
                        Err(e) => self.stop(e),
                    }
                },
                _ => self.malformed(),
            }
        } else {
            self.malformed()
        }
    }

    /// `(set name value)` and `(set name "field" value)`.
    fn set_form(&mut self, form: Vec<Expr>, frame: usize) -> (r: Action)
        requires
            form.len() >= 2,
        ensures
            final(self).moved(
                r,
                semantics::set_form(old(self)@.env, old(self)@.stack, form.deep_view(), frame),
            ),
    {
        match &form[1] {
            Expr::Symbol(name) => {
                match self.env.get(frame, name.as_str()) {
                    Some(current) => {
                        if form.len() > 3 {
                            match (current, &form[2]) {
                                (Value::Object { class, attrs }, Expr::String(field)) => {
                                    proof {
                                        lemma_object_view(class, attrs);
                                    }
                                    match position(&attrs, field) {
                                        Some(_) => {
                                            let value = form[3].clone();
                                            self.push(
                                                Kont::AssignField {
                                                    name: name.clone(),
                                                    class,
                                                    attrs,
                                                    field: field.clone(),
                                                    frame,
                                                },
                                            );
                                            self.proceed(Control::Eval { expr: value, frame })
                                        },
                                        None => self.give(Value::Nil),
                                    }
                                },
                                _ => self.assign_form(&form, frame, name.clone()),
                            }
                        } else {
                            self.assign_form(&form, frame, name.clone())
                        }
                    },
                    None => self.fail(ErrorKind::VariableNotFound, name.clone()),
                }
            },
            _ => self.give(Value::Nil),
        }
    }

    /// The plain form of `set`.
    fn assign_form(&mut self, form: &Vec<Expr>, frame: usize, name: String) -> (r: Action)
        ensures
            final(self).moved(
                r,
                semantics::assign_form(
                    old(self)@.env,
                    old(self)@.stack,
                    form.deep_view(),
                    frame,
                    name@,
                ),
            ),
    {
        if form.len() > 2 {
            let value = form[2].clone();
            self.push(Kont::Assign { name, frame });
            self.proceed(Control::Eval { expr: value, frame })
        } else {
            self.malformed()
        }
    }

    /// A call of a built-in or of a user function, or the construction of
    /// an object.
    fn application(&mut self, head: String, form: Vec<Expr>, frame: usize) -> (r: Action)
        requires
            form.len() >= 2,
        ensures
            final(self).moved(
                r,
                semantics::application(
                    old(self)@.env,
                    old(self)@.stack,
                    head@,
                    form.deep_view(),
                    frame,
                ),
            ),
    {
        match self.env.get(frame, head.as_str()) {
            Some(Value::NativeFunction(function)) => {
                let args = tail(&form, 1);
                self.gather(args, frame, Then::Native { function })
            },
            Some(Value::Function { params, body, func_env, annotations }) => {
                let args = tail(&form, 1);
                self.gather(args, frame, Then::Invoke { params, body: *body, func_env })
            },
            _ => {
                match self.env.class_exists(frame, head.as_str()) {
                    Some(fields) => {
                        match &form[1] {
                            Expr::Symbol(instance) => {
                                if form.len() > 2 {
                                    match &form[2] {
                                        Expr::List(values) => {
                                            proof {
                                                lemma_compound_view(*values);
                                            }
                                            let n = least(fields.len(), values.len());
                                            let items = prefix(values, n);
                                            self.gather(
                                                items,
                                                frame,
                                                Then::Construct {
                                                    class: head,
                                                    fields,
                                                    instance: instance.clone(),
                                                    frame,
                                                },
                                            )
                                        },
                                        _ => self.give(Value::Nil),
                                    }
                                } else {
                                    self.malformed()
                                }
                            },
                            _ => self.give(Value::Nil),
                        }
                    },
                    None => self.fail(ErrorKind::UndefinedSymbol, head),
                }
            },
        }
    }

    /// What the continuation `kont` does with the value it waited for.
    fn resume(&mut self, kont: Kont, v: Value) -> (r: Action)
        ensures
            final(self).moved(
                r,
                semantics::resume(old(self)@.env, old(self)@.stack, kont.deep_view(), v@),
            ),
    {
        match kont {
            Kont::Gather { items, done, frame, then } => {
                let mut done = done;
                let ghost before = done.deep_view();
                done.push(v);
                assert(done.deep_view() =~= before.push(v@));
                if done.len() < items.len() {
                    let next = items[done.len()].clone();
                    self.push(Kont::Gather { items, done, frame, then });
                    self.proceed(Control::Eval { expr: next, frame })
                } else {
                    self.finish(then, done)
                }
            },
            Kont::Block { items, next, frame } => {
                if next < items.len() {
                    let expr = items[next].clone();
                    self.push(Kont::Block { items, next: next + 1, frame });
                    self.proceed(Control::Eval { expr, frame })
                } else {
                    self.give(v)
                }
            },
            Kont::Branch { form, frame } => {
                match v {
                    Value::Bool(true) => {
                        if form.len() > 2 {
                            let expr = form[2].clone();
                            self.proceed(Control::Eval { expr, frame })
                        } else {
                            self.malformed()
                        }
                    },
                    Value::Bool(false) => {
                        if form.len() > 3 {
                            let expr = form[3].clone();
                            self.proceed(Control::Eval { expr, frame })
                        } else {
                            self.malformed()
                        }
                    },
                    _ => self.give(Value::Nil),
                }
            },
            Kont::Declare { name, frame } => {
                if self.env.declare(frame, name.as_str(), v.clone()) {
                    self.give(v)
                } else {
                    self.fail(ErrorKind::AlreadyDefined, name)
                }
            },
            Kont::Assign { name, frame } => {
                if self.env.set(frame, name.as_str(), v) {
                    self.give(Value::Nil)
                } else {
                    self.fail(ErrorKind::VariableNotFound, name)
                }
            },
            Kont::AssignField { name, class, attrs, field, frame } => {
                let mut attrs = attrs;
                crate::env::insert(&mut attrs, &field, v);
                proof {
                    lemma_object_view(class, attrs);
                }
                if self.env.set(frame, name.as_str(), Value::Object { class, attrs }) {
                    self.give(Value::Nil)
                } else {
                    self.fail(ErrorKind::VariableNotFound, name)
                }
            },
            Kont::ForLoop { names, columns, index, count, body, child } => {
                if index < count {
                    match row(&columns, index, names.len()) {
                        Some(numbers) => {
                            assert(numbers.deep_view() =~= numbers@);
                            let values = crate::stdlib::numbers_as_values(&numbers);
                            bind_each(&mut self.env, child, &names, &values);
                            let expr = body.clone();
                            self.push(
                                Kont::ForLoop {
                                    names,
                                    columns,
                                    index: index + 1,
                                    count,
                                    body,
                                    child,
                                },
                            );
                            self.proceed(Control::Eval { expr, frame: child })
                        },
                        None => self.malformed(),
                    }
                } else {
                    self.give(Value::Nil)
                }
            },
            Kont::While { cond, body, frame, child, last, in_body } => {
                if in_body {
                    let expr = cond.clone();
                    self.push(Kont::While { cond, body, frame, child, last: v, in_body: false });
                    self.proceed(Control::Eval { expr, frame })
                } else {
                    match v {
                        Value::Bool(true) => {
                            let expr = body.clone();
                            self.push(
                                Kont::While { cond, body, frame, child, last, in_body: true },
                            );
                            self.proceed(Control::Eval { expr, frame: child })
                        },
                        Value::Bool(false) => self.give(last),
                        _ => self.fail(ErrorKind::NonBoolCondition, String::new()),
                    }
                }
            },
            Kont::TestBody { run, scope, expected } => {
                self.push(Kont::TestExpected { run, actual: v });
                self.proceed(Control::Eval { expr: expected, frame: scope })
            },
            Kont::TestExpected { run, actual } => {
                match (&actual, &v) {
                    (Value::Number(a), Value::Number(b)) => {
                        let request = Request::Relate(Relation::Near, *a, *b);
                        self.push(Kont::TestVerdict { run });
                        self.control = Control::Waiting(Pending::Truth);
                        Action::Request(request)
                    },
                    (Value::Bool(a), Value::Bool(b)) => {
                        if *a == *b {
                            self.pass(run)
                        } else {
                            self.fail(ErrorKind::TestFailed, run.name)
                        }
                    },
                    (Value::String(a), Value::String(b)) => {
                        if *a == *b {
                            self.pass(run)
                        } else {
                            self.fail(ErrorKind::TestFailed, run.name)
                        }
                    },
                    _ => self.fail(ErrorKind::TestFailed, run.name),
                }
            },
            Kont::TestVerdict { run } => {
                match v {
                    Value::Bool(true) => self.pass(run),
                    _ => self.fail(ErrorKind::TestFailed, run.name),
                }
            },
        }
    }
}

} // verus!
