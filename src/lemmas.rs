//! Facts about evaluation fuel, normal forms and well-formed environments.

use vstd::prelude::*;

use crate::environment::{lemma_with_keeps_keys_unique, Bindings, Environment};
use crate::evaluate::{arith, call_frame, eval};
use crate::reduce::{is_reducible, step};
use crate::syntax::{EvalError, Node};

verus! {

/// Whether a result is the failure for want of fuel.
pub open spec fn starved(r: Result<Node, EvalError>) -> bool {
    r == Err::<Node, EvalError>(EvalError::OutOfFuel)
}

/// The height of a term's syntax tree, not looking inside closures: the
/// fuel that evaluating a normal form takes.
pub open spec fn height(t: Node) -> nat
    decreases t,
{
    match t {
        Node::IsDoNothing(x) | Node::Fst(x) | Node::Snd(x) | Node::Assign(_, x) => 1 + height(*x),
        Node::Add(l, r)
        | Node::Subtract(l, r)
        | Node::Multiply(l, r)
        | Node::LT(l, r)
        | Node::EQ(l, r)
        | Node::GT(l, r)
        | Node::Sequence(l, r)
        | Node::While(l, r)
        | Node::Pair(l, r)
        | Node::Call(l, r) => 1 + vstd::math::max(height(*l) as int, height(*r) as int) as nat,
        Node::If(c, a, b) => 1 + vstd::math::max(
            height(*c) as int,
            vstd::math::max(height(*a) as int, height(*b) as int),
        ) as nat,
        _ => 1,
    }
}

/// Whether every value that the bindings hold is a normal form.
pub open spec fn bindings_normal(b: Bindings) -> bool
    decreases b,
{
    match b {
        Bindings::Empty => true,
        Bindings::Bind(_, v, rest) => !is_reducible(*v) && bindings_normal(*rest),
    }
}

/// Whether every value that the environment holds is a normal form.
pub open spec fn env_normal(e: Environment) -> bool {
    bindings_normal(e.vars)
}

pub proof fn lemma_lookup_normal(b: Bindings, name: Seq<char>)
    requires
        bindings_normal(b),
    ensures
        b.lookup(name) matches Some(v) ==> !is_reducible(v),
    decreases b,
{
    if let Bindings::Bind(_, _, rest) = b {
        lemma_lookup_normal(*rest, name);
    }
}

pub proof fn lemma_with_normal(b: Bindings, name: String, v: Node)
    requires
        bindings_normal(b),
        !is_reducible(v),
    ensures
        bindings_normal(b.with(name, v)),
    decreases b,
{
    if let Bindings::Bind(_, _, rest) = b {
        lemma_with_normal(*rest, name, v);
    }
}

/// More fuel changes nothing once an evaluation has not run out of it.
pub proof fn lemma_fuel_mono(t: Node, env: Environment, f: nat, g: nat)
    requires
        f <= g,
        !starved(eval(t, env, f).0),
    ensures
        eval(t, env, g) == eval(t, env, f),
    decreases f,
{
    if f == 0 {
        return;
    }
    let f1 = (f - 1) as nat;
    let g1 = (g - 1) as nat;
    match t {
        Node::IsDoNothing(x) | Node::Assign(_, x) => {
            lemma_fuel_mono(*x, env, f1, g1);
        },
        Node::Add(l, r) | Node::Subtract(l, r) | Node::Multiply(l, r) | Node::LT(l, r) | Node::EQ(
            l,
            r,
        ) | Node::Pair(l, r) => {
            lemma_fuel_mono(*l, env, f1, g1);
            let e1 = eval(*l, env, f1).1;
            if eval(*l, env, f1).0 is Ok {
                lemma_fuel_mono(*r, e1, f1, g1);
            }
        },
        Node::GT(l, r) => {
            lemma_fuel_mono(*r, env, f1, g1);
            let e1 = eval(*r, env, f1).1;
            if eval(*r, env, f1).0 is Ok {
                lemma_fuel_mono(*l, e1, f1, g1);
            }
        },
        Node::If(c, a, b) => {
            lemma_fuel_mono(*c, env, f1, g1);
            let e1 = eval(*c, env, f1).1;
            if eval(*c, env, f1).0 is Ok {
                if !starved(eval(*a, e1, f1).0) {
                    lemma_fuel_mono(*a, e1, f1, g1);
                }
                if !starved(eval(*b, e1, f1).0) {
                    lemma_fuel_mono(*b, e1, f1, g1);
                }
            }
        },
        Node::Sequence(h, m) => {
            lemma_fuel_mono(*h, env, f1, g1);
            let e1 = eval(*h, env, f1).1;
            if eval(*h, env, f1).0 is Ok {
                lemma_fuel_mono(*m, e1, f1, g1);
            }
        },
        Node::While(c, b) => {
            lemma_fuel_mono(*c, env, f1, g1);
            let e1 = eval(*c, env, f1).1;
            if eval(*c, env, f1).0 == Ok::<Node, EvalError>(Node::Boolean(true)) {
                lemma_fuel_mono(*b, e1, f1, g1);
                let e2 = eval(*b, e1, f1).1;
                if eval(*b, e1, f1).0 is Ok {
                    lemma_fuel_mono(t, e2, f1, g1);
                }
            }
        },
        Node::Fst(p) | Node::Snd(p) => {
            lemma_fuel_mono(*p, env, f1, g1);
            let e1 = eval(*p, env, f1).1;
            if let Ok(Node::Pair(l, r)) = eval(*p, env, f1).0 {
                if !starved(eval(*l, e1, f1).0) {
                    lemma_fuel_mono(*l, e1, f1, g1);
                }
                if !starved(eval(*r, e1, f1).0) {
                    lemma_fuel_mono(*r, e1, f1, g1);
                }
            }
        },
        Node::Call(c, a) => {
            lemma_fuel_mono(*a, env, f1, g1);
            let e1 = eval(*a, env, f1).1;
            if let Ok(arg) = eval(*a, env, f1).0 {
                lemma_fuel_mono(*c, e1, f1, g1);
                if let Ok(callee) = eval(*c, e1, f1).0 {
                    if let Ok((body, frame)) = call_frame(callee, arg) {
                        lemma_fuel_mono(body, frame, f1, g1);
                    }
                }
            }
        },
        _ => {},
    }
}

/// A normal form evaluates to itself, leaving the environment as it was,
/// whenever its evaluation succeeds.
pub proof fn lemma_normal_eval(v: Node, env: Environment, f: nat)
    requires
        !is_reducible(v),
        eval(v, env, f).0 is Ok,
    ensures
        eval(v, env, f) == (Ok::<Node, EvalError>(v), env),
    decreases v,
{
    if let Node::Pair(l, r) = v {
        let f1 = (f - 1) as nat;
        lemma_normal_eval(*l, env, f1);
        lemma_normal_eval(*r, env, f1);
    }
}

/// Evaluating a normal form leaves the environment as it was.
pub proof fn lemma_normal_keeps_env(v: Node, env: Environment, f: nat)
    requires
        !is_reducible(v),
    ensures
        eval(v, env, f).1 == env,
    decreases v,
{
    if let Node::Pair(l, r) = v {
        if f > 0 {
            let f1 = (f - 1) as nat;
            lemma_normal_keeps_env(*l, env, f1);
            lemma_normal_keeps_env(*r, env, f1);
        }
    }
}

/// A normal form evaluates to itself given as much fuel as it is high.
pub proof fn lemma_normal_fuel(v: Node, env: Environment, f: nat)
    requires
        !is_reducible(v),
        height(v) <= f,
    ensures
        eval(v, env, f) == (Ok::<Node, EvalError>(v), env),
    decreases v,
{
    if let Node::Pair(l, r) = v {
        let f1 = (f - 1) as nat;
        lemma_normal_fuel(*l, env, f1);
        lemma_normal_fuel(*r, env, f1);
    }
}

/// Evaluation keeps an environment well formed.
pub proof fn lemma_eval_keeps_wf(t: Node, env: Environment, f: nat)
    requires
        env.wf(),
    ensures
        eval(t, env, f).1.wf(),
    decreases f,
{
    if f == 0 {
        return;
    }
    let f1 = (f - 1) as nat;
    match t {
        Node::IsDoNothing(x) => {
            lemma_eval_keeps_wf(*x, env, f1);
        },
        Node::Assign(n, x) => {
            lemma_eval_keeps_wf(*x, env, f1);
            let (rx, e1) = eval(*x, env, f1);
            if let Ok(v) = rx {
                lemma_with_keeps_keys_unique(e1.vars, n, v);
            }
        },
        Node::Add(l, r)
        | Node::Subtract(l, r)
        | Node::Multiply(l, r)
        | Node::LT(l, r)
        | Node::EQ(l, r)
        | Node::Pair(l, r)
        | Node::Sequence(l, r) => {
            lemma_eval_keeps_wf(*l, env, f1);
            lemma_eval_keeps_wf(*r, eval(*l, env, f1).1, f1);
        },
        Node::GT(l, r) => {
            lemma_eval_keeps_wf(*r, env, f1);
            lemma_eval_keeps_wf(*l, eval(*r, env, f1).1, f1);
        },
        Node::Call(c, a) => {
            lemma_eval_keeps_wf(*a, env, f1);
            lemma_eval_keeps_wf(*c, eval(*a, env, f1).1, f1);
        },
        Node::If(c, a, b) => {
            lemma_eval_keeps_wf(*c, env, f1);
            lemma_eval_keeps_wf(*a, eval(*c, env, f1).1, f1);
            lemma_eval_keeps_wf(*b, eval(*c, env, f1).1, f1);
        },
        Node::While(c, b) => {
            lemma_eval_keeps_wf(*c, env, f1);
            let e1 = eval(*c, env, f1).1;
            lemma_eval_keeps_wf(*b, e1, f1);
            lemma_eval_keeps_wf(t, eval(*b, e1, f1).1, f1);
        },
        Node::Fst(p) | Node::Snd(p) => {
            lemma_eval_keeps_wf(*p, env, f1);
            let (rp, e1) = eval(*p, env, f1);
            if let Ok(Node::Pair(l, r)) = rp {
                lemma_eval_keeps_wf(*l, e1, f1);
                lemma_eval_keeps_wf(*r, e1, f1);
            }
        },
        _ => {},
    }
}

/// A step keeps an environment well formed.
pub proof fn lemma_step_keeps_wf(t: Node, env: Environment)
    requires
        env.wf(),
    ensures
        step(t, env).1.wf(),
    decreases t,
{
    match t {
        Node::Add(l, r)
        | Node::Subtract(l, r)
        | Node::Multiply(l, r)
        | Node::LT(l, r)
        | Node::EQ(l, r)
        | Node::Pair(l, r) => {
            lemma_step_keeps_wf(*l, env);
            lemma_step_keeps_wf(*r, env);
        },
        Node::IsDoNothing(x) | Node::Fst(x) | Node::Snd(x) | Node::If(x, _, _) | Node::Sequence(
            x,
            _,
        ) => {
            lemma_step_keeps_wf(*x, env);
        },
        Node::Assign(n, x) => {
            lemma_step_keeps_wf(*x, env);
            lemma_with_keeps_keys_unique(env.vars, n, *x);
        },
        _ => {},
    }
}

} // verus!
