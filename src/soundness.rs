//! Soundness of the machine for the evaluator: where the machine reaches a
//! normal form, evaluation yields the same value and environment.

use vstd::prelude::*;

use crate::environment::Environment;
use crate::evaluate::eval;
use crate::lemmas::{
    env_normal,
    height,
    lemma_fuel_mono,
    lemma_lookup_normal,
    lemma_normal_eval,
    lemma_normal_fuel,
    lemma_with_normal,
};
use crate::machine::run;
use crate::reduce::{is_reducible, step};
use crate::syntax::{EvalError, Node};
use crate::theorems::lemma_gt_is_swapped_lt;

verus! {

/// A step keeps an environment of normal forms so.
pub proof fn lemma_step_env_normal(t: Node, env: Environment)
    requires
        env_normal(env),
    ensures
        env_normal(step(t, env).1),
    decreases t,
{
    match t {
        Node::Add(l, r)
        | Node::Subtract(l, r)
        | Node::Multiply(l, r)
        | Node::LT(l, r)
        | Node::EQ(l, r)
        | Node::Pair(l, r) => {
            lemma_step_env_normal(*l, env);
            lemma_step_env_normal(*r, env);
        },
        Node::IsDoNothing(x) | Node::Fst(x) | Node::Snd(x) => {
            lemma_step_env_normal(*x, env);
        },
        Node::Assign(n, x) => {
            lemma_step_env_normal(*x, env);
            if !is_reducible(*x) {
                lemma_with_normal(env.vars, n, *x);
            }
        },
        Node::If(c, _, _) => {
            lemma_step_env_normal(*c, env);
        },
        Node::Sequence(h, _) => {
            lemma_step_env_normal(*h, env);
        },
        _ => {},
    }
}

/// One step backwards keeps a big-step result: where `t` steps to a term
/// that evaluates, `t` evaluates to the same result and environment, given
/// as much more fuel as `t` is high.
pub open spec fn expands(t: Node, env: Environment, f: nat) -> bool {
    let (r, e1) = step(t, env);
    (r is Ok && eval(r->Ok_0, e1, f).0 is Ok) ==> eval(t, env, f + height(t)) == eval(
        r->Ok_0,
        e1,
        f,
    )
}

proof fn lemma_binary_expands(t: Node, l: Node, r: Node, env: Environment, f: nat)
    requires
        env_normal(env),
        t == Node::Add(Box::new(l), Box::new(r)) || t == Node::Subtract(Box::new(l), Box::new(r))
            || t == Node::Multiply(Box::new(l), Box::new(r)) || t == Node::LT(
            Box::new(l),
            Box::new(r),
        ) || t == Node::EQ(Box::new(l), Box::new(r)) || t == Node::Pair(Box::new(l), Box::new(r)),
        f > 0,
        expands(l, env, (f - 1) as nat),
        expands(r, env, (f - 1) as nat),
        step(t, env).0 is Ok,
        eval(step(t, env).0->Ok_0, step(t, env).1, f).0 is Ok,
    ensures
        eval(t, env, f + height(t)) == eval(step(t, env).0->Ok_0, step(t, env).1, f),
{
    let g = f + height(t);
    let g1 = (g - 1) as nat;
    let f1 = (f - 1) as nat;
    if is_reducible(l) {
        let (rl, el) = step(l, env);
        lemma_fuel_mono(l, env, f1 + height(l), g1);
        lemma_fuel_mono(r, eval(rl->Ok_0, el, f1).1, f1, g1);
    } else if is_reducible(r) {
        let (rr, er) = step(r, env);
        lemma_normal_fuel(l, env, g1);
        lemma_normal_eval(l, er, f1);
        lemma_fuel_mono(r, env, f1 + height(r), g1);
    } else {
        lemma_normal_fuel(l, env, g1);
        lemma_normal_fuel(r, env, g1);
        if t is Pair {
            lemma_fuel_mono(t, env, f, g);
        }
    }
}

pub proof fn lemma_step_expands(t: Node, env: Environment, f: nat)
    requires
        env_normal(env),
    ensures
        expands(t, env, f),
    decreases t,
{
    if f == 0 {
        return;
    }
    let (r, e1) = step(t, env);
    let t2 = r->Ok_0;
    let g = f + height(t);
    let g1 = (g - 1) as nat;
    let f1 = (f - 1) as nat;
    if !(r is Ok && eval(t2, e1, f).0 is Ok) {
        return;
    }
    match t {
        Node::Add(l, r)
        | Node::Subtract(l, r)
        | Node::Multiply(l, r)
        | Node::LT(l, r)
        | Node::EQ(l, r)
        | Node::Pair(l, r) => {
            lemma_step_expands(*l, env, f1);
            lemma_step_expands(*r, env, f1);
            lemma_binary_expands(t, *l, *r, env, f);
        },
        Node::GT(l, r) => {
            lemma_gt_is_swapped_lt(*l, *r, env, f);
            lemma_fuel_mono(t, env, f, g);
        },
        Node::Variable(n) => {
            lemma_lookup_normal(env.vars, n@);
            lemma_normal_eval(t2, env, f);
        },
        Node::IsDoNothing(x) | Node::Assign(_, x) => {
            lemma_step_expands(*x, env, f1);
            if is_reducible(*x) {
                lemma_fuel_mono(*x, env, f1 + height(*x), g1);
            } else {
                lemma_normal_fuel(*x, env, g1);
            }
        },
        Node::If(c, a, b) => {
            lemma_step_expands(*c, env, f1);
            if is_reducible(*c) {
                let (rc, ec) = step(*c, env);
                lemma_fuel_mono(*c, env, f1 + height(*c), g1);
                let e2 = eval(rc->Ok_0, ec, f1).1;
                if eval(*a, e2, f1).0 is Ok {
                    lemma_fuel_mono(*a, e2, f1, g1);
                }
                if eval(*b, e2, f1).0 is Ok {
                    lemma_fuel_mono(*b, e2, f1, g1);
                }
            } else {
                lemma_normal_fuel(*c, env, g1);
                if eval(*a, env, f).0 is Ok {
                    lemma_fuel_mono(*a, env, f, g1);
                }
                if eval(*b, env, f).0 is Ok {
                    lemma_fuel_mono(*b, env, f, g1);
                }
            }
        },
        Node::Sequence(h, m) => {
            if *h is DoNothing {
                lemma_fuel_mono(*m, env, f, g1);
                assert(eval(*h, env, g1) == (Ok::<Node, EvalError>(Node::DoNothing), env));
                assert(eval(t, env, g) == eval(*m, env, g1));
            } else {
                let (rh, eh) = step(*h, env);
                lemma_step_expands(*h, env, f1);
                lemma_fuel_mono(*h, env, f1 + height(*h), g1);
                lemma_fuel_mono(*m, eval(rh->Ok_0, eh, f1).1, f1, g1);
                assert(eval(t, env, g).0 == eval(t2, e1, f).0);
            }
        },
        Node::While(c, b) => {
            lemma_while_expands(*c, *b, env, f);
            lemma_fuel_mono(t, env, f + 1, g);
        },
        Node::Fst(p) | Node::Snd(p) => {
            lemma_step_expands(*p, env, f1);
            if is_reducible(*p) {
                let (rp, ep) = step(*p, env);
                lemma_fuel_mono(*p, env, f1 + height(*p), g1);
                let (rv, e2) = eval(rp->Ok_0, ep, f1);
                if let Ok(Node::Pair(x, y)) = rv {
                    if eval(*x, e2, f1).0 is Ok {
                        lemma_fuel_mono(*x, e2, f1, g1);
                    }
                    if eval(*y, e2, f1).0 is Ok {
                        lemma_fuel_mono(*y, e2, f1, g1);
                    }
                }
            } else {
                lemma_normal_fuel(*p, env, g1);
                lemma_normal_eval(t2, env, f);
                lemma_fuel_mono(t2, env, f, g1);
            }
        },
        _ => {},
    }
}

/// The unrolling of a loop into a conditional keeps its big-step result.
proof fn lemma_while_expands(c: Node, b: Node, env: Environment, f: nat)
    requires
        ({
            let w = Node::While(Box::new(c), Box::new(b));
            let u = Node::If(
                Box::new(c),
                Box::new(Node::Sequence(Box::new(b), Box::new(w))),
                Box::new(Node::DoNothing),
            );
            eval(u, env, f).0 is Ok
        }),
    ensures
        ({
            let w = Node::While(Box::new(c), Box::new(b));
            let u = Node::If(
                Box::new(c),
                Box::new(Node::Sequence(Box::new(b), Box::new(w))),
                Box::new(Node::DoNothing),
            );
            eval(w, env, f + 1) == eval(u, env, f)
        }),
{
    let w = Node::While(Box::new(c), Box::new(b));
    let s = Node::Sequence(Box::new(b), Box::new(w));
    let u = Node::If(Box::new(c), Box::new(s), Box::new(Node::DoNothing));
    let f1 = (f - 1) as nat;
    let (rc, ec) = eval(c, env, f1);
    lemma_fuel_mono(c, env, f1, f);
    if rc == Ok::<Node, EvalError>(Node::Boolean(true)) {
        assert(eval(u, env, f) == eval(s, ec, f1));
        let f2 = (f1 - 1) as nat;
        let (rb, eb) = eval(b, ec, f2);
        assert(rb is Ok);
        lemma_fuel_mono(b, ec, f2, f);
        assert(eval(s, ec, f1) == eval(w, eb, f2));
        lemma_fuel_mono(w, eb, f2, f);
        assert(eval(w, env, f + 1) == eval(w, eb, f));
    } else if rc is Ok {
        if rc->Ok_0 is Boolean {
            assert(eval(u, env, f) == eval(Node::DoNothing, ec, f1));
        }
    }
}

/// The machine agrees with the evaluator: started in an environment of
/// normal forms, a run that reaches a normal form ends on the value and in
/// the environment that evaluating the same term gives, with enough fuel.
pub proof fn theorem_machine_agrees_with_evaluator(t: Node, env: Environment, n: nat)
    requires
        env_normal(env),
        run(t, env, n).0 is Ok,
    ensures
        exists|k: nat|
            eval(t, env, k) == (Ok::<Node, EvalError>(run(t, env, n).1), run(t, env, n).2),
    decreases n,
{
    if !is_reducible(t) {
        lemma_normal_fuel(t, env, height(t));
        assert(eval(t, env, height(t)) == (Ok::<Node, EvalError>(run(t, env, n).1), run(t, env, n).2));
    } else {
        let (r, e1) = step(t, env);
        let t2 = r->Ok_0;
        lemma_step_env_normal(t, env);
        theorem_machine_agrees_with_evaluator(t2, e1, (n - 1) as nat);
        let k2 = choose|k: nat|
            eval(t2, e1, k) == (Ok::<Node, EvalError>(run(t2, e1, (n - 1) as nat).1), run(t2, e1, (n - 1) as nat).2);
        lemma_step_expands(t, env, k2);
        assert(eval(t, env, k2 + height(t)) == (Ok::<Node, EvalError>(run(t, env, n).1), run(t, env, n).2));
    }
}

} // verus!
