//! Algebraic laws of the evaluator and the reducer.

use vstd::prelude::*;

use crate::environment::Environment;
use crate::evaluate::eval;
use crate::lemmas::{
    env_normal,
    height,
    lemma_fuel_mono,
    lemma_lookup_normal,
    lemma_normal_eval,
    lemma_normal_fuel,
    lemma_normal_keeps_env,
    lemma_with_normal,
};
use crate::machine::run;
use crate::reduce::{is_reducible, step};
use crate::syntax::{EvalError, Node};

verus! {

/// Whether a term holds no function, closure or call anywhere.
pub open spec fn closure_free(t: Node) -> bool
    decreases t,
{
    match t {
        Node::Fun(_, _, _) | Node::Closure(_, _) | Node::Call(_, _) => false,
        Node::IsDoNothing(x) | Node::Fst(x) | Node::Snd(x) | Node::Assign(_, x) => closure_free(*x),
        Node::Add(l, r)
        | Node::Subtract(l, r)
        | Node::Multiply(l, r)
        | Node::LT(l, r)
        | Node::EQ(l, r)
        | Node::GT(l, r)
        | Node::Sequence(l, r)
        | Node::While(l, r)
        | Node::Pair(l, r) => closure_free(*l) && closure_free(*r),
        Node::If(c, a, b) => closure_free(*c) && closure_free(*a) && closure_free(*b),
        _ => true,
    }
}

/// Arithmetic: the value of `a + b`, `a - b` and `a * b` is the sum,
/// difference and product of the values of `a` and `b`, evaluated left to
/// right, wherever that fits in 64 bits.
pub proof fn lemma_arithmetic(a: Node, b: Node, env: Environment, fuel: nat, x: i64, y: i64)
    requires
        eval(a, env, fuel).0 == Ok::<Node, EvalError>(Node::Number(x)),
        eval(b, eval(a, env, fuel).1, fuel).0 == Ok::<Node, EvalError>(Node::Number(y)),
    ensures
        ({
            let after = eval(b, eval(a, env, fuel).1, fuel).1;
            &&& i64::MIN <= x + y <= i64::MAX ==> eval(
                Node::Add(Box::new(a), Box::new(b)),
                env,
                fuel + 1,
            ) == (Ok::<Node, EvalError>(Node::Number((x + y) as i64)), after)
            &&& i64::MIN <= x - y <= i64::MAX ==> eval(
                Node::Subtract(Box::new(a), Box::new(b)),
                env,
                fuel + 1,
            ) == (Ok::<Node, EvalError>(Node::Number((x - y) as i64)), after)
            &&& i64::MIN <= x * y <= i64::MAX ==> eval(
                Node::Multiply(Box::new(a), Box::new(b)),
                env,
                fuel + 1,
            ) == (Ok::<Node, EvalError>(Node::Number((x * y) as i64)), after)
        }),
{
}

/// `a > b` is `b < a`: the same result and the same effects, on any budget.
pub proof fn lemma_gt_is_swapped_lt(a: Node, b: Node, env: Environment, fuel: nat)
    ensures
        eval(Node::GT(Box::new(a), Box::new(b)), env, fuel) == eval(
            Node::LT(Box::new(b), Box::new(a)),
            env,
            fuel,
        ),
{
}

/// Looking up a name that the environment does not bind fails with
/// `UnboundVariable`, whatever the budget.
pub proof fn lemma_unbound_variable(z: String, env: Environment, fuel: nat)
    requires
        env.lookup(z@) is None,
        fuel > 0,
    ensures
        eval(Node::Variable(z), env, fuel) == (
            Err::<Node, EvalError>(EvalError::UnboundVariable(z)),
            env,
        ),
{
}

/// A normal form is never rewritten: one step leaves it and the environment
/// as they were or fails as an unhandled term, and the machine stops on it
/// at once.
pub proof fn lemma_normal_form_is_final(t: Node, env: Environment, n: nat)
    requires
        !is_reducible(t),
    ensures
        step(t, env) == (Ok::<Node, EvalError>(t), env) || step(t, env) == (
            Err::<Node, EvalError>(EvalError::UnhandledTerm(Box::new(t))),
            env,
        ),
        run(t, env, n) == (Ok::<(), EvalError>(()), t, env),
{
}

/// Evaluating a term without functions, in an environment of normal forms,
/// leaves an environment of normal forms and yields a normal form.
pub proof fn lemma_eval_normal(t: Node, env: Environment, f: nat)
    requires
        closure_free(t),
        env_normal(env),
    ensures
        env_normal(eval(t, env, f).1),
        eval(t, env, f).0 matches Ok(v) ==> !is_reducible(v),
    decreases f,
{
    if f == 0 {
        return;
    }
    let f1 = (f - 1) as nat;
    match t {
        Node::IsDoNothing(x) => {
            lemma_eval_normal(*x, env, f1);
        },
        Node::Assign(n, x) => {
            lemma_eval_normal(*x, env, f1);
            let (rx, e1) = eval(*x, env, f1);
            if let Ok(v) = rx {
                lemma_with_normal(e1.vars, n, v);
            }
        },
        Node::Add(l, r) | Node::Subtract(l, r) | Node::Multiply(l, r) | Node::LT(l, r) | Node::EQ(
            l,
            r,
        ) | Node::Pair(l, r) | Node::Sequence(l, r) => {
            lemma_eval_normal(*l, env, f1);
            lemma_eval_normal(*r, eval(*l, env, f1).1, f1);
        },
        Node::GT(l, r) => {
            lemma_eval_normal(*r, env, f1);
            lemma_eval_normal(*l, eval(*r, env, f1).1, f1);
        },
        Node::Variable(n) => {
            lemma_lookup_normal(env.vars, n@);
        },
        Node::If(c, a, b) => {
            lemma_eval_normal(*c, env, f1);
            lemma_eval_normal(*a, eval(*c, env, f1).1, f1);
            lemma_eval_normal(*b, eval(*c, env, f1).1, f1);
        },
        Node::While(c, b) => {
            lemma_eval_normal(*c, env, f1);
            let e1 = eval(*c, env, f1).1;
            lemma_eval_normal(*b, e1, f1);
            lemma_eval_normal(t, eval(*b, e1, f1).1, f1);
        },
        Node::Fst(p) | Node::Snd(p) => {
            lemma_eval_normal(*p, env, f1);
            let (rp, e1) = eval(*p, env, f1);
            if let Ok(Node::Pair(l, r)) = rp {
                lemma_normal_keeps_env(*l, e1, f1);
                lemma_normal_keeps_env(*r, e1, f1);
                if eval(*l, e1, f1).0 is Ok {
                    lemma_normal_eval(*l, e1, f1);
                }
                if eval(*r, e1, f1).0 is Ok {
                    lemma_normal_eval(*r, e1, f1);
                }
            }
        },
        _ => {},
    }
}

/// Pair projections give back the components: in an environment of normal
/// forms and for terms without functions, `fst (pair (a, b))` has the value
/// of `a` and `snd (pair (a, b))` that of `b`, with the effects of both.
pub proof fn lemma_pair_projections(a: Node, b: Node, env: Environment, fuel: nat)
    requires
        closure_free(a),
        closure_free(b),
        env_normal(env),
        eval(a, env, fuel).0 is Ok,
        eval(b, eval(a, env, fuel).1, fuel).0 is Ok,
    ensures
        ({
            let (ra, e1) = eval(a, env, fuel);
            let (rb, e2) = eval(b, e1, fuel);
            let k = fuel + height(ra->Ok_0) + height(rb->Ok_0) + 2;
            let p = Node::Pair(Box::new(a), Box::new(b));
            &&& eval(Node::Fst(Box::new(p)), env, k) == (ra, e2)
            &&& eval(Node::Snd(Box::new(p)), env, k) == (rb, e2)
        }),
{
    let (ra, e1) = eval(a, env, fuel);
    let (rb, e2) = eval(b, e1, fuel);
    let va = ra->Ok_0;
    let vb = rb->Ok_0;
    let k = fuel + height(va) + height(vb) + 2;
    lemma_eval_normal(a, env, fuel);
    lemma_eval_normal(b, e1, fuel);
    lemma_fuel_mono(a, env, fuel, (k - 2) as nat);
    lemma_fuel_mono(b, e1, fuel, (k - 2) as nat);
    lemma_normal_fuel(va, e2, (k - 1) as nat);
    lemma_normal_fuel(vb, e2, (k - 1) as nat);
    let p = Node::Pair(Box::new(a), Box::new(b));
    assert(eval(p, env, (k - 1) as nat) == (Ok::<Node, EvalError>(Node::Pair(Box::new(va), Box::new(vb))), e2));
    assert(eval(Node::Fst(Box::new(p)), env, k) == eval(va, e2, (k - 1) as nat));
}

} // verus!
