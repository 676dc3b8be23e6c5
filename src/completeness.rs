//! The converse agreement: where the evaluator yields a value, the machine
//! reaches it too, for terms whose sequence heads and loop bodies are
//! statements.

use vstd::prelude::*;

use crate::environment::Environment;
use crate::evaluate::eval;
use crate::lemmas::{env_normal, lemma_normal_eval, lemma_with_normal};
use crate::machine::run;
use crate::reduce::{is_reducible, rebuild, step};
use crate::syntax::{EvalError, Node};
use crate::soundness::theorem_machine_agrees_with_evaluator;
use crate::theorems::{closure_free, lemma_eval_normal};

verus! {

/// Whether a term is a statement: it yields `DoNothing` whenever it yields.
pub open spec fn statement(t: Node) -> bool
    decreases t,
{
    match t {
        Node::DoNothing | Node::Assign(_, _) | Node::While(_, _) => true,
        Node::If(_, a, b) => statement(*a) && statement(*b),
        Node::Sequence(_, m) => statement(*m),
        _ => false,
    }
}

/// Whether every sequence head and every loop body in a term is a statement.
pub open spec fn well_sequenced(t: Node) -> bool
    decreases t,
{
    match t {
        Node::Sequence(h, m) => statement(*h) && well_sequenced(*h) && well_sequenced(*m),
        Node::While(c, b) => statement(*b) && well_sequenced(*c) && well_sequenced(*b),
        Node::IsDoNothing(x) | Node::Fst(x) | Node::Snd(x) | Node::Assign(_, x) => well_sequenced(*x),
        Node::Add(l, r)
        | Node::Subtract(l, r)
        | Node::Multiply(l, r)
        | Node::LT(l, r)
        | Node::EQ(l, r)
        | Node::GT(l, r)
        | Node::Pair(l, r)
        | Node::Call(l, r) => well_sequenced(*l) && well_sequenced(*r),
        Node::If(c, a, b) => well_sequenced(*c) && well_sequenced(*a) && well_sequenced(*b),
        _ => true,
    }
}

/// Where the machine stands after exactly `k` steps from `t`, each taken
/// from a reducible term; `None` where it stops or fails before that.
pub open spec fn reach(t: Node, env: Environment, k: nat) -> Option<(Node, Environment)>
    decreases k,
{
    if k == 0 {
        Some((t, env))
    } else if !is_reducible(t) {
        None
    } else {
        let (r, e1) = step(t, env);
        match r {
            Ok(t2) => reach(t2, e1, (k - 1) as nat),
            Err(_) => None,
        }
    }
}

/// A term with a hole where the reducer works next.
pub enum Frame {
    BinLeft(Node, Node),
    BinRight(Node, Node),
    IsDoNothingArg,
    AssignRhs(String),
    IfCond(Node, Node),
    SeqHead(Node),
    PairLeft(Node),
    PairRight(Node),
    FstArg,
    SndArg,
}

/// The frame with `x` in its hole.
pub open spec fn plug(fr: Frame, x: Node) -> Node {
    match fr {
        Frame::BinLeft(t, r) => rebuild(t, x, r),
        Frame::BinRight(t, l) => rebuild(t, l, x),
        Frame::IsDoNothingArg => Node::IsDoNothing(Box::new(x)),
        Frame::AssignRhs(n) => Node::Assign(n, Box::new(x)),
        Frame::IfCond(a, b) => Node::If(Box::new(x), Box::new(a), Box::new(b)),
        Frame::SeqHead(m) => Node::Sequence(Box::new(x), Box::new(m)),
        Frame::PairLeft(r) => Node::Pair(Box::new(x), Box::new(r)),
        Frame::PairRight(l) => Node::Pair(Box::new(l), Box::new(x)),
        Frame::FstArg => Node::Fst(Box::new(x)),
        Frame::SndArg => Node::Snd(Box::new(x)),
    }
}

/// Whether the reducer works in the hole of the frame while it is reducible.
pub open spec fn frame_ok(fr: Frame) -> bool {
    match fr {
        Frame::BinLeft(t, _) => t is Add || t is Subtract || t is Multiply || t is LT || t is EQ,
        Frame::BinRight(t, l) => (t is Add || t is Subtract || t is Multiply || t is LT || t is EQ)
            && !is_reducible(l),
        Frame::PairRight(l) => !is_reducible(l),
        _ => true,
    }
}

proof fn lemma_frame_step(fr: Frame, x: Node, env: Environment)
    requires
        frame_ok(fr),
        is_reducible(x),
    ensures
        is_reducible(plug(fr, x)),
        step(plug(fr, x), env) == (
            match step(x, env).0 {
                Ok(y) => Ok(plug(fr, y)),
                Err(e) => Err::<Node, EvalError>(e),
            },
            step(x, env).1,
        ),
{
    match fr {
        Frame::SeqHead(_) => {
            assert(!(x is DoNothing));
        },
        _ => {},
    }
}

proof fn lemma_reach_frame(fr: Frame, x: Node, env: Environment, k: nat)
    requires
        frame_ok(fr),
        reach(x, env, k) is Some,
    ensures
        reach(plug(fr, x), env, k) == Some((plug(fr, (reach(x, env, k)->0).0), (reach(x, env, k)->0).1)),
    decreases k,
{
    if k > 0 {
        lemma_frame_step(fr, x, env);
        let (r, e1) = step(x, env);
        lemma_reach_frame(fr, r->Ok_0, e1, (k - 1) as nat);
    }
}

proof fn lemma_reach_trans(t: Node, env: Environment, k1: nat, k2: nat)
    requires
        reach(t, env, k1) is Some,
    ensures
        reach(t, env, k1 + k2) == reach((reach(t, env, k1)->0).0, (reach(t, env, k1)->0).1, k2),
    decreases k1,
{
    if k1 > 0 {
        let (r, e1) = step(t, env);
        lemma_reach_trans(r->Ok_0, e1, (k1 - 1) as nat, k2);
        assert((k1 + k2 - 1) as nat == (k1 - 1) as nat + k2);
    }
}

proof fn lemma_reach_run(t: Node, env: Environment, k: nat, n: nat)
    requires
        reach(t, env, k) is Some,
        !is_reducible((reach(t, env, k)->0).0),
        k <= n,
    ensures
        run(t, env, n) == (Ok::<(), EvalError>(()), (reach(t, env, k)->0).0, (reach(t, env, k)->0).1),
    decreases k,
{
    if k > 0 {
        let (r, e1) = step(t, env);
        lemma_reach_run(r->Ok_0, e1, (k - 1) as nat, (n - 1) as nat);
    }
}

proof fn lemma_statement_value(t: Node, env: Environment, f: nat)
    requires
        statement(t),
        eval(t, env, f).0 is Ok,
    ensures
        eval(t, env, f).0 == Ok::<Node, EvalError>(Node::DoNothing),
    decreases f,
{
    if f > 0 {
        let f1 = (f - 1) as nat;
        match t {
            Node::If(c, a, b) => {
                let e1 = eval(*c, env, f1).1;
                if eval(*a, e1, f1).0 is Ok {
                    lemma_statement_value(*a, e1, f1);
                }
                if eval(*b, e1, f1).0 is Ok {
                    lemma_statement_value(*b, e1, f1);
                }
            },
            Node::Sequence(h, m) => {
                let e1 = eval(*h, env, f1).1;
                if eval(*m, e1, f1).0 is Ok {
                    lemma_statement_value(*m, e1, f1);
                }
            },
            Node::While(c, b) => {
                let e1 = eval(*c, env, f1).1;
                let e2 = eval(*b, e1, f1).1;
                if eval(t, e2, f1).0 is Ok {
                    lemma_statement_value(t, e2, f1);
                }
            },
            _ => {},
        }
    }
}

/// Where the evaluator yields a value for a term without functions whose
/// sequence heads and loop bodies are statements, in an environment of
/// normal forms, the machine reaches that value and environment in the
/// number of steps returned.
#[verifier::spinoff_prover]
#[verifier::rlimit(100)]
pub proof fn lemma_eval_reaches(t: Node, env: Environment, f: nat) -> (k: nat)
    requires
        closure_free(t),
        well_sequenced(t),
        env_normal(env),
        eval(t, env, f).0 is Ok,
    ensures
        reach(t, env, k) == Some((eval(t, env, f).0->Ok_0, eval(t, env, f).1)),
    decreases f, 1nat,
{
    reveal_with_fuel(reach, 2);
    let f1 = (f - 1) as nat;
    match t {
        Node::Add(l, r) | Node::Subtract(l, r) | Node::Multiply(l, r) | Node::LT(l, r) | Node::EQ(
            l,
            r,
        ) => {
            let k1 = lemma_eval_reaches(*l, env, f1);
            lemma_eval_normal(*l, env, f1);
            let (ra, e1) = eval(*l, env, f1);
            let k2 = lemma_eval_reaches(*r, e1, f1);
            lemma_eval_normal(*r, e1, f1);
            let (rb, e2) = eval(*r, e1, f1);
            let va = ra->Ok_0;
            let vb = rb->Ok_0;
            assert(rebuild(t, *l, *r) == t);
            lemma_reach_frame(Frame::BinLeft(t, *r), *l, env, k1);
            lemma_reach_frame(Frame::BinRight(t, va), *r, e1, k2);
            lemma_reach_trans(t, env, k1, k2);
            let mid = rebuild(t, va, vb);
            assert(reach(mid, e2, 1) == Some((eval(t, env, f).0->Ok_0, e2)));
            lemma_reach_trans(t, env, k1 + k2, 1);
            k1 + k2 + 1
        },
        Node::GT(l, r) => {
            let lt = Node::LT(r, l);
            let k1 = lemma_eval_reaches(*r, env, f1);
            lemma_eval_normal(*r, env, f1);
            let (ra, e1) = eval(*r, env, f1);
            let k2 = lemma_eval_reaches(*l, e1, f1);
            lemma_eval_normal(*l, e1, f1);
            let (rb, e2) = eval(*l, e1, f1);
            let va = ra->Ok_0;
            let vb = rb->Ok_0;
            assert(rebuild(lt, *r, *l) == lt);
            assert(reach(t, env, 1) == Some((lt, env)));
            lemma_reach_frame(Frame::BinLeft(lt, *l), *r, env, k1);
            lemma_reach_frame(Frame::BinRight(lt, va), *l, e1, k2);
            lemma_reach_trans(t, env, 1, k1);
            lemma_reach_trans(t, env, 1 + k1, k2);
            let mid = rebuild(lt, va, vb);
            assert(reach(mid, e2, 1) == Some((eval(t, env, f).0->Ok_0, e2)));
            lemma_reach_trans(t, env, 1 + k1 + k2, 1);
            1 + k1 + k2 + 1
        },
        Node::Variable(_) => {
            assert(reach(t, env, 1) == Some((eval(t, env, f).0->Ok_0, env)));
            1
        },
        Node::IsDoNothing(x) | Node::Assign(_, x) | Node::Fst(x) | Node::Snd(x) => {
            let fr = match t {
                Node::IsDoNothing(_) => Frame::IsDoNothingArg,
                Node::Assign(n, _) => Frame::AssignRhs(n),
                Node::Fst(_) => Frame::FstArg,
                _ => Frame::SndArg,
            };
            let k1 = lemma_eval_reaches(*x, env, f1);
            lemma_eval_normal(*x, env, f1);
            let (rx, e1) = eval(*x, env, f1);
            let vx = rx->Ok_0;
            assert(plug(fr, *x) == t);
            lemma_reach_frame(fr, *x, env, k1);
            if let Node::Pair(pl, pr) = vx {
                if eval(*pl, e1, f1).0 is Ok {
                    lemma_normal_eval(*pl, e1, f1);
                }
                if eval(*pr, e1, f1).0 is Ok {
                    lemma_normal_eval(*pr, e1, f1);
                }
            }
            assert(reach(plug(fr, vx), e1, 1) == Some((eval(t, env, f).0->Ok_0, eval(t, env, f).1)));
            lemma_reach_trans(t, env, k1, 1);
            k1 + 1
        },
        Node::If(c, a, b) => {
            let k1 = lemma_eval_reaches(*c, env, f1);
            lemma_eval_normal(*c, env, f1);
            let (rc, e1) = eval(*c, env, f1);
            let cv = rc->Ok_0;
            let fr = Frame::IfCond(*a, *b);
            assert(plug(fr, *c) == t);
            lemma_reach_frame(fr, *c, env, k1);
            let branch = if cv == Node::Boolean(true) {
                *a
            } else {
                *b
            };
            assert(reach(plug(fr, cv), e1, 1) == Some((branch, e1)));
            lemma_reach_trans(t, env, k1, 1);
            let k2 = lemma_eval_reaches(branch, e1, f1);
            lemma_reach_trans(t, env, k1 + 1, k2);
            k1 + 1 + k2
        },
        Node::Sequence(h, m) => {
            let k1 = lemma_eval_reaches(*h, env, f1);
            lemma_eval_normal(*h, env, f1);
            lemma_statement_value(*h, env, f1);
            let e1 = eval(*h, env, f1).1;
            let fr = Frame::SeqHead(*m);
            assert(plug(fr, *h) == t);
            lemma_reach_frame(fr, *h, env, k1);
            assert(reach(plug(fr, Node::DoNothing), e1, 1) == Some((*m, e1)));
            lemma_reach_trans(t, env, k1, 1);
            let k2 = lemma_eval_reaches(*m, e1, f1);
            lemma_reach_trans(t, env, k1 + 1, k2);
            k1 + 1 + k2
        },
        Node::While(c, b) => lemma_while_reaches(*c, *b, env, f),
        Node::Pair(a, b) => {
            let k1 = lemma_eval_reaches(*a, env, f1);
            lemma_eval_normal(*a, env, f1);
            let (ra, e1) = eval(*a, env, f1);
            let k2 = lemma_eval_reaches(*b, e1, f1);
            let va = ra->Ok_0;
            assert(plug(Frame::PairLeft(*b), *a) == t);
            lemma_reach_frame(Frame::PairLeft(*b), *a, env, k1);
            lemma_reach_frame(Frame::PairRight(va), *b, e1, k2);
            lemma_reach_trans(t, env, k1, k2);
            k1 + k2
        },
        _ => 0,
    }
}

/// The loop case of `lemma_eval_reaches`.
#[verifier::spinoff_prover]
#[verifier::rlimit(100)]
proof fn lemma_while_reaches(c: Node, b: Node, env: Environment, f: nat) -> (k: nat)
    requires
        closure_free(Node::While(Box::new(c), Box::new(b))),
        well_sequenced(Node::While(Box::new(c), Box::new(b))),
        env_normal(env),
        eval(Node::While(Box::new(c), Box::new(b)), env, f).0 is Ok,
    ensures
        ({
            let w = Node::While(Box::new(c), Box::new(b));
            reach(w, env, k) == Some((eval(w, env, f).0->Ok_0, eval(w, env, f).1))
        }),
    decreases f, 0nat,
{
    reveal_with_fuel(reach, 2);
    let w = Node::While(Box::new(c), Box::new(b));
    let s = Node::Sequence(Box::new(b), Box::new(w));
    let u = Node::If(Box::new(c), Box::new(s), Box::new(Node::DoNothing));
    let f1 = (f - 1) as nat;
    assert(reach(w, env, 1) == Some((u, env)));
    let k1 = lemma_eval_reaches(c, env, f1);
    lemma_eval_normal(c, env, f1);
    let (rc, e1) = eval(c, env, f1);
    let cv = rc->Ok_0;
    let fr = Frame::IfCond(s, Node::DoNothing);
    assert(plug(fr, c) == u);
    lemma_reach_frame(fr, c, env, k1);
    lemma_reach_trans(w, env, 1, k1);
    if cv == Node::Boolean(true) {
        assert(reach(plug(fr, cv), e1, 1) == Some((s, e1)));
        lemma_reach_trans(w, env, 1 + k1, 1);
        let k2 = lemma_eval_reaches(b, e1, f1);
        lemma_eval_normal(b, e1, f1);
        lemma_statement_value(b, e1, f1);
        let e2 = eval(b, e1, f1).1;
        let fs = Frame::SeqHead(w);
        assert(plug(fs, b) == s);
        lemma_reach_frame(fs, b, e1, k2);
        lemma_reach_trans(w, env, 1 + k1 + 1, k2);
        assert(reach(plug(fs, Node::DoNothing), e2, 1) == Some((w, e2)));
        lemma_reach_trans(w, env, 1 + k1 + 1 + k2, 1);
        let k3 = lemma_eval_reaches(w, e2, f1);
        lemma_reach_trans(w, env, 1 + k1 + 1 + k2 + 1, k3);
        1 + k1 + 1 + k2 + 1 + k3
    } else {
        assert(reach(plug(fr, cv), e1, 1) == Some((Node::DoNothing, e1)));
        lemma_reach_trans(w, env, 1 + k1, 1);
        1 + k1 + 1
    }
}

/// The machine is complete for the evaluator: for a term without functions
/// whose sequence heads and loop bodies are statements, started in an
/// environment of normal forms, where evaluation yields a value the machine
/// runs to that value and that environment, given enough steps.
pub proof fn theorem_evaluator_agrees_with_machine(t: Node, env: Environment, f: nat)
    requires
        closure_free(t),
        well_sequenced(t),
        env_normal(env),
        eval(t, env, f).0 is Ok,
    ensures
        exists|n: nat|
            run(t, env, n) == (Ok::<(), EvalError>(()), eval(t, env, f).0->Ok_0, eval(t, env, f).1),
{
    let k = lemma_eval_reaches(t, env, f);
    lemma_eval_normal(t, env, f);
    lemma_reach_run(t, env, k, k);
    assert(run(t, env, k) == (Ok::<(), EvalError>(()), eval(t, env, f).0->Ok_0, eval(t, env, f).1));
}

/// Running the machine to normal form and evaluating agree: for a term
/// without functions whose sequence heads and loop bodies are statements,
/// started in an environment of normal forms, the machine ends on a value
/// and an environment exactly when the evaluator yields them.
pub proof fn theorem_machine_and_evaluator_agree(t: Node, env: Environment, v: Node, e2: Environment)
    requires
        closure_free(t),
        well_sequenced(t),
        env_normal(env),
    ensures
        (exists|n: nat| run(t, env, n) == (Ok::<(), EvalError>(()), v, e2)) <==> (exists|f: nat|
            eval(t, env, f) == (Ok::<Node, EvalError>(v), e2)),
{
    if exists|n: nat| run(t, env, n) == (Ok::<(), EvalError>(()), v, e2) {
        let n = choose|n: nat| run(t, env, n) == (Ok::<(), EvalError>(()), v, e2);
        theorem_machine_agrees_with_evaluator(t, env, n);
    }
    if exists|f: nat| eval(t, env, f) == (Ok::<Node, EvalError>(v), e2) {
        let f = choose|f: nat| eval(t, env, f) == (Ok::<Node, EvalError>(v), e2);
        theorem_evaluator_agrees_with_machine(t, env, f);
    }
}

} // verus!
