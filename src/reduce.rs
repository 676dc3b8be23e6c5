//! The small-step reducer: one rewrite of a term towards its normal form.

use vstd::prelude::*;

use crate::environment::Environment;
use crate::evaluate::{arith, boxed, arith_exec};
use crate::syntax::{EvalError, Node, Shape};

verus! {

/// Whether a term still has evaluation work to do. The normal forms are
/// numbers, booleans, `DoNothing`, closures and pairs of normal forms.
pub open spec fn is_reducible(t: Node) -> bool
    decreases t,
{
    match t {
        Node::Number(_) | Node::Boolean(_) | Node::DoNothing | Node::Closure(_, _) => false,
        Node::Pair(l, r) => is_reducible(*l) || is_reducible(*r),
        _ => true,
    }
}

/// Small-step semantics: one rewrite of `t` in `env`, leftmost innermost
/// first, and the environment after it.
pub open spec fn step(t: Node, env: Environment) -> (Result<Node, EvalError>, Environment)
    decreases t,
{
    match t {
        Node::Add(l, r) | Node::Subtract(l, r) | Node::Multiply(l, r) | Node::LT(l, r) | Node::EQ(
            l,
            r,
        ) => if is_reducible(*l) {
            let (rl, e1) = step(*l, env);
            match rl {
                Ok(l2) => (Ok(rebuild(t, l2, *r)), e1),
                Err(e) => (Err(e), e1),
            }
        } else if is_reducible(*r) {
            let (rr, e1) = step(*r, env);
            match rr {
                Ok(r2) => (Ok(rebuild(t, *l, r2)), e1),
                Err(e) => (Err(e), e1),
            }
        } else {
            (arith(t, *l, *r), env)
        },
        Node::GT(l, r) => (Ok(Node::LT(r, l)), env),
        Node::Variable(n) => match env.lookup(n@) {
            Some(v) => (Ok(v), env),
            None => (Err(EvalError::UnboundVariable(n)), env),
        },
        Node::IsDoNothing(x) => if is_reducible(*x) {
            let (rx, e1) = step(*x, env);
            match rx {
                Ok(x2) => (Ok(Node::IsDoNothing(Box::new(x2))), e1),
                Err(e) => (Err(e), e1),
            }
        } else {
            (Ok(Node::Boolean(*x is DoNothing)), env)
        },
        Node::Assign(n, x) => if is_reducible(*x) {
            let (rx, e1) = step(*x, env);
            match rx {
                Ok(x2) => (Ok(Node::Assign(n, Box::new(x2))), e1),
                Err(e) => (Err(e), e1),
            }
        } else {
            (Ok(Node::DoNothing), env.with(n, *x))
        },
        Node::If(c, a, b) => if is_reducible(*c) {
            let (rc, e1) = step(*c, env);
            match rc {
                Ok(c2) => (Ok(Node::If(Box::new(c2), a, b)), e1),
                Err(e) => (Err(e), e1),
            }
        } else {
            match *c {
                Node::Boolean(cv) => if cv {
                    (Ok(*a), env)
                } else {
                    (Ok(*b), env)
                },
                _ => (Err(EvalError::TypeMismatch(Shape::Boolean, c)), env),
            }
        },
        Node::Sequence(h, m) => match *h {
            Node::DoNothing => (Ok(*m), env),
            _ => {
                let (rh, e1) = step(*h, env);
                match rh {
                    Ok(h2) => (Ok(Node::Sequence(Box::new(h2), m)), e1),
                    Err(e) => (Err(e), e1),
                }
            },
        },
        Node::While(c, b) => (
            Ok(
                Node::If(
                    c,
                    Box::new(Node::Sequence(b, Box::new(t))),
                    Box::new(Node::DoNothing),
                ),
            ),
            env,
        ),
        Node::Pair(l, r) => if is_reducible(*l) {
            let (rl, e1) = step(*l, env);
            match rl {
                Ok(l2) => (Ok(Node::Pair(Box::new(l2), r)), e1),
                Err(e) => (Err(e), e1),
            }
        } else if is_reducible(*r) {
            let (rr, e1) = step(*r, env);
            match rr {
                Ok(r2) => (Ok(Node::Pair(l, Box::new(r2))), e1),
                Err(e) => (Err(e), e1),
            }
        } else {
            (Ok(t), env)
        },
        Node::Fst(p) => if is_reducible(*p) {
            let (rp, e1) = step(*p, env);
            match rp {
                Ok(p2) => (Ok(Node::Fst(Box::new(p2))), e1),
                Err(e) => (Err(e), e1),
            }
        } else {
            match *p {
                Node::Pair(l, _) => (Ok(*l), env),
                _ => (Err(EvalError::TypeMismatch(Shape::Pair, p)), env),
            }
        },
        Node::Snd(p) => if is_reducible(*p) {
            let (rp, e1) = step(*p, env);
            match rp {
                Ok(p2) => (Ok(Node::Snd(Box::new(p2))), e1),
                Err(e) => (Err(e), e1),
            }
        } else {
            match *p {
                Node::Pair(_, r) => (Ok(*r), env),
                _ => (Err(EvalError::TypeMismatch(Shape::Pair, p)), env),
            }
        },
        Node::Fun(_, _, _) => (Ok(Node::Closure(env, Box::new(t))), env),
        Node::Number(_) | Node::Boolean(_) | Node::DoNothing | Node::Closure(_, _) | Node::Call(
            _,
            _,
        ) => (Err(EvalError::UnhandledTerm(Box::new(t))), env),
    }
}

/// The binary term `t` with its operands replaced by `l` and `r`.
pub open spec fn rebuild(t: Node, l: Node, r: Node) -> Node {
    match t {
        Node::Add(_, _) => Node::Add(Box::new(l), Box::new(r)),
        Node::Subtract(_, _) => Node::Subtract(Box::new(l), Box::new(r)),
        Node::Multiply(_, _) => Node::Multiply(Box::new(l), Box::new(r)),
        Node::LT(_, _) => Node::LT(Box::new(l), Box::new(r)),
        Node::EQ(_, _) => Node::EQ(Box::new(l), Box::new(r)),
        _ => t,
    }
}

/// One-step rewriting of a term towards its normal form.
pub trait Reduce {
    /// Whether `reduce` has work to do on this term.
    spec fn reducible_spec(&self) -> bool;

    /// The result of `reduce` on `env`, and the environment it leaves.
    spec fn small_step(&self, env: Environment) -> (Result<Box<Node>, EvalError>, Environment);

    fn reducible(&self) -> (r: bool)
        ensures
            r == self.reducible_spec(),
    ;

    fn reduce(&self, environment: &mut Environment) -> (r: Result<Box<Node>, EvalError>)
        ensures
            (r, *final(environment)) == self.small_step(*old(environment)),
    ;
}

impl Reduce for Node {
    open spec fn reducible_spec(&self) -> bool {
        is_reducible(*self)
    }

    open spec fn small_step(&self, env: Environment) -> (Result<Box<Node>, EvalError>, Environment) {
        let (r, e) = step(*self, env);
        (boxed(r), e)
    }

    fn reducible(&self) -> (r: bool) {
        reducible_exec(self)
    }

    fn reduce(&self, environment: &mut Environment) -> (r: Result<Box<Node>, EvalError>) {
        match step_exec(self, environment) {
            Ok(v) => Ok(Box::new(v)),
            Err(e) => Err(e),
        }
    }
}

fn reducible_exec(t: &Node) -> (r: bool)
    ensures
        r == is_reducible(*t),
    decreases t,
{
    match t {
        Node::Number(_) | Node::Boolean(_) | Node::DoNothing | Node::Closure(_, _) => false,
        Node::Pair(l, r) => reducible_exec(l) || reducible_exec(r),
        _ => true,
    }
}

fn rebuild_exec(t: &Node, l: Node, r: Node) -> (n: Node)
    requires
        t is Add || t is Subtract || t is Multiply || t is LT || t is EQ,
    ensures
        n == rebuild(*t, l, r),
{
    match t {
        Node::Add(_, _) => Node::Add(Box::new(l), Box::new(r)),
        Node::Subtract(_, _) => Node::Subtract(Box::new(l), Box::new(r)),
        Node::Multiply(_, _) => Node::Multiply(Box::new(l), Box::new(r)),
        Node::LT(_, _) => Node::LT(Box::new(l), Box::new(r)),
        _ => Node::EQ(Box::new(l), Box::new(r)),
    }
}

/// One small step of `t` in `env`.
pub fn step_exec(t: &Node, env: &mut Environment) -> (r: Result<Node, EvalError>)
    ensures
        (r, *final(env)) == step(*t, *old(env)),
    decreases t,
{
    match t {
        Node::Add(l, r) | Node::Subtract(l, r) | Node::Multiply(l, r) | Node::LT(l, r) | Node::EQ(
            l,
            r,
        ) => {
            if reducible_exec(l) {
                match step_exec(l, env) {
                    Ok(l2) => Ok(rebuild_exec(t, l2, r.duplicate())),
                    Err(e) => Err(e),
                }
            } else if reducible_exec(r) {
                match step_exec(r, env) {
                    Ok(r2) => Ok(rebuild_exec(t, l.duplicate(), r2)),
                    Err(e) => Err(e),
                }
            } else {
                arith_exec(t, l.duplicate(), r.duplicate())
            }
        },
        Node::GT(l, r) => Ok(Node::LT(Box::new(r.duplicate()), Box::new(l.duplicate()))),
        Node::Variable(name) => match env.fetch(name) {
            Ok(v) => Ok(*v),
            Err(e) => Err(e),
        },
        Node::IsDoNothing(x) => {
            if reducible_exec(x) {
                match step_exec(x, env) {
                    Ok(x2) => Ok(Node::IsDoNothing(Box::new(x2))),
                    Err(e) => Err(e),
                }
            } else {
                Ok(Node::Boolean(matches!(**x, Node::DoNothing)))
            }
        },
        Node::Assign(name, x) => {
            if reducible_exec(x) {
                match step_exec(x, env) {
                    Ok(x2) => Ok(Node::Assign(name.clone(), Box::new(x2))),
                    Err(e) => Err(e),
                }
            } else {
                env.bind(name.clone(), x.duplicate());
                Ok(Node::DoNothing)
            }
        },
        Node::If(c, a, b) => {
            if reducible_exec(c) {
                match step_exec(c, env) {
                    Ok(c2) => Ok(Node::If(Box::new(c2), Box::new(a.duplicate()), Box::new(b.duplicate()))),
                    Err(e) => Err(e),
                }
            } else {
                match &**c {
                    Node::Boolean(cv) => if *cv {
                        Ok(a.duplicate())
                    } else {
                        Ok(b.duplicate())
                    },
                    _ => Err(EvalError::TypeMismatch(Shape::Boolean, Box::new(c.duplicate()))),
                }
            }
        },
        Node::Sequence(h, m) => match &**h {
            Node::DoNothing => Ok(m.duplicate()),
            _ => match step_exec(h, env) {
                Ok(h2) => Ok(Node::Sequence(Box::new(h2), Box::new(m.duplicate()))),
                Err(e) => Err(e),
            },
        },
        Node::While(c, b) => Ok(
            Node::If(
                Box::new(c.duplicate()),
                Box::new(Node::Sequence(Box::new(b.duplicate()), Box::new(t.duplicate()))),
                Box::new(Node::DoNothing),
            ),
        ),
        Node::Pair(l, r) => {
            if reducible_exec(l) {
                match step_exec(l, env) {
                    Ok(l2) => Ok(Node::Pair(Box::new(l2), Box::new(r.duplicate()))),
                    Err(e) => Err(e),
                }
            } else if reducible_exec(r) {
                match step_exec(r, env) {
                    Ok(r2) => Ok(Node::Pair(Box::new(l.duplicate()), Box::new(r2))),
                    Err(e) => Err(e),
                }
            } else {
                Ok(t.duplicate())
            }
        },
        Node::Fst(p) => {
            if reducible_exec(p) {
                match step_exec(p, env) {
                    Ok(p2) => Ok(Node::Fst(Box::new(p2))),
                    Err(e) => Err(e),
                }
            } else {
                match &**p {
                    Node::Pair(l, _) => Ok(l.duplicate()),
                    _ => Err(EvalError::TypeMismatch(Shape::Pair, Box::new(p.duplicate()))),
                }
            }
        },
        Node::Snd(p) => {
            if reducible_exec(p) {
                match step_exec(p, env) {
                    Ok(p2) => Ok(Node::Snd(Box::new(p2))),
                    Err(e) => Err(e),
                }
            } else {
                match &**p {
                    Node::Pair(_, r) => Ok(r.duplicate()),
                    _ => Err(EvalError::TypeMismatch(Shape::Pair, Box::new(p.duplicate()))),
                }
            }
        },
        Node::Fun(_, _, _) => Ok(Node::Closure(env.snapshot(), Box::new(t.duplicate()))),
        _ => Err(EvalError::UnhandledTerm(Box::new(t.duplicate()))),
    }
}

} // verus!
