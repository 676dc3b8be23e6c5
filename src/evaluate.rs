//! The big-step evaluator and the free-variable analysis that builds the
//! fresh environment of each call.

use vstd::prelude::*;

use crate::environment::Environment;
use crate::syntax::{EvalError, Node, Shape};

verus! {

/// The evaluation budget of `evaluate`: how deep the evaluation of one term
/// may nest, each turn of a loop counting as one level.
pub const FUEL: u64 = 18446744073709551615;

/// Whether some name in `names` reads as `name`.
pub open spec fn has_name(names: Seq<String>, name: Seq<char>) -> bool {
    exists|i: int| 0 <= i < names.len() && #[trigger] names[i]@ == name
}

/// The free-variable walk over `t`: `bound` holds the names bound so far
/// (parameters, function names and assigned names) and `free` the free
/// names found so far, each once, in order of first reference. Returns both
/// as they stand after `t`.
pub open spec fn free_walk(t: Node, bound: Seq<String>, free: Seq<String>) -> (
    Seq<String>,
    Seq<String>,
)
    decreases t,
{
    match t {
        Node::IsDoNothing(x) | Node::Fst(x) | Node::Snd(x) => free_walk(*x, bound, free),
        Node::Add(l, r)
        | Node::Subtract(l, r)
        | Node::Multiply(l, r)
        | Node::LT(l, r)
        | Node::EQ(l, r)
        | Node::GT(l, r)
        | Node::Sequence(l, r)
        | Node::While(l, r)
        | Node::Pair(l, r)
        | Node::Call(l, r) => {
            let (b1, f1) = free_walk(*l, bound, free);
            free_walk(*r, b1, f1)
        },
        Node::Variable(n) => if has_name(bound, n@) || has_name(free, n@) {
            (bound, free)
        } else {
            (bound, free.push(n))
        },
        Node::Assign(n, x) => {
            let (b1, f1) = free_walk(*x, bound, free);
            (b1.push(n), f1)
        },
        Node::If(c, a, b) => {
            let (b1, f1) = free_walk(*c, bound, free);
            let (b2, f2) = free_walk(*a, b1, f1);
            free_walk(*b, b2, f2)
        },
        Node::Fun(s, p, body) => free_walk(*body, bound.push(s).push(p), free),
        Node::Closure(_, fun) => free_walk(*fun, bound, free),
        Node::Number(_) | Node::Boolean(_) | Node::DoNothing => (bound, free),
    }
}

/// The free variables of a term, in order of first reference.
pub open spec fn free_vars(t: Node) -> Seq<String> {
    free_walk(t, Seq::empty(), Seq::empty()).1
}

/// `acc` extended, in order, with the value that `captured` binds to each
/// name of `names`; the first name that `captured` lacks is an error.
pub open spec fn capture(names: Seq<String>, captured: Environment, acc: Environment) -> Result<
    Environment,
    EvalError,
>
    decreases names.len(),
{
    if names.len() == 0 {
        Ok(acc)
    } else {
        match captured.lookup(names[0]@) {
            Some(v) => capture(names.drop_first(), captured, acc.with(names[0], v)),
            None => Err(EvalError::UnboundVariable(names[0])),
        }
    }
}

/// The body to run and the fresh environment to run it in, for a call of
/// `callee` on `arg`: the free variables of the function with their values
/// in the captured environment, the function's own name bound to `callee`,
/// and the parameter, if it has a name, bound to `arg`.
pub open spec fn call_frame(callee: Node, arg: Node) -> Result<(Node, Environment), EvalError> {
    match callee {
        Node::Closure(captured, fun) => match *fun {
            Node::Fun(s, p, body) => match capture(free_vars(*fun), captured, Environment::empty()) {
                Ok(e0) => {
                    let e1 = e0.with(s, callee);
                    let e2 = if p@.len() == 0 {
                        e1
                    } else {
                        e1.with(p, arg)
                    };
                    Ok((*body, e2))
                },
                Err(e) => Err(e),
            },
            _ => Err(EvalError::TypeMismatch(Shape::Function, fun)),
        },
        _ => Err(EvalError::TypeMismatch(Shape::Closure, Box::new(callee))),
    }
}

/// A 64-bit result of the arithmetic operator `t`, or an overflow.
pub open spec fn checked(t: Node, n: int) -> Result<Node, EvalError> {
    if i64::MIN <= n <= i64::MAX {
        Ok(Node::Number(n as i64))
    } else {
        Err(EvalError::Overflow(Box::new(t)))
    }
}

/// The operator of `t` applied to the operand values `a` and `b`. For `GT`
/// the operands come in swapped, as for the `LT` that it stands for.
pub open spec fn arith(t: Node, a: Node, b: Node) -> Result<Node, EvalError> {
    if !(a is Number) {
        Err(EvalError::TypeMismatch(Shape::Number, Box::new(a)))
    } else if !(b is Number) {
        Err(EvalError::TypeMismatch(Shape::Number, Box::new(b)))
    } else {
        let x = a->Number_0 as int;
        let y = b->Number_0 as int;
        match t {
            Node::Add(_, _) => checked(t, x + y),
            Node::Subtract(_, _) => checked(t, x - y),
            Node::Multiply(_, _) => checked(t, x * y),
            Node::LT(_, _) | Node::GT(_, _) => Ok(Node::Boolean(x < y)),
            Node::EQ(_, _) => Ok(Node::Boolean(x == y)),
            _ => Err(EvalError::UnhandledTerm(Box::new(t))),
        }
    }
}

/// Big-step semantics: the result of `t` in `env` and the environment after
/// it, where evaluation may nest at most `fuel` levels deep.
pub open spec fn eval(t: Node, env: Environment, fuel: nat) -> (Result<Node, EvalError>, Environment)
    decreases fuel,
{
    if fuel == 0 {
        (Err(EvalError::OutOfFuel), env)
    } else {
        let f = (fuel - 1) as nat;
        match t {
            Node::Number(_) | Node::Boolean(_) | Node::DoNothing | Node::Closure(_, _) => (Ok(t), env),
            Node::IsDoNothing(x) => {
                let (rx, e1) = eval(*x, env, f);
                match rx {
                    Ok(v) => (Ok(Node::Boolean(v is DoNothing)), e1),
                    Err(e) => (Err(e), e1),
                }
            },
            Node::Add(l, r)
            | Node::Subtract(l, r)
            | Node::Multiply(l, r)
            | Node::LT(l, r)
            | Node::EQ(l, r) => {
                let (ra, e1) = eval(*l, env, f);
                match ra {
                    Ok(a) => {
                        let (rb, e2) = eval(*r, e1, f);
                        match rb {
                            Ok(b) => (arith(t, a, b), e2),
                            Err(e) => (Err(e), e2),
                        }
                    },
                    Err(e) => (Err(e), e1),
                }
            },
            Node::GT(l, r) => {
                let (ra, e1) = eval(*r, env, f);
                match ra {
                    Ok(a) => {
                        let (rb, e2) = eval(*l, e1, f);
                        match rb {
                            Ok(b) => (arith(t, a, b), e2),
                            Err(e) => (Err(e), e2),
                        }
                    },
                    Err(e) => (Err(e), e1),
                }
            },
            Node::Variable(n) => match env.lookup(n@) {
                Some(v) => (Ok(v), env),
                None => (Err(EvalError::UnboundVariable(n)), env),
            },
            Node::Assign(n, x) => {
                let (rx, e1) = eval(*x, env, f);
                match rx {
                    Ok(v) => (Ok(Node::DoNothing), e1.with(n, v)),
                    Err(e) => (Err(e), e1),
                }
            },
            Node::If(c, a, b) => {
                let (rc, e1) = eval(*c, env, f);
                match rc {
                    Ok(Node::Boolean(cv)) => if cv {
                        eval(*a, e1, f)
                    } else {
                        eval(*b, e1, f)
                    },
                    Ok(v) => (Err(EvalError::TypeMismatch(Shape::Boolean, Box::new(v))), e1),
                    Err(e) => (Err(e), e1),
                }
            },
            Node::Sequence(h, m) => {
                let (rh, e1) = eval(*h, env, f);
                match rh {
                    Ok(_) => eval(*m, e1, f),
                    Err(e) => (Err(e), e1),
                }
            },
            Node::While(c, b) => {
                let (rc, e1) = eval(*c, env, f);
                match rc {
                    Ok(Node::Boolean(cv)) => if cv {
                        let (rb, e2) = eval(*b, e1, f);
                        match rb {
                            Ok(_) => eval(t, e2, f),
                            Err(e) => (Err(e), e2),
                        }
                    } else {
                        (Ok(Node::DoNothing), e1)
                    },
                    Ok(v) => (Err(EvalError::TypeMismatch(Shape::Boolean, Box::new(v))), e1),
                    Err(e) => (Err(e), e1),
                }
            },
            Node::Pair(a, b) => {
                let (ra, e1) = eval(*a, env, f);
                match ra {
                    Ok(va) => {
                        let (rb, e2) = eval(*b, e1, f);
                        match rb {
                            Ok(vb) => (Ok(Node::Pair(Box::new(va), Box::new(vb))), e2),
                            Err(e) => (Err(e), e2),
                        }
                    },
                    Err(e) => (Err(e), e1),
                }
            },
            Node::Fst(p) => {
                let (rp, e1) = eval(*p, env, f);
                match rp {
                    Ok(Node::Pair(l, _)) => eval(*l, e1, f),
                    Ok(v) => (Err(EvalError::TypeMismatch(Shape::Pair, Box::new(v))), e1),
                    Err(e) => (Err(e), e1),
                }
            },
            Node::Snd(p) => {
                let (rp, e1) = eval(*p, env, f);
                match rp {
                    Ok(Node::Pair(_, r)) => eval(*r, e1, f),
                    Ok(v) => (Err(EvalError::TypeMismatch(Shape::Pair, Box::new(v))), e1),
                    Err(e) => (Err(e), e1),
                }
            },
            Node::Fun(_, _, _) => (Ok(Node::Closure(env, Box::new(t))), env),
            Node::Call(c, a) => {
                let (ra, e1) = eval(*a, env, f);
                match ra {
                    Ok(arg) => {
                        let (rc, e2) = eval(*c, e1, f);
                        match rc {
                            Ok(callee) => match call_frame(callee, arg) {
                                Ok((body, frame)) => (eval(body, frame, f).0, e2),
                                Err(e) => (Err(e), e2),
                            },
                            Err(e) => (Err(e), e2),
                        }
                    },
                    Err(e) => (Err(e), e1),
                }
            },
        }
    }
}

pub open spec fn boxed(r: Result<Node, EvalError>) -> Result<Box<Node>, EvalError> {
    match r {
        Ok(v) => Ok(Box::new(v)),
        Err(e) => Err(e),
    }
}

/// Direct evaluation of a term in an environment.
pub trait Evaluate {
    /// The result of `evaluate` on `env`, and the environment it leaves.
    spec fn big_step(&self, env: Environment) -> (Result<Box<Node>, EvalError>, Environment);

    fn evaluate(&self, environment: &mut Environment) -> (r: Result<Box<Node>, EvalError>)
        ensures
            (r, *final(environment)) == self.big_step(*old(environment)),
    ;
}

impl Evaluate for Node {
    open spec fn big_step(&self, env: Environment) -> (Result<Box<Node>, EvalError>, Environment) {
        let (r, e) = eval(*self, env, FUEL as nat);
        (boxed(r), e)
    }

    fn evaluate(&self, environment: &mut Environment) -> (r: Result<Box<Node>, EvalError>) {
        match eval_with_fuel(self, environment, FUEL) {
            Ok(v) => Ok(Box::new(v)),
            Err(e) => Err(e),
        }
    }
}

fn has_name_exec(names: &Vec<String>, name: &String) -> (r: bool)
    ensures
        r == has_name(names@, name@),
{
    let mut i: usize = 0;
    while i < names.len()
        invariant
            0 <= i <= names.len(),
            forall|j: int| 0 <= j < i ==> names@[j]@ != name@,
        decreases names.len() - i,
    {
        if names[i] == *name {
            return true;
        }
        i = i + 1;
    }
    false
}

fn get_free_vars_helper(node: &Node, varlist: &mut Vec<String>, free_vars: &mut Vec<String>)
    ensures
        (final(varlist)@, final(free_vars)@) == free_walk(*node, old(varlist)@, old(free_vars)@),
    decreases node,
{
    match node {
        Node::IsDoNothing(x) | Node::Fst(x) | Node::Snd(x) => {
            get_free_vars_helper(x, varlist, free_vars);
        },
        Node::Add(l, r)
        | Node::Subtract(l, r)
        | Node::Multiply(l, r)
        | Node::LT(l, r)
        | Node::EQ(l, r)
        | Node::GT(l, r)
        | Node::Sequence(l, r)
        | Node::While(l, r)
        | Node::Pair(l, r)
        | Node::Call(l, r) => {
            get_free_vars_helper(l, varlist, free_vars);
            get_free_vars_helper(r, varlist, free_vars);
        },
        Node::Variable(name) => {
            if !has_name_exec(varlist, name) && !has_name_exec(free_vars, name) {
                free_vars.push(name.clone());
            }
        },
        Node::Assign(name, expr) => {
            get_free_vars_helper(expr, varlist, free_vars);
            varlist.push(name.clone());
        },
        Node::If(c, a, b) => {
            get_free_vars_helper(c, varlist, free_vars);
            get_free_vars_helper(a, varlist, free_vars);
            get_free_vars_helper(b, varlist, free_vars);
        },
        Node::Fun(funname, argname, body) => {
            varlist.push(funname.clone());
            varlist.push(argname.clone());
            get_free_vars_helper(body, varlist, free_vars);
        },
        Node::Closure(_, fun) => {
            get_free_vars_helper(fun, varlist, free_vars);
        },
        Node::Number(_) | Node::Boolean(_) | Node::DoNothing => {},
    }
}

/// The names that a term references without binding them, each once, in
/// order of first reference.
pub fn get_free_vars(node: &Node) -> (r: Vec<String>)
    ensures
        r@ == free_vars(*node),
{
    let mut vars: Vec<String> = Vec::new();
    let mut free: Vec<String> = Vec::new();
    get_free_vars_helper(node, &mut vars, &mut free);
    free
}

fn capture_exec(names: &Vec<String>, captured: &Environment) -> (r: Result<Environment, EvalError>)
    ensures
        r == capture(names@, *captured, Environment::empty()),
{
    let mut acc = Environment::new();
    let mut i: usize = 0;
    assert(names@.subrange(0, names@.len() as int) =~= names@);
    while i < names.len()
        invariant
            0 <= i <= names.len(),
            capture(names@, *captured, Environment::empty()) == capture(
                names@.subrange(i as int, names@.len() as int),
                *captured,
                acc,
            ),
        decreases names.len() - i,
    {
        let ghost rest = names@.subrange(i as int, names@.len() as int);
        assert(rest.drop_first() =~= names@.subrange(i + 1, names@.len() as int));
        assert(rest[0] == names@[i as int]);
        match captured.fetch(&names[i]) {
            Ok(v) => acc.bind(names[i].clone(), *v),
            Err(e) => return Err(e),
        }
        i = i + 1;
    }
    assert(names@.subrange(i as int, names@.len() as int).len() == 0);
    Ok(acc)
}

fn make_frame(callee: Node, arg: Node) -> (r: Result<(Node, Environment), EvalError>)
    ensures
        r == call_frame(callee, arg),
{
    match &callee {
        Node::Closure(captured, fun) => match &**fun {
            Node::Fun(s, p, body) => {
                let free = get_free_vars(fun);
                match capture_exec(&free, captured) {
                    Ok(frame) => {
                        let mut frame = frame;
                        frame.bind(s.clone(), callee.duplicate());
                        if !p.as_str().is_empty() {
                            frame.bind(p.clone(), arg);
                        }
                        Ok((body.duplicate(), frame))
                    },
                    Err(e) => Err(e),
                }
            },
            _ => Err(EvalError::TypeMismatch(Shape::Function, Box::new(fun.duplicate()))),
        },
        _ => Err(EvalError::TypeMismatch(Shape::Closure, Box::new(callee.duplicate()))),
    }
}

pub(crate) fn arith_exec(t: &Node, a: Node, b: Node) -> (r: Result<Node, EvalError>)
    ensures
        r == arith(*t, a, b),
{
    let (x, y) = match (&a, &b) {
        (Node::Number(x), Node::Number(y)) => (*x, *y),
        (Node::Number(_), _) => return Err(EvalError::TypeMismatch(Shape::Number, Box::new(b))),
        _ => return Err(EvalError::TypeMismatch(Shape::Number, Box::new(a))),
    };
    let r = match t {
        Node::Add(_, _) => x.checked_add(y),
        Node::Subtract(_, _) => x.checked_sub(y),
        Node::Multiply(_, _) => x.checked_mul(y),
        Node::LT(_, _) | Node::GT(_, _) => return Ok(Node::Boolean(x < y)),
        Node::EQ(_, _) => return Ok(Node::Boolean(x == y)),
        _ => return Err(EvalError::UnhandledTerm(Box::new(t.duplicate()))),
    };
    match r {
        Some(n) => Ok(Node::Number(n)),
        None => Err(EvalError::Overflow(Box::new(t.duplicate()))),
    }
}

/// Evaluates `t` in `env` with an evaluation budget of `fuel` levels.
pub fn eval_with_fuel(t: &Node, env: &mut Environment, fuel: u64) -> (r: Result<Node, EvalError>)
    ensures
        (r, *final(env)) == eval(*t, *old(env), fuel as nat),
    decreases fuel,
{
    if fuel == 0 {
        return Err(EvalError::OutOfFuel);
    }
    let f = fuel - 1;
    match t {
        Node::Number(v) => Ok(Node::Number(*v)),
        Node::Boolean(v) => Ok(Node::Boolean(*v)),
        Node::DoNothing => Ok(Node::DoNothing),
        Node::Closure(_, _) => Ok(t.duplicate()),
        Node::IsDoNothing(x) => match eval_with_fuel(x, env, f) {
            Ok(v) => Ok(Node::Boolean(matches!(v, Node::DoNothing))),
            Err(e) => Err(e),
        },
        Node::Add(l, r) | Node::Subtract(l, r) | Node::Multiply(l, r) | Node::LT(l, r) | Node::EQ(
            l,
            r,
        ) => {
            let a = match eval_with_fuel(l, env, f) {
                Ok(a) => a,
                Err(e) => return Err(e),
            };
            let b = match eval_with_fuel(r, env, f) {
                Ok(b) => b,
                Err(e) => return Err(e),
            };
            arith_exec(t, a, b)
        },
        Node::GT(l, r) => {
            let a = match eval_with_fuel(r, env, f) {
                Ok(a) => a,
                Err(e) => return Err(e),
            };
            let b = match eval_with_fuel(l, env, f) {
                Ok(b) => b,
                Err(e) => return Err(e),
            };
            arith_exec(t, a, b)
        },
        Node::Variable(name) => match env.fetch(name) {
            Ok(v) => Ok(*v),
            Err(e) => Err(e),
        },
        Node::Assign(name, expr) => match eval_with_fuel(expr, env, f) {
            Ok(v) => {
                env.bind(name.clone(), v);
                Ok(Node::DoNothing)
            },
            Err(e) => Err(e),
        },
        Node::If(c, a, b) => match eval_with_fuel(c, env, f) {
            Ok(Node::Boolean(cv)) => if cv {
                eval_with_fuel(a, env, f)
            } else {
                eval_with_fuel(b, env, f)
            },
            Ok(v) => Err(EvalError::TypeMismatch(Shape::Boolean, Box::new(v))),
            Err(e) => Err(e),
        },
        Node::Sequence(h, m) => match eval_with_fuel(h, env, f) {
            Ok(_) => eval_with_fuel(m, env, f),
            Err(e) => Err(e),
        },
        Node::While(c, b) => {
            let ghost env0 = *env;
            let mut cur: u64 = fuel;
            loop
                invariant
                    1 <= cur <= fuel,
                    *t == Node::While(*c, *b),
                    eval(*t, env0, fuel as nat) == eval(*t, *env, cur as nat),
                    env0 == *old(env),
                decreases cur,
            {
                let g = cur - 1;
                match eval_with_fuel(c, env, g) {
                    Ok(Node::Boolean(cv)) => {
                        if !cv {
                            return Ok(Node::DoNothing);
                        }
                        match eval_with_fuel(b, env, g) {
                            Ok(_) => {},
                            Err(e) => return Err(e),
                        }
                        if g == 0 {
                            return Err(EvalError::OutOfFuel);
                        }
                        cur = g;
                    },
                    Ok(v) => return Err(EvalError::TypeMismatch(Shape::Boolean, Box::new(v))),
                    Err(e) => return Err(e),
                }
            }
        },
        Node::Pair(a, b) => {
            let va = match eval_with_fuel(a, env, f) {
                Ok(v) => v,
                Err(e) => return Err(e),
            };
            let vb = match eval_with_fuel(b, env, f) {
                Ok(v) => v,
                Err(e) => return Err(e),
            };
            Ok(Node::Pair(Box::new(va), Box::new(vb)))
        },
        Node::Fst(p) => match eval_with_fuel(p, env, f) {
            Ok(Node::Pair(l, _)) => eval_with_fuel(&l, env, f),
            Ok(v) => Err(EvalError::TypeMismatch(Shape::Pair, Box::new(v))),
            Err(e) => Err(e),
        },
        Node::Snd(p) => match eval_with_fuel(p, env, f) {
            Ok(Node::Pair(_, r)) => eval_with_fuel(&r, env, f),
            Ok(v) => Err(EvalError::TypeMismatch(Shape::Pair, Box::new(v))),
            Err(e) => Err(e),
        },
        Node::Fun(_, _, _) => Ok(Node::Closure(env.snapshot(), Box::new(t.duplicate()))),
        Node::Call(c, a) => {
            let arg = match eval_with_fuel(a, env, f) {
                Ok(v) => v,
                Err(e) => return Err(e),
            };
            let callee = match eval_with_fuel(c, env, f) {
                Ok(v) => v,
                Err(e) => return Err(e),
            };
            match make_frame(callee, arg) {
                Ok((body, frame)) => {
                    let mut frame = frame;
                    eval_with_fuel(&body, &mut frame, f)
                },
                Err(e) => Err(e),
            }
        },
    }
}

} // verus!
