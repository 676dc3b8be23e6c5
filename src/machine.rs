//! The machine that drives the reducer to a normal form.

use vstd::prelude::*;

use crate::environment::Environment;
use crate::evaluate::FUEL;
use crate::reduce::{is_reducible, step, Reduce};
use crate::syntax::{EvalError, Node};

verus! {

/// The outcome of running a term to its normal form in at most `n` steps:
/// whether it got there, the last term reached, and the environment then.
pub open spec fn run(t: Node, env: Environment, n: nat) -> (Result<(), EvalError>, Node, Environment)
    decreases n,
{
    if !is_reducible(t) {
        (Ok(()), t, env)
    } else if n == 0 {
        (Err(EvalError::OutOfFuel), t, env)
    } else {
        let (r, e1) = step(t, env);
        match r {
            Ok(t2) => run(t2, e1, (n - 1) as nat),
            Err(e) => (Err(e), t, e1),
        }
    }
}

/// A driver that rewrites one term, step by step, in one environment.
pub struct Machine {
    pub environment: Environment,
    expression: Box<Node>,
}

impl Machine {
    /// The term the machine holds.
    pub closed spec fn term(&self) -> Node {
        *self.expression
    }

    /// The environment the machine holds.
    pub closed spec fn env(&self) -> Environment {
        self.environment
    }

    pub fn new(expression: Box<Node>, environment: Environment) -> (r: Machine)
        ensures
            r.term() == *expression,
            r.env() == environment,
    {
        Machine { expression: expression, environment: environment }
    }

    pub fn new_with_empty_env(expression: Box<Node>) -> (r: Machine)
        ensures
            r.term() == *expression,
            r.env() == Environment::empty(),
    {
        Machine { expression: expression, environment: Environment::new() }
    }

    /// Reduces the term until it is in normal form, or a step fails, or the
    /// step budget runs out.
    pub fn run(&mut self) -> (r: Result<(), EvalError>)
        ensures
            (r, final(self).term(), final(self).env()) == run(
                old(self).term(),
                old(self).env(),
                FUEL as nat,
            ),
    {
        let ghost start = run(self.term(), self.env(), FUEL as nat);
        let mut n: u64 = FUEL;
        loop
            invariant
                start == run(old(self).term(), old(self).env(), FUEL as nat),
                start == run(self.term(), self.env(), n as nat),
            decreases n,
        {
            if !self.expression.reducible() {
                return Ok(());
            }
            if n == 0 {
                return Err(EvalError::OutOfFuel);
            }
            match self.expression.reduce(&mut self.environment) {
                Ok(next) => {
                    self.expression = next;
                },
                Err(e) => return Err(e),
            }
            n = n - 1;
        }
    }

    /// A copy of the machine's environment.
    pub fn get_environment(&self) -> (r: Environment)
        ensures
            r == self.env(),
    {
        self.environment.snapshot()
    }

    /// A copy of the term the machine holds.
    pub fn get_expression(&self) -> (r: Box<Node>)
        ensures
            *r == self.term(),
    {
        Box::new(self.expression.duplicate())
    }
}

} // verus!
