//! Terms of the language, the kinds of value operations demand, and the
//! errors that stop an evaluation.

use vstd::prelude::*;

use crate::environment::Environment;

verus! {

/// A term of the language: an expression or a statement.
#[derive(Debug, PartialEq)]
pub enum Node {
    Number(i64),
    Add(Box<Node>, Box<Node>),
    Subtract(Box<Node>, Box<Node>),
    Multiply(Box<Node>, Box<Node>),
    Boolean(bool),
    LT(Box<Node>, Box<Node>),
    EQ(Box<Node>, Box<Node>),
    GT(Box<Node>, Box<Node>),
    Variable(String),
    DoNothing,
    IsDoNothing(Box<Node>),
    Assign(String, Box<Node>),
    If(Box<Node>, Box<Node>, Box<Node>),
    Sequence(Box<Node>, Box<Node>),
    While(Box<Node>, Box<Node>),
    Pair(Box<Node>, Box<Node>),
    Fst(Box<Node>),
    Snd(Box<Node>),
    Fun(String, String, Box<Node>),
    Closure(Environment, Box<Node>),
    Call(Box<Node>, Box<Node>),
}

/// The kind of value that an operation demanded of a term.
#[derive(Debug, Clone, Copy, PartialEq, Eq, Structural)]
pub enum Shape {
    Number,
    Boolean,
    Pair,
    Closure,
    Function,
}

/// Why an evaluation stopped without a value.
#[derive(Debug, PartialEq)]
pub enum EvalError {
    /// A name was looked up that the environment does not bind.
    UnboundVariable(String),
    /// An operation met a term of the wrong kind.
    TypeMismatch(Shape, Box<Node>),
    /// The term has no meaning for the operation attempted.
    UnhandledTerm(Box<Node>),
    /// An arithmetic result does not fit in 64 bits.
    Overflow(Box<Node>),
    /// The evaluation went deeper, or ran longer, than its budget allows.
    OutOfFuel,
}

impl Node {
    pub fn number(value: i64) -> (r: Box<Node>)
        ensures
            *r == Node::Number(value),
    {
        Box::new(Node::Number(value))
    }

    pub fn add(left: Box<Node>, right: Box<Node>) -> (r: Box<Node>)
        ensures
            *r == Node::Add(left, right),
    {
        Box::new(Node::Add(left, right))
    }

    pub fn subtract(left: Box<Node>, right: Box<Node>) -> (r: Box<Node>)
        ensures
            *r == Node::Subtract(left, right),
    {
        Box::new(Node::Subtract(left, right))
    }

    pub fn multiply(left: Box<Node>, right: Box<Node>) -> (r: Box<Node>)
        ensures
            *r == Node::Multiply(left, right),
    {
        Box::new(Node::Multiply(left, right))
    }

    pub fn boolean(value: bool) -> (r: Box<Node>)
        ensures
            *r == Node::Boolean(value),
    {
        Box::new(Node::Boolean(value))
    }

    pub fn lt(left: Box<Node>, right: Box<Node>) -> (r: Box<Node>)
        ensures
            *r == Node::LT(left, right),
    {
        Box::new(Node::LT(left, right))
    }

    pub fn eq(left: Box<Node>, right: Box<Node>) -> (r: Box<Node>)
        ensures
            *r == Node::EQ(left, right),
    {
        Box::new(Node::EQ(left, right))
    }

    pub fn gt(left: Box<Node>, right: Box<Node>) -> (r: Box<Node>)
        ensures
            *r == Node::GT(left, right),
    {
        Box::new(Node::GT(left, right))
    }

    pub fn variable(name: &str) -> (r: Box<Node>)
        ensures
            *r matches Node::Variable(n) && n@ == name@,
    {
        Box::new(Node::Variable(name.to_owned()))
    }

    pub fn donothing() -> (r: Box<Node>)
        ensures
            *r == Node::DoNothing,
    {
        Box::new(Node::DoNothing)
    }

    pub fn isdonothing(node: Box<Node>) -> (r: Box<Node>)
        ensures
            *r == Node::IsDoNothing(node),
    {
        Box::new(Node::IsDoNothing(node))
    }

    pub fn assign(name: &str, expr: Box<Node>) -> (r: Box<Node>)
        ensures
            *r matches Node::Assign(n, e) && n@ == name@ && e == expr,
    {
        Box::new(Node::Assign(name.to_owned(), expr))
    }

    pub fn if_cond_else(condition: Box<Node>, consequence: Box<Node>, alternative: Box<Node>) -> (r:
        Box<Node>)
        ensures
            *r == Node::If(condition, consequence, alternative),
    {
        Box::new(Node::If(condition, consequence, alternative))
    }

    pub fn sequence(head: Box<Node>, more: Box<Node>) -> (r: Box<Node>)
        ensures
            *r == Node::Sequence(head, more),
    {
        Box::new(Node::Sequence(head, more))
    }

    pub fn while_node(cond: Box<Node>, body: Box<Node>) -> (r: Box<Node>)
        ensures
            *r == Node::While(cond, body),
    {
        Box::new(Node::While(cond, body))
    }

    pub fn pair(fst: Box<Node>, snd: Box<Node>) -> (r: Box<Node>)
        ensures
            *r == Node::Pair(fst, snd),
    {
        Box::new(Node::Pair(fst, snd))
    }

    pub fn fst(pair: Box<Node>) -> (r: Box<Node>)
        ensures
            *r == Node::Fst(pair),
    {
        Box::new(Node::Fst(pair))
    }

    pub fn snd(pair: Box<Node>) -> (r: Box<Node>)
        ensures
            *r == Node::Snd(pair),
    {
        Box::new(Node::Snd(pair))
    }

    pub fn fun(funname: &str, argname: &str, body: Box<Node>) -> (r: Box<Node>)
        ensures
            *r matches Node::Fun(f, a, b) && f@ == funname@ && a@ == argname@ && b == body,
    {
        Box::new(Node::Fun(funname.to_owned(), argname.to_owned(), body))
    }

    pub fn closure(env: Environment, fun: Box<Node>) -> (r: Box<Node>)
        ensures
            *r == Node::Closure(env, fun),
    {
        Box::new(Node::Closure(env, fun))
    }

    pub fn call(closure: Box<Node>, arg: Box<Node>) -> (r: Box<Node>)
        ensures
            *r == Node::Call(closure, arg),
    {
        Box::new(Node::Call(closure, arg))
    }

    /// The integer that a `Number` holds.
    pub fn value(&self) -> (r: i64)
        requires
            self is Number,
        ensures
            r == self->Number_0,
    {
        match self {
            Node::Number(v) => *v,
            _ => vstd::pervasive::unreached(),
        }
    }

    /// The truth value that a `Boolean` holds.
    pub fn condition(&self) -> (r: bool)
        requires
            self is Boolean,
        ensures
            r == self->Boolean_0,
    {
        match self {
            Node::Boolean(b) => *b,
            _ => vstd::pervasive::unreached(),
        }
    }
}

impl Node {
    /// A copy of this term that shares nothing with it.
    pub fn duplicate(&self) -> (r: Node)
        ensures
            r == *self,
        decreases self,
    {
        match self {
            Node::Number(v) => Node::Number(*v),
            Node::Add(l, r) => Node::Add(Box::new(l.duplicate()), Box::new(r.duplicate())),
            Node::Subtract(l, r) => Node::Subtract(Box::new(l.duplicate()), Box::new(r.duplicate())),
            Node::Multiply(l, r) => Node::Multiply(Box::new(l.duplicate()), Box::new(r.duplicate())),
            Node::Boolean(b) => Node::Boolean(*b),
            Node::LT(l, r) => Node::LT(Box::new(l.duplicate()), Box::new(r.duplicate())),
            Node::EQ(l, r) => Node::EQ(Box::new(l.duplicate()), Box::new(r.duplicate())),
            Node::GT(l, r) => Node::GT(Box::new(l.duplicate()), Box::new(r.duplicate())),
            Node::Variable(n) => Node::Variable(n.clone()),
            Node::DoNothing => Node::DoNothing,
            Node::IsDoNothing(t) => Node::IsDoNothing(Box::new(t.duplicate())),
            Node::Assign(n, e) => Node::Assign(n.clone(), Box::new(e.duplicate())),
            Node::If(c, t, e) => Node::If(
                Box::new(c.duplicate()),
                Box::new(t.duplicate()),
                Box::new(e.duplicate()),
            ),
            Node::Sequence(h, m) => Node::Sequence(Box::new(h.duplicate()), Box::new(m.duplicate())),
            Node::While(c, b) => Node::While(Box::new(c.duplicate()), Box::new(b.duplicate())),
            Node::Pair(l, r) => Node::Pair(Box::new(l.duplicate()), Box::new(r.duplicate())),
            Node::Fst(p) => Node::Fst(Box::new(p.duplicate())),
            Node::Snd(p) => Node::Snd(Box::new(p.duplicate())),
            Node::Fun(f, a, b) => Node::Fun(f.clone(), a.clone(), Box::new(b.duplicate())),
            Node::Closure(env, f) => Node::Closure(
                Environment { vars: env.vars.duplicate() },
                Box::new(f.duplicate()),
            ),
            Node::Call(c, a) => Node::Call(Box::new(c.duplicate()), Box::new(a.duplicate())),
        }
    }
}

} // verus!
