//! Environments: ordered bindings from names to values, copied, never
//! shared, when a closure captures them.

use vstd::prelude::*;

use crate::syntax::{EvalError, Node};

verus! {

/// The bindings of an environment, in the order in which their names were
/// first bound. A name bound twice keeps its place and takes the new value.
#[derive(Debug, PartialEq)]
pub enum Bindings {
    Empty,
    Bind(String, Box<Node>, Box<Bindings>),
}

impl Bindings {
    /// The value bound to `name`, if any.
    pub open spec fn lookup(self, name: Seq<char>) -> Option<Node>
        decreases self,
    {
        match self {
            Bindings::Empty => None,
            Bindings::Bind(k, v, rest) => if k@ == name {
                Some(*v)
            } else {
                rest.lookup(name)
            },
        }
    }

    /// These bindings with `name` bound to `value`: in place where the name
    /// is already bound, else at the end.
    pub open spec fn with(self, name: String, value: Node) -> Bindings
        decreases self,
    {
        match self {
            Bindings::Empty => Bindings::Bind(name, Box::new(value), Box::new(Bindings::Empty)),
            Bindings::Bind(k, v, rest) => if k@ == name@ {
                Bindings::Bind(k, Box::new(value), rest)
            } else {
                Bindings::Bind(k, v, Box::new(rest.with(name, value)))
            },
        }
    }
}

impl Bindings {
    /// No name is bound twice.
    pub open spec fn keys_unique(self) -> bool
        decreases self,
    {
        match self {
            Bindings::Empty => true,
            Bindings::Bind(k, _, rest) => rest.lookup(k@) is None && rest.keys_unique(),
        }
    }
}

/// After binding `name`, looking it up gives the new value, and every other
/// name what it had before.
pub proof fn lemma_lookup_with(b: Bindings, name: String, value: Node, q: Seq<char>)
    ensures
        b.with(name, value).lookup(q) == if q == name@ {
            Some(value)
        } else {
            b.lookup(q)
        },
    decreases b,
{
    if let Bindings::Bind(_, _, rest) = b {
        lemma_lookup_with(*rest, name, value, q);
    }
}

/// Binding a name keeps the names unique.
pub proof fn lemma_with_keeps_keys_unique(b: Bindings, name: String, value: Node)
    requires
        b.keys_unique(),
    ensures
        b.with(name, value).keys_unique(),
    decreases b,
{
    if let Bindings::Bind(k, _, rest) = b {
        lemma_with_keeps_keys_unique(*rest, name, value);
        lemma_lookup_with(*rest, name, value, k@);
    }
}

/// A mapping from variable names to values, owned by one evaluation context.
#[derive(Debug, PartialEq)]
pub struct Environment {
    pub vars: Bindings,
}

impl Environment {
    /// The value bound to `name`, if any.
    pub open spec fn lookup(self, name: Seq<char>) -> Option<Node> {
        self.vars.lookup(name)
    }

    /// This environment with `name` bound to `value`.
    pub open spec fn with(self, name: String, value: Node) -> Environment {
        Environment { vars: self.vars.with(name, value) }
    }

    /// Well-formedness: each name is bound at most once.
    pub open spec fn wf(self) -> bool {
        self.vars.keys_unique()
    }

    /// The environment that binds nothing.
    pub open spec fn empty() -> Environment {
        Environment { vars: Bindings::Empty }
    }

    pub fn new() -> (r: Environment)
        ensures
            r == Environment::empty(),
            r.wf(),
    {
        Environment { vars: Bindings::Empty }
    }

    /// Binds `name` to `node`, replacing any earlier value of that name.
    pub fn add(&mut self, name: &str, node: Box<Node>)
        ensures
            exists|k: String| k@ == name@ && *final(self) == old(self).with(k, *node),
            old(self).wf() ==> final(self).wf(),
            final(self).lookup(name@) == Some(*node),
    {
        self.bind(name.to_owned(), *node);
    }

    /// Binds the name `name` itself to `node`, replacing any earlier value
    /// of that name.
    pub fn bind(&mut self, name: String, node: Node)
        ensures
            *final(self) == old(self).with(name, node),
            old(self).wf() ==> final(self).wf(),
            final(self).lookup(name@) == Some(node),
    {
        proof {
            lemma_lookup_with(self.vars, name, node, name@);
            if self.wf() {
                lemma_with_keeps_keys_unique(self.vars, name, node);
            }
        }
        let mut vars = Bindings::Empty;
        std::mem::swap(&mut vars, &mut self.vars);
        self.vars = bindings_with(vars, name, node);
    }

    /// The value bound to `name`.
    pub fn get(&self, name: &str) -> (r: Result<Box<Node>, EvalError>)
        ensures
            match self.lookup(name@) {
                Some(v) => r == Ok::<Box<Node>, EvalError>(Box::new(v)),
                None => r matches Err(EvalError::UnboundVariable(n)) && n@ == name@,
            },
    {
        self.fetch(&name.to_owned())
    }

    /// The value bound to `name`.
    pub fn fetch(&self, name: &String) -> (r: Result<Box<Node>, EvalError>)
        ensures
            r == match self.lookup(name@) {
                Some(v) => Ok(Box::new(v)),
                None => Err(EvalError::UnboundVariable(*name)),
            },
    {
        match bindings_lookup(&self.vars, name) {
            Some(v) => Ok(Box::new(v)),
            None => Err(EvalError::UnboundVariable(name.clone())),
        }
    }

    /// An independent copy of this environment, for a closure to keep.
    pub fn snapshot(&self) -> (r: Environment)
        ensures
            r == *self,
    {
        Environment { vars: self.vars.duplicate() }
    }
}

fn bindings_with(b: Bindings, name: String, value: Node) -> (r: Bindings)
    ensures
        r == b.with(name, value),
    decreases b,
{
    match b {
        Bindings::Empty => Bindings::Bind(name, Box::new(value), Box::new(Bindings::Empty)),
        Bindings::Bind(k, v, rest) => {
            if k == name {
                Bindings::Bind(k, Box::new(value), rest)
            } else {
                Bindings::Bind(k, v, Box::new(bindings_with(*rest, name, value)))
            }
        },
    }
}

fn bindings_lookup(b: &Bindings, name: &String) -> (r: Option<Node>)
    ensures
        r == b.lookup(name@),
    decreases b,
{
    match b {
        Bindings::Empty => None,
        Bindings::Bind(k, v, rest) => {
            if *k == *name {
                Some(v.duplicate())
            } else {
                bindings_lookup(rest, name)
            }
        },
    }
}

impl Bindings {
    /// A copy of these bindings that shares nothing with them.
    pub fn duplicate(&self) -> (r: Bindings)
        ensures
            r == *self,
        decreases self,
    {
        match self {
            Bindings::Empty => Bindings::Empty,
            Bindings::Bind(k, v, rest) => Bindings::Bind(
                k.clone(),
                Box::new(v.duplicate()),
                Box::new(rest.duplicate()),
            ),
        }
    }
}

} // verus!
