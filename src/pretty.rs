//! The text of terms and environments.

use vstd::prelude::*;

use crate::environment::{Bindings, Environment};
use crate::syntax::Node;

verus! {

/// The characters of a decimal digit, indexed by its value.
pub open spec fn digit_chars() -> Seq<char> {
    seq!['0', '1', '2', '3', '4', '5', '6', '7', '8', '9']
}

/// The decimal digits of `n`, most significant first.
pub open spec fn digits(n: nat) -> Seq<char>
    decreases n,
{
    if n < 10 {
        seq![digit_chars()[n as int]]
    } else {
        digits(n / 10).push(digit_chars()[(n % 10) as int])
    }
}

/// `n` written in decimal, with a leading `-` when negative.
pub open spec fn decimal(n: int) -> Seq<char> {
    if n < 0 {
        seq!['-'] + digits((-n) as nat)
    } else {
        digits(n as nat)
    }
}

/// `n` spaces.
pub open spec fn spaces(n: nat) -> Seq<char> {
    Seq::new(n, |i: int| ' ')
}

/// One more level of indentation, where there is room for it.
pub open spec fn deeper(indent: usize) -> usize {
    if indent < usize::MAX {
        (indent + 1) as usize
    } else {
        indent
    }
}

/// The text of a term. Closures and calls indent what they nest by `indent`.
pub open spec fn render(t: Node, indent: usize) -> Seq<char>
    decreases t,
{
    match t {
        Node::Number(v) => decimal(v as int),
        Node::Add(l, r) => render(*l, 0) + " + "@ + render(*r, 0),
        Node::Subtract(l, r) => render(*l, 0) + " - "@ + render(*r, 0),
        Node::Multiply(l, r) => render(*l, 0) + " * "@ + render(*r, 0),
        Node::Boolean(b) => if b {
            "true"@
        } else {
            "false"@
        },
        Node::LT(l, r) => render(*l, 0) + " < "@ + render(*r, 0),
        Node::EQ(l, r) => render(*l, 0) + " = "@ + render(*r, 0),
        Node::GT(l, r) => render(*l, 0) + " > "@ + render(*r, 0),
        Node::Variable(n) => n@,
        Node::DoNothing => "do-nothing"@,
        Node::IsDoNothing(x) => "is-do-nothing("@ + render(*x, 0) + ")"@,
        Node::Assign(n, e) => n@ + " = "@ + render(*e, 0),
        Node::If(c, a, b) => "if ("@ + render(*c, 0) + ") "@ + render(*a, 0) + " else "@ + render(
            *b,
            0,
        ),
        Node::Sequence(h, m) => render(*h, 0) + "; "@ + render(*m, 0),
        Node::While(c, b) => "while ("@ + render(*c, 0) + ") "@ + render(*b, 0),
        Node::Pair(a, b) => "pair ("@ + render(*a, 0) + ", "@ + render(*b, 0) + ")"@,
        Node::Fst(p) => "fst ("@ + render(*p, 0) + ")"@,
        Node::Snd(p) => "snd ("@ + render(*p, 0) + ")"@,
        Node::Fun(f, a, b) => "function "@ + f@ + " ("@ + a@ + ") "@ + render(*b, 0),
        Node::Closure(env, fun) => "closure "@ + render(*fun, deeper(indent)) + ", env \n"@ + spaces(
            indent as nat,
        ) + spaces(deeper(indent) as nat) + "{\n"@ + render_lines(env.vars, deeper(indent)) + spaces(
            deeper(indent) as nat,
        ) + "}"@,
        Node::Call(c, a) => "call "@ + render(*c, deeper(indent)) + " arg "@ + render(*a, 0),
    }
}

/// The text of an environment: one line per binding, in braces.
pub open spec fn render_env(b: Bindings, indent: usize) -> Seq<char> {
    spaces(indent as nat) + "{\n"@ + render_lines(b, indent) + spaces(indent as nat) + "}"@
}

/// One line `name = value` for each binding, in order.
pub open spec fn render_lines(b: Bindings, indent: usize) -> Seq<char>
    decreases b,
{
    match b {
        Bindings::Empty => Seq::empty(),
        Bindings::Bind(k, v, rest) => spaces(indent as nat) + k@ + " = "@ + render(*v, 0) + "\n"@
            + render_lines(*rest, indent),
    }
}

fn digit_str(d: u64) -> (r: &'static str)
    requires
        d < 10,
    ensures
        r@ == seq![digit_chars()[d as int]],
{
    proof {
        reveal_strlit("0");
        reveal_strlit("1");
        reveal_strlit("2");
        reveal_strlit("3");
        reveal_strlit("4");
        reveal_strlit("5");
        reveal_strlit("6");
        reveal_strlit("7");
        reveal_strlit("8");
        reveal_strlit("9");
    }
    match d {
        0 => "0",
        1 => "1",
        2 => "2",
        3 => "3",
        4 => "4",
        5 => "5",
        6 => "6",
        7 => "7",
        8 => "8",
        _ => "9",
    }
}

fn push_digits(s: &mut String, n: u64)
    ensures
        final(s)@ == old(s)@ + digits(n as nat),
    decreases n,
{
    if n >= 10 {
        push_digits(s, n / 10);
    }
    s.append(digit_str(n % 10));
    assert(final(s)@ =~= old(s)@ + digits(n as nat));
}

fn push_decimal(s: &mut String, n: i64)
    ensures
        final(s)@ == old(s)@ + decimal(n as int),
{
    if n < 0 {
        proof {
            reveal_strlit("-");
        }
        s.append("-");
        push_digits(s, (0 - (n as i128)) as u64);
        assert(final(s)@ =~= old(s)@ + decimal(n as int));
    } else {
        push_digits(s, n as u64);
    }
}

fn push_spaces(s: &mut String, n: usize)
    ensures
        final(s)@ == old(s)@ + spaces(n as nat),
{
    let ghost start = s@;
    let mut i: usize = 0;
    while i < n
        invariant
            0 <= i <= n,
            s@ == start + spaces(i as nat),
        decreases n - i,
    {
        s.append(" ");
        proof {
            reveal_strlit(" ");
        }
        i = i + 1;
        assert(s@ =~= start + spaces(i as nat));
    }
}

fn push_term(s: &mut String, t: &Node, indent: usize)
    ensures
        final(s)@ == old(s)@ + render(*t, indent),
    decreases t,
{
    let ghost start = s@;
    match t {
        Node::Number(v) => push_decimal(s, *v),
        Node::Add(l, r) => {
            push_term(s, l, 0);
            s.append(" + ");
            push_term(s, r, 0);
        },
        Node::Subtract(l, r) => {
            push_term(s, l, 0);
            s.append(" - ");
            push_term(s, r, 0);
        },
        Node::Multiply(l, r) => {
            push_term(s, l, 0);
            s.append(" * ");
            push_term(s, r, 0);
        },
        Node::Boolean(b) => if *b {
            s.append("true");
        } else {
            s.append("false");
        },
        Node::LT(l, r) => {
            push_term(s, l, 0);
            s.append(" < ");
            push_term(s, r, 0);
        },
        Node::EQ(l, r) => {
            push_term(s, l, 0);
            s.append(" = ");
            push_term(s, r, 0);
        },
        Node::GT(l, r) => {
            push_term(s, l, 0);
            s.append(" > ");
            push_term(s, r, 0);
        },
        Node::Variable(n) => s.append(n.as_str()),
        Node::DoNothing => s.append("do-nothing"),
        Node::IsDoNothing(x) => {
            s.append("is-do-nothing(");
            push_term(s, x, 0);
            s.append(")");
        },
        Node::Assign(n, e) => {
            s.append(n.as_str());
            s.append(" = ");
            push_term(s, e, 0);
        },
        Node::If(c, a, b) => {
            s.append("if (");
            push_term(s, c, 0);
            s.append(") ");
            push_term(s, a, 0);
            s.append(" else ");
            push_term(s, b, 0);
        },
        Node::Sequence(h, m) => {
            push_term(s, h, 0);
            s.append("; ");
            push_term(s, m, 0);
        },
        Node::While(c, b) => {
            s.append("while (");
            push_term(s, c, 0);
            s.append(") ");
            push_term(s, b, 0);
        },
        Node::Pair(a, b) => {
            s.append("pair (");
            push_term(s, a, 0);
            s.append(", ");
            push_term(s, b, 0);
            s.append(")");
        },
        Node::Fst(p) => {
            s.append("fst (");
            push_term(s, p, 0);
            s.append(")");
        },
        Node::Snd(p) => {
            s.append("snd (");
            push_term(s, p, 0);
            s.append(")");
        },
        Node::Fun(f, a, b) => {
            s.append("function ");
            s.append(f.as_str());
            s.append(" (");
            s.append(a.as_str());
            s.append(") ");
            push_term(s, b, 0);
        },
        Node::Closure(env, fun) => {
            let inner = indent.saturating_add(1);
            s.append("closure ");
            push_term(s, fun, inner);
            s.append(", env \n");
            push_spaces(s, indent);
            push_spaces(s, inner);
            s.append("{\n");
            push_lines(s, &env.vars, inner);
            push_spaces(s, inner);
            s.append("}");
        },
        Node::Call(c, a) => {
            s.append("call ");
            push_term(s, c, indent.saturating_add(1));
            s.append(" arg ");
            push_term(s, a, 0);
        },
    }
    assert(s@ =~= start + render(*t, indent));
}

fn push_env(s: &mut String, b: &Bindings, indent: usize)
    ensures
        final(s)@ == old(s)@ + render_env(*b, indent),
{
    let ghost start = s@;
    push_spaces(s, indent);
    s.append("{\n");
    push_lines(s, b, indent);
    push_spaces(s, indent);
    s.append("}");
    assert(s@ =~= start + render_env(*b, indent));
}

fn push_lines(s: &mut String, b: &Bindings, indent: usize)
    ensures
        final(s)@ == old(s)@ + render_lines(*b, indent),
    decreases b,
{
    let ghost start = s@;
    match b {
        Bindings::Empty => {},
        Bindings::Bind(k, v, rest) => {
            push_spaces(s, indent);
            s.append(k.as_str());
            s.append(" = ");
            push_term(s, v, 0);
            s.append("\n");
            push_lines(s, rest, indent);
        },
    }
    assert(s@ =~= start + render_lines(*b, indent));
}

impl Node {
    /// The text of this term, with what closures and calls nest indented by
    /// `indent`.
    pub fn prettyprint(&self, indent: usize) -> (r: String)
        ensures
            r@ == render(*self, indent),
    {
        let mut s = String::new();
        push_term(&mut s, self, indent);
        assert(s@ =~= render(*self, indent));
        s
    }

    /// The text of this term.
    pub fn to_string(&self) -> (r: String)
        ensures
            r@ == render(*self, 0),
    {
        self.prettyprint(0)
    }
}

impl Environment {
    /// The text of this environment, indented by `indent`: one line per
    /// binding, in braces.
    pub fn prettyprint(&self, indent: usize) -> (r: String)
        ensures
            r@ == render_env(self.vars, indent),
    {
        let mut s = String::new();
        push_env(&mut s, &self.vars, indent);
        assert(s@ =~= render_env(self.vars, indent));
        s
    }
}

} // verus!
