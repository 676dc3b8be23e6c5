use proglang::environment::Environment;
use proglang::evaluate::Evaluate;
use proglang::syntax::Node;

#[test]
fn test_simple_big_number() {
    let n = Node::number(3);
    let mut env = Environment::new();
    assert_eq!(3, n.evaluate(&mut env).unwrap().value());
}

#[test]
fn test_simple_big_variable() {
    let n = Node::variable("x");
    let mut env = Environment::new();
    env.add("x", Node::number(23));
    assert_eq!(23, n.evaluate(&mut env).unwrap().value());
}

#[test]
fn test_simple_big_arithmetic() {
    let n = Node::multiply(Node::number(14), Node::number(3));
    let mut env = Environment::new();
    assert_eq!(42, n.evaluate(&mut env).unwrap().value());
}

#[test]
fn test_simple_big_lessthan() {
    let n = Node::lt(Node::add(Node::variable("x"), Node::number(2)), Node::variable("y"));
    let mut env = Environment::new();
    env.add("x", Node::number(2));
    env.add("y", Node::number(5));
    assert!(n.evaluate(&mut env).unwrap().condition());
}

#[test]
fn test_simple_big_sequence() {
    let statement = Node::sequence(
        Node::assign("x", Node::add(Node::number(1), Node::number(1))),
        Node::assign("y", Node::add(Node::variable("x"), Node::number(3))),
    );
    let mut env = Environment::new();
    println!("{:?}", statement.evaluate(&mut env));
    assert_eq!(2, env.get("x").unwrap().value());
    assert_eq!(5, env.get("y").unwrap().value());
}

#[test]
fn test_simple_big_while() {
    let statement = Node::while_node(
        Node::lt(Node::variable("x"), Node::number(5)),
        Node::assign("x", Node::multiply(Node::variable("x"), Node::number(3))),
    );
    let mut env = Environment::new();
    env.add("x", Node::number(1));
    println!("{:?}", statement.evaluate(&mut env));
    assert_eq!(9, env.get("x").unwrap().value());
}

#[test]
fn test_simple_big_pair() {
    let statement = Node::sequence(
        Node::assign("y", Node::fst(Node::variable("p"))),
        Node::assign("z", Node::snd(Node::variable("p"))),
    );
    let mut env = Environment::new();
    env.add(
        "p",
        Node::pair(
            Node::add(Node::number(3), Node::number(4)),
            Node::multiply(Node::number(5), Node::number(6)),
        ),
    );
    println!("{:?}", statement.evaluate(&mut env));
    assert_eq!(7, env.get("y").unwrap().value());
    assert_eq!(30, env.get("z").unwrap().value());
}

#[test]
fn test_simple_big_function() {
    let statement = Node::assign("x", Node::call(Node::fun("const", "", Node::number(42)), Node::donothing()));
    let mut env = Environment::new();
    println!("{:?}", statement.evaluate(&mut env));
    assert_eq!(42, env.get("x").unwrap().value());
}

#[test]
fn test_simple_big_function_var() {
    let add1 = Node::fun("add1", "x", Node::add(Node::variable("x"), Node::number(1)));
    let statement = Node::sequence(
        Node::assign("f", add1),
        Node::assign("result", Node::call(Node::variable("f"), Node::number(4))),
    );
    let mut env = Environment::new();
    println!("{:?}", statement.evaluate(&mut env));
    assert_eq!(5, env.get("result").unwrap().value());
}

#[test]
fn test_simple_big_function_env() {
    let x_add_y = Node::fun("add1", "y", Node::add(Node::variable("x"), Node::variable("y")));
    let statement = Node::sequence(
        Node::assign("x", Node::number(3)),
        Node::sequence(
            Node::assign("add3", x_add_y),
            Node::sequence(
                Node::assign("x", Node::number(5)),
                Node::assign("result", Node::call(Node::variable("add3"), Node::number(4))),
            ),
        ),
    );
    let mut env = Environment::new();
    println!("{:?}", statement.evaluate(&mut env));
    assert_eq!(7, env.get("result").unwrap().value());
}

#[test]
fn test_simple_big_function_twoarg() {
    let x_add_y = Node::fun(
        "addx",
        "x",
        Node::fun("addy", "y", Node::add(Node::variable("x"), Node::variable("y"))),
    );
    let statement = Node::assign("result", Node::call(Node::call(x_add_y, Node::number(17)), Node::number(31)));
    let mut env = Environment::new();
    println!("{:?}", statement.evaluate(&mut env));
    assert_eq!(48, env.get("result").unwrap().value());
}
