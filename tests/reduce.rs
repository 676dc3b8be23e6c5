use proglang::environment::Environment;
use proglang::machine::Machine;
use proglang::reduce::Reduce;
use proglang::syntax::Node;

#[test]
fn test_simple_small_number() {
    let n = Node::number(3);
    assert_eq!("3", n.to_string());
    assert!(!n.reducible());
}

#[test]
fn test_simple_small_arithmetic() {
    let m = Node::add(
        Node::multiply(Node::number(1), Node::number(2)),
        Node::multiply(Node::number(3), Node::number(4)),
    );
    assert!(m.reducible());
    let mut machine = Machine::new_with_empty_env(m);
    machine.run().unwrap();
    assert!(!machine.get_expression().reducible());
    assert_eq!(14, machine.get_expression().value());
}

#[test]
fn test_simple_small_lessthan() {
    let m = Node::lt(Node::number(5), Node::add(Node::number(2), Node::number(2)));
    let mut machine = Machine::new_with_empty_env(m);
    machine.run().unwrap();
    assert!(!machine.get_expression().condition());
}

#[test]
fn test_simple_small_variable() {
    let mut env = Environment::new();
    env.add("x", Node::number(3));
    env.add("y", Node::number(4));
    let mut machine = Machine::new(Node::add(Node::variable("x"), Node::variable("y")), env);
    machine.run().unwrap();

    assert_eq!(7, machine.get_expression().value());
}

#[test]
fn test_simple_small_statement() {
    let mut statement = Node::assign("x", Node::add(Node::variable("x"), Node::number(1)));
    let mut env = Environment::new();
    env.add("x", Node::number(2));

    assert!(statement.reducible());
    statement = statement.reduce(&mut env).unwrap();
    println!("{0}; {1}", statement.to_string(), env.prettyprint(0));
    statement = statement.reduce(&mut env).unwrap();
    println!("{0}; {1}", statement.to_string(), env.prettyprint(0));
    statement = statement.reduce(&mut env).unwrap();
    println!("{0}; {1}", statement.to_string(), env.prettyprint(0));
    assert!(!statement.reducible());
}

#[test]
fn test_simple_small_true() {
    let mut env = Environment::new();
    env.add("x", Node::boolean(true));

    let mut machine = Machine::new(
        Node::if_cond_else(
            Node::variable("x"),
            Node::assign("y", Node::number(1)),
            Node::assign("y", Node::number(2)),
        ),
        env,
    );
    machine.run().unwrap();
    assert_eq!(1, machine.environment.get("y").unwrap().value());
}

#[test]
#[should_panic]
fn test_simple_small_false() {
    let mut env = Environment::new();
    env.add("x", Node::boolean(false));
    let mut machine = Machine::new(
        Node::if_cond_else(Node::variable("x"), Node::assign("y", Node::number(1)), Node::donothing()),
        env,
    );
    machine.run().unwrap();
    assert!(machine.environment.get("y").unwrap().condition()); // should blow up
}

#[test]
fn test_simple_small_sequence() {
    let mut machine = Machine::new_with_empty_env(Node::sequence(
        Node::assign("x", Node::add(Node::number(1), Node::number(1))),
        Node::assign("y", Node::add(Node::variable("x"), Node::number(3))),
    ));
    machine.run().unwrap();
    assert_eq!(2, machine.environment.get("x").unwrap().value());
    assert_eq!(5, machine.environment.get("y").unwrap().value());
}

#[test]
fn test_simple_small_while() {
    let mut env = Environment::new();
    env.add("x", Node::number(1));
    let mut machine = Machine::new(
        Node::while_node(
            Node::lt(Node::variable("x"), Node::number(5)),
            Node::assign("x", Node::multiply(Node::variable("x"), Node::number(3))),
        ),
        env,
    );

    machine.run().unwrap();
    assert_eq!(9, machine.environment.get("x").unwrap().value());
}

#[test]
fn test_simple_small_pair() {
    let mut env = Environment::new();
    env.add(
        "p",
        Node::pair(
            Node::add(Node::number(3), Node::number(4)),
            Node::multiply(Node::number(5), Node::number(6)),
        ),
    );
    let mut machine = Machine::new(
        Node::sequence(
            Node::assign("y", Node::fst(Node::variable("p"))),
            Node::assign("z", Node::snd(Node::variable("p"))),
        ),
        env,
    );

    machine.run().unwrap();
    assert_eq!(7, machine.environment.get("y").unwrap().value());
    assert_eq!(30, machine.environment.get("z").unwrap().value());
}
