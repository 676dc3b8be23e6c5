use proglang::environment::Environment;
use proglang::evaluate::{eval_with_fuel, get_free_vars, Evaluate};
use proglang::machine::Machine;
use proglang::reduce::Reduce;
use proglang::syntax::{EvalError, Node, Shape};

fn num(n: i64) -> Box<Node> {
    Node::number(n)
}

fn var(name: &str) -> Box<Node> {
    Node::variable(name)
}

fn evaluate_value(term: &Node) -> i64 {
    let mut env = Environment::new();
    term.evaluate(&mut env).unwrap().value()
}

#[test]
fn arithmetic_combines_operand_values() {
    let a = || Node::multiply(num(2), num(3));
    let b = || Node::subtract(num(10), num(4));
    assert_eq!(evaluate_value(&a()), 6);
    assert_eq!(evaluate_value(&b()), 6);
    assert_eq!(evaluate_value(&Node::add(a(), b())), 12);
    assert_eq!(evaluate_value(&Node::subtract(a(), b())), 0);
    assert_eq!(evaluate_value(&Node::multiply(a(), b())), 36);
    assert_eq!(evaluate_value(&Node::subtract(num(3), num(10))), -7);
}

#[test]
fn arithmetic_operands_run_left_to_right() {
    let term = Node::add(
        Node::sequence(Node::assign("x", num(1)), var("x")),
        Node::sequence(Node::assign("x", Node::add(var("x"), num(10))), var("x")),
    );
    let mut env = Environment::new();
    assert_eq!(term.evaluate(&mut env).unwrap().value(), 12);
    assert_eq!(env.get("x").unwrap().value(), 11);
}

#[test]
fn greater_than_is_swapped_less_than() {
    for (a, b) in [(1, 2), (2, 1), (3, 3), (-5, 4)] {
        let mut env = Environment::new();
        let gt = Node::gt(num(a), num(b)).evaluate(&mut env).unwrap().condition();
        let lt = Node::lt(num(b), num(a)).evaluate(&mut env).unwrap().condition();
        assert_eq!(gt, lt);
        assert_eq!(gt, a > b);
    }
}

#[test]
fn greater_than_reduces_to_less_than() {
    let mut env = Environment::new();
    let step = Node::gt(num(1), num(2)).reduce(&mut env).unwrap();
    assert_eq!(*step, *Node::lt(num(2), num(1)));
}

#[test]
fn equality_compares_numbers() {
    assert!(Node::eq(num(4), Node::add(num(2), num(2))).evaluate(&mut Environment::new()).unwrap().condition());
    assert!(!Node::eq(num(4), num(5)).evaluate(&mut Environment::new()).unwrap().condition());
}

fn sample_program() -> Box<Node> {
    Node::sequence(
        Node::assign("x", num(1)),
        Node::sequence(
            Node::assign("p", Node::pair(Node::add(num(1), num(2)), Node::boolean(true))),
            Node::sequence(
                Node::while_node(
                    Node::lt(var("x"), num(20)),
                    Node::assign("x", Node::multiply(var("x"), num(3))),
                ),
                Node::if_cond_else(
                    Node::snd(var("p")),
                    Node::assign("y", Node::add(Node::fst(var("p")), var("x"))),
                    Node::assign("y", num(0)),
                ),
            ),
        ),
    )
}

#[test]
fn machine_and_evaluator_agree() {
    let mut env = Environment::new();
    let value = sample_program().evaluate(&mut env).unwrap();
    let mut machine = Machine::new_with_empty_env(sample_program());
    machine.run().unwrap();
    assert_eq!(*machine.get_expression(), *value);
    assert_eq!(machine.get_environment(), env);
    assert_eq!(env.get("x").unwrap().value(), 27);
    assert_eq!(env.get("y").unwrap().value(), 30);
}

#[test]
fn normal_forms_are_not_reduced() {
    let mut env = Environment::new();
    env.add("x", num(1));
    for value in [num(3), Node::boolean(false), Node::donothing()] {
        assert!(!value.reducible());
        match value.reduce(&mut env) {
            Err(EvalError::UnhandledTerm(t)) => assert_eq!(*t, *value),
            other => panic!("unexpected {:?}", other),
        }
    }
    let pair = Node::pair(num(1), num(2));
    assert!(!pair.reducible());
    assert_eq!(*pair.reduce(&mut env).unwrap(), *pair);
    assert!(Node::pair(num(1), Node::add(num(1), num(1))).reducible());
    let mut machine = Machine::new(Node::pair(num(1), num(2)), env.snapshot());
    machine.run().unwrap();
    assert_eq!(*machine.get_expression(), *Node::pair(num(1), num(2)));
    assert_eq!(machine.get_environment(), env);
}

#[test]
fn closures_capture_by_value() {
    let statement = Node::sequence(
        Node::assign("x", num(3)),
        Node::sequence(
            Node::assign("f", Node::fun("f", "y", Node::add(var("x"), var("y")))),
            Node::sequence(
                Node::assign("x", num(5)),
                Node::assign("result", Node::call(var("f"), num(4))),
            ),
        ),
    );
    let mut env = Environment::new();
    statement.evaluate(&mut env).unwrap();
    assert_eq!(env.get("result").unwrap().value(), 7);
    assert_eq!(env.get("x").unwrap().value(), 5);
}

#[test]
fn calls_do_not_leak_assignments() {
    let body = Node::sequence(Node::assign("x", num(10)), Node::add(var("x"), var("y")));
    let statement = Node::sequence(
        Node::assign("x", num(1)),
        Node::assign("result", Node::call(Node::fun("g", "y", body), num(1))),
    );
    let mut env = Environment::new();
    statement.evaluate(&mut env).unwrap();
    assert_eq!(env.get("result").unwrap().value(), 11);
    assert_eq!(env.get("x").unwrap().value(), 1);
}

#[test]
fn recursion_through_self_binding() {
    let sum = Node::fun(
        "sum",
        "n",
        Node::if_cond_else(
            Node::eq(var("n"), num(0)),
            num(0),
            Node::add(var("n"), Node::call(var("sum"), Node::subtract(var("n"), num(1)))),
        ),
    );
    let statement = Node::call(sum, num(100));
    assert_eq!(evaluate_value(&statement), 5050);
}

#[test]
fn pair_projections_give_back_components() {
    let pair = || Node::pair(Node::add(num(1), num(2)), Node::multiply(num(3), num(4)));
    assert_eq!(evaluate_value(&Node::fst(pair())), 3);
    assert_eq!(evaluate_value(&Node::snd(pair())), 12);
    let mut machine = Machine::new_with_empty_env(Node::snd(pair()));
    machine.run().unwrap();
    assert_eq!(machine.get_expression().value(), 12);
}

#[test]
fn free_variables_of_functions() {
    let nested = Node::fun("addx", "x", Node::fun("addy", "y", Node::add(var("x"), var("y"))));
    assert!(get_free_vars(&nested).is_empty());
    let open = Node::fun("f", "x", Node::add(var("x"), var("y")));
    assert_eq!(get_free_vars(&open), vec!["y".to_string()]);
    let twice = Node::fun("f", "x", Node::add(var("z"), Node::add(var("y"), var("z"))));
    assert_eq!(get_free_vars(&twice), vec!["z".to_string(), "y".to_string()]);
    let assigned = Node::fun("f", "", Node::sequence(Node::assign("a", num(1)), var("a")));
    assert!(get_free_vars(&assigned).is_empty());
    let through_call = Node::fun("f", "x", Node::call(var("h"), var("x")));
    assert_eq!(get_free_vars(&through_call), vec!["h".to_string()]);
}

#[test]
fn function_calls_a_captured_function() {
    let statement = Node::sequence(
        Node::assign("h", Node::fun("h", "n", Node::multiply(var("n"), num(2)))),
        Node::sequence(
            Node::assign("g", Node::fun("g", "x", Node::call(var("h"), var("x")))),
            Node::call(var("g"), num(21)),
        ),
    );
    assert_eq!(evaluate_value(&statement), 42);
}

#[test]
fn unbound_variable_fails() {
    let mut env = Environment::new();
    match Node::variable("z").evaluate(&mut env) {
        Err(EvalError::UnboundVariable(name)) => assert_eq!(name, "z"),
        other => panic!("unexpected {:?}", other),
    }
    match env.get("z") {
        Err(EvalError::UnboundVariable(name)) => assert_eq!(name, "z"),
        other => panic!("unexpected {:?}", other),
    }
    let mut machine = Machine::new_with_empty_env(Node::add(var("z"), num(1)));
    assert!(matches!(machine.run(), Err(EvalError::UnboundVariable(_))));
}

#[test]
fn free_variable_missing_at_call_fails() {
    let statement = Node::call(Node::fun("f", "x", Node::add(var("x"), var("w"))), num(1));
    match statement.evaluate(&mut Environment::new()) {
        Err(EvalError::UnboundVariable(name)) => assert_eq!(name, "w"),
        other => panic!("unexpected {:?}", other),
    }
}

#[test]
fn type_mismatches() {
    let cases: Vec<(Box<Node>, Shape)> = vec![
        (Node::add(Node::boolean(true), num(1)), Shape::Number),
        (Node::lt(num(1), Node::donothing()), Shape::Number),
        (Node::if_cond_else(num(1), num(2), num(3)), Shape::Boolean),
        (Node::while_node(num(0), Node::donothing()), Shape::Boolean),
        (Node::fst(num(3)), Shape::Pair),
        (Node::snd(Node::boolean(false)), Shape::Pair),
        (Node::call(num(3), num(1)), Shape::Closure),
        (Node::call(Node::closure(Environment::new(), num(1)), num(1)), Shape::Function),
    ];
    for (term, shape) in cases {
        match term.evaluate(&mut Environment::new()) {
            Err(EvalError::TypeMismatch(s, _)) => assert_eq!(s, shape),
            other => panic!("unexpected {:?}", other),
        }
    }
    match Node::add(Node::boolean(true), num(1)).evaluate(&mut Environment::new()) {
        Err(EvalError::TypeMismatch(_, t)) => assert_eq!(*t, Node::Boolean(true)),
        other => panic!("unexpected {:?}", other),
    }
}

#[test]
fn reducer_type_mismatches() {
    let mut env = Environment::new();
    assert!(matches!(
        Node::if_cond_else(num(1), num(2), num(3)).reduce(&mut env),
        Err(EvalError::TypeMismatch(Shape::Boolean, _))
    ));
    assert!(matches!(Node::fst(num(1)).reduce(&mut env), Err(EvalError::TypeMismatch(Shape::Pair, _))));
    assert!(matches!(
        Node::add(Node::donothing(), num(1)).reduce(&mut env),
        Err(EvalError::TypeMismatch(Shape::Number, _))
    ));
}

#[test]
fn reducer_leaves_calls_unhandled() {
    let mut env = Environment::new();
    let call = Node::call(Node::fun("f", "", num(1)), Node::donothing());
    assert!(matches!(call.reduce(&mut env), Err(EvalError::UnhandledTerm(_))));
    let closure = Node::fun("f", "", num(1)).reduce(&mut env).unwrap();
    assert!(matches!(*closure, Node::Closure(_, _)));
    assert!(!closure.reducible());
}

#[test]
fn overflow_is_reported() {
    for term in [
        Node::add(num(i64::MAX), num(1)),
        Node::subtract(num(i64::MIN), num(1)),
        Node::multiply(num(i64::MAX / 2 + 1), num(2)),
    ] {
        assert!(matches!(term.evaluate(&mut Environment::new()), Err(EvalError::Overflow(_))));
        assert!(matches!(term.reduce(&mut Environment::new()), Err(EvalError::Overflow(_))));
    }
    assert_eq!(evaluate_value(&Node::add(num(i64::MAX - 1), num(1))), i64::MAX);
}

#[test]
fn endless_loop_runs_out_of_fuel() {
    let forever = Node::while_node(Node::boolean(true), Node::donothing());
    let mut env = Environment::new();
    assert!(matches!(eval_with_fuel(&forever, &mut env, 1000), Err(EvalError::OutOfFuel)));
    assert!(matches!(eval_with_fuel(&num(1), &mut env, 0), Err(EvalError::OutOfFuel)));
    assert_eq!(eval_with_fuel(&num(1), &mut env, 1).unwrap(), Node::Number(1));
}

#[test]
fn sequence_yields_its_last_result() {
    let statement = Node::sequence(Node::assign("x", num(4)), Node::add(var("x"), num(1)));
    assert_eq!(evaluate_value(&statement), 5);
    let statement = Node::sequence(Node::assign("x", num(4)), Node::assign("y", num(1)));
    assert_eq!(*statement.evaluate(&mut Environment::new()).unwrap(), Node::DoNothing);
}

#[test]
fn is_do_nothing_tests_for_the_unit_value() {
    let t = Node::isdonothing(Node::assign("x", num(1)));
    assert!(t.evaluate(&mut Environment::new()).unwrap().condition());
    let f = Node::isdonothing(Node::add(num(1), num(1)));
    assert!(!f.evaluate(&mut Environment::new()).unwrap().condition());
    let mut machine = Machine::new_with_empty_env(Node::isdonothing(Node::assign("x", num(1))));
    machine.run().unwrap();
    assert!(machine.get_expression().condition());
}

#[test]
fn rebinding_replaces_in_place() {
    let mut env = Environment::new();
    env.add("x", num(1));
    env.add("y", num(2));
    env.add("x", num(3));
    assert_eq!(env.get("x").unwrap().value(), 3);
    assert_eq!(env.prettyprint(0), "{\nx = 3\ny = 2\n}");
    assert_eq!(env.prettyprint(2), "  {\n  x = 3\n  y = 2\n  }");
    assert_eq!(Environment::new().prettyprint(0), "{\n}");
}

#[test]
fn snapshot_is_independent() {
    let mut env = Environment::new();
    env.add("x", num(1));
    let copy = env.snapshot();
    env.add("x", num(2));
    assert_eq!(copy.get("x").unwrap().value(), 1);
    assert_eq!(env.get("x").unwrap().value(), 2);
}

#[test]
fn terms_print_in_their_notation() {
    assert_eq!(num(-42).to_string(), "-42");
    assert_eq!(num(i64::MIN).to_string(), "-9223372036854775808");
    assert_eq!(num(1234567890).to_string(), "1234567890");
    assert_eq!(Node::add(num(1), Node::multiply(var("x"), num(2))).to_string(), "1 + x * 2");
    assert_eq!(Node::subtract(num(1), num(0)).to_string(), "1 - 0");
    assert_eq!(
        Node::if_cond_else(Node::lt(var("x"), num(3)), Node::assign("y", num(1)), Node::donothing()).to_string(),
        "if (x < 3) y = 1 else do-nothing"
    );
    assert_eq!(Node::gt(var("a"), var("b")).to_string(), "a > b");
    assert_eq!(Node::eq(var("a"), Node::boolean(true)).to_string(), "a = true");
    assert_eq!(Node::while_node(Node::boolean(false), var("x")).to_string(), "while (false) x");
    assert_eq!(Node::sequence(var("a"), var("b")).to_string(), "a; b");
    assert_eq!(Node::pair(num(1), num(2)).to_string(), "pair (1, 2)");
    assert_eq!(Node::fst(var("p")).to_string(), "fst (p)");
    assert_eq!(Node::snd(var("p")).to_string(), "snd (p)");
    assert_eq!(Node::isdonothing(var("p")).to_string(), "is-do-nothing(p)");
    assert_eq!(
        Node::fun("f", "x", Node::add(var("x"), num(1))).to_string(),
        "function f (x) x + 1"
    );
    assert_eq!(Node::call(var("f"), num(2)).to_string(), "call f arg 2");
    let mut env = Environment::new();
    env.add("a", num(1));
    let closure = Node::closure(env, Node::fun("g", "", num(0)));
    assert_eq!(closure.to_string(), "closure function g () 0, env \n {\n a = 1\n }");
    assert_eq!(closure.prettyprint(1), "closure function g () 0, env \n   {\n  a = 1\n  }");
}
