use scratchpad::env::{EnvError, Environment};
use scratchpad::value::Value;

#[test]
fn assign_updates_mutable_binding() {
    let mut env = Environment::new();
    env.declare(String::from("y"), Value::Integer(5), true);
    assert_eq!(env.assign(&String::from("y"), Value::Integer(4)), Ok(()));
    assert_eq!(env.lookup(&String::from("y")), Ok(&Value::Integer(4)));
}

#[test]
fn shadowing_after_reading_old_value() {
    let mut env = Environment::new();
    env.declare(String::from("z"), Value::Integer(5), false);
    let old = match env.lookup(&String::from("z")) {
        Ok(Value::Integer(n)) => *n,
        other => panic!("expected an integer, got {:?}", other),
    };
    env.declare(String::from("z"), Value::Integer(old + 1), false);
    assert_eq!(env.lookup(&String::from("z")), Ok(&Value::Integer(6)));
}

#[test]
fn assigning_immutable_binding_fails() {
    let mut env = Environment::new();
    env.declare(String::from("x"), Value::Integer(5), false);
    assert_eq!(
        env.assign(&String::from("x"), Value::Integer(6)),
        Err(EnvError::ImmutableAssignment)
    );
    // The failed write left the binding untouched.
    assert_eq!(env.lookup(&String::from("x")), Ok(&Value::Integer(5)));
}

#[test]
fn shadowing_may_change_kind_and_mutability() {
    let mut env = Environment::new();
    env.declare(String::from("spaces"), Value::Text(String::from("  ")), false);
    env.declare(String::from("spaces"), Value::Integer(2), false);
    assert_eq!(env.lookup(&String::from("spaces")), Ok(&Value::Integer(2)));
}

#[test]
fn lookup_of_undeclared_name_fails() {
    let env = Environment::new();
    assert_eq!(env.lookup(&String::from("missing")), Err(EnvError::UnknownName));
}

#[test]
fn assign_to_undeclared_name_fails() {
    let mut env = Environment::new();
    env.declare(String::from("present"), Value::Boolean(true), true);
    assert_eq!(
        env.assign(&String::from("absent"), Value::Boolean(false)),
        Err(EnvError::UnknownName)
    );
}

#[test]
fn assign_checks_kind_of_newest_cell() {
    let mut env = Environment::new();
    env.declare(String::from("y"), Value::Integer(5), true);
    assert_eq!(
        env.assign(&String::from("y"), Value::Boolean(true)),
        Err(EnvError::TypeMismatch)
    );
    assert_eq!(env.lookup(&String::from("y")), Ok(&Value::Integer(5)));
}

#[test]
fn assign_targets_newest_declaration() {
    let mut env = Environment::new();
    // The older, immutable cell is shadowed by a mutable one: assignment
    // must reach the newest cell and succeed.
    env.declare(String::from("a"), Value::Integer(1), false);
    env.declare(String::from("a"), Value::Integer(2), true);
    assert_eq!(env.assign(&String::from("a"), Value::Integer(3)), Ok(()));
    assert_eq!(env.lookup(&String::from("a")), Ok(&Value::Integer(3)));

    // And the other way round: a mutable cell shadowed by an immutable one
    // refuses assignment.
    env.declare(String::from("b"), Value::Integer(1), true);
    env.declare(String::from("b"), Value::Integer(2), false);
    assert_eq!(
        env.assign(&String::from("b"), Value::Integer(3)),
        Err(EnvError::ImmutableAssignment)
    );
}

#[test]
fn distinct_names_do_not_interfere() {
    let mut env = Environment::new();
    env.declare(String::from("y"), Value::Integer(5), true);
    env.declare(String::from("z"), Value::Integer(7), false);
    assert_eq!(env.assign(&String::from("y"), Value::Integer(4)), Ok(()));
    assert_eq!(env.lookup(&String::from("y")), Ok(&Value::Integer(4)));
    assert_eq!(env.lookup(&String::from("z")), Ok(&Value::Integer(7)));
}

#[test]
fn float_bits_survive_storage() {
    let mut env = Environment::new();
    env.declare(String::from("float2"), Value::Float(2.718281828459045f64.to_bits()), false);
    match env.lookup(&String::from("float2")) {
        Ok(Value::Float(bits)) => assert_eq!(f64::from_bits(*bits), 2.718281828459045),
        other => panic!("expected a float, got {:?}", other),
    }
}

#[test]
fn mutable_float_binding_keeps_its_kind() {
    let mut env = Environment::new();
    env.declare(String::from("f"), Value::Float(3.14f64.to_bits()), true);
    assert_eq!(
        env.assign(&String::from("f"), Value::Integer(3)),
        Err(EnvError::TypeMismatch)
    );
    assert_eq!(env.assign(&String::from("f"), Value::Float(6.28f64.to_bits())), Ok(()));
    match env.lookup(&String::from("f")) {
        Ok(Value::Float(bits)) => assert_eq!(f64::from_bits(*bits), 6.28),
        other => panic!("expected a float, got {:?}", other),
    }
}
