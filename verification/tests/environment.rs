use env_loader::environment::{Environment, Variable};

fn environment(pairs: &[(&str, &str)]) -> Environment {
    let mut environment = Environment::new();
    for (name, value) in pairs {
        environment.insert(name.to_string(), value.to_string());
    }
    environment
}

fn variable(name: &str, value: &str) -> Variable {
    Variable { name: name.to_string(), value: value.to_string() }
}

#[test]
fn new_environment_is_empty() {
    let environment = Environment::new();
    assert_eq!(environment.len(), 0);
    assert!(environment.variables().is_empty());
    assert!(!environment.contains("PATH"));
    assert_eq!(environment.get("PATH"), None);
    assert_eq!(environment.assignments(), Vec::<String>::new());
}

#[test]
fn insert_binds_a_name() {
    let environment = environment(&[("FOO", "bar")]);
    assert_eq!(environment.len(), 1);
    assert!(environment.contains("FOO"));
    assert_eq!(environment.get("FOO"), Some(&"bar".to_string()));
    assert!(!environment.contains("foo"));
    assert_eq!(environment.get("FO"), None);
}

#[test]
fn insert_keeps_the_order_of_arrival() {
    let environment = environment(&[("B", "2"), ("A", "1"), ("C", "3")]);
    assert_eq!(
        environment.variables(),
        &vec![variable("B", "2"), variable("A", "1"), variable("C", "3")]
    );
}

#[test]
fn insert_lets_the_last_write_win() {
    let environment = environment(&[("A", "1"), ("B", "2"), ("A", "3")]);
    assert_eq!(environment.len(), 2);
    assert_eq!(environment.get("A"), Some(&"3".to_string()));
    assert_eq!(environment.get("B"), Some(&"2".to_string()));
    assert_eq!(environment.variables(), &vec![variable("A", "3"), variable("B", "2")]);
}

#[test]
fn assignments_join_name_and_value_with_an_equals_sign() {
    let environment = environment(&[("FOO", "bar"), ("EMPTY", ""), ("EQ", "a=b")]);
    assert_eq!(
        environment.assignments(),
        vec!["FOO=bar".to_string(), "EMPTY=".to_string(), "EQ=a=b".to_string()]
    );
}

#[test]
fn len_counts_names_not_writes() {
    let environment = environment(&[("A", "1"), ("A", "2"), ("A", "3"), ("B", "4")]);
    assert_eq!(environment.len(), 2);
}
