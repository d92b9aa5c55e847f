use env_loader::classifier::{classify, classify_name, Class};
use env_loader::config::Configuration;
use env_loader::environment::{Environment, Variable};
use env_loader::warning::Warning;

fn environment(pairs: &[(&str, &str)]) -> Environment {
    let mut environment = Environment::new();
    for (name, value) in pairs {
        environment.insert(name.to_string(), value.to_string());
    }
    environment
}

fn variable(name: &str, value: &str) -> Variable {
    Variable { name: name.to_string(), value: value.to_string() }
}

fn configuration(pass: &[&str], env_prefix: Option<&str>) -> Configuration {
    Configuration {
        pass: pass.iter().map(|name| name.to_string()).collect(),
        env_prefix: env_prefix.map(|prefix| prefix.to_string()),
        ignore_missing: false,
        cmd: vec!["true".to_string()],
    }
}

#[test]
fn without_prefix_and_pass_list_every_name_is_a_candidate() {
    let config = configuration(&[], None);
    assert_eq!(classify_name("FOO", &config), Class::Candidate);
    assert_eq!(classify_name("", &config), Class::Candidate);
}

#[test]
fn a_name_on_the_pass_list_is_passed() {
    let config = configuration(&["HOME", "PATH"], None);
    assert_eq!(classify_name("HOME", &config), Class::ExplicitPass);
    assert_eq!(classify_name("PATH", &config), Class::ExplicitPass);
    assert_eq!(classify_name("HOMER", &config), Class::Candidate);
    assert_eq!(classify_name("home", &config), Class::Candidate);
}

#[test]
fn a_name_without_the_prefix_is_passed() {
    let config = configuration(&[], Some("APP_"));
    assert_eq!(classify_name("OTHER", &config), Class::PrefixPass);
    assert_eq!(classify_name("APP", &config), Class::PrefixPass);
    assert_eq!(classify_name("XAPP_Y", &config), Class::PrefixPass);
    assert_eq!(classify_name("APP_SECRET", &config), Class::Candidate);
    assert_eq!(classify_name("APP_", &config), Class::Candidate);
}

#[test]
fn the_pass_list_comes_before_the_prefix() {
    let config = configuration(&["APP_KEEP", "OTHER"], Some("APP_"));
    assert_eq!(classify_name("APP_KEEP", &config), Class::ExplicitPass);
    assert_eq!(classify_name("OTHER", &config), Class::ExplicitPass);
}

#[test]
fn with_the_empty_prefix_every_name_is_a_candidate() {
    let config = configuration(&[], Some(""));
    assert_eq!(classify_name("ANY", &config), Class::Candidate);
}

#[test]
fn classify_sorts_every_variable_into_one_place() {
    let raw = environment(&[
        ("HOME", "/root"),
        ("APP_A", "value::1"),
        ("OTHER", "x::y"),
        ("APP_KEEP", "value::kept"),
        ("APP_B", "plain"),
    ]);
    let config = configuration(&["APP_KEEP"], Some("APP_"));
    let sorted = classify(&raw, &config);
    assert_eq!(
        sorted.forwarded.variables(),
        &vec![
            variable("HOME", "/root"),
            variable("OTHER", "x::y"),
            variable("APP_KEEP", "value::kept"),
        ]
    );
    assert_eq!(sorted.candidates, vec![variable("APP_A", "value::1"), variable("APP_B", "plain")]);
    assert_eq!(sorted.warnings, Vec::<Warning>::new());
}

#[test]
fn classify_warns_of_each_pass_name_that_is_missing() {
    let raw = environment(&[("HOME", "/root")]);
    let config = configuration(&["MISSING", "HOME", "ALSO_MISSING"], None);
    let sorted = classify(&raw, &config);
    assert_eq!(
        sorted.warnings,
        vec![
            Warning::MissingPassVariable { variable: "MISSING".to_string() },
            Warning::MissingPassVariable { variable: "ALSO_MISSING".to_string() },
        ]
    );
    assert_eq!(sorted.forwarded.get("HOME"), Some(&"/root".to_string()));
    assert_eq!(sorted.forwarded.len(), 1);
    assert!(sorted.candidates.is_empty());
}

#[test]
fn classify_of_the_empty_environment_is_empty() {
    let sorted = classify(&Environment::new(), &configuration(&[], Some("APP_")));
    assert_eq!(sorted.forwarded.len(), 0);
    assert!(sorted.candidates.is_empty());
    assert!(sorted.warnings.is_empty());
}
