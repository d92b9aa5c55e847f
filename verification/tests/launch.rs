use env_loader::config::Configuration;
use env_loader::engine::{Action, Engine, Event};
use env_loader::environment::Environment;
use env_loader::launch::Launch;

fn environment(pairs: &[(&str, &str)]) -> Environment {
    let mut environment = Environment::new();
    for (name, value) in pairs {
        environment.insert(name.to_string(), value.to_string());
    }
    environment
}

fn configuration(cmd: &[&str], env_prefix: Option<&str>) -> Configuration {
    Configuration {
        pass: Vec::new(),
        env_prefix: env_prefix.map(|prefix| prefix.to_string()),
        ignore_missing: false,
        cmd: cmd.iter().map(|word| word.to_string()).collect(),
    }
}

#[test]
fn launch_takes_the_program_from_the_front_of_the_command() {
    let config = configuration(&["printenv", "-0", "HOME"], None);
    let launch = Launch::new(&config, &environment(&[("HOME", "/root")]));
    assert_eq!(launch.program, "printenv");
    assert_eq!(
        launch.arguments,
        vec!["printenv".to_string(), "-0".to_string(), "HOME".to_string()]
    );
    assert_eq!(launch.environment, vec!["HOME=/root".to_string()]);
}

#[test]
fn launch_of_a_bare_program_has_one_argument() {
    let config = configuration(&["true"], None);
    let launch = Launch::new(&config, &Environment::new());
    assert_eq!(launch.program, "true");
    assert_eq!(launch.arguments, vec!["true".to_string()]);
    assert_eq!(launch.environment, Vec::<String>::new());
}

#[test]
fn launch_hands_on_the_resolved_environment() {
    let raw = environment(&[
        ("PATH", "/bin"),
        ("APP_TOKEN", "value::t=1"),
        ("APP_EMPTY", "value::"),
    ]);
    let config = configuration(&["server", "--port", "80"], Some("APP_"));
    let mut engine = Engine::new(&raw, &config);
    assert_eq!(engine.step(Event::Start), Action::Launch);
    let launch = Launch::new(&config, engine.resolved());
    assert_eq!(
        launch,
        Launch {
            program: "server".to_string(),
            arguments: vec!["server".to_string(), "--port".to_string(), "80".to_string()],
            environment: vec![
                "PATH=/bin".to_string(),
                "TOKEN=t=1".to_string(),
                "EMPTY=".to_string(),
            ],
        }
    );
}
