use env_loader::warning::Warning;

#[test]
fn missing_pass_variable_message() {
    let warning = Warning::MissingPassVariable { variable: "HOME".to_string() };
    assert_eq!(
        warning.message(),
        "Variable HOME not found in environment - cannot pass through"
    );
}

#[test]
fn secret_resolution_failed_message() {
    let warning = Warning::SecretResolutionFailed {
        secret_id: "prod/db".to_string(),
        variable: "APP_DB".to_string(),
    };
    assert_eq!(warning.message(), "Failed to load secret prod/db for variable APP_DB");
}

#[test]
fn unknown_load_method_message() {
    let warning = Warning::UnknownLoadMethod {
        method: "vault".to_string(),
        variable: "APP_TOKEN".to_string(),
    };
    assert_eq!(warning.message(), "Unknown load method vault for variable APP_TOKEN");
}
