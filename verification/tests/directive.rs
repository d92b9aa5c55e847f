use env_loader::directive::{parse, Directive, LoadMethod};

fn directive(method: &str, payload: &str) -> Directive {
    Directive { method: method.to_string(), payload: payload.to_string() }
}

#[test]
fn parse_splits_at_the_separator() {
    assert_eq!(parse("value::bar"), Some(directive("value", "bar")));
    assert_eq!(parse("aws_sm::my-secret"), Some(directive("aws_sm", "my-secret")));
}

#[test]
fn parse_finds_no_directive_without_the_separator() {
    assert_eq!(parse("plain"), None);
    assert_eq!(parse(""), None);
    assert_eq!(parse(":"), None);
    assert_eq!(parse("a:b"), None);
    assert_eq!(parse("a:b:c"), None);
    assert_eq!(parse("C:\\path;D:\\other"), None);
}

#[test]
fn parse_splits_at_the_first_separator_only() {
    assert_eq!(parse("a::b::c"), Some(directive("a", "b::c")));
    assert_eq!(parse("value::http://host::8080"), Some(directive("value", "http://host::8080")));
}

#[test]
fn parse_takes_the_leftmost_pair_of_colons() {
    assert_eq!(parse(":::"), Some(directive("", ":")));
    assert_eq!(parse("a:::b"), Some(directive("a", ":b")));
    assert_eq!(parse("a::::b"), Some(directive("a", "::b")));
}

#[test]
fn parse_accepts_empty_parts() {
    assert_eq!(parse("::"), Some(directive("", "")));
    assert_eq!(parse("value::"), Some(directive("value", "")));
    assert_eq!(parse("::payload"), Some(directive("", "payload")));
}

#[test]
fn parse_trims_nothing() {
    assert_eq!(parse(" value :: bar "), Some(directive(" value ", " bar ")));
}

#[test]
fn parse_counts_characters_not_bytes() {
    assert_eq!(parse("clé::sésame"), Some(directive("clé", "sésame")));
    assert_eq!(parse("é:ü::ß"), Some(directive("é:ü", "ß")));
}

#[test]
fn load_method_knows_the_two_tags() {
    assert_eq!(directive("value", "x").load_method(), LoadMethod::Value);
    assert_eq!(directive("aws_sm", "x").load_method(), LoadMethod::AwsSm);
}

#[test]
fn load_method_compares_tags_as_they_are() {
    assert_eq!(directive("Value", "x").load_method(), LoadMethod::Unknown);
    assert_eq!(directive("VALUE", "x").load_method(), LoadMethod::Unknown);
    assert_eq!(directive(" value", "x").load_method(), LoadMethod::Unknown);
    assert_eq!(directive("value ", "x").load_method(), LoadMethod::Unknown);
    assert_eq!(directive("aws-sm", "x").load_method(), LoadMethod::Unknown);
    assert_eq!(directive("", "x").load_method(), LoadMethod::Unknown);
    assert_eq!(directive("file", "x").load_method(), LoadMethod::Unknown);
}
