use kubetpl::config::Config;
use kubetpl::convert::convert;
use kubetpl::error::Error;
use kubetpl::loader::load;
use kubetpl::node::SourceNode;
use kubetpl::value::Number;
use kubetpl::value::Value;

fn obj(entries: Vec<(&str, Value)>) -> Value {
    Value::Object(entries.into_iter().map(|(k, v)| (k.to_string(), v)).collect())
}

fn pairs(vars: Vec<(&str, &str)>) -> Vec<(String, String)> {
    vars.into_iter().map(|(k, v)| (k.to_string(), v.to_string())).collect()
}

#[test]
fn empty_file_is_rejected() {
    assert_eq!(Config::from_text(""), Err(Error::Empty));
}

#[test]
fn two_documents_are_rejected_with_their_count() {
    let text = "a: 1\n---\nb: 2\n";
    assert_eq!(Config::from_text(text), Err(Error::MultipleDocuments(2)));
}

#[test]
fn sequence_root_is_rejected() {
    let expected = SourceNode::Sequence(vec![SourceNode::Integer(1), SourceNode::Integer(2)]);
    assert_eq!(Config::from_text("- 1\n- 2\n"), Err(Error::RootNotMapping(expected)));
}

#[test]
fn scalar_root_is_rejected() {
    let expected = SourceNode::Str("hello".to_string());
    assert_eq!(Config::from_text("hello\n"), Err(Error::RootNotMapping(expected)));
}

#[test]
fn integer_key_is_rejected_and_identified() {
    let text = "1: \"x\"\n";
    assert_eq!(Config::from_text(text), Err(Error::NonStringKey(SourceNode::Integer(1))));
}

#[test]
fn boolean_key_is_rejected_and_identified() {
    let text = "true: \"x\"\n";
    assert_eq!(Config::from_text(text), Err(Error::NonStringKey(SourceNode::Boolean(true))));
}

#[test]
fn nested_non_string_key_is_found() {
    let text = "outer:\n  2: deep\n";
    assert_eq!(Config::from_text(text), Err(Error::NonStringKey(SourceNode::Integer(2))));
}

#[test]
fn malformed_yaml_is_a_syntax_error() {
    match Config::from_text("a: [1, 2\n") {
        Err(Error::InvalidSyntax(_)) => {},
        other => panic!("expected a syntax error, got {:?}", other),
    }
}

#[test]
fn null_value_is_unsupported() {
    assert_eq!(Config::from_text("a: ~\n"), Err(Error::Unsupported(SourceNode::Null)));
}

#[test]
fn loader_returns_the_single_root_mapping() {
    let expected = SourceNode::Mapping(vec![
        (SourceNode::Str("a".to_string()), SourceNode::Integer(1)),
    ]);
    assert_eq!(load("a: 1\n"), Ok(expected));
}

#[test]
fn scalars_convert_by_precedence() {
    let text = "f: 1.5\nt: true\nn: 7\ns: word\n";
    let config = Config::from_text(text).unwrap();
    let expected = obj(vec![
        ("f", Value::Number(Number::Real("1.5".to_string()))),
        ("t", Value::Bool(true)),
        ("n", Value::Number(Number::Int(7))),
        ("s", Value::Str("word".to_string())),
    ]);
    assert_eq!(config.into_value(), expected);
}

#[test]
fn sequences_convert_in_order() {
    let text = "s:\n  - 1\n  - two\n  - false\n";
    let config = Config::from_text(text).unwrap();
    let expected = obj(vec![
        (
            "s",
            Value::Array(vec![
                Value::Number(Number::Int(1)),
                Value::Str("two".to_string()),
                Value::Bool(false),
            ]),
        ),
    ]);
    assert_eq!(config.into_value(), expected);
}

#[test]
fn assembled_context_holds_config_and_env() {
    let text = "a:\n  b: 1\n  c: \"two\"\n";
    let mut config = Config::from_text(text).unwrap();
    config.inject_env(pairs(vec![("FOO", "bar")]));
    let expected = obj(vec![
        (
            "a",
            obj(vec![
                ("b", Value::Number(Number::Int(1))),
                ("c", Value::Str("two".to_string())),
            ]),
        ),
        ("Env", obj(vec![("FOO", Value::Str("bar".to_string()))])),
    ]);
    assert_eq!(config.into_value(), expected);
}

#[test]
fn user_env_field_is_discarded_not_merged() {
    let text = "Env:\n  X: \"1\"\n";
    let mut config = Config::from_text(text).unwrap();
    config.inject_env(pairs(vec![("FOO", "bar")]));
    let expected = obj(vec![("Env", obj(vec![("FOO", Value::Str("bar".to_string()))]))]);
    assert_eq!(config.into_value(), expected);
}

#[test]
fn omitted_config_yields_env_only_context() {
    let mut config = Config::new();
    config.inject_env(pairs(vec![("A", "1"), ("B", "2")]));
    let expected = obj(vec![
        (
            "Env",
            obj(vec![
                ("A", Value::Str("1".to_string())),
                ("B", Value::Str("2".to_string())),
            ]),
        ),
    ]);
    assert_eq!(config.into_value(), expected);
}

#[test]
fn conversion_of_a_supported_tree_is_total_and_repeatable() {
    let text = "a:\n  list:\n    - 1\n    - x: true\n  real: 2.25\n";
    let first = convert(load(text).unwrap()).unwrap();
    let second = convert(load(text).unwrap()).unwrap();
    assert_eq!(first, second);
}

#[test]
fn duplicate_keys_keep_the_last_value() {
    let mut config = Config::new();
    config.insert("k".to_string(), Value::Number(Number::Int(1)));
    config.insert("k".to_string(), Value::Str("x".to_string()));
    assert_eq!(config.into_value(), obj(vec![("k", Value::Str("x".to_string()))]));
}

#[test]
fn repeated_env_names_keep_the_last_value() {
    let mut config = Config::new();
    config.inject_env(pairs(vec![("A", "1"), ("A", "2")]));
    let expected = obj(vec![("Env", obj(vec![("A", Value::Str("2".to_string()))]))]);
    assert_eq!(config.into_value(), expected);
}

#[test]
fn default_config_is_empty() {
    let config: Config = Default::default();
    assert_eq!(config.into_value(), obj(vec![]));
}
