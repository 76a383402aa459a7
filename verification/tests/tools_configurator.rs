use paint_type::tools::configurator::{
    deep_merge_json, generate_config, merge_configs, merge_value, ConfigFormat, JsonValue, MergeStrategy,
};

fn s(x: &str) -> JsonValue {
    JsonValue::Str(x.to_string())
}

fn obj(entries: Vec<(&str, JsonValue)>) -> JsonValue {
    JsonValue::Object(entries.into_iter().map(|(k, v)| (k.to_string(), v)).collect())
}

#[test]
fn format_from_path_and_extension() {
    assert_eq!(ConfigFormat::from_path("a/b.json"), ConfigFormat::Json);
    assert_eq!(ConfigFormat::from_path("a/b.YML"), ConfigFormat::Yaml);
    assert_eq!(ConfigFormat::from_path("b.yaml"), ConfigFormat::Yaml);
    assert_eq!(ConfigFormat::from_path("b.toml"), ConfigFormat::Toml);
    assert_eq!(ConfigFormat::from_path("b.ini"), ConfigFormat::Toml);
    assert_eq!(ConfigFormat::from_path("README"), ConfigFormat::Toml);
    assert_eq!(ConfigFormat::from_path(".json"), ConfigFormat::Toml);
    assert_eq!(ConfigFormat::from_extension(Some("json")), ConfigFormat::Json);
    assert_eq!(ConfigFormat::from_extension(None), ConfigFormat::Toml);
}

#[test]
fn deep_merge_objects_arrays_and_scalars() {
    let mut target = vec![
        ("a".to_string(), obj(vec![("x", s("1")), ("y", s("2"))])),
        ("list".to_string(), JsonValue::Array(vec![s("p")])),
        ("n".to_string(), JsonValue::Null),
    ];
    let source = obj(vec![
        ("a", obj(vec![("y", s("3")), ("z", s("4"))])),
        ("list", JsonValue::Array(vec![s("q")])),
        ("n", JsonValue::Bool(true)),
        ("new", JsonValue::Number("7".to_string())),
    ]);
    deep_merge_json(&mut target, source);
    assert_eq!(
        target,
        vec![
            ("a".to_string(), obj(vec![("x", s("1")), ("y", s("3")), ("z", s("4"))])),
            ("list".to_string(), JsonValue::Array(vec![s("p"), s("q")])),
            ("n".to_string(), JsonValue::Bool(true)),
            ("new".to_string(), JsonValue::Number("7".to_string())),
        ]
    );
}

#[test]
fn merging_a_non_object_changes_nothing() {
    let mut target = vec![("k".to_string(), s("v"))];
    deep_merge_json(&mut target, JsonValue::Array(vec![]));
    assert_eq!(target, vec![("k".to_string(), s("v"))]);
    assert_eq!(merge_value(JsonValue::Array(vec![s("a")]), s("b")), s("b"));
}

#[test]
fn merge_configs_by_strategy() {
    assert_eq!(
        merge_configs(vec![], MergeStrategy::DeepMerge),
        Err("At least one input file is required".to_string())
    );
    let layers = || vec![obj(vec![("a", s("1")), ("b", s("1"))]), s("ignored"), obj(vec![("b", s("2"))])];
    assert_eq!(
        merge_configs(layers(), MergeStrategy::DeepMerge),
        Ok(obj(vec![("a", s("1")), ("b", s("2"))]))
    );
    assert_eq!(merge_configs(layers(), MergeStrategy::Override), Ok(obj(vec![("b", s("2"))])));
}

#[test]
fn generated_config_fields() {
    assert_eq!(
        generate_config("com.example.blur"),
        obj(vec![
            ("plugin_id", s("com.example.blur")),
            ("version", s("1.0.0")),
            ("enabled", JsonValue::Bool(true)),
            ("log_level", s("info")),
            ("capabilities", JsonValue::Array(vec![s("CanvasRead"), s("CanvasWrite")])),
            ("settings", JsonValue::Object(vec![])),
        ])
    );
}
