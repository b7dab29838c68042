use mublog::config::{
    conf_get_bool, conf_get_features, conf_get_integer, conf_get_string, conf_get_string_array,
    parse_config, parse_postlisting_conf, TomlDoc, TomlValue,
};
use mublog::features::{FeatureConfig, PostSortingOrder};

fn doc_with(table: &str, key: &str, value: TomlValue) -> TomlDoc {
    TomlDoc {
        entries: vec![(table.to_string(), TomlValue::Table(vec![(key.to_string(), value)]))],
    }
}

#[test]
fn conf_get_string_valid() {
    let document = doc_with("general", "test", TomlValue::Str("hello".to_string()));
    let value = conf_get_string(&document, "general", "test");
    assert!(value.is_ok());
    assert_eq!(value.unwrap(), "hello");
}

#[test]
fn conf_get_string_table_does_not_exist() {
    let document = doc_with("general", "test", TomlValue::Str("hello".to_string()));
    let value = conf_get_string(&document, "table1", "test");
    assert!(value.is_err());
    assert_eq!(
        value.unwrap_err().message().as_str(),
        "Config does not contain table 'table1'"
    );
}

#[test]
fn conf_get_string_key_does_not_exist() {
    let document = doc_with("general", "test", TomlValue::Str("hello".to_string()));
    let value = conf_get_string(&document, "general", "key1");
    assert!(value.is_err());
    assert_eq!(
        value.unwrap_err().message().as_str(),
        "Config does not contain key 'key1' in table 'general'"
    );
}

#[test]
fn conf_get_string_key_is_wrong_type() {
    let document = doc_with("general", "test", TomlValue::Int(123));
    let value = conf_get_string(&document, "general", "test");
    assert!(value.is_err());
    assert_eq!(
        value.unwrap_err().message().as_str(),
        "Key 'test' in table 'general' is not of type string"
    );
}

#[test]
fn conf_get_integer_valid() {
    let document = doc_with("general", "test", TomlValue::Int(123));
    let value = conf_get_integer(&document, "general", "test");
    assert!(value.is_ok());
    assert_eq!(value.unwrap(), 123);
}

#[test]
fn conf_get_integer_table_does_not_exist() {
    let document = doc_with("general", "test", TomlValue::Int(123));
    let value = conf_get_integer(&document, "table1", "test");
    assert!(value.is_err());
    assert_eq!(
        value.unwrap_err().message().as_str(),
        "Config does not contain table 'table1'"
    );
}

#[test]
fn conf_get_integer_key_does_not_exist() {
    let document = doc_with("general", "test", TomlValue::Int(123));
    let value = conf_get_integer(&document, "general", "key1");
    assert!(value.is_err());
    assert_eq!(
        value.unwrap_err().message().as_str(),
        "Config does not contain key 'key1' in table 'general'"
    );
}

#[test]
fn conf_get_integer_key_is_wrong_type() {
    let document = doc_with("general", "test", TomlValue::Str("123".to_string()));
    let value = conf_get_integer(&document, "general", "test");
    assert!(value.is_err());
    assert_eq!(
        value.unwrap_err().message().as_str(),
        "Key 'test' in table 'general' is not of type integer"
    );
}

#[test]
fn conf_get_bool_valid() {
    let document = doc_with("general", "test", TomlValue::Bool(true));
    let value = conf_get_bool(&document, "general", "test");
    assert!(value.is_ok());
    assert_eq!(value.unwrap(), true);
}

#[test]
fn conf_get_bool_table_does_not_exist() {
    let document = doc_with("general", "test", TomlValue::Bool(true));
    let value = conf_get_bool(&document, "table1", "test");
    assert!(value.is_err());
    assert_eq!(
        value.unwrap_err().message().as_str(),
        "Config does not contain table 'table1'"
    );
}

#[test]
fn conf_get_bool_key_does_not_exist() {
    let document = doc_with("general", "test", TomlValue::Bool(true));
    let value = conf_get_bool(&document, "general", "key1");
    assert!(value.is_err());
    assert_eq!(
        value.unwrap_err().message().as_str(),
        "Config does not contain key 'key1' in table 'general'"
    );
}

#[test]
fn conf_get_bool_key_is_wrong_type() {
    let document = doc_with("general", "test", TomlValue::Str("123".to_string()));
    let value = conf_get_bool(&document, "general", "test");
    assert!(value.is_err());
    assert_eq!(
        value.unwrap_err().message().as_str(),
        "Key 'test' in table 'general' is not of type bool"
    );
}

#[test]
fn conf_get_string_array_valid() {
    let document = doc_with(
        "general",
        "test",
        TomlValue::Array(vec![
            TomlValue::Str("A".to_string()),
            TomlValue::Str("B".to_string()),
            TomlValue::Str("C".to_string()),
        ]),
    );
    let value = conf_get_string_array(&document, "general", "test");
    assert!(value.is_ok());
    assert_eq!(value.unwrap(), ["A", "B", "C"]);
}

#[test]
fn conf_get_string_array_table_does_not_exist() {
    let document = doc_with("general", "test", TomlValue::Int(123));
    let value = conf_get_string_array(&document, "table1", "test");
    assert!(value.is_err());
    assert_eq!(
        value.unwrap_err().message().as_str(),
        "Config does not contain table 'table1'"
    );
}

#[test]
fn conf_get_string_array_key_does_not_exist() {
    let document = doc_with("general", "test", TomlValue::Int(123));
    let value = conf_get_string_array(&document, "general", "key1");
    assert!(value.is_err());
    assert_eq!(
        value.unwrap_err().message().as_str(),
        "Config does not contain key 'key1' in table 'general'"
    );
}

#[test]
fn conf_get_string_array_key_is_wrong_type() {
    let document = doc_with("general", "test", TomlValue::Int(123));
    let value = conf_get_string_array(&document, "general", "test");
    assert!(value.is_err());
    assert_eq!(
        value.unwrap_err().message().as_str(),
        "Key 'test' in table 'general' is not of type array"
    );
}

#[test]
fn conf_get_string_array_array_elem_is_wrong_type() {
    let document = doc_with(
        "general",
        "test",
        TomlValue::Array(vec![
            TomlValue::Str("A".to_string()),
            TomlValue::Str("B".to_string()),
            TomlValue::Int(12),
        ]),
    );
    let value = conf_get_string_array(&document, "general", "test");
    assert!(value.is_err());
    assert_eq!(
        value.unwrap_err().message().as_str(),
        "Element in array 'test' in table 'general' is not of type string"
    );
}

#[test]
fn parse_config_reads_all_settings() {
    let document = TomlDoc {
        entries: vec![
            (
                "general".to_string(),
                TomlValue::Table(vec![
                    ("blog_author".to_string(), TomlValue::Str("ada".to_string())),
                    ("blog_copyright_year".to_string(), TomlValue::Int(2024)),
                    (
                        "blog_email".to_string(),
                        TomlValue::Str("ada@example.org".to_string()),
                    ),
                    (
                        "features".to_string(),
                        TomlValue::Array(vec![
                            TomlValue::Str("tags".to_string()),
                            TomlValue::Str("navbar".to_string()),
                            TomlValue::Str("postlisting".to_string()),
                        ]),
                    ),
                ]),
            ),
            (
                "feature-navbar".to_string(),
                TomlValue::Table(vec![(
                    "links".to_string(),
                    TomlValue::Array(vec![TomlValue::Str("about.md".to_string())]),
                )]),
            ),
            (
                "feature-postlisting".to_string(),
                TomlValue::Table(vec![(
                    "order".to_string(),
                    TomlValue::Str("newestontop".to_string()),
                )]),
            ),
        ],
    };
    let cfg = parse_config(&document).expect("config should parse");
    assert_eq!(cfg.blog_author, "ada");
    assert_eq!(cfg.blog_copyright_year, 2024);
    assert_eq!(cfg.blog_email, "ada@example.org");
    assert_eq!(cfg.features.len(), 3);
    assert!(matches!(cfg.features[0], FeatureConfig::Tags));
    match &cfg.features[1] {
        FeatureConfig::Navbar(n) => assert_eq!(n.links, ["about.md"]),
        _ => panic!("second feature should be the navbar"),
    }
    match &cfg.features[2] {
        FeatureConfig::Postlisting(p) => {
            assert!(matches!(p.post_listing_order, PostSortingOrder::NewestOnTop));
        }
        _ => panic!("third feature should be the post listing"),
    }
}

#[test]
fn parse_config_invalid_feature_name() {
    let document = doc_with(
        "general",
        "features",
        TomlValue::Array(vec![TomlValue::Str("gallery".to_string())]),
    );
    let err = conf_get_features(&document).unwrap_err();
    assert_eq!(err.message().as_str(), "Invalid feature 'gallery'");
}

#[test]
fn parse_config_invalid_sort_order() {
    let document = doc_with(
        "feature-postlisting",
        "order",
        TomlValue::Str("sideways".to_string()),
    );
    let err = parse_postlisting_conf(&document).unwrap_err();
    assert_eq!(
        err.message().as_str(),
        "Invalid configuration for field: 'sort' in feature: 'feature-postlisting'"
    );
}
