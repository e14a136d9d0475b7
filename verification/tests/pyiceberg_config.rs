use iceman::common::config::pyiceberg::{
    env_transform_segment, first_found, env_var_segments, flatten_yaml_value, merge_config, parse_pyiceberg_env_vars,
    PyIcebergCatalogConfig, PyIcebergConfig, YamlValue,
};
use iceman::props::StrMap;
use iceman::text::split_max;

fn s(x: &str) -> YamlValue {
    YamlValue::String(x.to_string())
}

fn mapping(entries: Vec<(&str, YamlValue)>) -> YamlValue {
    YamlValue::Mapping {
        entries: entries.into_iter().map(|(k, v)| (s(k), v)).collect(),
        rendered: String::new(),
    }
}

fn catalog_entry(kind: Option<&str>, uri: Option<&str>, warehouse: Option<&str>) -> PyIcebergCatalogConfig {
    PyIcebergCatalogConfig {
        catalog_type: kind.map(|k| k.to_string()),
        uri: uri.map(|u| u.to_string()),
        warehouse: warehouse.map(|w| w.to_string()),
        properties: StrMap::new(),
    }
}

fn config(default_catalog: Option<&str>, catalogs: Vec<(&str, PyIcebergCatalogConfig)>) -> PyIcebergConfig {
    let mut catalog = StrMap::new();
    for (name, entry) in catalogs {
        catalog.insert(name.to_string(), entry);
    }
    PyIcebergConfig { default_catalog: default_catalog.map(|d| d.to_string()), catalog }
}

#[test]
fn test_split_max() {
    assert_eq!(split_max("A__B__C__D", "__", 2), vec!["A", "B", "C__D"]);
    assert_eq!(split_max("A__B", "__", 2), vec!["A", "B"]);
    assert_eq!(split_max("ABCD", "__", 2), vec!["ABCD"]);
    assert_eq!(split_max("A__B__C", "__", 1), vec!["A", "B__C"]);
}

#[test]
fn test_env_var_transform() {
    // Simulates PYICEBERG_CATALOG__DEFAULT__S3__ACCESS_KEY_ID
    let segments = split_max("CATALOG__DEFAULT__S3__ACCESS_KEY_ID", "__", 2);
    let transformed: Vec<String> = segments
        .iter()
        .map(|s| s.replace("__", ".").replace('_', "-").to_lowercase())
        .collect();
    assert_eq!(transformed, vec!["catalog", "default", "s3.access-key-id"]);
    assert_eq!(env_var_segments("CATALOG__DEFAULT__S3__ACCESS_KEY_ID"), transformed);
}

#[test]
fn test_env_var_default_catalog() {
    let segments = split_max("DEFAULT_CATALOG", "__", 2);
    let transformed: Vec<String> = segments
        .iter()
        .map(|s| s.replace("__", ".").replace('_', "-").to_lowercase())
        .collect();
    assert_eq!(transformed, vec!["default-catalog"]);
    assert_eq!(env_transform_segment("DEFAULT_CATALOG"), "default-catalog");
}

#[test]
fn test_flatten_yaml_nested_mapping() {
    let yaml = mapping(vec![("endpoint", s("http://localhost:9000")), ("access-key-id", s("mykey"))]);
    let mut out = StrMap::new();
    flatten_yaml_value("s3", &yaml, &mut out);
    assert_eq!(out.get("s3.endpoint").unwrap(), "http://localhost:9000");
    assert_eq!(out.get("s3.access-key-id").unwrap(), "mykey");
}

#[test]
fn test_flatten_yaml_deeply_nested() {
    let yaml = mapping(vec![("a", mapping(vec![("b", mapping(vec![("c", s("deep"))]))]))]);
    let mut out = StrMap::new();
    flatten_yaml_value("", &yaml, &mut out);
    assert_eq!(out.get("a.b.c").unwrap(), "deep");
}

#[test]
fn test_flatten_yaml_scalar_unchanged() {
    let yaml = YamlValue::String("hello".into());
    let mut out = StrMap::new();
    flatten_yaml_value("key", &yaml, &mut out);
    assert_eq!(out.get("key").unwrap(), "hello");
}

#[test]
fn test_flatten_yaml_lowercases_keys() {
    let yaml = mapping(vec![("Endpoint", s("http://localhost:9000"))]);
    let mut out = StrMap::new();
    flatten_yaml_value("S3", &yaml, &mut out);
    // the prefix is kept as given; nested keys are lowercased
    assert_eq!(out.get("S3.endpoint").unwrap(), "http://localhost:9000");
}

#[test]
fn flatten_yaml_renders_numbers_and_booleans() {
    let yaml = mapping(vec![
        ("port", YamlValue::Number("9000".to_string())),
        ("ssl", YamlValue::Bool(true)),
        ("none", YamlValue::Null),
    ]);
    let mut out = StrMap::new();
    flatten_yaml_value("s3", &yaml, &mut out);
    assert_eq!(out.get("s3.port").unwrap(), "9000");
    assert_eq!(out.get("s3.ssl").unwrap(), "true");
    assert_eq!(out.get("s3.none").unwrap(), "");
}

#[test]
fn test_resolve_catalog_basic() {
    let cfg = config(
        None,
        vec![("my_cat", catalog_entry(Some("rest"), Some("http://localhost:8181"), Some("wh1")))],
    );
    let cat = cfg.resolve_catalog(Some("my_cat")).unwrap();
    assert_eq!(cat.kind, "rest");
    assert_eq!(cat.props.get("uri").unwrap(), "http://localhost:8181");
    assert_eq!(cat.props.get("warehouse").unwrap(), "wh1");
}

#[test]
fn test_resolve_catalog_case_insensitive() {
    let cfg = config(
        None,
        vec![("My_Catalog", catalog_entry(Some("rest"), Some("http://localhost:8181"), None))],
    );
    let cat = cfg.resolve_catalog(Some("my_catalog")).unwrap();
    assert_eq!(cat.kind, "rest");

    let cat = cfg.resolve_catalog(Some("MY_CATALOG")).unwrap();
    assert_eq!(cat.kind, "rest");
}

#[test]
fn test_resolve_catalog_missing_returns_empty() {
    let cfg = config(None, vec![("existing", catalog_entry(Some("rest"), None, None))]);
    let cat = cfg.resolve_catalog(Some("nonexistent")).unwrap();
    assert_eq!(cat.kind, "");
    assert!(cat.props.is_empty());
    assert_eq!(cat.name, "nonexistent");
}

#[test]
fn test_resolve_catalog_no_config_at_all() {
    let cfg = PyIcebergConfig::default();
    let cat = cfg.resolve_catalog(None).unwrap();
    assert_eq!(cat.name, "default");
    assert_eq!(cat.kind, "");
    assert!(cat.props.is_empty());
}

#[test]
fn test_resolve_catalog_flattens_nested_properties() {
    let mut entry = catalog_entry(Some("rest"), Some("http://localhost:8181"), None);
    entry.properties.insert(
        "s3".to_string(),
        mapping(vec![("endpoint", s("http://localhost:9000")), ("access-key-id", s("mykey"))]),
    );
    let cfg = config(None, vec![("my_cat", entry)]);
    let cat = cfg.resolve_catalog(Some("my_cat")).unwrap();
    assert_eq!(cat.props.get("s3.endpoint").unwrap(), "http://localhost:9000");
    assert_eq!(cat.props.get("s3.access-key-id").unwrap(), "mykey");
}

#[test]
fn test_resolve_catalog_flat_dotted_keys_preserved() {
    let mut entry = catalog_entry(Some("rest"), Some("http://localhost:8181"), None);
    entry.properties.insert("s3.endpoint".to_string(), s("http://localhost:9000"));
    let cfg = config(None, vec![("my_cat", entry)]);
    let cat = cfg.resolve_catalog(Some("my_cat")).unwrap();
    assert_eq!(cat.props.get("s3.endpoint").unwrap(), "http://localhost:9000");
}

#[test]
fn test_resolve_catalog_type_lowercased() {
    let cfg = config(None, vec![("my_cat", catalog_entry(Some("REST"), Some("http://localhost:8181"), None))]);
    let cat = cfg.resolve_catalog(Some("my_cat")).unwrap();
    assert_eq!(cat.kind, "rest");
}

#[test]
fn test_resolve_catalog_default_fallback_chain() {
    // With default-catalog set
    let cfg = config(
        Some("secondary"),
        vec![
            ("secondary", catalog_entry(Some("rest"), Some("http://secondary:8181"), None)),
            ("default", catalog_entry(Some("rest"), Some("http://default:8181"), None)),
        ],
    );
    let cat = cfg.resolve_catalog(None).unwrap();
    assert_eq!(cat.props.get("uri").unwrap(), "http://secondary:8181");

    // Without default-catalog, falls back to "default"
    let cfg = config(None, vec![("default", catalog_entry(Some("rest"), Some("http://default:8181"), None))]);
    let cat = cfg.resolve_catalog(None).unwrap();
    assert_eq!(cat.props.get("uri").unwrap(), "http://default:8181");
}

#[test]
fn env_vars_build_a_catalog() {
    let vars = vec![
        ("PYICEBERG_DEFAULT_CATALOG".to_string(), "prod".to_string()),
        ("PYICEBERG_CATALOG__PROD__URI".to_string(), "http://prod:8181".to_string()),
        ("PYICEBERG_CATALOG__PROD__TYPE".to_string(), "rest".to_string()),
        ("PYICEBERG_CATALOG__PROD__S3__ENDPOINT".to_string(), "http://s3".to_string()),
        ("HOME".to_string(), "/root".to_string()),
    ];
    let cfg = parse_pyiceberg_env_vars(&vars);
    assert_eq!(cfg.default_catalog.as_deref(), Some("prod"));
    let cat = cfg.resolve_catalog(None).unwrap();
    assert_eq!(cat.kind, "rest");
    assert_eq!(cat.props.get("uri").unwrap(), "http://prod:8181");
    assert_eq!(cat.props.get("s3.endpoint").unwrap(), "http://s3");
}

#[test]
fn env_overlay_replaces_file_values() {
    let mut base = config(
        None,
        vec![("default", catalog_entry(Some("rest"), Some("http://file:8181"), Some("wh")))],
    );
    let overlay = parse_pyiceberg_env_vars(&[(
        "PYICEBERG_CATALOG__DEFAULT__URI".to_string(),
        "http://env:8181".to_string(),
    )]);
    merge_config(&mut base, overlay);
    let cat = base.resolve_catalog(None).unwrap();
    assert_eq!(cat.props.get("uri").unwrap(), "http://env:8181");
    assert_eq!(cat.props.get("warehouse").unwrap(), "wh");
}

#[test]
fn first_existing_config_file_wins() {
    let c = |p: &str, e: bool| (p.to_string(), e);
    assert_eq!(
        first_found(&vec![c("/home/x/.pyiceberg.yaml", false), c("/root/.pyiceberg.yaml", true), c("./.pyiceberg.yaml", true)]),
        Some("/root/.pyiceberg.yaml".to_string())
    );
    assert_eq!(first_found(&vec![c("a", false), c("b", false)]), None);
    assert_eq!(first_found(&vec![]), None);
}
