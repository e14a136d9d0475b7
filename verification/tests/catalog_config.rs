use iceman::catalog::{infer_catalog_type, CatalogConfig, CatalogError, IcemanCatalogConfig, IcemanConfig};
use iceman::common::catalog::infer_catalog_type as infer_from_core;
use iceman::common::config::CatalogConfig as CoreCatalogConfig;
use iceman::props::StrMap;

fn empty_config() -> CatalogConfig {
    CatalogConfig {
        kind: String::new(),
        name: "test".to_string(),
        props: StrMap::new(),
    }
}

fn empty_core_config() -> CoreCatalogConfig {
    CoreCatalogConfig {
        kind: String::new(),
        name: "test".to_string(),
        props: StrMap::new(),
    }
}

fn uri_props(uri: &str) -> StrMap<String> {
    let mut props = StrMap::new();
    props.insert("uri".to_string(), uri.to_string());
    props
}

#[test]
fn catalog_test_apply_overrides_all() {
    let mut cfg = empty_config();
    cfg.apply_overrides(Some("http://example.com"), Some("wh"), Some("cred"));
    assert_eq!(cfg.props.get("uri").unwrap(), "http://example.com");
    assert_eq!(cfg.props.get("warehouse").unwrap(), "wh");
    assert_eq!(cfg.props.get("credential").unwrap(), "cred");
}

#[test]
fn catalog_test_apply_overrides_none() {
    let mut cfg = empty_config();
    cfg.props.insert("uri".to_string(), "original".to_string());
    cfg.apply_overrides(None, None, None);
    assert_eq!(cfg.props.get("uri").unwrap(), "original");
}

#[test]
fn catalog_test_apply_overrides_partial() {
    let mut cfg = empty_config();
    cfg.props.insert("uri".to_string(), "http://original.com".to_string());
    cfg.apply_overrides(None, Some("new_wh"), None);
    assert_eq!(cfg.props.get("uri").unwrap(), "http://original.com");
    assert_eq!(cfg.props.get("warehouse").unwrap(), "new_wh");
}

#[test]
fn catalog_test_infer_rest_from_http() {
    let props = uri_props("http://localhost:8181");
    assert_eq!(infer_catalog_type(&props).unwrap(), "rest");
}

#[test]
fn catalog_test_infer_rest_from_https() {
    let props = uri_props("https://catalog.example.com");
    assert_eq!(infer_catalog_type(&props).unwrap(), "rest");
}

#[test]
fn catalog_test_infer_hive_from_thrift() {
    let props = uri_props("thrift://localhost:9083");
    assert_eq!(infer_catalog_type(&props).unwrap(), "hive");
}

#[test]
fn catalog_test_infer_sql_from_sqlite() {
    let props = uri_props("sqlite:///tmp/test.db");
    assert_eq!(infer_catalog_type(&props).unwrap(), "sql");
}

#[test]
fn catalog_test_infer_sql_from_postgresql() {
    let props = uri_props("postgresql://localhost/iceberg");
    assert_eq!(infer_catalog_type(&props).unwrap(), "sql");
}

#[test]
fn catalog_test_infer_fails_unknown_scheme() {
    let props = uri_props("ftp://localhost:21");
    let err = infer_catalog_type(&props).unwrap_err();
    assert!(err.message().contains("could not infer catalog type"));
}

#[test]
fn catalog_test_infer_fails_no_uri() {
    let props = StrMap::new();
    let err = infer_catalog_type(&props).unwrap_err();
    assert!(err.message().contains("no catalog type specified"));
}

#[test]
fn mod_test_apply_overrides_all() {
    let mut cfg = empty_core_config();
    cfg.apply_overrides(Some("http://example.com"), Some("wh"), Some("cred"), Some("user"));
    assert_eq!(cfg.props.get("uri").unwrap(), "http://example.com");
    assert_eq!(cfg.props.get("warehouse").unwrap(), "wh");
    assert_eq!(cfg.props.get("credential").unwrap(), "cred");
    assert_eq!(cfg.props.get("ugi").unwrap(), "user");
}

#[test]
fn mod_test_apply_overrides_none() {
    let mut cfg = empty_core_config();
    cfg.props.insert("uri".to_string(), "original".to_string());
    cfg.apply_overrides(None, None, None, None);
    assert_eq!(cfg.props.get("uri").unwrap(), "original");
}

#[test]
fn mod_test_apply_overrides_partial() {
    let mut cfg = empty_core_config();
    cfg.props.insert("uri".to_string(), "http://original.com".to_string());
    cfg.apply_overrides(None, Some("new_wh"), None, None);
    assert_eq!(cfg.props.get("uri").unwrap(), "http://original.com");
    assert_eq!(cfg.props.get("warehouse").unwrap(), "new_wh");
}

#[test]
fn test_apply_overrides_replaces_existing() {
    let mut cfg = empty_core_config();
    cfg.props.insert("uri".to_string(), "http://old.com".to_string());
    cfg.apply_overrides(Some("http://new.com"), None, None, None);
    assert_eq!(cfg.props.get("uri").unwrap(), "http://new.com");
}

#[test]
fn apply_overrides_keeps_kind_and_name() {
    let mut cfg = empty_config();
    cfg.kind = "rest".to_string();
    cfg.apply_overrides(Some("u"), None, None);
    assert_eq!(cfg.kind, "rest");
    assert_eq!(cfg.name, "test");
    assert_eq!(cfg.props.len(), 1);
}

#[test]
fn unknown_scheme_message_names_the_uri() {
    let err = CatalogError::UnknownScheme { uri: "ftp://x".to_string() };
    assert_eq!(err.message(), "could not infer catalog type from URI: ftp://x");
}

#[test]
fn unsupported_kind_message() {
    let err = CatalogError::Unsupported { kind: "nessie".to_string() };
    assert_eq!(
        err.message(),
        "unsupported catalog type: 'nessie' (supported: rest, s3tables, glue, hive, sql)"
    );
}

#[test]
fn iceman_config_resolves_default_catalog() {
    let mut catalogs = StrMap::new();
    let mut props = StrMap::new();
    props.insert("token".to_string(), "t".to_string());
    catalogs.insert(
        "local".to_string(),
        IcemanCatalogConfig {
            catalog_type: Some("rest".to_string()),
            uri: Some("http://localhost:8181".to_string()),
            warehouse: Some("wh".to_string()),
            properties: props,
        },
    );
    let cfg = IcemanConfig { default_catalog: Some("local".to_string()), catalog: catalogs };
    let cat = cfg.resolve_catalog(None).unwrap();
    assert_eq!(cat.name, "local");
    assert_eq!(cat.kind, "rest");
    assert_eq!(cat.props.get("uri").unwrap(), "http://localhost:8181");
    assert_eq!(cat.props.get("warehouse").unwrap(), "wh");
    assert_eq!(cat.props.get("token").unwrap(), "t");
}

#[test]
fn iceman_config_missing_catalog_is_an_error() {
    let cfg = IcemanConfig::empty();
    let err = cfg.resolve_catalog(Some("nope")).err().unwrap();
    assert!(err.message().contains("nope"));
}

#[test]
fn test_infer_rest_from_http() {
    let props = uri_props("http://localhost:8181");
    assert_eq!(infer_from_core(&props).unwrap(), "rest");
}

#[test]
fn test_infer_rest_from_https() {
    let props = uri_props("https://catalog.example.com");
    assert_eq!(infer_from_core(&props).unwrap(), "rest");
}

#[test]
fn test_infer_hive_from_thrift() {
    let props = uri_props("thrift://localhost:9083");
    assert_eq!(infer_from_core(&props).unwrap(), "hive");
}

#[test]
fn test_infer_sql_from_sqlite() {
    let props = uri_props("sqlite:///tmp/test.db");
    assert_eq!(infer_from_core(&props).unwrap(), "sql");
}

#[test]
fn test_infer_sql_from_postgresql() {
    let props = uri_props("postgresql://localhost/iceberg");
    assert_eq!(infer_from_core(&props).unwrap(), "sql");
}

#[test]
fn test_infer_fails_unknown_scheme() {
    let props = uri_props("ftp://localhost:21");
    let err = infer_from_core(&props).unwrap_err();
    assert!(err.message().contains("could not infer catalog type"));
}

#[test]
fn test_infer_fails_no_uri() {
    let props = StrMap::new();
    let err = infer_from_core(&props).unwrap_err();
    assert!(err.message().contains("no catalog type specified"));
}

#[test]
fn only_full_schemes_infer_a_catalog_type() {
    assert!(infer_catalog_type(&uri_props("httpx://h:1")).is_err());
    assert!(infer_catalog_type(&uri_props("thrift-ish")).is_err());
    assert!(infer_catalog_type(&uri_props("sqlitedb")).is_err());
    assert_eq!(infer_catalog_type(&uri_props("sqlite:memory")).unwrap(), "sql");
}

fn entry(kind: &str) -> IcemanCatalogConfig {
    IcemanCatalogConfig { catalog_type: Some(kind.to_string()), uri: None, warehouse: None, properties: StrMap::new() }
}

#[test]
fn a_single_catalog_applies_without_a_name() {
    let mut catalogs = StrMap::new();
    catalogs.insert("prod".to_string(), entry("rest"));
    let cfg = IcemanConfig { default_catalog: None, catalog: catalogs };
    let cat = cfg.resolve_catalog(None).unwrap();
    assert_eq!((cat.name.as_str(), cat.kind.as_str()), ("prod", "rest"));
    assert!(cfg.resolve_catalog(Some("dev")).is_err());
}

#[test]
fn several_catalogs_fall_back_to_the_default_then_to_default() {
    let two = || {
        let mut catalogs = StrMap::new();
        catalogs.insert("prod".to_string(), entry("rest"));
        catalogs.insert("dev".to_string(), entry("sql"));
        catalogs
    };
    let cfg = IcemanConfig { default_catalog: Some("dev".to_string()), catalog: two() };
    assert_eq!(cfg.resolve_catalog(None).unwrap().name, "dev");
    let cfg = IcemanConfig { default_catalog: None, catalog: two() };
    assert!(cfg.resolve_catalog(None).err().unwrap().message().contains("default"));
}
