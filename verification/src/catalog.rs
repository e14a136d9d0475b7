//! Catalog configuration: the iceman TOML model, catalog resolution by name,
//! command-line overrides and catalog-type inference.
use vstd::prelude::*;

use crate::error::ConfigError;
use crate::props::{has_key_at, lemma_len, lemma_to_map_dom, opt_str_text, opt_text, set_if_some, text_map, StrMap};
use crate::error::{concat3};
use crate::text::{owned, starts_with, str_eq};

verus! {

/// A resolved catalog: its implementation kind, name and connection properties.
pub struct CatalogConfig {
    pub kind: String,
    pub name: String,
    pub props: StrMap<String>,
}

/// The properties after the `--uri`, `--warehouse` and `--credential` overrides.
pub open spec fn overridden(
    m: Map<Seq<char>, Seq<char>>,
    uri: Option<&str>,
    warehouse: Option<&str>,
    credential: Option<&str>,
) -> Map<Seq<char>, Seq<char>> {
    set_if_some(
        set_if_some(set_if_some(m, "uri"@, opt_str_text(uri)), "warehouse"@, opt_str_text(warehouse)),
        "credential"@,
        opt_str_text(credential),
    )
}

impl CatalogConfig {
    /// Applies the command-line overrides: each given value replaces the property of
    /// the same name; absent values leave the properties as they were.
    pub fn apply_overrides(&mut self, uri: Option<&str>, warehouse: Option<&str>, credential: Option<&str>)
        ensures
            final(self).kind == old(self).kind,
            final(self).name == old(self).name,
            text_map(final(self).props.map()) == overridden(
                text_map(old(self).props.map()),
                uri,
                warehouse,
                credential,
            ),
    {
        self.props.insert_if_some("uri", uri);
        self.props.insert_if_some("warehouse", warehouse);
        self.props.insert_if_some("credential", credential);
    }
}

/// One `[catalog.<name>]` table of the iceman configuration.
pub struct IcemanCatalogConfig {
    pub catalog_type: Option<String>,
    pub uri: Option<String>,
    pub warehouse: Option<String>,
    pub properties: StrMap<String>,
}

/// The iceman configuration file.
pub struct IcemanConfig {
    pub default_catalog: Option<String>,
    pub catalog: StrMap<IcemanCatalogConfig>,
}

/// The catalog name that is looked up: the given one, else the configured default,
/// else `default`.
pub open spec fn chosen_catalog_name(name: Option<&str>, default_catalog: Option<String>) -> Seq<
    char,
> {
    match name {
        Some(n) => n@,
        None => match default_catalog {
            Some(d) => d@,
            None => "default"@,
        },
    }
}

/// The catalog that iceman resolves: the given name; else the only catalog when
/// exactly one is configured; else the configured default; else `default`.
pub open spec fn iceman_catalog_name(
    name: Option<&str>,
    default_catalog: Option<String>,
    catalogs: Map<Seq<char>, IcemanCatalogConfig>,
) -> Seq<char> {
    match name {
        Some(n) => n@,
        None => if catalogs.dom().len() == 1 {
            catalogs.dom().choose()
        } else {
            chosen_catalog_name(None, default_catalog)
        },
    }
}

/// The properties of a catalog entry, with its `uri` and `warehouse` fields folded in.
pub open spec fn entry_props(e: IcemanCatalogConfig) -> Map<Seq<char>, Seq<char>> {
    set_if_some(
        set_if_some(text_map(e.properties.map()), "uri"@, opt_text(e.uri)),
        "warehouse"@,
        opt_text(e.warehouse),
    )
}

/// The text of an optional string, or the empty text.
pub open spec fn text_or_empty(o: Option<String>) -> Seq<char> {
    match o {
        Some(s) => s@,
        None => Seq::empty(),
    }
}

impl IcemanConfig {
    /// An empty configuration: no default catalog and no catalogs.
    pub fn empty() -> (c: Self)
        ensures
            c.default_catalog is None,
            c.catalog.map() == Map::<Seq<char>, IcemanCatalogConfig>::empty(),
    {
        IcemanConfig { default_catalog: None, catalog: StrMap::new() }
    }

    /// Finds the catalog named `name` (else the only one, else the default) and builds
    /// its configuration.
    pub fn resolve_catalog(&self, name: Option<&str>) -> (r: Result<CatalogConfig, ConfigError>)
        ensures
            match r {
                Ok(c) => {
                    let n = iceman_catalog_name(name, self.default_catalog, self.catalog.map());
                    &&& self.catalog.map().contains_key(n)
                    &&& c.name@ == n
                    &&& c.kind@ == text_or_empty(self.catalog.map()[n].catalog_type)
                    &&& text_map(c.props.map()) == entry_props(self.catalog.map()[n])
                },
                Err(e) => {
                    let n = iceman_catalog_name(name, self.default_catalog, self.catalog.map());
                    &&& !self.catalog.map().contains_key(n)
                    &&& e matches ConfigError::CatalogNotFound { name: m } && m@ == n
                },
            },
    {
        let catalog_name: &str = match name {
            Some(n) => n,
            None => if self.catalog.len() == 1 {
                let es = self.catalog.entries();
                proof {
                    let k = es@[0].0@;
                    let d = self.catalog.map().dom();
                    lemma_len(es@);
                    assert(has_key_at(es@, k, 0));
                    lemma_to_map_dom(es@, k);
                    assert(d.remove(k).len() == 0);
                    assert(d =~= set![k]) by {
                        assert forall|x: Seq<char>| d.contains(x) implies x == k by {
                            if x != k {
                                assert(d.remove(k).contains(x));
                            }
                        }
                    }
                    assert(d.choose() == k) by {
                        assert(d.contains(d.choose()));
                    }
                }
                es[0].0.as_str()
            } else {
                match &self.default_catalog {
                    Some(d) => d.as_str(),
                    None => "default",
                }
            },
        };
        let entry = match self.catalog.get(catalog_name) {
            Some(e) => e,
            None => {
                return Err(ConfigError::CatalogNotFound { name: owned(catalog_name) });
            },
        };
        let mut props = entry.properties.duplicate();
        match &entry.uri {
            Some(u) => props.insert_if_some("uri", Some(u.as_str())),
            None => {},
        }
        match &entry.warehouse {
            Some(w) => props.insert_if_some("warehouse", Some(w.as_str())),
            None => {},
        }
        let kind = match &entry.catalog_type {
            Some(t) => t.clone(),
            None => String::new(),
        };
        Ok(CatalogConfig { name: owned(catalog_name), kind, props })
    }
}

/// Why a catalog could not be loaded from its configuration.
#[derive(Debug)]
pub enum CatalogError {
    /// The URI has a scheme from which no catalog type follows.
    UnknownScheme { uri: String },
    /// There is neither a catalog type nor a URI.
    NoTypeOrUri,
    /// The catalog type is not one of the supported ones.
    Unsupported { kind: String },
}

/// The catalog type that a URI implies: `http://` and `https://` are REST,
/// `thrift://` is Hive, `sqlite:` and `postgresql:` are SQL; other schemes imply none.
pub open spec fn kind_from_uri(uri: Seq<char>) -> Option<Seq<char>> {
    if "http://"@.is_prefix_of(uri) || "https://"@.is_prefix_of(uri) {
        Some("rest"@)
    } else if "thrift://"@.is_prefix_of(uri) {
        Some("hive"@)
    } else if "sqlite:"@.is_prefix_of(uri) || "postgresql:"@.is_prefix_of(uri) {
        Some("sql"@)
    } else {
        None
    }
}

/// Infers the catalog type from the `uri` property.
pub fn infer_catalog_type(props: &StrMap<String>) -> (r: Result<&'static str, CatalogError>)
    ensures
        match r {
            Ok(k) => props.map().contains_key("uri"@) && kind_from_uri(props.map()["uri"@]@)
                == Some(k@),
            Err(CatalogError::UnknownScheme { uri }) => props.map().contains_key("uri"@)
                && uri@ == props.map()["uri"@]@ && kind_from_uri(uri@) is None,
            Err(CatalogError::NoTypeOrUri) => !props.map().contains_key("uri"@),
            Err(CatalogError::Unsupported { .. }) => false,
        },
{
    match props.get("uri") {
        Some(uri) => {
            if starts_with(uri.as_str(), "http://") || starts_with(uri.as_str(), "https://") {
                return Ok("rest");
            }
            if starts_with(uri.as_str(), "thrift://") {
                return Ok("hive");
            }
            if starts_with(uri.as_str(), "sqlite:") || starts_with(uri.as_str(), "postgresql:") {
                return Ok("sql");
            }
            Err(CatalogError::UnknownScheme { uri: uri.clone() })
        },
        None => Err(CatalogError::NoTypeOrUri),
    }
}

/// The message each catalog error is reported with.
pub open spec fn catalog_error_text(e: CatalogError) -> Seq<char> {
    match e {
        CatalogError::UnknownScheme { uri } => "could not infer catalog type from URI: "@ + uri@,
        CatalogError::NoTypeOrUri => "no catalog type specified and no URI to infer from; set 'type' in your catalog configuration or provide --uri"@,
        CatalogError::Unsupported { kind } => "unsupported catalog type: '"@ + kind@
            + "' (supported: rest, s3tables, glue, hive, sql)"@,
    }
}

impl CatalogError {
    /// The message this error is reported with.
    pub fn message(&self) -> (s: String)
        ensures
            s@ == catalog_error_text(*self),
    {
        proof {
            reveal_strlit("");
            assert(forall|x: Seq<char>| x + ""@ =~= x);
        }
        match self {
            CatalogError::UnknownScheme { uri } => concat3(
                "could not infer catalog type from URI: ",
                uri.as_str(),
                "",
            ),
            CatalogError::NoTypeOrUri => owned(
                "no catalog type specified and no URI to infer from; set 'type' in your catalog configuration or provide --uri",
            ),
            CatalogError::Unsupported { kind } => concat3(
                "unsupported catalog type: '",
                kind.as_str(),
                "' (supported: rest, s3tables, glue, hive, sql)",
            ),
        }
    }
}

/// The catalog implementations that can be loaded.
#[derive(Debug, Clone, Copy, PartialEq, Eq, Structural)]
pub enum CatalogKind {
    Rest,
    S3Tables,
    Glue,
    Hive,
    Sql,
}

/// The catalog type under which each implementation is configured.
pub open spec fn catalog_kind_text(c: CatalogKind) -> Seq<char> {
    match c {
        CatalogKind::Rest => "rest"@,
        CatalogKind::S3Tables => "s3tables"@,
        CatalogKind::Glue => "glue"@,
        CatalogKind::Hive => "hive"@,
        CatalogKind::Sql => "sql"@,
    }
}

/// The implementation that a catalog type names.
pub open spec fn kind_named(k: Seq<char>) -> Option<CatalogKind> {
    if k == "rest"@ {
        Some(CatalogKind::Rest)
    } else if k == "s3tables"@ {
        Some(CatalogKind::S3Tables)
    } else if k == "glue"@ {
        Some(CatalogKind::Glue)
    } else if k == "hive"@ {
        Some(CatalogKind::Hive)
    } else if k == "sql"@ {
        Some(CatalogKind::Sql)
    } else {
        None
    }
}

/// A catalog type names an implementation exactly when it is that implementation's
/// configured type, so each type loads the implementation of the same name.
pub proof fn lemma_kind_named_by_text(k: Seq<char>, c: CatalogKind)
    ensures
        kind_named(k) == Some(c) <==> k == catalog_kind_text(c),
{
    reveal_strlit("rest");
    reveal_strlit("s3tables");
    reveal_strlit("glue");
    reveal_strlit("hive");
    reveal_strlit("sql");
    let texts = seq!["rest"@, "s3tables"@, "glue"@, "hive"@, "sql"@];
    assert forall|i: int, j: int| 0 <= i < j < 5 implies #[trigger] texts[i] != #[trigger] texts[j] by {
        if texts[i] == texts[j] {
            assert(texts[i][0] == texts[j][0] && texts[i][1] == texts[j][1]);
        }
    }
    assert(texts[0] == "rest"@ && texts[1] == "s3tables"@ && texts[2] == "glue"@ && texts[3] == "hive"@
        && texts[4] == "sql"@);
}

/// The catalog type in effect: the configured one, or the one inferred from the URI
/// when none is configured.
pub open spec fn effective_kind(kind: Seq<char>, props: Map<Seq<char>, Seq<char>>) -> Option<
    Seq<char>,
> {
    if kind.len() == 0 {
        if props.contains_key("uri"@) {
            kind_from_uri(props["uri"@])
        } else {
            None
        }
    } else {
        Some(kind)
    }
}

/// Decides which catalog implementation to load: the configured type, or the type
/// inferred from the URI when none is configured.
pub fn resolve_kind(kind: &str, props: &StrMap<String>) -> (r: Result<CatalogKind, CatalogError>)
    ensures
        match r {
            Ok(k) => effective_kind(kind@, text_map(props.map())) matches Some(e) && kind_named(e)
                == Some(k) && e == catalog_kind_text(k),
            Err(CatalogError::Unsupported { kind: k }) => kind@.len() > 0 && kind_named(kind@)
                is None && k@ == kind@,
            Err(CatalogError::UnknownScheme { uri }) => kind@.len() == 0 && props.map().contains_key(
                "uri"@,
            ) && uri@ == props.map()["uri"@]@ && kind_from_uri(uri@) is None,
            Err(CatalogError::NoTypeOrUri) => kind@.len() == 0 && !props.map().contains_key(
                "uri"@,
            ),
        },
{
    let effective: &str = if crate::text::char_count(kind) == 0 {
        match infer_catalog_type(props) {
            Ok(k) => k,
            Err(e) => {
                return Err(e);
            },
        }
    } else {
        kind
    };
    proof {
        reveal_strlit("rest");
        reveal_strlit("s3tables");
        reveal_strlit("glue");
        reveal_strlit("hive");
        reveal_strlit("sql");
    }
    if str_eq(effective, "rest") {
        Ok(CatalogKind::Rest)
    } else if str_eq(effective, "s3tables") {
        Ok(CatalogKind::S3Tables)
    } else if str_eq(effective, "glue") {
        Ok(CatalogKind::Glue)
    } else if str_eq(effective, "hive") {
        Ok(CatalogKind::Hive)
    } else if str_eq(effective, "sql") {
        Ok(CatalogKind::Sql)
    } else {
        Err(CatalogError::Unsupported { kind: owned(effective) })
    }
}

/// The properties handed to an S3 Tables catalog: `warehouse` becomes
/// `table_bucket_arn` unless that is already set.
pub open spec fn s3tables_props_spec(m: Map<Seq<char>, Seq<char>>) -> Map<Seq<char>, Seq<char>> {
    if m.contains_key("warehouse"@) {
        let rest = m.remove("warehouse"@);
        if rest.contains_key("table_bucket_arn"@) {
            rest
        } else {
            rest.insert("table_bucket_arn"@, m["warehouse"@])
        }
    } else {
        m
    }
}

/// Renames `warehouse` to `table_bucket_arn` for an S3 Tables catalog.
pub fn s3tables_props(props: StrMap<String>) -> (r: StrMap<String>)
    ensures
        text_map(r.map()) == s3tables_props_spec(text_map(props.map())),
{
    let mut props = props;
    let ghost m = text_map(props.map());
    match props.remove("warehouse") {
        Some(wh) => {
            if !props.contains_key("table_bucket_arn") {
                props.insert(owned("table_bucket_arn"), wh);
            }
            assert(text_map(props.map()) =~= s3tables_props_spec(m));
        },
        None => {},
    }
    props
}

} // verus!
