//! The PyIceberg YAML configuration format: case-insensitive catalog lookup,
//! flattening of nested properties into dotted keys, and the `PYICEBERG_*`
//! environment-variable overlay.
use vstd::prelude::*;

use super::CatalogConfig;
use crate::catalog::chosen_catalog_name;
use crate::error::{concat3, ConfigError};
use crate::props::{distinct_keys, opt_text, set_if_some, text_map, to_map, StrMap};
use crate::text::{
    bool_str, bool_text, owned, replace, replace_all, split_max, split_max_spec, starts_with, str_eq,
    to_lowercase, unicode_lowercase, views, chars_of, skip_chars, string_of,
};

verus! {

/// A YAML value as the configuration logic reads it. Numbers carry their decimal
/// text; sequences and tagged values carry their YAML rendering; a mapping carries
/// its entries in document order and its own YAML rendering.
pub enum YamlValue {
    Null,
    Bool(bool),
    Number(String),
    String(String),
    Mapping { entries: Vec<(YamlValue, YamlValue)>, rendered: String },
    Other(String),
}

/// The text a YAML value contributes as a property value or key.
pub open spec fn scalar_text(v: YamlValue) -> Seq<char> {
    match v {
        YamlValue::String(s) => s@,
        YamlValue::Bool(b) => bool_text(b),
        YamlValue::Number(n) => n@,
        YamlValue::Null => Seq::empty(),
        YamlValue::Mapping { rendered, .. } => rendered@,
        YamlValue::Other(r) => r@,
    }
}

/// The text of a YAML value used as a property value or key.
pub fn yaml_scalar_to_string(v: &YamlValue) -> (s: String)
    ensures
        s@ == scalar_text(*v),
{
    match v {
        YamlValue::String(s) => s.clone(),
        YamlValue::Bool(b) => bool_str(*b),
        YamlValue::Number(n) => n.clone(),
        YamlValue::Null => String::new(),
        YamlValue::Mapping { rendered, .. } => rendered.clone(),
        YamlValue::Other(r) => r.clone(),
    }
}

/// The dotted key of a nested entry: the lowercased key, after `prefix.` unless the
/// prefix is empty.
pub open spec fn child_key(prefix: Seq<char>, k: YamlValue) -> Seq<char> {
    let ks = unicode_lowercase(scalar_text(k));
    if prefix.len() == 0 {
        ks
    } else {
        prefix + "."@ + ks
    }
}

/// The properties after flattening `v` under `prefix` into `m`.
pub open spec fn flatten_spec(prefix: Seq<char>, v: YamlValue, m: Map<Seq<char>, Seq<char>>) -> Map<
    Seq<char>,
    Seq<char>,
>
    decreases v,
{
    match v {
        YamlValue::Mapping { entries, .. } => flatten_entries_spec(prefix, entries@, m),
        _ => m.insert(prefix, scalar_text(v)),
    }
}

/// The properties after flattening the entries `s` of a mapping under `prefix`, in order.
pub open spec fn flatten_entries_spec(
    prefix: Seq<char>,
    s: Seq<(YamlValue, YamlValue)>,
    m: Map<Seq<char>, Seq<char>>,
) -> Map<Seq<char>, Seq<char>>
    decreases s,
{
    if s.len() == 0 {
        m
    } else {
        flatten_entries_spec(prefix, s.drop_first(), flatten_spec(child_key(prefix, s[0].0), s[0].1, m))
    }
}

/// Flattens `value` into `out` under the key `prefix`: a mapping contributes one
/// dotted, lowercased key per nested scalar; any other value is stored under `prefix`.
pub fn flatten_yaml_value(prefix: &str, value: &YamlValue, out: &mut StrMap<String>)
    ensures
        text_map(final(out).map()) == flatten_spec(prefix@, *value, text_map(old(out).map())),
    decreases value,
{
    match value {
        YamlValue::Mapping { entries, .. } => {
            let ghost m0 = text_map(out.map());
            let mut i: usize = 0;
            assert(entries@.skip(0) =~= entries@);
            while i < entries.len()
                invariant
                    i <= entries@.len(),
                    *value is Mapping,
                    value->entries == *entries,
                    flatten_entries_spec(prefix@, entries@, m0) == flatten_entries_spec(
                        prefix@,
                        entries@.skip(i as int),
                        text_map(out.map()),
                    ),
                decreases entries@.len() - i,
            {
                let ghost rest = entries@.skip(i as int);
                let key_str = to_lowercase(yaml_scalar_to_string(&entries[i].0).as_str());
                let full_key = if crate::text::char_count(prefix) == 0 {
                    key_str
                } else {
                    concat3(prefix, ".", key_str.as_str())
                };
                assert(full_key@ == child_key(prefix@, rest[0].0));
                proof {
                    let e = entries@[i as int];
                    assert(*entries == value->entries);
                    assert(decreases_to!(*value => value->entries));
                    assert(decreases_to!(value->entries => value->entries[i as int]));
                    assert(decreases_to!(e => e.1));
                }
                flatten_yaml_value(full_key.as_str(), &entries[i].1, out);
                i += 1;
                assert(rest.drop_first() =~= entries@.skip(i as int));
            }
            assert(entries@.skip(i as int) =~= Seq::<(YamlValue, YamlValue)>::empty());
        },
        _ => {
            let text = yaml_scalar_to_string(value);
            out.insert(owned(prefix), text);
            assert(text_map(out.map()) =~= text_map(old(out).map()).insert(prefix@, scalar_text(*value)));
        },
    }
}

/// One catalog of a PyIceberg configuration.
pub struct PyIcebergCatalogConfig {
    pub catalog_type: Option<String>,
    pub uri: Option<String>,
    pub warehouse: Option<String>,
    pub properties: StrMap<YamlValue>,
}

/// A PyIceberg configuration (`.pyiceberg.yaml` plus environment overlay).
pub struct PyIcebergConfig {
    pub default_catalog: Option<String>,
    pub catalog: StrMap<PyIcebergCatalogConfig>,
}

impl PyIcebergCatalogConfig {
    /// A catalog entry with nothing set.
    pub fn empty() -> (c: Self)
        ensures
            c.catalog_type is None,
            c.uri is None,
            c.warehouse is None,
            c.properties.map() == Map::<Seq<char>, YamlValue>::empty(),
            c.properties.entry_seq().len() == 0,
    {
        PyIcebergCatalogConfig {
            catalog_type: None,
            uri: None,
            warehouse: None,
            properties: StrMap::new(),
        }
    }
}

impl Default for PyIcebergCatalogConfig {
    fn default() -> (c: Self)
        ensures
            c.catalog_type is None,
            c.uri is None,
            c.warehouse is None,
            c.properties.map() == Map::<Seq<char>, YamlValue>::empty(),
    {
        PyIcebergCatalogConfig::empty()
    }
}

impl Default for PyIcebergConfig {
    fn default() -> (c: Self)
        ensures
            c.default_catalog is None,
            c.catalog.map() == Map::<Seq<char>, PyIcebergCatalogConfig>::empty(),
            c.catalog.entry_seq().len() == 0,
    {
        PyIcebergConfig { default_catalog: None, catalog: StrMap::new() }
    }
}

/// The properties of a catalog entry: each top-level key is lowercased and its value
/// flattened under it, entry by entry.
pub open spec fn top_props_spec(s: Seq<(String, YamlValue)>, m: Map<Seq<char>, Seq<char>>) -> Map<
    Seq<char>,
    Seq<char>,
>
    decreases s.len(),
{
    if s.len() == 0 {
        m
    } else {
        top_props_spec(s.drop_first(), flatten_spec(unicode_lowercase(s[0].0@), s[0].1, m))
    }
}

/// The first catalog at or after `from` whose lowercased name is `lname`.
pub open spec fn first_ci_from(s: Seq<(String, PyIcebergCatalogConfig)>, lname: Seq<char>, from: int) -> Option<
    int,
>
    decreases s.len() - from,
{
    if from < 0 || from >= s.len() {
        None
    } else if unicode_lowercase(s[from].0@) == lname {
        Some(from)
    } else {
        first_ci_from(s, lname, from + 1)
    }
}

/// The lowercased catalog type, or the empty text.
pub open spec fn lower_type(t: Option<String>) -> Seq<char> {
    match t {
        Some(s) => unicode_lowercase(s@),
        None => Seq::empty(),
    }
}

/// The properties that a catalog entry resolves to.
pub open spec fn resolved_props(e: PyIcebergCatalogConfig) -> Map<Seq<char>, Seq<char>> {
    set_if_some(
        set_if_some(top_props_spec(e.properties.entry_seq(), Map::empty()), "uri"@, opt_text(e.uri)),
        "warehouse"@,
        opt_text(e.warehouse),
    )
}

impl PyIcebergConfig {
    /// Resolves the catalog named `name` (else the default, else `default`), matching
    /// names case-insensitively. A name with no entry resolves to an empty
    /// configuration, so that command-line overrides can still supply one.
    pub fn resolve_catalog(&self, name: Option<&str>) -> (r: Result<CatalogConfig, ConfigError>)
        ensures
            r matches Ok(c) && {
                let n = chosen_catalog_name(name, self.default_catalog);
                &&& c.name@ == n
                &&& match first_ci_from(self.catalog.entry_seq(), unicode_lowercase(n), 0) {
                    Some(i) => {
                        let e = self.catalog.entry_seq()[i].1;
                        &&& c.kind@ == lower_type(e.catalog_type)
                        &&& text_map(c.props.map()) == resolved_props(e)
                    },
                    None => c.kind@.len() == 0 && text_map(c.props.map()) == Map::<
                        Seq<char>,
                        Seq<char>,
                    >::empty(),
                }
            },
    {
        let catalog_name: &str = match name {
            Some(n) => n,
            None => match &self.default_catalog {
                Some(d) => d.as_str(),
                None => "default",
            },
        };
        let lower = to_lowercase(catalog_name);
        let entries = self.catalog.entries();
        let mut found: Option<usize> = None;
        let mut i: usize = 0;
        while i < entries.len()
            invariant_except_break
                i <= entries@.len(),
                found is None,
                first_ci_from(entries@, lower@, 0) == first_ci_from(entries@, lower@, i as int),
            ensures
                match found {
                    Some(j) => j < entries@.len() && first_ci_from(entries@, lower@, 0) == Some(
                        j as int,
                    ),
                    None => first_ci_from(entries@, lower@, 0) is None,
                },
            decreases entries@.len() - i,
        {
            let key_lower = to_lowercase(entries[i].0.as_str());
            if str_eq(key_lower.as_str(), lower.as_str()) {
                found = Some(i);
                break ;
            }
            i += 1;
        }
        let mut props: StrMap<String> = StrMap::new();
        match found {
            Some(j) => {
                let entry = &entries[j].1;
                let plist = entry.properties.entries();
                let mut k: usize = 0;
                assert(plist@.skip(0) =~= plist@);
                assert(text_map(props.map()) =~= Map::<Seq<char>, Seq<char>>::empty());
                while k < plist.len()
                    invariant
                        k <= plist@.len(),
                        top_props_spec(plist@, Map::empty()) == top_props_spec(
                            plist@.skip(k as int),
                            text_map(props.map()),
                        ),
                    decreases plist@.len() - k,
                {
                    let ghost rest = plist@.skip(k as int);
                    let key = to_lowercase(plist[k].0.as_str());
                    flatten_yaml_value(key.as_str(), &plist[k].1, &mut props);
                    k += 1;
                    assert(rest.drop_first() =~= plist@.skip(k as int));
                }
                assert(plist@.skip(k as int) =~= Seq::<(String, YamlValue)>::empty());
                match &entry.uri {
                    Some(u) => props.insert_if_some("uri", Some(u.as_str())),
                    None => {},
                }
                match &entry.warehouse {
                    Some(w) => props.insert_if_some("warehouse", Some(w.as_str())),
                    None => {},
                }
                let kind = match &entry.catalog_type {
                    Some(t) => to_lowercase(t.as_str()),
                    None => String::new(),
                };
                Ok(CatalogConfig { name: owned(catalog_name), kind, props })
            },
            None => {
                assert(text_map(props.map()) =~= Map::<Seq<char>, Seq<char>>::empty());
                Ok(CatalogConfig { name: owned(catalog_name), kind: String::new(), props })
            },
        }
    }
}

// ---------------------------------------------------------------------------
// Abstract views of a configuration
// ---------------------------------------------------------------------------

/// What a catalog entry holds.
pub struct CatalogEntryView {
    pub ty: Option<Seq<char>>,
    pub uri: Option<Seq<char>>,
    pub warehouse: Option<Seq<char>>,
    pub props: Map<Seq<char>, YamlValue>,
}

/// What a configuration holds.
pub struct ConfigView {
    pub default_catalog: Option<Seq<char>>,
    pub catalogs: Map<Seq<char>, CatalogEntryView>,
}

/// An entry with nothing set.
pub open spec fn empty_entry() -> CatalogEntryView {
    CatalogEntryView { ty: None, uri: None, warehouse: None, props: Map::empty() }
}

/// A configuration with nothing set.
pub open spec fn empty_config() -> ConfigView {
    ConfigView { default_catalog: None, catalogs: Map::empty() }
}

impl PyIcebergCatalogConfig {
    /// The abstract content of this entry.
    pub open spec fn view(self) -> CatalogEntryView {
        CatalogEntryView {
            ty: opt_text(self.catalog_type),
            uri: opt_text(self.uri),
            warehouse: opt_text(self.warehouse),
            props: self.properties.map(),
        }
    }
}

/// The abstract content of each entry of a catalog map.
pub open spec fn entry_views(m: Map<Seq<char>, PyIcebergCatalogConfig>) -> Map<Seq<char>, CatalogEntryView> {
    m.map_values(|e: PyIcebergCatalogConfig| e.view())
}

impl PyIcebergConfig {
    /// The abstract content of this configuration.
    pub open spec fn view(self) -> ConfigView {
        ConfigView {
            default_catalog: opt_text(self.default_catalog),
            catalogs: entry_views(self.catalog.map()),
        }
    }
}

// ---------------------------------------------------------------------------
// Environment overlay
// ---------------------------------------------------------------------------

/// One segment of a variable name: `__` becomes `.`, `_` becomes `-`, then lowercase.
pub open spec fn env_transform(s: Seq<char>) -> Seq<char> {
    unicode_lowercase(replace_all(replace_all(s, "__"@, "."@), "_"@, "-"@))
}

/// The segments of a variable name after `PYICEBERG_`: split on `__` at most twice,
/// each segment transformed.
pub open spec fn env_segments(rest: Seq<char>) -> Seq<Seq<char>> {
    split_max_spec(rest, "__"@, 2).map_values(|s: Seq<char>| env_transform(s))
}

/// The entry after setting `prop` to `value` from the environment.
pub open spec fn env_set(e: CatalogEntryView, prop: Seq<char>, value: String) -> CatalogEntryView {
    if prop == "type"@ {
        CatalogEntryView { ty: Some(value@), ..e }
    } else if prop == "uri"@ {
        CatalogEntryView { uri: Some(value@), ..e }
    } else if prop == "warehouse"@ {
        CatalogEntryView { warehouse: Some(value@), ..e }
    } else {
        CatalogEntryView { props: e.props.insert(prop, YamlValue::String(value)), ..e }
    }
}

/// The configuration after one environment variable: `PYICEBERG_DEFAULT_CATALOG`
/// sets the default catalog, `PYICEBERG_CATALOG__<NAME>__<KEY>` sets one key of a
/// catalog; anything else is ignored.
pub open spec fn env_step(cv: ConfigView, key: Seq<char>, value: String) -> ConfigView {
    if !"PYICEBERG_"@.is_prefix_of(key) {
        cv
    } else {
        let segs = env_segments(key.skip(10));
        if segs.len() == 1 {
            if segs[0] == "default-catalog"@ {
                ConfigView { default_catalog: Some(value@), ..cv }
            } else {
                cv
            }
        } else if segs.len() == 3 && segs[0] == "catalog"@ {
            let e = if cv.catalogs.contains_key(segs[1]) {
                cv.catalogs[segs[1]]
            } else {
                empty_entry()
            };
            ConfigView { catalogs: cv.catalogs.insert(segs[1], env_set(e, segs[2], value)), ..cv }
        } else {
            cv
        }
    }
}

/// The configuration after the variables `vars`, in order.
pub open spec fn env_fold(vars: Seq<(String, String)>, cv: ConfigView) -> ConfigView
    decreases vars.len(),
{
    if vars.len() == 0 {
        cv
    } else {
        env_fold(vars.drop_first(), env_step(cv, vars[0].0@, vars[0].1))
    }
}

/// Transforms one segment of a variable name.
pub fn env_transform_segment(s: &str) -> (r: String)
    ensures
        r@ == env_transform(s@),
{
    proof {
        reveal_strlit("__");
        reveal_strlit("_");
    }
    let a = replace(s, "__", ".");
    let b = replace(a.as_str(), "_", "-");
    to_lowercase(b.as_str())
}

/// The transformed segments of a variable name after its prefix.
pub fn env_var_segments(rest: &str) -> (r: Vec<String>)
    ensures
        views(r@) == env_segments(rest@),
{
    let parts = split_max(rest, "__", 2);
    let mut out: Vec<String> = Vec::new();
    let mut i: usize = 0;
    while i < parts.len()
        invariant
            i <= parts@.len(),
            views(parts@) == split_max_spec(rest@, "__"@, 2),
            views(out@) == env_segments(rest@).take(i as int),
        decreases parts@.len() - i,
    {
        let ghost before = out@;
        let t = env_transform_segment(parts[i].as_str());
        out.push(t);
        proof {
            let segs = env_segments(rest@);
            assert(views(parts@)[i as int] == parts@[i as int]@);
            assert(segs[i as int] == env_transform(parts@[i as int]@));
            assert(views(out@) =~= views(before).push(t@));
            assert(segs.take(i + 1) =~= segs.take(i as int).push(segs[i as int]));
        }
        i += 1;
    }
    assert(env_segments(rest@).take(i as int) =~= env_segments(rest@)) by {
        assert(views(parts@).len() == parts@.len());
    }
    out
}

impl PyIcebergConfig {
    /// Applies one environment variable to this configuration.
    pub fn apply_env_var(&mut self, key: &str, value: String)
        ensures
            final(self).view() == env_step(old(self).view(), key@, value),
    {
        proof {
            reveal_strlit("PYICEBERG_");
            reveal_strlit("default-catalog");
            reveal_strlit("catalog");
            reveal_strlit("type");
            reveal_strlit("uri");
            reveal_strlit("warehouse");
        }
        if !starts_with(key, "PYICEBERG_") {
            return;
        }
        let kv = chars_of(key);
        let rv = skip_chars(&kv, 10);
        let rest = string_of(&rv);
        let segs = env_var_segments(rest.as_str());
        assert(views(segs@).len() == segs@.len());
        if segs.len() == 1 {
            assert(segs@[0]@ == env_segments(key@.skip(10))[0]);
            if str_eq(segs[0].as_str(), "default-catalog") {
                self.default_catalog = Some(value);
            }
        } else if segs.len() == 3 && str_eq(segs[0].as_str(), "catalog") {
            assert(segs@[1]@ == env_segments(key@.skip(10))[1]);
            assert(segs@[2]@ == env_segments(key@.skip(10))[2]);
            let ghost cats = self.catalog.map();
            let mut entry = match self.catalog.remove(segs[1].as_str()) {
                Some(e) => e,
                None => PyIcebergCatalogConfig::empty(),
            };
            let ghost e0 = entry.view();
            proof {
                let k = segs@[1]@;
                if cats.contains_key(k) {
                    assert(entry_views(cats)[k] == cats[k].view());
                    assert(e0 == entry_views(cats)[k]);
                } else {
                    assert(entry.properties.map() =~= Map::<Seq<char>, YamlValue>::empty());
                    assert(e0 == empty_entry());
                }
                assert(entry_views(cats) == old(self).view().catalogs);
            }
            let prop = segs[2].as_str();
            if str_eq(prop, "type") {
                entry.catalog_type = Some(value);
            } else if str_eq(prop, "uri") {
                entry.uri = Some(value);
            } else if str_eq(prop, "warehouse") {
                entry.warehouse = Some(value);
            } else {
                let ghost v = value;
                entry.properties.insert(owned(prop), YamlValue::String(value));
                assert(entry.view() == env_set(e0, segs@[2]@, v));
            }
            self.catalog.insert(segs[1].clone(), entry);
            assert(entry_views(self.catalog.map()) =~= entry_views(cats).insert(
                segs@[1]@,
                entry.view(),
            ));
        }
    }
}

/// Builds the configuration that the `PYICEBERG_*` environment variables describe.
pub fn parse_pyiceberg_env_vars(vars: &[(String, String)]) -> (c: PyIcebergConfig)
    ensures
        c.view() == env_fold(vars@, empty_config()),
{
    let mut config = PyIcebergConfig { default_catalog: None, catalog: StrMap::new() };
    assert(config.view() =~= empty_config()) by {
        assert(entry_views(config.catalog.map()) =~= Map::<Seq<char>, CatalogEntryView>::empty());
    }
    let mut i: usize = 0;
    assert(vars@.skip(0) =~= vars@);
    while i < vars.len()
        invariant
            i <= vars@.len(),
            env_fold(vars@, empty_config()) == env_fold(vars@.skip(i as int), config.view()),
        decreases vars@.len() - i,
    {
        let ghost rest = vars@.skip(i as int);
        config.apply_env_var(vars[i].0.as_str(), vars[i].1.clone());
        i += 1;
        assert(rest.drop_first() =~= vars@.skip(i as int));
    }
    assert(vars@.skip(i as int) =~= Seq::<(String, String)>::empty());
    config
}

// ---------------------------------------------------------------------------
// Merging an overlay into a configuration
// ---------------------------------------------------------------------------

/// An entry with the overlay's values winning where it has them.
pub open spec fn merge_entry(b: CatalogEntryView, o: CatalogEntryView) -> CatalogEntryView {
    CatalogEntryView {
        ty: if o.ty is Some {
            o.ty
        } else {
            b.ty
        },
        uri: if o.uri is Some {
            o.uri
        } else {
            b.uri
        },
        warehouse: if o.warehouse is Some {
            o.warehouse
        } else {
            b.warehouse
        },
        props: b.props.union_prefer_right(o.props),
    }
}

/// The entry of `n` in `b`, or an empty entry.
pub open spec fn entry_or_empty(b: Map<Seq<char>, CatalogEntryView>, n: Seq<char>) -> CatalogEntryView {
    if b.contains_key(n) {
        b[n]
    } else {
        empty_entry()
    }
}

/// Every catalog of `b` and `o`; those of the overlay are merged into the base's.
pub open spec fn merge_catalogs(
    b: Map<Seq<char>, CatalogEntryView>,
    o: Map<Seq<char>, CatalogEntryView>,
) -> Map<Seq<char>, CatalogEntryView> {
    Map::new(
        |n: Seq<char>| b.contains_key(n) || o.contains_key(n),
        |n: Seq<char>|
            if o.contains_key(n) {
                merge_entry(entry_or_empty(b, n), o[n])
            } else {
                b[n]
            },
    )
}

/// A configuration with an overlay merged in: the overlay's values win when present.
pub open spec fn merge_view(b: ConfigView, o: ConfigView) -> ConfigView {
    ConfigView {
        default_catalog: if o.default_catalog is Some {
            o.default_catalog
        } else {
            b.default_catalog
        },
        catalogs: merge_catalogs(b.catalogs, o.catalogs),
    }
}

/// The configuration `m` is `b` with the overlay `o` applied: every value the overlay
/// has replaces the base's, every value it lacks is the base's, and no catalog comes
/// from elsewhere.
pub open spec fn overlay_applied(b: ConfigView, o: ConfigView, m: ConfigView) -> bool {
    &&& m.default_catalog == (if o.default_catalog is Some { o.default_catalog } else { b.default_catalog })
    &&& forall|n: Seq<char>| #[trigger] m.catalogs.contains_key(n) <==> b.catalogs.contains_key(n) || o.catalogs.contains_key(n)
    &&& forall|n: Seq<char>| b.catalogs.contains_key(n) && !o.catalogs.contains_key(n) ==> #[trigger] m.catalogs[n] == b.catalogs[n]
    &&& forall|n: Seq<char>| #![trigger m.catalogs[n]] o.catalogs.contains_key(n) ==> {
        let me = m.catalogs[n];
        let oe = o.catalogs[n];
        &&& (oe.ty is Some ==> me.ty == oe.ty)
        &&& (oe.uri is Some ==> me.uri == oe.uri)
        &&& (oe.warehouse is Some ==> me.warehouse == oe.warehouse)
        &&& (oe.ty is None ==> me.ty == (if b.catalogs.contains_key(n) { b.catalogs[n].ty } else { None }))
        &&& (oe.uri is None ==> me.uri == (if b.catalogs.contains_key(n) { b.catalogs[n].uri } else { None }))
        &&& (oe.warehouse is None ==> me.warehouse == (if b.catalogs.contains_key(n) {
            b.catalogs[n].warehouse
        } else {
            None
        }))
        &&& forall|k: Seq<char>| #[trigger] me.props.contains_key(k) <==> oe.props.contains_key(k) || (
            b.catalogs.contains_key(n) && b.catalogs[n].props.contains_key(k))
        &&& forall|k: Seq<char>| oe.props.contains_key(k) ==> #[trigger] me.props[k] == oe.props[k]
        &&& forall|k: Seq<char>|
            !oe.props.contains_key(k) && b.catalogs.contains_key(n) && b.catalogs[n].props.contains_key(k)
                ==> #[trigger] me.props[k] == b.catalogs[n].props[k]
    }
}

/// Merging applies the overlay: its default catalog, catalog types, URIs, warehouses
/// and properties win where it has them, and the base's stay where it has none.
pub proof fn lemma_merge_applies_overlay(b: ConfigView, o: ConfigView)
    ensures
        overlay_applied(b, o, merge_view(b, o)),
{
    let m = merge_view(b, o);
    assert forall|n: Seq<char>| #![trigger m.catalogs[n]] o.catalogs.contains_key(n) implies {
        let me = m.catalogs[n];
        let oe = o.catalogs[n];
        &&& forall|k: Seq<char>| #[trigger] me.props.contains_key(k) <==> oe.props.contains_key(k) || (
            b.catalogs.contains_key(n) && b.catalogs[n].props.contains_key(k))
        &&& forall|k: Seq<char>| oe.props.contains_key(k) ==> #[trigger] me.props[k] == oe.props[k]
        &&& forall|k: Seq<char>|
            !oe.props.contains_key(k) && b.catalogs.contains_key(n) && b.catalogs[n].props.contains_key(k)
                ==> #[trigger] me.props[k] == b.catalogs[n].props[k]
    } by {
        assert(m.catalogs[n] == merge_entry(entry_or_empty(b.catalogs, n), o.catalogs[n]));
    }
}

/// Merging one more overlay catalog, not yet seen, into a partial merge.
proof fn lemma_merge_step(
    b: Map<Seq<char>, CatalogEntryView>,
    o: Map<Seq<char>, CatalogEntryView>,
    n: Seq<char>,
    e: CatalogEntryView,
)
    requires
        !o.contains_key(n),
    ensures
        merge_catalogs(b, o.insert(n, e)) == merge_catalogs(b, o).insert(
            n,
            merge_entry(entry_or_empty(merge_catalogs(b, o), n), e),
        ),
{
    assert(merge_catalogs(b, o.insert(n, e)) =~= merge_catalogs(b, o).insert(
        n,
        merge_entry(entry_or_empty(merge_catalogs(b, o), n), e),
    ));
}

/// Merges the overlay `overlay` into `base`: the overlay's default catalog, catalog
/// fields and properties win where the overlay has them.
pub fn merge_config(base: &mut PyIcebergConfig, overlay: PyIcebergConfig)
    ensures
        final(base).view() == merge_view(old(base).view(), overlay.view()),
        overlay_applied(old(base).view(), overlay.view(), final(base).view()),
{
    proof {
        lemma_merge_applies_overlay(old(base).view(), overlay.view());
    }
    let ghost ov = overlay.view();
    let ghost b0 = base.view();
    let PyIcebergConfig { default_catalog: odefault, catalog: ocatalog } = overlay;
    if odefault.is_some() {
        base.default_catalog = odefault;
    }
    let mut entries = ocatalog.into_entries();
    let ghost all = entries@;
    let elen = entries.len();
    let mut i: usize = 0;
    assert(entry_views(to_map(all.take(0))) =~= Map::<Seq<char>, CatalogEntryView>::empty());
    assert(merge_catalogs(b0.catalogs, Map::empty()) =~= b0.catalogs);
    while entries.len() > 0
        invariant
            distinct_keys(all),
            i <= all.len(),
            elen == all.len(),
            entries@ == all.skip(i as int),
            opt_text(base.default_catalog) == merge_view(b0, ov).default_catalog,
            entry_views(base.catalog.map()) == merge_catalogs(
                b0.catalogs,
                entry_views(to_map(all.take(i as int))),
            ),
        decreases entries@.len(),
    {
        let (name, oe) = entries.remove(0);
        let ghost oview = oe.view();
        let ghost cur = entry_views(base.catalog.map());
        let ghost part = entry_views(to_map(all.take(i as int)));
        let mut be = match base.catalog.remove(name.as_str()) {
            Some(e) => e,
            None => PyIcebergCatalogConfig::empty(),
        };
        proof {
            if !base.catalog.map().contains_key(name@) {
            }
            crate::props::lemma_to_map_dom(all.take(i as int), name@);
            if exists|j: int| crate::props::has_key_at(all.take(i as int), name@, j) {
                let j = choose|j: int| crate::props::has_key_at(all.take(i as int), name@, j);
                assert(all[j].0@ == all[i as int].0@);
            }
            assert(!part.contains_key(name@));
        }
        let ghost be0 = be.view();
        proof {
            if cur.contains_key(name@) {
                assert(be0 == cur[name@]);
            } else {
                assert(be.properties.map() =~= Map::<Seq<char>, YamlValue>::empty());
            }
            assert(be0 == entry_or_empty(cur, name@));
        }
        let PyIcebergCatalogConfig {
            catalog_type: oty,
            uri: ouri,
            warehouse: owh,
            properties: oprops,
        } = oe;
        if oty.is_some() {
            be.catalog_type = oty;
        }
        if ouri.is_some() {
            be.uri = ouri;
        }
        if owh.is_some() {
            be.warehouse = owh;
        }
        let ghost bp0 = be.properties.map();
        let ghost bty = be.catalog_type;
        let ghost buri = be.uri;
        let ghost bwh = be.warehouse;
        let mut plist = oprops.into_entries();
        let ghost pall = plist@;
        let plen = plist.len();
        assert(to_map(pall) == oview.props);
        assert(bp0 == be0.props);
        let mut j: usize = 0;
        assert(bp0.union_prefer_right(to_map(pall.take(0))) =~= bp0);
        while plist.len() > 0
            invariant
                j <= pall.len(),
                plen == pall.len(),
                be.catalog_type == bty,
                be.uri == buri,
                be.warehouse == bwh,
                plist@ == pall.skip(j as int),
                be.properties.map() == bp0.union_prefer_right(to_map(pall.take(j as int))),
            decreases plist@.len(),
        {
            let (k, v) = plist.remove(0);
            let ghost before = be.properties.map();
            be.properties.insert(k, v);
            proof {
                assert(pall.take(j + 1).drop_last() =~= pall.take(j as int));
                assert(pall.take(j + 1).last() == pall[j as int]);
                assert(be.properties.map() =~= bp0.union_prefer_right(to_map(pall.take(j + 1))));
            }
            j += 1;
            assert(plist@ =~= pall.skip(j as int));
        }
        assert(pall.take(j as int) =~= pall);
        proof {
            let me = merge_entry(entry_or_empty(cur, name@), oview);
            assert(be.view().ty == me.ty);
            assert(be.view().uri == me.uri);
            assert(be.view().warehouse == me.warehouse);
            assert(be.view().props == me.props);
            assert(be.view() == me);
        }
        let ghost bev = be.view();
        base.catalog.insert(name, be);
        proof {
            let k = all[i as int].0@;
            assert(all.take(i + 1).drop_last() =~= all.take(i as int));
            assert(all.take(i + 1).last() == all[i as int]);
            assert(entry_views(to_map(all.take(i + 1))) =~= part.insert(k, oview));
            lemma_merge_step(b0.catalogs, part, k, oview);
            assert(entry_views(base.catalog.map()) =~= cur.remove(k).insert(k, bev));
            assert(cur.remove(k).insert(k, bev) =~= cur.insert(k, bev));
        }
        i += 1;
        assert(entries@ =~= all.skip(i as int));
    }
    assert(all.take(i as int) =~= all);
    assert(base.view() =~= merge_view(b0, ov));
}

/// Picks the configuration file among the candidates, each a path and whether a file
/// exists there, given in search order (`$PYICEBERG_HOME/`, `~/`, `./`): the first
/// that exists wins, and there is none when no candidate exists.
pub fn first_found(candidates: &Vec<(String, bool)>) -> (r: Option<String>)
    ensures
        match r {
            Some(p) => exists|i: int|
                0 <= i < candidates@.len() && (#[trigger] candidates@[i]).1 && p@ == candidates@[i].0@
                    && forall|j: int| 0 <= j < i ==> !(#[trigger] candidates@[j]).1,
            None => forall|j: int| 0 <= j < candidates@.len() ==> !(#[trigger] candidates@[j]).1,
        },
{
    let mut i: usize = 0;
    while i < candidates.len()
        invariant
            i <= candidates@.len(),
            forall|j: int| 0 <= j < i ==> !(#[trigger] candidates@[j]).1,
        decreases candidates@.len() - i,
    {
        if candidates[i].1 {
            let p = owned(candidates[i].0.as_str());
            assert(candidates@[i as int].1);
            return Some(p);
        }
        i += 1;
    }
    None
}

} // verus!
