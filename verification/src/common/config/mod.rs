//! Resolved catalog configuration and the two configuration file formats.
pub mod iceman;
pub mod pyiceberg;

use vstd::prelude::*;

use crate::props::{opt_str_text, set_if_some, text_map, StrMap};

verus! {

/// A resolved catalog: the implementation kind (empty when it is to be inferred),
/// the catalog name and its connection properties.
pub struct CatalogConfig {
    pub kind: String,
    pub name: String,
    pub props: StrMap<String>,
}

/// The properties after the `--uri`, `--warehouse`, `--credential` and `--ugi` overrides.
pub open spec fn overridden(
    m: Map<Seq<char>, Seq<char>>,
    uri: Option<&str>,
    warehouse: Option<&str>,
    credential: Option<&str>,
    ugi: Option<&str>,
) -> Map<Seq<char>, Seq<char>> {
    set_if_some(
        set_if_some(
            set_if_some(set_if_some(m, "uri"@, opt_str_text(uri)), "warehouse"@, opt_str_text(warehouse)),
            "credential"@,
            opt_str_text(credential),
        ),
        "ugi"@,
        opt_str_text(ugi),
    )
}

impl CatalogConfig {
    /// Applies the command-line overrides: each given value replaces the property of
    /// the same name; absent values leave the properties as they were.
    pub fn apply_overrides(
        &mut self,
        uri: Option<&str>,
        warehouse: Option<&str>,
        credential: Option<&str>,
        ugi: Option<&str>,
    )
        ensures
            final(self).kind == old(self).kind,
            final(self).name == old(self).name,
            text_map(final(self).props.map()) == overridden(
                text_map(old(self).props.map()),
                uri,
                warehouse,
                credential,
                ugi,
            ),
    {
        self.props.insert_if_some("uri", uri);
        self.props.insert_if_some("warehouse", warehouse);
        self.props.insert_if_some("credential", credential);
        self.props.insert_if_some("ugi", ugi);
    }
}

} // verus!
