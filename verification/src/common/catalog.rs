//! Deciding which catalog implementation a configuration asks for.
use vstd::prelude::*;

use crate::catalog::{kind_from_uri, CatalogError};
use crate::props::StrMap;

verus! {

/// Infers the catalog type from the `uri` property, as PyIceberg does:
/// `http://` and `https://` are REST, `thrift://` is Hive, `sqlite:` and `postgresql:` are SQL.
pub fn infer_catalog_type(props: &StrMap<String>) -> (r: Result<&'static str, CatalogError>)
    ensures
        match r {
            Ok(k) => props.map().contains_key("uri"@) && kind_from_uri(props.map()["uri"@]@)
                == Some(k@),
            Err(CatalogError::UnknownScheme { uri }) => props.map().contains_key("uri"@)
                && uri@ == props.map()["uri"@]@ && kind_from_uri(uri@) is None,
            Err(CatalogError::NoTypeOrUri) => !props.map().contains_key("uri"@),
            Err(CatalogError::Unsupported { .. }) => false,
        },
{
    crate::catalog::infer_catalog_type(props)
}

} // verus!
