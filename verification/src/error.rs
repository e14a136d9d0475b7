//! Errors met while reading and resolving configuration.
use vstd::prelude::*;

use crate::text::push_str;

verus! {

/// A configuration error. Outside failures are carried as their message text.
#[derive(Debug)]
pub enum ConfigError {
    NoConfigDir,
    TomlParse { path: String, source: String },
    YamlParse { path: String, source: String },
    Read { path: String, source: String },
    NotFound { path: String },
    CreateDir { path: String, source: String },
    Write { path: String, source: String },
    CatalogNotFound { name: String },
}

/// The text of `a`, `b` and `c` one after the other.
pub fn concat3(a: &str, b: &str, c: &str) -> (s: String)
    ensures
        s@ == a@ + b@ + c@,
{
    let mut s = String::new();
    push_str(&mut s, a);
    push_str(&mut s, b);
    push_str(&mut s, c);
    assert(s@ =~= a@ + b@ + c@);
    s
}

/// The text of `a` to `e` one after the other.
pub fn concat5(a: &str, b: &str, c: &str, d: &str, e: &str) -> (s: String)
    ensures
        s@ == a@ + b@ + c@ + d@ + e@,
{
    let mut s = String::new();
    push_str(&mut s, a);
    push_str(&mut s, b);
    push_str(&mut s, c);
    push_str(&mut s, d);
    push_str(&mut s, e);
    assert(s@ =~= a@ + b@ + c@ + d@ + e@);
    s
}

/// The message that each configuration error is reported with.
pub open spec fn config_error_text(e: ConfigError) -> Seq<char> {
    match e {
        ConfigError::NoConfigDir => "could not determine home directory"@,
        ConfigError::TomlParse { path, source } => "failed to parse TOML config at "@ + path@
            + ": "@ + source@,
        ConfigError::YamlParse { path, source } => "failed to parse YAML config at "@ + path@
            + ": "@ + source@,
        ConfigError::Read { path, source } => "failed to read config at "@ + path@ + ": "@
            + source@,
        ConfigError::NotFound { path } => "config file not found at "@ + path@,
        ConfigError::CreateDir { path, source } => "failed to create directory "@ + path@
            + ": "@ + source@,
        ConfigError::Write { path, source } => "failed to write config at "@ + path@ + ": "@
            + source@,
        ConfigError::CatalogNotFound { name } => "catalog '"@ + name@
            + "' not found in configuration"@,
    }
}

impl ConfigError {
    /// The message this error is reported with.
    pub fn message(&self) -> (s: String)
        ensures
            s@ == config_error_text(*self),
    {
        proof {
            reveal_strlit("");
            assert(forall|x: Seq<char>| x + ""@ =~= x);
        }
        match self {
            ConfigError::NoConfigDir => crate::text::owned("could not determine home directory"),
            ConfigError::TomlParse { path, source } => concat5(
                "failed to parse TOML config at ",
                path.as_str(),
                ": ",
                source.as_str(),
                "",
            ),
            ConfigError::YamlParse { path, source } => concat5(
                "failed to parse YAML config at ",
                path.as_str(),
                ": ",
                source.as_str(),
                "",
            ),
            ConfigError::Read { path, source } => concat5(
                "failed to read config at ",
                path.as_str(),
                ": ",
                source.as_str(),
                "",
            ),
            ConfigError::NotFound { path } => concat3("config file not found at ", path.as_str(), ""),
            ConfigError::CreateDir { path, source } => concat5(
                "failed to create directory ",
                path.as_str(),
                ": ",
                source.as_str(),
                "",
            ),
            ConfigError::Write { path, source } => concat5(
                "failed to write config at ",
                path.as_str(),
                ": ",
                source.as_str(),
                "",
            ),
            ConfigError::CatalogNotFound { name } => concat3(
                "catalog '",
                name.as_str(),
                "' not found in configuration",
            ),
        }
    }
}

} // verus!
