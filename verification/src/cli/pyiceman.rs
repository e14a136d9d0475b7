//! Command-line vocabulary of the PyIceberg-compatible `pyiceman` front end.
use vstd::prelude::*;

use super::{EntityType, OutputFormat};

verus! {

/// The `pyiceman` command line.
pub struct PyIcemanCli {
    /// Path to `.pyiceberg.yaml` (overrides the default search).
    pub config: Option<String>,
    /// Catalog name from config.
    pub catalog: Option<String>,
    /// Verbose output.
    pub verbose: bool,
    /// Output format.
    pub output: OutputFormat,
    /// Catalog URI (overrides config).
    pub uri: Option<String>,
    /// Catalog credential (overrides config).
    pub credential: Option<String>,
    /// Warehouse location (overrides config).
    pub warehouse: Option<String>,
    /// UGI (overrides config).
    pub ugi: Option<String>,
    pub command: Command,
}

/// The `pyiceman` subcommands.
pub enum Command {
    List { parent: Option<String> },
    Describe { identifier: String, entity: EntityType },
    Files { identifier: String, history: bool },
    Schema { identifier: String },
    Spec { identifier: String },
    Uuid { identifier: String },
    Location { identifier: String },
    Version,
    Rename { from: String, to: String },
    ListRefs { identifier: String, ref_type: Option<String> },
    Create { command: CreateCommand },
    Drop { command: DropCommand },
    Properties { command: PropertiesCommand },
    Init,
    Config { action: ConfigAction },
}

/// Create a namespace.
pub enum CreateCommand {
    Namespace { identifier: String },
}

/// Drop a table or namespace.
pub enum DropCommand {
    Table { identifier: String },
    Namespace { identifier: String },
}

/// Get, set, or remove properties.
pub enum PropertiesCommand {
    Get { command: PropertiesGetCommand },
    /// Set a property (the `set` subcommand).
    Update { command: PropertiesSetCommand },
    Remove { command: PropertiesRemoveCommand },
}

/// Get properties of a namespace or table.
pub enum PropertiesGetCommand {
    Namespace { identifier: String, property_name: Option<String> },
    Table { identifier: String, property_name: Option<String> },
}

/// Set a property of a namespace or table.
pub enum PropertiesSetCommand {
    Namespace { identifier: String, property_name: String, property_value: String },
    Table { identifier: String, property_name: String, property_value: String },
}

/// Remove a property of a namespace or table.
pub enum PropertiesRemoveCommand {
    Namespace { identifier: String, property_name: String },
    Table { identifier: String, property_name: String },
}

/// Configuration actions.
pub enum ConfigAction {
    /// Print the path to the active config file.
    Path,
    /// Show the resolved configuration.
    Show,
}

} // verus!
