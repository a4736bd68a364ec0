//! `DEFINE CONFIG`.

use vstd::prelude::*;

verus! {

/// A table that the GraphQL schema shows or hides.
#[derive(Clone, Debug, PartialEq, Eq)]
pub struct TableConfig {
    pub name: String,
}

/// Which tables the GraphQL schema shows.
#[derive(Clone, Debug, PartialEq, Eq)]
pub enum TablesConfig {
    /// No table.
    Nothing,
    /// Every table.
    Auto,
    /// These tables.
    Include(Vec<TableConfig>),
    /// Every table but these.
    Exclude(Vec<TableConfig>),
}

/// Which functions the GraphQL schema shows.
#[derive(Clone, Debug, PartialEq, Eq)]
pub enum FunctionsConfig {
    /// No function.
    Nothing,
    /// Every function.
    Auto,
    /// These functions.
    Include(Vec<String>),
    /// Every function but these.
    Exclude(Vec<String>),
}

/// The configuration of the GraphQL schema.
#[derive(Clone, Debug, PartialEq, Eq)]
pub struct GraphQLConfig {
    pub tables: TablesConfig,
    pub functions: FunctionsConfig,
}

/// What a `DEFINE CONFIG` statement configures.
#[derive(Clone, Debug, PartialEq, Eq)]
pub enum ConfigInner {
    GraphQL(GraphQLConfig),
    /// The API, whose configuration holds expressions: the parser stands
    /// behind the keyword, and the parser of expressions reads on.
    Api,
}

/// The definition of a configuration.
#[derive(Clone, Debug, PartialEq, Eq)]
pub struct DefineConfigStatement {
    pub inner: ConfigInner,
    pub if_not_exists: bool,
    pub overwrite: bool,
}

} // verus!
