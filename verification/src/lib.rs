//! viperus: a layered configuration store.
//!
//! Values come from explicit overrides, command-line arguments, configuration
//! files (dotenv, java properties, JSON, TOML, YAML), environment variables and
//! defaults, and are looked up in that decreasing order of precedence.
use vstd::prelude::*;

pub mod adapter;
pub mod cli;
pub mod depth;
pub mod global;
pub mod laws;
pub mod map;
pub mod pairs;
pub mod parse;
pub mod tree;
pub mod value;
pub mod viperus;

pub use adapter::{
    AdapterResult, ConfigAdapter, EnvAdapter, JavaPropertiesAdapter, JsonAdapter, TomlAdapter,
    YamlAdapter,
};
pub use cli::{ClapArg, ClapMatches};
pub use global::{
    add, add_default, automatic_env, bond_clap, cache, get, load_adapter, load_clap, load_file,
    reload, set_env_prefix,
};
pub use map::ViperusMap;
pub use tree::ConfigTree;
pub use value::{ConfigRef, ConfigValue, ViperusValue};
pub use viperus::Viperus;

verus! {

/// The errors of the library.
#[derive(Debug)]
pub enum ViperusError {
    Generic(String),
}

impl ViperusError {
    /// The human readable form of the error: `Generic Error: ` and the message.
    pub fn message(&self) -> (r: String)
        ensures
            match self {
                ViperusError::Generic(s) => r@ == "Generic Error: "@ + s@,
            },
    {
        match self {
            ViperusError::Generic(s) => {
                let mut r: String = "Generic Error: ".to_owned();
                r.append(s.as_str());
                r
            },
        }
    }
}

/// Preconfigured file formats with stock adapters.
#[derive(Debug, Clone, Copy, PartialEq, Eq, Structural)]
pub enum Format {
    Auto,
    YAML,
    JSON,
    TOML,
    ENV,
    JAVAPROPERTIES,
}

} // verus!
