//! The decisions of a derive that compiles CLI declarations: naming, manifests, the checks
//! on config declarations, and what the generated code of a command, a subcommand enum, a
//! value enum and an argument group states.

pub mod unicode;
pub mod text;
pub mod case;
pub mod crate_name;
pub mod config;
pub mod hash;
pub mod dispatch;
pub mod paths;
pub mod declaration;
pub mod fields;
pub mod attributes;
pub mod tables;
pub mod layer;
pub mod completion;
pub mod checks;
pub mod registry;
pub mod value_enum;
pub mod arg_group;
pub mod command;
pub mod subcommands;
pub mod environment;
