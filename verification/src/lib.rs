//! Solidity project configuration: which source files of a project are handed to
//! the compiler, decided over paths modelled as sequences of components.

pub mod compiler_input;
pub mod config;
pub mod foreign;
pub mod input;
pub mod output;
pub mod paths;
pub mod text;

pub use config::{
    BaselineConfig, ExcludeConfig, ExcludeProbes, IncludeConfig, ProjectConfigInputBuilder,
    SolcVersionConfig, SourcesConfig, detected_source_dir,
};
pub use input::{ProjectConfigInput, SolcCompilerConfigInput, all_or_first_error};
pub use output::AstSourceFile;
pub use compiler_input::ast_compiler_input;
pub use paths::PathParts;
pub use text::{EMPTY_STRING, str_contains};
pub use foundry_compilers::artifacts::{EvmVersion, Source};
