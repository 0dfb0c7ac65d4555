//! Types of outside crates that the library carries through without reading them.
use vstd::prelude::*;

verus! {

/// A semantic version (`semver::Version`), carried through unread.
#[verifier::external_type_specification]
#[verifier::external_body]
pub struct ExVersion(semver::Version);

/// The EVM version named in a project's configuration.
#[verifier::external_type_specification]
#[verifier::external_body]
pub struct ExEvmVersion(foundry_compilers::artifacts::EvmVersion);

/// A `solc` binary at a known version.
#[verifier::external_type_specification]
#[verifier::external_body]
pub struct ExSolc(foundry_compilers::solc::Solc);

/// The language tag of Solidity sources.
#[verifier::external_type_specification]
#[verifier::external_body]
pub struct ExSolcLanguage(foundry_compilers::artifacts::SolcLanguage);

/// The path layout of a project (sources, libraries, remappings, ...).
#[verifier::external_type_specification]
#[verifier::external_body]
#[verifier::reject_recursive_types(L)]
pub struct ExProjectPathsConfig<L>(foundry_compilers::ProjectPathsConfig<L>);

/// The source files handed to the compiler, keyed by path.
#[verifier::external_type_specification]
#[verifier::external_body]
pub struct ExSources(foundry_compilers::artifacts::Sources);

/// The content of one source file (declared because `Sources` dereferences to a
/// map of these).
#[verifier::external_type_specification]
#[verifier::external_body]
pub struct ExSource(foundry_compilers::artifacts::Source);

/// A filesystem path of the standard library (declared because `Sources`
/// dereferences to a map keyed by these).
#[verifier::external_type_specification]
#[verifier::external_body]
pub struct ExPathBuf(std::path::PathBuf);

/// The compiler settings of a standard-JSON input.
#[verifier::external_type_specification]
#[verifier::external_body]
pub struct ExSettings(foundry_compilers::artifacts::Settings);

/// Which outputs the compiler is asked for.
#[verifier::external_type_specification]
#[verifier::external_body]
pub struct ExOutputSelection(foundry_compilers::artifacts::output_selection::OutputSelection);

/// A standard-JSON compiler input.
#[verifier::external_type_specification]
#[verifier::external_body]
pub struct ExSolcInput(foundry_compilers::artifacts::SolcInput);

} // verus!
