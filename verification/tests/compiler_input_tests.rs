use foundry_compilers::artifacts::{EvmVersion, Remapping, Source, Sources, SolcLanguage};
use foundry_compilers::ProjectPathsConfig;
use solidity_ast::{ast_compiler_input, PathParts};
use std::path::PathBuf;

fn paths() -> ProjectPathsConfig<SolcLanguage> {
    ProjectPathsConfig::builder()
        .sources("/proj/src")
        .remapping(Remapping {
            context: None,
            name: "forge-std/".to_string(),
            path: "/proj/lib/forge-std/src/".to_string(),
        })
        .build_with_root::<SolcLanguage>("/proj-that-does-not-exist")
}

fn root() -> PathParts {
    PathParts::new(vec!["/".to_string(), "proj".to_string()])
}

#[test]
fn ast_input_is_relative_to_the_root_and_selects_asts() {
    let mut sources = Sources::new();
    sources.insert(PathBuf::from("/proj/src/A.sol"), Source::new("contract A {}"));
    sources.insert(PathBuf::from("/elsewhere/B.sol"), Source::new("contract B {}"));
    sources.insert(PathBuf::from("/project/C.sol"), Source::new("contract C {}"));
    let version = semver::Version::new(0, 8, 30);
    let input = ast_compiler_input(&paths(), &root(), sources, &version, EvmVersion::Osaka);
    let keys: Vec<PathBuf> = input.sources.keys().cloned().collect();
    assert_eq!(
        keys,
        vec![
            PathBuf::from("/elsewhere/B.sol"),
            PathBuf::from("/project/C.sol"),
            PathBuf::from("src/A.sol"),
        ]
    );
    assert_eq!(input.language, SolcLanguage::Solidity);
    let selection = serde_json::to_string(&input.settings.output_selection).unwrap();
    assert_eq!(selection, r#"{"*":{"":["ast"],"*":[]}}"#);
}

#[test]
fn ast_input_carries_the_configured_evm_version() {
    let latest = semver::Version::new(0, 8, 30);
    let input = ast_compiler_input(&paths(), &root(), Sources::new(), &latest, EvmVersion::Osaka);
    assert_eq!(input.settings.evm_version, Some(EvmVersion::Osaka));
    let older = semver::Version::new(0, 8, 20);
    let input = ast_compiler_input(&paths(), &root(), Sources::new(), &older, EvmVersion::Osaka);
    assert_eq!(input.settings.evm_version, Some(EvmVersion::Shanghai));
    let input = ast_compiler_input(&paths(), &root(), Sources::new(), &latest, EvmVersion::London);
    assert_eq!(input.settings.evm_version, Some(EvmVersion::London));
}

#[test]
fn ast_input_carries_the_project_remappings_relative_to_the_root() {
    let version = semver::Version::new(0, 8, 30);
    let input = ast_compiler_input(&paths(), &root(), Sources::new(), &version, EvmVersion::Prague);
    assert_eq!(input.settings.remappings.len(), 1);
    assert_eq!(input.settings.remappings[0].name, "forge-std/");
    assert_eq!(input.settings.remappings[0].context, None);
    assert_eq!(input.settings.remappings[0].path, "lib/forge-std/src");
}

#[test]
fn ast_input_keeps_file_texts_and_default_settings() {
    let mut sources = Sources::new();
    sources.insert(PathBuf::from("/proj/src/A.sol"), Source::new("contract A {}"));
    sources.insert(PathBuf::from("/elsewhere/B.sol"), Source::new("contract B {}"));
    let version = semver::Version::new(0, 8, 30);
    let input = ast_compiler_input(&paths(), &root(), sources, &version, EvmVersion::Prague);
    assert_eq!(input.sources[&PathBuf::from("src/A.sol")].content.as_str(), "contract A {}");
    assert_eq!(input.sources[&PathBuf::from("/elsewhere/B.sol")].content.as_str(), "contract B {}");
    let s = &input.settings;
    assert_eq!(s.stop_after, None);
    assert_eq!(s.optimizer.enabled, Some(false));
    assert_eq!(s.optimizer.runs, Some(200));
    assert!(s.optimizer.details.is_none());
    assert_eq!(s.via_ir, None);
    assert!(s.metadata.is_none());
    assert!(s.debug.is_none());
    assert!(s.model_checker.is_none());
    assert!(s.libraries.libs.is_empty());
}
