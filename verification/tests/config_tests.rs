use foundry_compilers::artifacts::{EvmVersion, SolcLanguage};
use foundry_compilers::ProjectPathsConfig;
use solidity_ast::{
    all_or_first_error, detected_source_dir, BaselineConfig, ExcludeConfig, ExcludeProbes,
    IncludeConfig, PathParts, ProjectConfigInput, ProjectConfigInputBuilder,
    SolcCompilerConfigInput, SolcVersionConfig, SourcesConfig,
};

fn p(s: &str) -> PathParts {
    let mut parts: Vec<String> = Vec::new();
    if s.starts_with('/') {
        parts.push("/".to_string());
    }
    for c in s.split('/') {
        if !c.is_empty() {
            parts.push(c.to_string());
        }
    }
    PathParts::new(parts)
}

fn names(v: &[PathParts]) -> Vec<Vec<String>> {
    v.iter().map(|x| x.parts.clone()).collect()
}

fn baseline(src: &str, libs: &[&str], test: &str, script: &str) -> BaselineConfig {
    BaselineConfig {
        src: p(src),
        libs: libs.iter().map(|l| p(l)).collect(),
        test: p(test),
        script: p(script),
        skip: vec![],
        project_paths: ProjectPathsConfig::builder()
            .sources("/proj/src")
            .build_with_root::<SolcLanguage>("/proj-that-does-not-exist"),
        evm_version: EvmVersion::default(),
        via_ir: false,
    }
}

fn no_probes() -> ExcludeProbes {
    ExcludeProbes { soldeer_dependencies: None, node_modules: None, forge_std: None }
}

fn config(builder: ProjectConfigInputBuilder, b: BaselineConfig, probes: ExcludeProbes) -> ProjectConfigInput {
    builder.build_from(b, probes, SolcCompilerConfigInput::AutoDetect)
}

#[test]
fn builder_defaults_and_setters() {
    let b = ProjectConfigInputBuilder::new(&p("/proj"));
    assert_eq!(b.root().parts, p("/proj").parts);
    assert!(matches!(b.sources(), SourcesConfig::AutoDetect));
    assert!(matches!(b.solc_version(), SolcVersionConfig::Auto));
    let b = b
        .with_sources(SourcesConfig::Specific(p("contracts")))
        .with_solc_version(SolcVersionConfig::Specific(semver::Version::new(0, 8, 15)));
    assert!(matches!(b.sources(), SourcesConfig::Specific(x) if x.parts == p("contracts").parts));
    assert!(
        matches!(b.solc_version(), SolcVersionConfig::Specific(v) if *v == semver::Version::new(0, 8, 15))
    );
    assert_eq!(b.root().parts, p("/proj").parts);
}

#[test]
fn sources_choice_resolves() {
    assert_eq!(SourcesConfig::AutoDetect.resolve(p("src")).parts, p("src").parts);
    assert_eq!(SourcesConfig::Specific(p("contracts")).resolve(p("src")).parts, p("contracts").parts);
}

#[test]
fn source_dir_detection() {
    assert!(detected_source_dir(true).is_none());
    assert_eq!(detected_source_dir(false).unwrap().parts, vec![".".to_string()]);
}

#[test]
fn auto_excludes_only_inside_sources_without_repeats() {
    let b = baseline(
        "/proj/src",
        &["/proj/src/lib", "/proj/lib", "/proj/src/lib"],
        "/proj/src/test",
        "/proj/script",
    );
    let probes = ExcludeProbes {
        soldeer_dependencies: Some(p("/proj/src/dependencies")),
        node_modules: Some(p("/proj/node_modules")),
        forge_std: Some(p("/proj/src/dependencies")),
    };
    let c = config(ProjectConfigInputBuilder::new(&p("/proj")), b, probes);
    assert_eq!(
        names(&c.exclude_starting),
        vec![
            p("/proj/src/lib").parts,
            p("/proj/src/test").parts,
            p("/proj/src/dependencies").parts,
        ]
    );
    assert!(c.exclude_containing.is_empty());
    assert_eq!(c.include_containing, vec!["".to_string()]);
    assert_eq!(c.sources.parts, p("/proj/src").parts);
    assert_eq!(c.root.parts, p("/proj").parts);
}

#[test]
fn separated_repeats_are_kept() {
    let b = baseline("/proj", &["/proj/lib", "/proj/test"], "/proj/lib", "/proj/lib");
    let c = config(ProjectConfigInputBuilder::new(&p("/proj")), b, no_probes());
    assert_eq!(
        names(&c.exclude_starting),
        vec![p("/proj/lib").parts, p("/proj/test").parts, p("/proj/lib").parts]
    );
}

#[test]
fn chosen_exclude_and_include_strings_pass_through() {
    let b = baseline("/proj/contracts", &[], "/proj/test", "/proj/script");
    let builder = ProjectConfigInputBuilder::new(&p("/proj"))
        .with_exclude(ExcludeConfig::Specific(vec![".t.sol".to_string()]))
        .with_include(IncludeConfig::Specific(vec!["Counter".to_string()]));
    let c = config(builder, b, no_probes());
    assert_eq!(c.exclude_containing, vec![".t.sol".to_string()]);
    assert_eq!(c.include_containing, vec!["Counter".to_string()]);
}

fn hardhat_mini() -> ProjectConfigInput {
    let b = baseline("/proj", &["/proj/node_modules"], "/proj/test", "/proj/script");
    let builder = ProjectConfigInputBuilder::new(&p("/proj"))
        .with_exclude(ExcludeConfig::Specific(vec![".t.sol".to_string()]));
    config(builder, b, no_probes())
}

#[test]
fn inclusion_follows_location_and_name_rules() {
    let c = hardhat_mini();
    let root = p("/proj");
    assert!(c.is_included(&root, &p("contracts/Counter.sol"), false));
    assert!(c.is_included(&root, &p("src/console.sol"), false));
    assert!(!c.is_included(&root, &p("contracts/Counter.t.sol"), false));
    assert!(!c.is_included(&root, &p("test/Counter.sol"), false));
    assert!(!c.is_included(&root, &p("node_modules/x/Y.sol"), false));
    assert!(!c.is_included(&root, &p("contracts/Counter.sol"), true));
    assert!(c.is_included(&root, &p("/proj/contracts/Counter.sol"), false));
    assert!(c.inclusion_is_defined(&root, &p("contracts/Counter.sol"), false));
}

#[test]
fn include_strings_select_a_subset() {
    let b = baseline("/proj", &[], "/proj/test", "/proj/script");
    let builder = ProjectConfigInputBuilder::new(&p("/proj"))
        .with_include(IncludeConfig::Specific(vec!["Reverse".to_string()]));
    let c = config(builder, b, no_probes());
    let root = p("/proj");
    assert!(c.is_included(&root, &p("contracts/ReverseCounter.sol"), false));
    assert!(!c.is_included(&root, &p("contracts/Counter.sol"), false));
}

#[test]
fn outside_sources_is_never_included() {
    let b = baseline("/proj/src", &[], "/proj/test", "/proj/script");
    let c = config(ProjectConfigInputBuilder::new(&p("/proj")), b, no_probes());
    let root = p("/proj");
    assert!(!c.is_included(&root, &p("lib/Dep.sol"), false));
    assert!(c.is_included(&root, &p("src/A.sol"), false));
}

#[test]
fn undefined_inclusion_is_reported() {
    let b = baseline("/elsewhere", &[], "/proj/test", "/proj/script");
    let c = config(ProjectConfigInputBuilder::new(&p("/proj")), b, no_probes());
    assert!(!c.inclusion_is_defined(&p("/proj"), &p("/elsewhere/A.sol"), false));
    assert!(c.inclusion_is_defined(&p("/proj"), &p("/elsewhere/A.sol"), true));
}

#[test]
fn walk_predicates() {
    let c = hardhat_mini();
    let root = p("/proj");
    assert!(c.descends_into(&p("/proj/contracts"), false));
    assert!(!c.descends_into(&p("/proj/test"), false));
    assert!(!c.descends_into(&p("/proj/contracts"), true));
    assert!(c.accepts_source_file(&root, &p("/proj/contracts/Counter.sol"), false));
    assert!(!c.accepts_source_file(&root, &p("/proj/contracts/Counter.t.sol"), false));
    assert!(!c.accepts_source_file(&root, &p("/proj/contracts/README.md"), false));
}

#[test]
fn included_files_keep_order() {
    let c = hardhat_mini();
    let root = p("/proj");
    let keys = vec![
        p("contracts/Counter.sol"),
        p("contracts/Counter.t.sol"),
        p("contracts/ReverseCounter.sol"),
        p("src/console.sol"),
    ];
    let kept = c.included_files(&root, &keys, &vec![false, false, false, true]);
    assert_eq!(names(&kept), vec![p("contracts/Counter.sol").parts, p("contracts/ReverseCounter.sol").parts]);
}

#[test]
fn first_error_or_all_values() {
    let ok: Vec<Result<u32, String>> = vec![Ok(1), Ok(2), Ok(3)];
    assert_eq!(all_or_first_error(ok), Ok(vec![1, 2, 3]));
    let bad: Vec<Result<u32, String>> = vec![Ok(1), Err("a".to_string()), Err("b".to_string())];
    assert_eq!(all_or_first_error(bad), Err("a".to_string()));
    let empty: Vec<Result<u32, String>> = vec![];
    assert_eq!(all_or_first_error(empty), Ok(vec![]));
}

#[test]
fn narrower_rules_admit_no_new_file() {
    let wider = {
        let b = baseline("/proj", &["/proj/node_modules"], "/proj/test", "/proj/script");
        config(ProjectConfigInputBuilder::new(&p("/proj")), b, no_probes())
    };
    let narrower = hardhat_mini();
    let root = p("/proj");
    for f in [
        "contracts/Counter.sol",
        "contracts/Counter.t.sol",
        "src/console.sol",
        "test/T.sol",
        "node_modules/x/Y.sol",
    ] {
        for skipped in [false, true] {
            if narrower.is_included(&root, &p(f), skipped) {
                assert!(wider.is_included(&root, &p(f), skipped));
            }
        }
    }
    assert!(wider.is_included(&root, &p("contracts/Counter.t.sol"), false));
    assert!(!narrower.is_included(&root, &p("contracts/Counter.t.sol"), false));
}
