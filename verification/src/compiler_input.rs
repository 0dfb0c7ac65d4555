//! The standard-JSON input that asks the compiler for ASTs only.
//!
//! The outside values involved are opaque; what the contracts say of them goes
//! through names for what they hold, each read as plain values: the files of the
//! sources with their text, the output-selection map, the remappings, the EVM
//! version, the other settings, and whether the input's language is Solidity.
use vstd::prelude::*;
use foundry_compilers::artifacts::output_selection::OutputSelection;
use foundry_compilers::artifacts::{EvmVersion, Settings, SolcInput, SolcLanguage, Sources};
use foundry_compilers::ProjectPathsConfig;
use semver::Version;
use crate::paths::{PathParts, path_starts_with, is_absolute, is_component_list};

verus! {

/// The files that a [`Sources`] holds: each path, taken as its components (as
/// `Path::components` yields them), to the text of the file.
pub uninterp spec fn source_files(sources: Sources) -> Map<Seq<Seq<char>>, Seq<char>>;

/// The files that a [`SolcInput`]'s sources hold, read as [`source_files`] reads
/// them.
pub uninterp spec fn input_source_files(input: SolcInput) -> Map<Seq<Seq<char>>, Seq<char>>;

/// Whether a [`SolcInput`]'s language is Solidity.
pub uninterp spec fn input_is_solidity(input: SolcInput) -> bool;

/// The settings that a [`SolcInput`] holds.
pub uninterp spec fn input_settings(input: SolcInput) -> Settings;

/// What an [`OutputSelection`] holds: file pattern to contract pattern to the
/// outputs asked for.
pub uninterp spec fn selection_entries(selection: OutputSelection) -> Map<
    Seq<char>,
    Map<Seq<char>, Seq<Seq<char>>>,
>;

/// The output selection that [`Settings`] hold, read as [`selection_entries`] reads one.
pub uninterp spec fn settings_selection(settings: Settings) -> Map<
    Seq<char>,
    Map<Seq<char>, Seq<Seq<char>>>,
>;

/// The remappings that [`Settings`] hold, in order, each as (context, name, path).
pub uninterp spec fn settings_remappings(settings: Settings) -> Seq<
    (Option<Seq<char>>, Seq<char>, Seq<char>),
>;

/// The remappings of a project's paths, in order, each as (context, name, path).
pub uninterp spec fn project_remappings(paths: ProjectPathsConfig<SolcLanguage>) -> Seq<
    (Option<Seq<char>>, Seq<char>, Seq<char>),
>;

/// The EVM version that [`Settings`] hold.
pub uninterp spec fn settings_evm_version(settings: Settings) -> Option<EvmVersion>;

/// The `stopAfter` setting of [`Settings`].
pub uninterp spec fn settings_stop_after(settings: Settings) -> Option<Seq<char>>;

/// The optimizer of [`Settings`]: whether it is enabled, its runs, and whether
/// detailed optimizer settings are present.
pub uninterp spec fn settings_optimizer(settings: Settings) -> (Option<bool>, Option<usize>, bool);

/// The `viaIR` setting of [`Settings`].
pub uninterp spec fn settings_via_ir(settings: Settings) -> Option<bool>;

/// Whether [`Settings`] hold metadata settings.
pub uninterp spec fn settings_has_metadata(settings: Settings) -> bool;

/// Whether [`Settings`] hold debugging settings.
pub uninterp spec fn settings_has_debug(settings: Settings) -> bool;

/// Whether [`Settings`] hold model-checker settings.
pub uninterp spec fn settings_has_model_checker(settings: Settings) -> bool;

/// The files for which [`Settings`] give library addresses, each as its
/// components.
pub uninterp spec fn settings_library_files(settings: Settings) -> Set<Seq<Seq<char>>>;

/// What `EvmVersion::normalize_version_solc` gives for `evm` and the compiler
/// `version`: `evm` capped at the highest EVM version that compiler knows, or
/// `None` for a compiler older than the EVM version flag.
pub uninterp spec fn solc_normalized(evm: EvmVersion, version: Version) -> Option<EvmVersion>;

/// The path text of a remapping after `Remapping::strip_prefix` with the base
/// whose components are `base`.
pub uninterp spec fn remapping_path_stripped(path: Seq<char>, base: Seq<Seq<char>>) -> Seq<char>;

/// The output selection that asks for the AST of every source file and for no
/// output of any contract.
pub open spec fn ast_selection() -> Map<Seq<char>, Map<Seq<char>, Seq<Seq<char>>>> {
    map![seq!['*'] => map![seq!['*'] => Seq::<Seq<char>>::empty(), Seq::<char>::empty() => seq![seq!['a', 's', 't']]]]
}

/// `p` without the prefix `base` where `base` is a prefix of it, else `p`
/// unchanged.
pub open spec fn strip_or_keep(p: Seq<Seq<char>>, base: Seq<Seq<char>>) -> Seq<Seq<char>> {
    if path_starts_with(p, base) {
        p.skip(base.len() as int)
    } else {
        p
    }
}

/// The settings besides the output selection, the remappings and the EVM version.
pub open spec fn settings_extras(s: Settings) -> (
    Option<Seq<char>>,
    (Option<bool>, Option<usize>, bool),
    Option<bool>,
    bool,
    bool,
    bool,
    Set<Seq<Seq<char>>>,
) {
    (
        settings_stop_after(s),
        settings_optimizer(s),
        settings_via_ir(s),
        settings_has_metadata(s),
        settings_has_debug(s),
        settings_has_model_checker(s),
        settings_library_files(s),
    )
}

/// The extras of default settings: no `stopAfter`, the optimizer disabled at 200
/// runs without details, no `viaIR`, no metadata, debugging or model-checker
/// settings, and no libraries.
pub open spec fn default_extras() -> (
    Option<Seq<char>>,
    (Option<bool>, Option<usize>, bool),
    Option<bool>,
    bool,
    bool,
    bool,
    Set<Seq<Seq<char>>>,
) {
    (None, (Some(false), Some(200), false), None, false, false, false, Set::empty())
}

/// What sanitizing may do to the extras: drop `stopAfter`, `viaIR`, debugging and
/// model-checker settings (for older compilers); everything else stays.
pub open spec fn extras_sanitized(before: Settings, after: Settings) -> bool {
    &&& (settings_stop_after(after) == settings_stop_after(before) || settings_stop_after(after) is None)
    &&& settings_optimizer(after) == settings_optimizer(before)
    &&& (settings_via_ir(after) == settings_via_ir(before) || settings_via_ir(after) is None)
    &&& settings_has_metadata(after) == settings_has_metadata(before)
    &&& (settings_has_debug(after) == settings_has_debug(before) || !settings_has_debug(after))
    &&& (settings_has_model_checker(after) == settings_has_model_checker(before)
        || !settings_has_model_checker(after))
    &&& settings_library_files(after) == settings_library_files(before)
}

/// `after` holds the files of `before` with every path that `base` prefixes
/// stripped of it: each path of `after` comes from a path of `before` and holds
/// its text, and every path of `before` arrives.
pub open spec fn files_stripped(
    before: Map<Seq<Seq<char>>, Seq<char>>,
    after: Map<Seq<Seq<char>>, Seq<char>>,
    base: Seq<Seq<char>>,
) -> bool {
    &&& after.dom() == before.dom().map(|p: Seq<Seq<char>>| strip_or_keep(p, base))
    &&& forall|q: Seq<Seq<char>>|
        #[trigger] after.dom().contains(q) ==> exists|k: Seq<Seq<char>>|
            before.dom().contains(k) && strip_or_keep(k, base) == q && after[q] == before[k]
}

/// Remappings whose paths went through `Remapping::strip_prefix` with `base`.
pub open spec fn remappings_stripped(
    rs: Seq<(Option<Seq<char>>, Seq<char>, Seq<char>)>,
    base: Seq<Seq<char>>,
) -> Seq<(Option<Seq<char>>, Seq<char>, Seq<char>)> {
    rs.map_values(
        |r: (Option<Seq<char>>, Seq<char>, Seq<char>)| (r.0, r.1, remapping_path_stripped(r.2, base)),
    )
}

/// No file pattern of a selection is an absolute path.
pub open spec fn relative_patterns(sel: Map<Seq<char>, Map<Seq<char>, Seq<Seq<char>>>>) -> bool {
    forall|k: Seq<char>| #[trigger] sel.dom().contains(k) ==> !(k.len() > 0 && k[0] == '/')
}

/// `OutputSelection::ast_output_selection`: the AST of every source file and no
/// output of any contract.
#[verifier::external_body]
fn ast_output_selection() -> (r: OutputSelection)
    ensures
        selection_entries(r) == ast_selection(),
{
    OutputSelection::ast_output_selection()
}

/// `Settings::new`: default settings with the given output selection: no
/// remappings, no `stopAfter`, the optimizer disabled at 200 runs without
/// details, no `viaIR`, no metadata, debugging or model-checker settings, and no
/// libraries (the default EVM version is not stated).
#[verifier::external_body]
fn settings_with(selection: OutputSelection) -> (r: Settings)
    ensures
        settings_selection(r) == selection_entries(selection),
        settings_remappings(r) == Seq::<(Option<Seq<char>>, Seq<char>, Seq<char>)>::empty(),
        settings_stop_after(r) is None,
        settings_optimizer(r) == (Some(false), Some(200usize), false),
        settings_via_ir(r) is None,
        !settings_has_metadata(r),
        !settings_has_debug(r),
        !settings_has_model_checker(r),
        settings_library_files(r) == Set::<Seq<Seq<char>>>::empty(),
{
    Settings::new(selection)
}

/// Sets the settings' remappings to (a clone of) those of the project paths; the
/// output selection and the EVM version stay.
#[verifier::external_body]
fn use_project_remappings(settings: &mut Settings, paths: &ProjectPathsConfig<SolcLanguage>)
    ensures
        settings_remappings(*final(settings)) == project_remappings(*paths),
        settings_selection(*final(settings)) == settings_selection(*old(settings)),
        settings_evm_version(*final(settings)) == settings_evm_version(*old(settings)),
        settings_extras(*final(settings)) == settings_extras(*old(settings)),
{
    settings.remappings = paths.remappings.clone();
}

/// Sets the settings' EVM version; the output selection and the remappings stay.
#[verifier::external_body]
fn use_evm_version(settings: &mut Settings, evm: EvmVersion)
    ensures
        settings_evm_version(*final(settings)) == Some(evm),
        settings_selection(*final(settings)) == settings_selection(*old(settings)),
        settings_remappings(*final(settings)) == settings_remappings(*old(settings)),
        settings_extras(*final(settings)) == settings_extras(*old(settings)),
{
    settings.evm_version = Some(evm);
}

/// `Settings::sanitize` for Solidity at `version`: the EVM version is normalized
/// for that compiler; the output selection, the remappings, the optimizer's
/// switches, metadata presence and libraries stay; `stopAfter`, `viaIR`,
/// debugging and model-checker settings stay or are dropped. What it changes
/// inside optimizer details, metadata, debugging and model-checker settings is
/// not stated.
#[verifier::external_body]
fn sanitize_for(settings: &mut Settings, version: &Version)
    ensures
        settings_evm_version(*final(settings)) == match settings_evm_version(*old(settings)) {
            Some(e) => solc_normalized(e, *version),
            None => None,
        },
        settings_selection(*final(settings)) == settings_selection(*old(settings)),
        settings_remappings(*final(settings)) == settings_remappings(*old(settings)),
        extras_sanitized(*old(settings), *final(settings)),
{
    settings.sanitize(version, SolcLanguage::Solidity)
}

/// `SolcInput::new` for Solidity sources: the input's language is Solidity and it
/// holds `sources` and `settings` as they are.
#[verifier::external_body]
fn solidity_input(sources: Sources, settings: Settings) -> (r: SolcInput)
    ensures
        input_is_solidity(r),
        input_source_files(r) == source_files(sources),
        input_settings(r) == settings,
{
    SolcInput::new(SolcLanguage::Solidity, sources, settings)
}

/// `SolcInput::strip_prefix`: where `base` is a list of components, every source
/// path that `base` prefixes loses that prefix, the others stay, and each file
/// keeps its text; every remapping path goes through `Remapping::strip_prefix`;
/// where `base` is absolute, file patterns of the output selection that are not
/// absolute stay; library files are stripped as source paths are (no libraries
/// stay no libraries). The language, the EVM version and the other settings stay.
/// What it does to model-checker paths is not stated.
#[verifier::external_body]
fn strip_base(input: &mut SolcInput, base: &PathParts)
    ensures
        is_component_list(base@) ==> files_stripped(
            input_source_files(*old(input)),
            input_source_files(*final(input)),
            base@,
        ),
        is_component_list(base@) ==> settings_library_files(input_settings(*final(input)))
            == settings_library_files(input_settings(*old(input))).map(
            |p: Seq<Seq<char>>| strip_or_keep(p, base@),
        ),
        settings_library_files(input_settings(*old(input))).is_empty() ==> settings_library_files(
            input_settings(*final(input)),
        ).is_empty(),
        settings_stop_after(input_settings(*final(input))) == settings_stop_after(
            input_settings(*old(input)),
        ),
        settings_optimizer(input_settings(*final(input))) == settings_optimizer(
            input_settings(*old(input)),
        ),
        settings_via_ir(input_settings(*final(input))) == settings_via_ir(input_settings(*old(input))),
        settings_has_metadata(input_settings(*final(input))) == settings_has_metadata(
            input_settings(*old(input)),
        ),
        settings_has_debug(input_settings(*final(input))) == settings_has_debug(
            input_settings(*old(input)),
        ),
        settings_has_model_checker(input_settings(*final(input))) == settings_has_model_checker(
            input_settings(*old(input)),
        ),
        input_is_solidity(*final(input)) == input_is_solidity(*old(input)),
        settings_remappings(input_settings(*final(input))).len() == settings_remappings(
            input_settings(*old(input)),
        ).len(),
        forall|i: int|
            0 <= i < settings_remappings(input_settings(*old(input))).len() ==> {
                let m = #[trigger] settings_remappings(input_settings(*old(input)))[i];
                settings_remappings(input_settings(*final(input)))[i] == (
                    m.0,
                    m.1,
                    remapping_path_stripped(m.2, base@),
                )
            },
        is_absolute(base@) && relative_patterns(settings_selection(input_settings(*old(input))))
            ==> settings_selection(input_settings(*final(input))) == settings_selection(
            input_settings(*old(input)),
        ),
        settings_evm_version(input_settings(*final(input))) == settings_evm_version(
            input_settings(*old(input)),
        ),
{
    input.strip_prefix(&base.parts.iter().collect::<std::path::PathBuf>())
}

/// The compiler input for `sources` at `version` that asks for ASTs only: its
/// language is Solidity; its source files keep their text, with paths made
/// relative to the canonical root; it asks for the AST of every file and nothing
/// else; it carries the project's remappings (made relative to the root) and the
/// configured EVM version normalized for `version`; its other settings are the
/// defaults.
pub fn ast_compiler_input(
    paths: &ProjectPathsConfig<SolcLanguage>,
    canonical_root: &PathParts,
    sources: Sources,
    version: &Version,
    evm_version: EvmVersion,
) -> (r: SolcInput)
    ensures
        input_is_solidity(r),
        is_component_list(canonical_root@) ==> files_stripped(
            source_files(sources),
            input_source_files(r),
            canonical_root@,
        ),
        is_absolute(canonical_root@) ==> settings_selection(input_settings(r)) == ast_selection(),
        settings_remappings(input_settings(r)) == remappings_stripped(
            project_remappings(*paths),
            canonical_root@,
        ),
        settings_evm_version(input_settings(r)) == solc_normalized(evm_version, *version),
        settings_extras(input_settings(r)) == default_extras(),
{
    let mut settings = settings_with(ast_output_selection());
    use_project_remappings(&mut settings, paths);
    use_evm_version(&mut settings, evm_version);
    sanitize_for(&mut settings, version);
    let mut input = solidity_input(sources, settings);
    proof {
        let sel = ast_selection();
        assert forall|k: Seq<char>| #[trigger] sel.dom().contains(k) implies !(k.len() > 0 && k[0]
            == '/') by {
            assert(k == seq!['*']);
        }
    }
    let ghost before = settings_remappings(input_settings(input));
    strip_base(&mut input, canonical_root);
    assert(settings_remappings(input_settings(input)) =~= remappings_stripped(before, canonical_root@));
    input
}

} // verus!
