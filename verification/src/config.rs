//! The builder of a project's configuration: what the caller chooses, and how the
//! choices meet the framework's own configuration to give a [`ProjectConfigInput`].
//!
//! Some files are always excluded: libraries, tests, scripts, dependencies,
//! `node_modules` and a vendored `forge-std`, where they lie inside the sources.
use vstd::prelude::*;
use vstd::string::StringExecFns;
use foundry_compilers::artifacts::{EvmVersion, SolcLanguage};
use foundry_compilers::ProjectPathsConfig;
use semver::Version;
use crate::input::{
    ProjectConfigInput, SolcCompilerConfigInput, path_views, files_under_excluded_dirs_never_included,
};
use crate::paths::{
    PathParts, path_starts_with, texts, path_join,
};

verus! {

/// How the `solc` version is chosen.
pub enum SolcVersionConfig {
    /// Resolves sources by version either by graphs or reads from framework config.
    /// If the framework config is set to specific version of Solc, it will be respected
    Auto,
    /// Force override [`SolcVersionConfig::Auto`]
    Specific(Version),
}

/// Match paths of solidity files to be scanned
pub enum SourcesConfig {
    /// Resolve based on the framework or same as root in case of custom project
    AutoDetect,
    /// Path to a directory relative to the root containing Solidity contracts
    Specific(PathParts),
}

/// Match paths of solidity files to be excluded
pub enum ExcludeConfig {
    /// Does not exclude any file in [`SourcesConfig`].
    Nothing,
    /// Path segments of files to be excluded in addition to the automatically excluded files
    Specific(Vec<String>),
}

/// Match paths of solidity files to be included
pub enum IncludeConfig {
    /// Includes all files in [`SourcesConfig`] other than automatically excluded files.
    All,
    /// Path segments of files to be included as a subset of [`SourcesConfig`]
    Specific(Vec<String>),
}

impl Default for SolcVersionConfig {
    fn default() -> (r: Self)
        ensures
            r is Auto,
    {
        SolcVersionConfig::Auto
    }
}

impl Default for SourcesConfig {
    fn default() -> (r: Self)
        ensures
            r is AutoDetect,
    {
        SourcesConfig::AutoDetect
    }
}

impl Default for ExcludeConfig {
    fn default() -> (r: Self)
        ensures
            r is Nothing,
    {
        ExcludeConfig::Nothing
    }
}

impl Default for IncludeConfig {
    fn default() -> (r: Self)
        ensures
            r is All,
    {
        IncludeConfig::All
    }
}

/// The sources directory after the caller's choice: the chosen directory, or the
/// one that the framework detection gave.
pub open spec fn resolved_sources(choice: SourcesConfig, detected: Seq<Seq<char>>) -> Seq<Seq<char>> {
    match choice {
        SourcesConfig::AutoDetect => detected,
        SourcesConfig::Specific(p) => p@,
    }
}

impl SourcesConfig {
    /// The sources directory to configure, given the one that the framework
    /// detection gave.
    pub fn resolve(&self, detected: PathParts) -> (r: PathParts)
        ensures
            r@ == resolved_sources(*self, detected@),
    {
        match self {
            SourcesConfig::AutoDetect => detected,
            SourcesConfig::Specific(p) => p.duplicate(),
        }
    }
}

/// The exclude strings that an [`ExcludeConfig`] gives.
pub open spec fn exclude_strings(choice: ExcludeConfig) -> Seq<Seq<char>> {
    match choice {
        ExcludeConfig::Nothing => Seq::empty(),
        ExcludeConfig::Specific(v) => texts(v@),
    }
}

/// The include strings that an [`IncludeConfig`] gives: the empty string, which
/// occurs in every path, for [`IncludeConfig::All`].
pub open spec fn include_strings(choice: IncludeConfig) -> Seq<Seq<char>> {
    match choice {
        IncludeConfig::All => seq![Seq::<char>::empty()],
        IncludeConfig::Specific(v) => texts(v@),
    }
}

/// The sources directory of a project that no framework configures: its root.
pub open spec fn custom_project_source_dir() -> Seq<Seq<char>> {
    seq![seq!['.']]
}

/// The sources directory of a project whose root holds no `foundry.toml`,
/// `hardhat.config.js` or `hardhat.config.ts`: the root itself (`.`), as for
/// every custom project. `None` when one of the framework files exists: the
/// framework's own setting then stands.
pub fn detected_source_dir(framework_file_found: bool) -> (r: Option<PathParts>)
    ensures
        framework_file_found ==> r is None,
        !framework_file_found ==> (r matches Some(p) && p@ == custom_project_source_dir()),
{
    if framework_file_found {
        return None;
    }
    proof {
        reveal_strlit(".");
    }
    let name = String::from_str(".");
    assert(name@ =~= seq!['.']);
    let mut parts: Vec<String> = Vec::new();
    parts.push(name);
    let p = PathParts::new(parts);
    assert(p@ =~= custom_project_source_dir());
    Some(p)
}

/// The framework configuration that the builder starts from, with its paths made
/// absolute under the root.
pub struct BaselineConfig {
    /// The sources directory
    pub src: PathParts,
    /// The library directories
    pub libs: Vec<PathParts>,
    /// The test directory
    pub test: PathParts,
    /// The script directory
    pub script: PathParts,
    /// Glob patterns of files to skip
    pub skip: Vec<String>,
    /// The project's path layout
    pub project_paths: ProjectPathsConfig<SolcLanguage>,
    /// The configured EVM version
    pub evm_version: EvmVersion,
    /// Whether via_ir is set
    pub via_ir: bool,
}

/// Directories found on disk that are excluded when they lie inside the sources;
/// each is present, canonicalized, only when its condition held.
pub struct ExcludeProbes {
    /// `dependencies`, when `soldeer.lock` is a file and `dependencies` a directory
    pub soldeer_dependencies: Option<PathParts>,
    /// `node_modules`, when it is a directory
    pub node_modules: Option<PathParts>,
    /// `contracts/forge-std`, when it is a directory
    pub forge_std: Option<PathParts>,
}

/// Those of `ps` that lie under `base`, in order.
pub open spec fn paths_under(ps: Seq<Seq<Seq<char>>>, base: Seq<Seq<char>>) -> Seq<Seq<Seq<char>>>
    decreases ps.len(),
{
    if ps.len() == 0 {
        Seq::empty()
    } else {
        let r = paths_under(ps.drop_last(), base);
        if path_starts_with(ps.last(), base) {
            r.push(ps.last())
        } else {
            r
        }
    }
}

/// `[p]` when `p` is present and lies under `base`, else nothing.
pub open spec fn probe_under(p: Option<Seq<Seq<char>>>, base: Seq<Seq<char>>) -> Seq<Seq<Seq<char>>> {
    match p {
        Some(q) => if path_starts_with(q, base) {
            seq![q]
        } else {
            Seq::empty()
        },
        None => Seq::empty(),
    }
}

/// The view of an optional path.
pub open spec fn opt_view(p: Option<PathParts>) -> Option<Seq<Seq<char>>> {
    match p {
        Some(q) => Some(q@),
        None => None,
    }
}

/// The directories to exclude automatically, before duplicates are dropped: the
/// libraries inside the sources, then the test and script directories, the
/// Soldeer dependencies, `node_modules` and `forge-std`, each where it lies
/// inside the sources.
pub open spec fn auto_exclude_candidates(baseline: BaselineConfig, probes: ExcludeProbes) -> Seq<Seq<Seq<char>>> {
    let src = baseline.src@;
    paths_under(path_views(baseline.libs@), src)
        + probe_under(Some(baseline.test@), src)
        + probe_under(Some(baseline.script@), src)
        + probe_under(opt_view(probes.soldeer_dependencies), src)
        + probe_under(opt_view(probes.node_modules), src)
        + probe_under(opt_view(probes.forge_std), src)
}

/// `s` with every run of consecutive equal elements reduced to one element.
pub open spec fn dedup_consecutive<A>(s: Seq<A>) -> Seq<A>
    decreases s.len(),
{
    if s.len() == 0 {
        s
    } else {
        let d = dedup_consecutive(s.drop_last());
        if d.len() > 0 && d.last() == s.last() {
            d
        } else {
            d.push(s.last())
        }
    }
}

/// The configuration chosen through the builder.
pub struct ProjectConfigInputBuilder {
    root: PathParts,
    sources: SourcesConfig,
    exclude: ExcludeConfig,
    inclusion: IncludeConfig,
    solc_version: SolcVersionConfig,
}

impl ProjectConfigInputBuilder {
    /// The root directory.
    pub closed spec fn root_setting(&self) -> PathParts {
        self.root
    }

    /// The sources choice.
    pub closed spec fn sources_setting(&self) -> SourcesConfig {
        self.sources
    }

    /// The exclude choice.
    pub closed spec fn exclude_setting(&self) -> ExcludeConfig {
        self.exclude
    }

    /// The include choice.
    pub closed spec fn include_setting(&self) -> IncludeConfig {
        self.inclusion
    }

    /// The solc version choice.
    pub closed spec fn solc_version_setting(&self) -> SolcVersionConfig {
        self.solc_version
    }

    /// Creates a new [`ProjectConfigInputBuilder`] with every choice at its default.
    /// The root directory must contain hardhat.config.ts/.js or foundry.toml (or
    /// its FOUNDRY_ equivalent name).
    pub fn new(root: &PathParts) -> (r: ProjectConfigInputBuilder)
        ensures
            r.root_setting()@ == root@,
            r.sources_setting() is AutoDetect,
            r.exclude_setting() is Nothing,
            r.include_setting() is All,
            r.solc_version_setting() is Auto,
    {
        ProjectConfigInputBuilder {
            root: root.duplicate(),
            sources: SourcesConfig::default(),
            exclude: ExcludeConfig::default(),
            inclusion: IncludeConfig::default(),
            solc_version: SolcVersionConfig::default(),
        }
    }

    /// Chooses the sources directory.
    pub fn with_sources(self, sources: SourcesConfig) -> (r: ProjectConfigInputBuilder)
        ensures
            r.sources_setting() == sources,
            r.root_setting() == self.root_setting(),
            r.exclude_setting() == self.exclude_setting(),
            r.include_setting() == self.include_setting(),
            r.solc_version_setting() == self.solc_version_setting(),
    {
        let mut b = self;
        b.sources = sources;
        b
    }

    /// Chooses the exclude strings.
    pub fn with_exclude(self, exclude: ExcludeConfig) -> (r: ProjectConfigInputBuilder)
        ensures
            r.exclude_setting() == exclude,
            r.root_setting() == self.root_setting(),
            r.sources_setting() == self.sources_setting(),
            r.include_setting() == self.include_setting(),
            r.solc_version_setting() == self.solc_version_setting(),
    {
        let mut b = self;
        b.exclude = exclude;
        b
    }

    /// Chooses the include strings.
    pub fn with_include(self, inclusion: IncludeConfig) -> (r: ProjectConfigInputBuilder)
        ensures
            r.include_setting() == inclusion,
            r.root_setting() == self.root_setting(),
            r.sources_setting() == self.sources_setting(),
            r.exclude_setting() == self.exclude_setting(),
            r.solc_version_setting() == self.solc_version_setting(),
    {
        let mut b = self;
        b.inclusion = inclusion;
        b
    }

    /// Chooses the solc version.
    pub fn with_solc_version(self, version: SolcVersionConfig) -> (r: ProjectConfigInputBuilder)
        ensures
            r.solc_version_setting() == version,
            r.root_setting() == self.root_setting(),
            r.sources_setting() == self.sources_setting(),
            r.exclude_setting() == self.exclude_setting(),
            r.include_setting() == self.include_setting(),
    {
        let mut b = self;
        b.solc_version = version;
        b
    }

    /// The root directory.
    pub fn root(&self) -> (r: &PathParts)
        ensures
            *r == self.root_setting(),
    {
        &self.root
    }

    /// The sources choice.
    pub fn sources(&self) -> (r: &SourcesConfig)
        ensures
            *r == self.sources_setting(),
    {
        &self.sources
    }

    /// The solc version choice.
    pub fn solc_version(&self) -> (r: &SolcVersionConfig)
        ensures
            *r == self.solc_version_setting(),
    {
        &self.solc_version
    }
}

/// Those of `ps` that lie under `base`, in order.
fn paths_under_exec(ps: &Vec<PathParts>, base: &PathParts) -> (r: Vec<PathParts>)
    ensures
        path_views(r@) == paths_under(path_views(ps@), base@),
{
    let mut out: Vec<PathParts> = Vec::new();
    let mut i: usize = 0;
    while i < ps.len()
        invariant
            i <= ps@.len(),
            path_views(out@) == paths_under(path_views(ps@).subrange(0, i as int), base@),
        decreases ps@.len() - i,
    {
        let ghost before = out@;
        assert(path_views(ps@).subrange(0, i + 1).drop_last() =~= path_views(ps@).subrange(0, i as int));
        if ps[i].starts_with(base) {
            out.push(ps[i].duplicate());
            assert(path_views(out@) =~= path_views(before).push(ps@[i as int]@));
        }
        i = i + 1;
    }
    assert(path_views(ps@).subrange(0, ps@.len() as int) =~= path_views(ps@));
    out
}

/// Appends `p` to `out` when it is present and lies under `base`.
fn push_probe(out: &mut Vec<PathParts>, p: &Option<PathParts>, base: &PathParts)
    ensures
        path_views(final(out)@) == path_views(old(out)@) + probe_under(opt_view(*p), base@),
{
    let ghost before = out@;
    match p {
        Some(q) => {
            if q.starts_with(base) {
                out.push(q.duplicate());
                assert(path_views(out@) =~= path_views(before) + seq![q@]);
            } else {
                assert(path_views(out@) =~= path_views(before) + Seq::<Seq<Seq<char>>>::empty());
            }
        },
        None => {
            assert(path_views(out@) =~= path_views(before) + Seq::<Seq<Seq<char>>>::empty());
        },
    }
}

/// `v` with every run of consecutive equal paths reduced to one path.
pub fn dedup_paths(v: Vec<PathParts>) -> (r: Vec<PathParts>)
    ensures
        path_views(r@) == dedup_consecutive(path_views(v@)),
{
    let mut out: Vec<PathParts> = Vec::new();
    let mut i: usize = 0;
    while i < v.len()
        invariant
            i <= v@.len(),
            path_views(out@) == dedup_consecutive(path_views(v@).subrange(0, i as int)),
        decreases v@.len() - i,
    {
        let ghost before = out@;
        let ghost pre = path_views(v@).subrange(0, i + 1);
        assert(pre.drop_last() =~= path_views(v@).subrange(0, i as int));
        assert(pre.last() == v@[i as int]@);
        let n = out.len();
        if n > 0 && out[n - 1].same_as(&v[i]) {
            assert(path_views(out@).last() == out@[n - 1]@);
        } else {
            out.push(v[i].duplicate());
            assert(path_views(out@) =~= path_views(before).push(v@[i as int]@));
            proof {
                if n > 0 {
                    assert(path_views(before).last() == before[n - 1]@);
                }
            }
        }
        i = i + 1;
    }
    assert(path_views(v@).subrange(0, v@.len() as int) =~= path_views(v@));
    out
}

impl ProjectConfigInputBuilder {
    /// Completes the configuration from the framework's configuration (whose
    /// sources directory already reflects [`SourcesConfig`]), the probed
    /// directories and the chosen compiler. The auto-excluded directories are the
    /// libraries, test and script directories, Soldeer dependencies,
    /// `node_modules` and `forge-std` that lie inside the sources, with
    /// consecutive duplicates dropped; the exclude strings are those chosen (none
    /// by default); the include strings are those chosen, or the empty string,
    /// which every path contains.
    pub fn build_from(
        self,
        baseline: BaselineConfig,
        probes: ExcludeProbes,
        solc_compiler: SolcCompilerConfigInput,
    ) -> (r: ProjectConfigInput)
        ensures
            r.root == self.root_setting(),
            r.sources == baseline.src,
            r.project_paths == baseline.project_paths,
            r.skip == baseline.skip,
            r.evm_version == baseline.evm_version,
            r.via_ir == baseline.via_ir,
            r.solc_compiler == solc_compiler,
            r.excluded_dirs() == dedup_consecutive(auto_exclude_candidates(baseline, probes)),
            texts(r.exclude_containing@) == exclude_strings(self.exclude_setting()),
            texts(r.include_containing@) == include_strings(self.include_setting()),
    {
        let ghost b0 = baseline;
        let mut e = paths_under_exec(&baseline.libs, &baseline.src);
        let test = Some(baseline.test);
        let script = Some(baseline.script);
        push_probe(&mut e, &test, &baseline.src);
        push_probe(&mut e, &script, &baseline.src);
        push_probe(&mut e, &probes.soldeer_dependencies, &baseline.src);
        push_probe(&mut e, &probes.node_modules, &baseline.src);
        push_probe(&mut e, &probes.forge_std, &baseline.src);
        let exclude_starting = dedup_paths(e);
        let exclude_containing = match self.exclude {
            ExcludeConfig::Nothing => Vec::new(),
            ExcludeConfig::Specific(x) => x,
        };
        let include_containing = match self.inclusion {
            IncludeConfig::All => {
                let mut v: Vec<String> = Vec::new();
                v.push(String::new());
                v
            },
            IncludeConfig::Specific(x) => x,
        };
        assert(texts(exclude_containing@) =~= exclude_strings(self.exclude));
        assert(texts(include_containing@) =~= include_strings(self.inclusion));
        ProjectConfigInput {
            root: self.root,
            project_paths: baseline.project_paths,
            sources: baseline.src,
            include_containing,
            exclude_containing,
            exclude_starting,
            skip: baseline.skip,
            solc_compiler,
            evm_version: baseline.evm_version,
            via_ir: baseline.via_ir,
        }
    }
}

/// Dropping repeated neighbours keeps exactly the elements of the sequence: every
/// element of the result occurs in `s`, and every element of `s` occurs in the
/// result.
pub proof fn dedup_keeps_the_same_elements<A>(s: Seq<A>)
    ensures
        forall|i: int| 0 <= i < dedup_consecutive(s).len() ==> s.contains(#[trigger] dedup_consecutive(s)[i]),
        forall|j: int| 0 <= j < s.len() ==> dedup_consecutive(s).contains(#[trigger] s[j]),
    decreases s.len(),
{
    if s.len() > 0 {
        let p = s.drop_last();
        dedup_keeps_the_same_elements(p);
        let d = dedup_consecutive(p);
        assert forall|i: int| 0 <= i < dedup_consecutive(s).len() implies s.contains(
            #[trigger] dedup_consecutive(s)[i],
        ) by {
            if i < d.len() {
                let k = choose|k: int| 0 <= k < p.len() && p[k] == d[i];
                assert(s[k] == d[i]);
            } else {
                assert(s[s.len() - 1] == s.last());
            }
        }
        assert forall|j: int| 0 <= j < s.len() implies dedup_consecutive(s).contains(#[trigger] s[j]) by {
            if j < s.len() - 1 {
                assert(p[j] == s[j]);
                let k = choose|k: int| 0 <= k < d.len() && d[k] == p[j];
                assert(dedup_consecutive(s)[k] == s[j]);
            } else {
                if d.len() > 0 && d.last() == s.last() {
                    assert(dedup_consecutive(s)[d.len() - 1] == s[j]);
                } else {
                    assert(dedup_consecutive(s)[d.len() as int] == s[j]);
                }
            }
        }
    }
}

/// After dropping repeated neighbours, no two neighbours are equal.
pub proof fn dedup_leaves_no_equal_neighbours<A>(s: Seq<A>)
    ensures
        forall|i: int| 0 <= i < dedup_consecutive(s).len() - 1 ==> dedup_consecutive(s)[i] != #[trigger] dedup_consecutive(s)[i + 1],
    decreases s.len(),
{
    if s.len() > 0 {
        let d = dedup_consecutive(s.drop_last());
        dedup_leaves_no_equal_neighbours(s.drop_last());
        let r = dedup_consecutive(s);
        if !(d.len() > 0 && d.last() == s.last()) {
            assert forall|i: int| 0 <= i < r.len() - 1 implies r[i] != #[trigger] r[i + 1] by {
                if i < d.len() - 1 {
                    assert(r[i] == d[i] && r[i + 1] == d[i + 1]);
                } else {
                    assert(r[i] == d.last() && r[i + 1] == s.last());
                }
            }
        }
    }
}

/// Every candidate lies inside the sources directory.
proof fn candidates_lie_inside_sources(baseline: BaselineConfig, probes: ExcludeProbes)
    ensures
        forall|i: int| 0 <= i < auto_exclude_candidates(baseline, probes).len() ==> path_starts_with(
            #[trigger] auto_exclude_candidates(baseline, probes)[i],
            baseline.src@,
        ),
{
    let src = baseline.src@;
    paths_under_lie_under(path_views(baseline.libs@), src);
    let c = auto_exclude_candidates(baseline, probes);
    assert forall|i: int| 0 <= i < c.len() implies path_starts_with(#[trigger] c[i], src) by {
        let a = paths_under(path_views(baseline.libs@), src);
        let b = probe_under(Some(baseline.test@), src);
        let t = probe_under(Some(baseline.script@), src);
        let d = probe_under(opt_view(probes.soldeer_dependencies), src);
        let n = probe_under(opt_view(probes.node_modules), src);
        let f = probe_under(opt_view(probes.forge_std), src);
        assert(c == a + b + t + d + n + f);
        if i < a.len() {
        } else if i < a.len() + b.len() {
        } else if i < a.len() + b.len() + t.len() {
        } else if i < a.len() + b.len() + t.len() + d.len() {
        } else if i < a.len() + b.len() + t.len() + d.len() + n.len() {
        } else {
        }
    }
}

/// Every path that [`paths_under`] keeps lies under the base.
proof fn paths_under_lie_under(ps: Seq<Seq<Seq<char>>>, base: Seq<Seq<char>>)
    ensures
        forall|i: int| 0 <= i < paths_under(ps, base).len() ==> path_starts_with(
            #[trigger] paths_under(ps, base)[i],
            base,
        ),
    decreases ps.len(),
{
    if ps.len() > 0 {
        let r0 = paths_under(ps.drop_last(), base);
        paths_under_lie_under(ps.drop_last(), base);
        let r = paths_under(ps, base);
        assert forall|i: int| 0 <= i < r.len() implies path_starts_with(#[trigger] r[i], base) by {
            if i < r0.len() {
                assert(r[i] == r0[i]);
            }
        }
    }
}

/// Every directory that the build excludes automatically lies inside the sources
/// directory.
pub proof fn auto_excluded_dirs_lie_inside_sources(baseline: BaselineConfig, probes: ExcludeProbes)
    ensures
        forall|i: int|
            0 <= i < dedup_consecutive(auto_exclude_candidates(baseline, probes)).len()
                ==> path_starts_with(
                #[trigger] dedup_consecutive(auto_exclude_candidates(baseline, probes))[i],
                baseline.src@,
            ),
{
    let c = auto_exclude_candidates(baseline, probes);
    candidates_lie_inside_sources(baseline, probes);
    dedup_keeps_the_same_elements(c);
    assert forall|i: int| 0 <= i < dedup_consecutive(c).len() implies path_starts_with(
        #[trigger] dedup_consecutive(c)[i],
        baseline.src@,
    ) by {
        let k = choose|k: int| 0 <= k < c.len() && c[k] == dedup_consecutive(c)[i];
        assert(path_starts_with(c[k], baseline.src@));
    }
}

/// The test and script directories, when they lie inside the sources directory,
/// are always among the automatically excluded directories.
pub proof fn test_and_script_dirs_always_excluded(baseline: BaselineConfig, probes: ExcludeProbes)
    ensures
        path_starts_with(baseline.test@, baseline.src@) ==> dedup_consecutive(
            auto_exclude_candidates(baseline, probes),
        ).contains(baseline.test@),
        path_starts_with(baseline.script@, baseline.src@) ==> dedup_consecutive(
            auto_exclude_candidates(baseline, probes),
        ).contains(baseline.script@),
{
    let src = baseline.src@;
    let c = auto_exclude_candidates(baseline, probes);
    let a = paths_under(path_views(baseline.libs@), src);
    let b = probe_under(Some(baseline.test@), src);
    let t = probe_under(Some(baseline.script@), src);
    let d = probe_under(opt_view(probes.soldeer_dependencies), src);
    let n = probe_under(opt_view(probes.node_modules), src);
    let f = probe_under(opt_view(probes.forge_std), src);
    assert(c == a + b + t + d + n + f);
    dedup_keeps_the_same_elements(c);
    if path_starts_with(baseline.test@, src) {
        assert(c[a.len() as int] == baseline.test@);
    }
    if path_starts_with(baseline.script@, src) {
        assert(c[(a.len() + b.len()) as int] == baseline.script@);
    }
}

/// Every path of `ps` that lies under `base` is kept by [`paths_under`].
proof fn paths_under_keeps_those_under(ps: Seq<Seq<Seq<char>>>, base: Seq<Seq<char>>, i: int)
    requires
        0 <= i < ps.len(),
        path_starts_with(ps[i], base),
    ensures
        paths_under(ps, base).contains(ps[i]),
    decreases ps.len(),
{
    let r = paths_under(ps, base);
    if i == ps.len() - 1 {
        assert(r[r.len() - 1] == ps[i]);
    } else {
        let p = ps.drop_last();
        assert(p[i] == ps[i]);
        paths_under_keeps_those_under(p, base, i);
        let r0 = paths_under(p, base);
        let k = choose|k: int| 0 <= k < r0.len() && r0[k] == ps[i];
        assert(r[k] == ps[i]);
    }
}

/// Libraries, Soldeer dependencies, `node_modules` and `forge-std` that lie
/// inside the sources directory are always among the automatically excluded
/// directories.
pub proof fn libraries_and_dependencies_always_excluded(baseline: BaselineConfig, probes: ExcludeProbes)
    ensures
        forall|i: int|
            0 <= i < baseline.libs@.len() && path_starts_with(#[trigger] baseline.libs@[i]@, baseline.src@)
                ==> dedup_consecutive(auto_exclude_candidates(baseline, probes)).contains(baseline.libs@[i]@),
        probes.soldeer_dependencies matches Some(d) ==> (path_starts_with(d@, baseline.src@)
            ==> dedup_consecutive(auto_exclude_candidates(baseline, probes)).contains(d@)),
        probes.node_modules matches Some(d) ==> (path_starts_with(d@, baseline.src@)
            ==> dedup_consecutive(auto_exclude_candidates(baseline, probes)).contains(d@)),
        probes.forge_std matches Some(d) ==> (path_starts_with(d@, baseline.src@)
            ==> dedup_consecutive(auto_exclude_candidates(baseline, probes)).contains(d@)),
{
    let src = baseline.src@;
    let c = auto_exclude_candidates(baseline, probes);
    let a = paths_under(path_views(baseline.libs@), src);
    let b = probe_under(Some(baseline.test@), src);
    let t = probe_under(Some(baseline.script@), src);
    let d = probe_under(opt_view(probes.soldeer_dependencies), src);
    let n = probe_under(opt_view(probes.node_modules), src);
    let f = probe_under(opt_view(probes.forge_std), src);
    assert(c == a + b + t + d + n + f);
    dedup_keeps_the_same_elements(c);
    assert forall|i: int|
        0 <= i < baseline.libs@.len() && path_starts_with(#[trigger] baseline.libs@[i]@, src)
            implies dedup_consecutive(c).contains(baseline.libs@[i]@) by {
        assert(path_views(baseline.libs@)[i] == baseline.libs@[i]@);
        paths_under_keeps_those_under(path_views(baseline.libs@), src, i);
        let k = choose|k: int| 0 <= k < a.len() && a[k] == baseline.libs@[i]@;
        assert(c[k] == baseline.libs@[i]@);
    }
    if let Some(q) = probes.soldeer_dependencies {
        if path_starts_with(q@, src) {
            assert(c[(a.len() + b.len() + t.len()) as int] == q@);
        }
    }
    if let Some(q) = probes.node_modules {
        if path_starts_with(q@, src) {
            assert(c[(a.len() + b.len() + t.len() + d.len()) as int] == q@);
        }
    }
    if let Some(q) = probes.forge_std {
        if path_starts_with(q@, src) {
            assert(c[(a.len() + b.len() + t.len() + d.len() + n.len()) as int] == q@);
        }
    }
}

/// In a configuration that the builder assembled, no file under the test or
/// script directory is included when that directory lies inside the sources.
pub proof fn test_and_script_files_never_included(
    cfg: ProjectConfigInput,
    baseline: BaselineConfig,
    probes: ExcludeProbes,
    root: Seq<Seq<char>>,
    path: Seq<Seq<char>>,
    skipped: bool,
)
    requires
        cfg.excluded_dirs() == dedup_consecutive(auto_exclude_candidates(baseline, probes)),
    ensures
        path_starts_with(baseline.test@, baseline.src@) && path_starts_with(
            path_join(root, path),
            baseline.test@,
        ) ==> !cfg.includes(root, path, skipped),
        path_starts_with(baseline.script@, baseline.src@) && path_starts_with(
            path_join(root, path),
            baseline.script@,
        ) ==> !cfg.includes(root, path, skipped),
{
    test_and_script_dirs_always_excluded(baseline, probes);
    if path_starts_with(baseline.test@, baseline.src@) && path_starts_with(path_join(root, path), baseline.test@) {
        files_under_excluded_dirs_never_included(cfg, root, path, skipped, baseline.test@);
    }
    if path_starts_with(baseline.script@, baseline.src@) && path_starts_with(path_join(root, path), baseline.script@) {
        files_under_excluded_dirs_never_included(cfg, root, path, skipped, baseline.script@);
    }
}

} // verus!
