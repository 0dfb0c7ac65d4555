//! The configuration handed to the compiler stage, and the rules that decide which
//! source files of a project it covers.
use vstd::prelude::*;
use foundry_compilers::artifacts::{EvmVersion, SolcLanguage};
use foundry_compilers::solc::Solc;
use foundry_compilers::ProjectPathsConfig;
use crate::paths::{
    PathParts, texts, path_join, path_starts_with, path_text, path_extension, solidity_extension,
};
use crate::text::{contains_seq, chars_of, contains_chars, lemma_empty_is_substring};

verus! {

/// How the `solc` compiler is chosen.
#[derive(Debug)]
pub enum SolcCompilerConfigInput {
    /// Use graphs to resolve versions and group files
    AutoDetect,
    /// Use specific version
    Specific(Solc),
}

/// The resolved configuration of a project.
#[derive(Debug)]
pub struct ProjectConfigInput {
    /// Root directory of the project, as it was given.
    pub root: PathParts,
    /// Project paths representation (contains sources).
    pub project_paths: ProjectPathsConfig<SolcLanguage>,
    /// The sources directory of `project_paths`, as components.
    pub sources: PathParts,
    /// Paths (sources) containing these strings will be included
    pub include_containing: Vec<String>,
    /// Paths (sources) containing these strings will be excluded
    pub exclude_containing: Vec<String>,
    /// List of absolute paths (nested in sources) that will be excluded
    pub exclude_starting: Vec<PathParts>,
    /// Glob patterns of the configuration; paths matching one of them are skipped
    pub skip: Vec<String>,
    /// Solc version to use for compiling
    pub solc_compiler: SolcCompilerConfigInput,
    /// EVM version
    pub evm_version: EvmVersion,
    /// Whether via_ir is set to true for the profile
    pub via_ir: bool,
}

/// The component sequences of a list of paths.
pub open spec fn path_views(v: Seq<PathParts>) -> Seq<Seq<Seq<char>>> {
    v.map_values(|p: PathParts| p@)
}

/// `p` lies under (starts with) one of `bases`.
pub open spec fn under_any(p: Seq<Seq<char>>, bases: Seq<Seq<Seq<char>>>) -> bool {
    exists|i: int| 0 <= i < bases.len() && path_starts_with(p, #[trigger] bases[i])
}

/// One of `needles` occurs in `text`.
pub open spec fn contains_any(text: Seq<char>, needles: Seq<Seq<char>>) -> bool {
    exists|i: int| 0 <= i < needles.len() && contains_seq(text, #[trigger] needles[i])
}

impl ProjectConfigInput {
    /// The auto-excluded directories, as component sequences.
    pub open spec fn excluded_dirs(&self) -> Seq<Seq<Seq<char>>> {
        path_views(self.exclude_starting@)
    }

    /// A full path passes the location tests: it lies in the sources directory,
    /// under no auto-excluded directory, and no skip glob matched it.
    pub open spec fn location_allows(&self, full: Seq<Seq<char>>, skipped: bool) -> bool {
        &&& path_starts_with(full, self.sources@)
        &&& !under_any(full, self.excluded_dirs())
        &&& !skipped
    }

    /// The text of a path relative to the root passes the name tests: no exclude
    /// string occurs in it and some include string does.
    pub open spec fn names_allow(&self, text: Seq<char>) -> bool {
        &&& !contains_any(text, texts(self.exclude_containing@))
        &&& contains_any(text, texts(self.include_containing@))
    }

    /// `path`, taken relative to `root`, is a file of the project that the compiler
    /// stage covers.
    pub open spec fn includes(&self, root: Seq<Seq<char>>, path: Seq<Seq<char>>, skipped: bool) -> bool {
        let full = path_join(root, path);
        &&& self.location_allows(full, skipped)
        &&& self.names_allow(path_text(full.skip(root.len() as int)))
    }

    /// The inclusion test is defined: a path that passes the location tests lies
    /// under the root.
    pub open spec fn inclusion_defined(&self, root: Seq<Seq<char>>, path: Seq<Seq<char>>, skipped: bool) -> bool {
        let full = path_join(root, path);
        self.location_allows(full, skipped) ==> path_starts_with(full, root)
    }

    /// Whether a file of the project is covered: `path` is joined to the
    /// canonical root, must lie in the sources directory, under no auto-excluded
    /// directory, must not be `skipped` (a skip glob of the configuration matched
    /// the joined path), and its text relative to the root must hold none of the
    /// exclude strings and one of the include strings.
    pub fn is_included(&self, canonical_root: &PathParts, path: &PathParts, skipped: bool) -> (r: bool)
        requires
            self.inclusion_defined(canonical_root@, path@, skipped),
        ensures
            r == self.includes(canonical_root@, path@, skipped),
    {
        let full = canonical_root.join(path);
        if full.strip_prefix(&self.sources).is_none() {
            return false;
        }
        if under_any_exec(&full, &self.exclude_starting) {
            return false;
        }
        if skipped {
            return false;
        }
        match full.strip_prefix(canonical_root) {
            Some(rel) => {
                let text = rel.text_chars();
                if contains_any_exec(&text, &self.exclude_containing) {
                    return false;
                }
                contains_any_exec(&text, &self.include_containing)
            },
            None => false,
        }
    }

    /// Whether the inclusion test is defined for these arguments (see
    /// [`Self::inclusion_defined`]); where it is not, the test has no answer.
    pub fn inclusion_is_defined(&self, canonical_root: &PathParts, path: &PathParts, skipped: bool) -> (r: bool)
        ensures
            r == self.inclusion_defined(canonical_root@, path@, skipped),
    {
        let full = canonical_root.join(path);
        let location = full.starts_with(&self.sources) && !under_any_exec(&full, &self.exclude_starting)
            && !skipped;
        !location || full.starts_with(canonical_root)
    }

    /// Whether the directory walk descends into (or keeps) the entry at `path`:
    /// no skip glob matched it (`skipped` is false) and it lies under no
    /// auto-excluded directory.
    pub fn descends_into(&self, path: &PathParts, skipped: bool) -> (r: bool)
        ensures
            r == (!skipped && !under_any(path@, self.excluded_dirs())),
    {
        !skipped && !under_any_exec(path, &self.exclude_starting)
    }

    /// Whether a file found by the directory walk is a source of the project: its
    /// extension is `sol` and it is included (see [`Self::is_included`]).
    pub fn accepts_source_file(&self, canonical_root: &PathParts, path: &PathParts, skipped: bool) -> (r: bool)
        requires
            path_extension(path@) == Some(solidity_extension()) ==> self.inclusion_defined(
                canonical_root@,
                path@,
                skipped,
            ),
        ensures
            r == (path_extension(path@) == Some(solidity_extension()) && self.includes(
                canonical_root@,
                path@,
                skipped,
            )),
    {
        path.is_solidity_file() && self.is_included(canonical_root, path, skipped)
    }
}

/// Whether `p` lies under one of `bases`.
pub fn under_any_exec(p: &PathParts, bases: &Vec<PathParts>) -> (r: bool)
    ensures
        r == under_any(p@, path_views(bases@)),
{
    let mut i: usize = 0;
    while i < bases.len()
        invariant
            i <= bases@.len(),
            forall|k: int| 0 <= k < i ==> !path_starts_with(p@, #[trigger] path_views(bases@)[k]),
        decreases bases@.len() - i,
    {
        if p.starts_with(&bases[i]) {
            assert(path_views(bases@)[i as int] == bases@[i as int]@);
            return true;
        }
        i = i + 1;
    }
    false
}

/// Whether one of `needles` occurs in the characters `text`.
pub fn contains_any_exec(text: &Vec<char>, needles: &Vec<String>) -> (r: bool)
    ensures
        r == contains_any(text@, texts(needles@)),
{
    let mut i: usize = 0;
    while i < needles.len()
        invariant
            i <= needles@.len(),
            forall|k: int| 0 <= k < i ==> !contains_seq(text@, #[trigger] texts(needles@)[k]),
        decreases needles@.len() - i,
    {
        let n = chars_of(needles[i].as_str());
        if contains_chars(text, &n) {
            assert(texts(needles@)[i as int] == needles@[i as int]@);
            return true;
        }
        i = i + 1;
    }
    false
}

/// The first `n` of `keys` that `cfg` includes, in order (`skipped[i]` tells
/// whether a skip glob matched the joined `keys[i]`).
pub open spec fn kept_keys(
    cfg: ProjectConfigInput,
    root: Seq<Seq<char>>,
    keys: Seq<Seq<Seq<char>>>,
    skipped: Seq<bool>,
    n: nat,
) -> Seq<Seq<Seq<char>>>
    decreases n,
{
    if n == 0 {
        Seq::empty()
    } else {
        let rest = kept_keys(cfg, root, keys, skipped, (n - 1) as nat);
        if cfg.includes(root, keys[n - 1], skipped[n - 1]) {
            rest.push(keys[n - 1])
        } else {
            rest
        }
    }
}

impl ProjectConfigInput {
    /// The files among `keys` (paths relative to the root, as the compiler reports
    /// them) that the configuration includes, in their order; `skipped[i]` tells
    /// whether a skip glob matched `keys[i]` joined to the canonical root.
    pub fn included_files(&self, canonical_root: &PathParts, keys: &Vec<PathParts>, skipped: &Vec<bool>) -> (r: Vec<PathParts>)
        requires
            keys@.len() == skipped@.len(),
            forall|i: int|
                0 <= i < keys@.len() ==> self.inclusion_defined(
                    canonical_root@,
                    #[trigger] keys@[i]@,
                    skipped@[i],
                ),
        ensures
            path_views(r@) == kept_keys(*self, canonical_root@, path_views(keys@), skipped@, keys@.len()),
    {
        let mut out: Vec<PathParts> = Vec::new();
        let mut i: usize = 0;
        while i < keys.len()
            invariant
                i <= keys@.len(),
                keys@.len() == skipped@.len(),
                forall|j: int|
                    0 <= j < keys@.len() ==> self.inclusion_defined(
                        canonical_root@,
                        #[trigger] keys@[j]@,
                        skipped@[j],
                    ),
                path_views(out@) == kept_keys(*self, canonical_root@, path_views(keys@), skipped@, i as nat),
            decreases keys@.len() - i,
        {
            assert(path_views(keys@)[i as int] == keys@[i as int]@);
            let ghost before = out@;
            if self.is_included(canonical_root, &keys[i], skipped[i]) {
                out.push(keys[i].duplicate());
                assert(path_views(out@) =~= path_views(before).push(keys@[i as int]@));
            }
            i = i + 1;
        }
        out
    }
}

/// All values of `results` in order, or the first error among them.
pub fn all_or_first_error<T, E>(results: Vec<Result<T, E>>) -> (r: Result<Vec<T>, E>)
    ensures
        match r {
            Ok(v) => {
                &&& v@.len() == results@.len()
                &&& forall|i: int| 0 <= i < results@.len() ==> #[trigger] results@[i] == Ok::<T, E>(v@[i])
            },
            Err(e) => exists|k: int|
                {
                    &&& 0 <= k < results@.len()
                    &&& #[trigger] results@[k] == Err::<T, E>(e)
                    &&& forall|j: int| 0 <= j < k ==> (#[trigger] results@[j]) is Ok
                },
        },
{
    let ghost orig = results@;
    let mut rest = results;
    let mut reversed: Vec<Result<T, E>> = Vec::new();
    while rest.len() > 0
        invariant
            orig == results@,
            reversed@.len() + rest@.len() == orig.len(),
            rest@ == orig.subrange(0, rest@.len() as int),
            forall|i: int| 0 <= i < reversed@.len() ==> #[trigger] reversed@[i] == orig[orig.len() - 1 - i],
        decreases rest@.len(),
    {
        let x = rest.pop().unwrap();
        reversed.push(x);
    }
    let mut out: Vec<T> = Vec::new();
    while reversed.len() > 0
        invariant
            orig == results@,
            reversed@.len() + out@.len() == orig.len(),
            forall|i: int| 0 <= i < reversed@.len() ==> #[trigger] reversed@[i] == orig[orig.len() - 1 - i],
            forall|i: int| 0 <= i < out@.len() ==> #[trigger] orig[i] == Ok::<T, E>(out@[i]),
        decreases reversed@.len(),
    {
        let k = reversed.len() - 1;
        assert(reversed@[k as int] == orig[out@.len() as int]);
        match reversed.pop().unwrap() {
            Ok(v) => {
                out.push(v);
            },
            Err(e) => {
                assert(forall|j: int| 0 <= j < out@.len() ==> (#[trigger] orig[j]) is Ok);
                assert(orig[out@.len() as int] == Err::<T, E>(e));
                return Err(e);
            },
        }
    }
    Ok(out)
}

/// A file that the configuration includes lies in the sources directory, under
/// none of the automatically excluded directories, and matched no skip glob.
pub proof fn included_files_lie_in_sources(cfg: ProjectConfigInput, root: Seq<Seq<char>>, path: Seq<Seq<char>>, skipped: bool)
    requires
        cfg.includes(root, path, skipped),
    ensures
        path_starts_with(path_join(root, path), cfg.sources@),
        forall|i: int| 0 <= i < cfg.excluded_dirs().len() ==> !path_starts_with(
            path_join(root, path),
            #[trigger] cfg.excluded_dirs()[i],
        ),
        !skipped,
{
}

/// A file whose text relative to the root holds one of the exclude strings is
/// never included, whatever the include strings.
pub proof fn exclude_strings_take_precedence(
    cfg: ProjectConfigInput,
    root: Seq<Seq<char>>,
    path: Seq<Seq<char>>,
    skipped: bool,
    i: int,
)
    requires
        0 <= i < cfg.exclude_containing@.len(),
        contains_seq(
            path_text(path_join(root, path).skip(root.len() as int)),
            cfg.exclude_containing@[i]@,
        ),
    ensures
        !cfg.includes(root, path, skipped),
{
    assert(texts(cfg.exclude_containing@)[i] == cfg.exclude_containing@[i]@);
}

/// With no exclude strings and the empty string as the only include string (the
/// defaults), the name tests admit every file: a file is included exactly when it
/// passes the location tests.
pub proof fn default_name_rules_admit_every_file(
    cfg: ProjectConfigInput,
    root: Seq<Seq<char>>,
    path: Seq<Seq<char>>,
    skipped: bool,
)
    requires
        texts(cfg.exclude_containing@) == Seq::<Seq<char>>::empty(),
        texts(cfg.include_containing@) == seq![Seq::<char>::empty()],
    ensures
        cfg.includes(root, path, skipped) == cfg.location_allows(path_join(root, path), skipped),
{
    let text = path_text(path_join(root, path).skip(root.len() as int));
    lemma_empty_is_substring(text);
    assert(texts(cfg.include_containing@)[0] == Seq::<char>::empty());
}

/// The files that [`ProjectConfigInput::included_files`] keeps are exactly the
/// keys that the configuration includes.
pub proof fn kept_keys_are_the_included_keys(
    cfg: ProjectConfigInput,
    root: Seq<Seq<char>>,
    keys: Seq<Seq<Seq<char>>>,
    skipped: Seq<bool>,
    n: nat,
)
    requires
        n <= keys.len(),
        n <= skipped.len(),
    ensures
        forall|x: Seq<Seq<char>>|
            kept_keys(cfg, root, keys, skipped, n).contains(x) <==> exists|i: int|
                0 <= i < n && keys[i] == x && #[trigger] cfg.includes(root, keys[i], skipped[i]),
    decreases n,
{
    if n > 0 {
        kept_keys_are_the_included_keys(cfg, root, keys, skipped, (n - 1) as nat);
        let r0 = kept_keys(cfg, root, keys, skipped, (n - 1) as nat);
        let r = kept_keys(cfg, root, keys, skipped, n);
        assert forall|x: Seq<Seq<char>>| r.contains(x) <==> exists|i: int|
            0 <= i < n && keys[i] == x && #[trigger] cfg.includes(root, keys[i], skipped[i]) by {
            if r.contains(x) {
                let k = choose|k: int| 0 <= k < r.len() && r[k] == x;
                if k < r0.len() {
                    assert(r0[k] == x);
                    assert(r0.contains(x));
                } else {
                    assert(cfg.includes(root, keys[n - 1], skipped[n - 1]));
                }
            }
            if exists|i: int| 0 <= i < n && keys[i] == x && #[trigger] cfg.includes(root, keys[i], skipped[i]) {
                let i = choose|i: int| 0 <= i < n && keys[i] == x && #[trigger] cfg.includes(root, keys[i], skipped[i]);
                if i < n - 1 {
                    assert(r0.contains(x));
                    let k = choose|k: int| 0 <= k < r0.len() && r0[k] == x;
                    assert(r[k] == x);
                } else {
                    assert(r[r.len() - 1] == x);
                }
            }
        }
    }
}

/// No file under an automatically excluded directory is included.
pub proof fn files_under_excluded_dirs_never_included(
    cfg: ProjectConfigInput,
    root: Seq<Seq<char>>,
    path: Seq<Seq<char>>,
    skipped: bool,
    dir: Seq<Seq<char>>,
)
    requires
        cfg.excluded_dirs().contains(dir),
        path_starts_with(path_join(root, path), dir),
    ensures
        !cfg.includes(root, path, skipped),
{
    let k = choose|k: int| 0 <= k < cfg.excluded_dirs().len() && cfg.excluded_dirs()[k] == dir;
    assert(path_starts_with(path_join(root, path), cfg.excluded_dirs()[k]));
}

/// More exclusions, fewer inclusions or more skipping never admit a new file: if
/// `wider` and `narrower` share the sources directory, every auto-excluded
/// directory and exclude string of `wider` is one of `narrower`, every include
/// string of `narrower` is one of `wider`, and the file is skipped under
/// `narrower` whenever it is under `wider`, then a file that `narrower` includes
/// is one that `wider` includes.
pub proof fn narrower_rules_admit_no_new_file(
    wider: ProjectConfigInput,
    narrower: ProjectConfigInput,
    root: Seq<Seq<char>>,
    path: Seq<Seq<char>>,
    wider_skipped: bool,
    narrower_skipped: bool,
)
    requires
        wider.sources@ == narrower.sources@,
        forall|i: int|
            0 <= i < wider.excluded_dirs().len() ==> narrower.excluded_dirs().contains(
                #[trigger] wider.excluded_dirs()[i],
            ),
        forall|i: int|
            0 <= i < texts(wider.exclude_containing@).len() ==> texts(
                narrower.exclude_containing@,
            ).contains(#[trigger] texts(wider.exclude_containing@)[i]),
        forall|i: int|
            0 <= i < texts(narrower.include_containing@).len() ==> texts(
                wider.include_containing@,
            ).contains(#[trigger] texts(narrower.include_containing@)[i]),
        wider_skipped ==> narrower_skipped,
        narrower.includes(root, path, narrower_skipped),
    ensures
        wider.includes(root, path, wider_skipped),
{
    let full = path_join(root, path);
    let text = path_text(full.skip(root.len() as int));
    if under_any(full, wider.excluded_dirs()) {
        let i = choose|i: int|
            0 <= i < wider.excluded_dirs().len() && path_starts_with(full, #[trigger] wider.excluded_dirs()[i]);
        let d = wider.excluded_dirs()[i];
        let k = choose|k: int| 0 <= k < narrower.excluded_dirs().len() && narrower.excluded_dirs()[k] == d;
        assert(path_starts_with(full, narrower.excluded_dirs()[k]));
    }
    if contains_any(text, texts(wider.exclude_containing@)) {
        let i = choose|i: int|
            0 <= i < texts(wider.exclude_containing@).len() && contains_seq(
                text,
                #[trigger] texts(wider.exclude_containing@)[i],
            );
        let e = texts(wider.exclude_containing@)[i];
        let k = choose|k: int|
            0 <= k < texts(narrower.exclude_containing@).len() && texts(narrower.exclude_containing@)[k] == e;
        assert(contains_seq(text, texts(narrower.exclude_containing@)[k]));
    }
    let i = choose|i: int|
        0 <= i < texts(narrower.include_containing@).len() && contains_seq(
            text,
            #[trigger] texts(narrower.include_containing@)[i],
        );
    let n = texts(narrower.include_containing@)[i];
    let k = choose|k: int|
        0 <= k < texts(wider.include_containing@).len() && texts(wider.include_containing@)[k] == n;
    assert(contains_seq(text, texts(wider.include_containing@)[k]));
}

/// A path lies under a list of directories exactly when, component by component,
/// one of them is a prefix of it.
pub proof fn under_means_prefixed_by_one(p: Seq<Seq<char>>, bases: Seq<Seq<Seq<char>>>)
    ensures
        under_any(p, bases) <==> exists|i: int|
            0 <= i < bases.len() && bases[i].len() <= p.len() && #[trigger] p.subrange(
                0,
                bases[i].len() as int,
            ) == bases[i],
{
}

/// A directory that holds an excluded directory is not itself under it: the walk
/// enters the sources directory though `node_modules` or `test` lie inside it.
pub proof fn holding_an_excluded_dir_is_not_being_under_it(d: Seq<Seq<char>>, inner: Seq<Seq<char>>)
    requires
        inner.len() > 0,
    ensures
        !under_any(d, seq![d + inner]),
        under_any(d + inner, seq![d]),
{
    assert((d + inner).subrange(0, d.len() as int) =~= d);
    assert(seq![d][0] == d);
    assert(path_starts_with(d + inner, seq![d][0]));
}

/// Where the path joined to the root lies under the root, the inclusion test is
/// defined, for relative and absolute paths alike.
pub proof fn defined_where_joined_path_lies_under_root(
    cfg: ProjectConfigInput,
    root: Seq<Seq<char>>,
    path: Seq<Seq<char>>,
    skipped: bool,
)
    requires
        path_starts_with(path_join(root, path), root),
    ensures
        cfg.inclusion_defined(root, path, skipped),
{
}

/// The inclusion test is defined for every relative path.
pub proof fn defined_for_relative_paths(
    cfg: ProjectConfigInput,
    root: Seq<Seq<char>>,
    path: Seq<Seq<char>>,
    skipped: bool,
)
    requires
        !crate::paths::is_absolute(path),
    ensures
        cfg.inclusion_defined(root, path, skipped),
{
    crate::paths::join_then_strip_gives_back(root, path);
}

} // verus!
