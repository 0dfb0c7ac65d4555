//! Filesystem paths modelled as their sequence of components.
//!
//! A path is held as the list of its components, as `Path::components` yields them
//! on Unix: a leading `"/"` for the root directory, `"."` for a leading current
//! directory, `".."` for a parent directory, and otherwise the plain names.
//! Every operation that the configuration logic needs is defined here over that
//! model, following what the standard library documents for `Path`:
//! `starts_with` compares whole components, `join` with an absolute path replaces
//! the base, and `strip_prefix` drops a component prefix.
use vstd::prelude::*;
use crate::text::chars_of;

verus! {

/// A path, as the ordered list of its components.
#[derive(Debug, PartialEq, Eq, Hash)]
pub struct PathParts {
    pub parts: Vec<String>,
}

/// The character sequences of a list of strings.
pub open spec fn texts(v: Seq<String>) -> Seq<Seq<char>> {
    v.map_values(|s: String| s@)
}

impl View for PathParts {
    type V = Seq<Seq<char>>;

    open spec fn view(&self) -> Seq<Seq<char>> {
        texts(self.parts@)
    }
}

/// The component that stands for the root directory.
pub open spec fn root_component() -> Seq<char> {
    seq!['/']
}

/// A path is absolute when its first component is the root directory.
pub open spec fn is_absolute(p: Seq<Seq<char>>) -> bool {
    p.len() > 0 && p[0] == root_component()
}

/// Each part is one component as `Path::components` yields it: no part is empty,
/// the root `/` and the current directory `.` stand only first, and no other
/// part holds a `/`.
pub open spec fn is_component_list(p: Seq<Seq<char>>) -> bool {
    forall|i: int|
        0 <= i < p.len() ==> {
            &&& (#[trigger] p[i]).len() > 0
            &&& (p[i] == root_component() || p[i] == seq!['.']) ==> i == 0
            &&& p[i] != root_component() ==> !p[i].contains('/')
        }
}

/// `base` is a prefix of `p`, whole component by whole component.
pub open spec fn path_starts_with(p: Seq<Seq<char>>, base: Seq<Seq<char>>) -> bool {
    base.len() <= p.len() && p.subrange(0, base.len() as int) == base
}

/// `base` joined with `other`: `other` itself when it is absolute, else `other`
/// appended to `base`.
pub open spec fn path_join(base: Seq<Seq<char>>, other: Seq<Seq<char>>) -> Seq<Seq<char>> {
    if is_absolute(other) {
        other
    } else {
        base + other
    }
}

/// `p` with the prefix `base` removed, or `None` when `base` is no prefix of `p`.
pub open spec fn path_strip_prefix(p: Seq<Seq<char>>, base: Seq<Seq<char>>) -> Option<
    Seq<Seq<char>>,
> {
    if path_starts_with(p, base) {
        Some(p.skip(base.len() as int))
    } else {
        None
    }
}

/// Components written one after another, separated by `/`.
pub open spec fn joined_with_slash(p: Seq<Seq<char>>) -> Seq<char>
    decreases p.len(),
{
    if p.len() == 0 {
        Seq::empty()
    } else if p.len() == 1 {
        p[0]
    } else {
        joined_with_slash(p.drop_last()) + seq!['/'] + p.last()
    }
}

/// The text of a path: its components separated by `/`, with a leading `/`
/// for an absolute path.
pub open spec fn path_text(p: Seq<Seq<char>>) -> Seq<char> {
    if is_absolute(p) {
        seq!['/'] + joined_with_slash(p.skip(1))
    } else {
        joined_with_slash(p)
    }
}

/// The position of the last `c` in `s`, or -1 when there is none.
pub open spec fn last_index_of(s: Seq<char>, c: char) -> int
    decreases s.len(),
{
    if s.len() == 0 {
        -1
    } else if s.last() == c {
        s.len() - 1
    } else {
        last_index_of(s.drop_last(), c)
    }
}

/// A component that names a file or directory (not the root, `.` or `..`).
pub open spec fn is_plain_name(c: Seq<char>) -> bool {
    &&& c.len() > 0
    &&& c != root_component()
    &&& c != seq!['.']
    &&& c != seq!['.', '.']
}

/// The extension of a file name: what follows its last `.`, where that dot is not
/// the first character of the name.
pub open spec fn name_extension(name: Seq<char>) -> Option<Seq<char>> {
    let k = last_index_of(name, '.');
    if k <= 0 {
        None
    } else {
        Some(name.skip(k + 1))
    }
}

/// The extension of a path: that of its last component, when that component is a
/// plain name.
pub open spec fn path_extension(p: Seq<Seq<char>>) -> Option<Seq<char>> {
    if p.len() > 0 && is_plain_name(p.last()) {
        name_extension(p.last())
    } else {
        None
    }
}

/// The extension of Solidity source files.
pub open spec fn solidity_extension() -> Seq<char> {
    seq!['s', 'o', 'l']
}

/// Appending a string appends its characters.
proof fn lemma_texts_push(v: Seq<String>, x: String)
    ensures
        texts(v.push(x)) == texts(v).push(x@),
{
    assert(texts(v.push(x)) =~= texts(v).push(x@));
}

/// The last position of a character lies within the sequence, or is -1.
proof fn lemma_last_index_bounds(s: Seq<char>, c: char)
    ensures
        -1 <= last_index_of(s, c) < s.len(),
        last_index_of(s, c) >= 0 ==> s[last_index_of(s, c)] == c,
    decreases s.len(),
{
    if s.len() > 0 && s.last() != c {
        lemma_last_index_bounds(s.drop_last(), c);
    }
}

/// Whether the characters of `s` are exactly `cs`.
fn text_is(s: &String, cs: &Vec<char>) -> (r: bool)
    ensures
        r == (s@ == cs@),
{
    let v = chars_of(s.as_str());
    if v.len() != cs.len() {
        return false;
    }
    let mut i: usize = 0;
    while i < v.len()
        invariant
            v@ == s@,
            v.len() == cs.len(),
            i <= v.len(),
            forall|k: int| 0 <= k < i ==> v@[k] == cs@[k],
        decreases v.len() - i,
    {
        if v[i] != cs[i] {
            return false;
        }
        i = i + 1;
    }
    assert(v@ =~= cs@);
    true
}

/// The last position of `c` in `s`, if any.
fn last_index_of_exec(s: &Vec<char>, c: char) -> (r: Option<usize>)
    ensures
        match r {
            Some(k) => k == last_index_of(s@, c),
            None => last_index_of(s@, c) == -1,
        },
{
    let mut i: usize = s.len();
    assert(s@.subrange(0, s@.len() as int) =~= s@);
    while i > 0
        invariant
            i <= s@.len(),
            last_index_of(s@, c) == last_index_of(s@.subrange(0, i as int), c),
        decreases i,
    {
        let ghost pre = s@.subrange(0, i as int);
        assert(pre.drop_last() =~= s@.subrange(0, i - 1));
        if s[i - 1] == c {
            return Some(i - 1);
        }
        i = i - 1;
    }
    assert(s@.subrange(0, 0) =~= Seq::<char>::empty());
    None
}

impl PathParts {
    /// A path from its components.
    pub fn new(parts: Vec<String>) -> (r: PathParts)
        ensures
            r.parts == parts,
    {
        PathParts { parts }
    }

    /// A copy of this path.
    pub fn duplicate(&self) -> (r: PathParts)
        ensures
            r@ == self@,
    {
        let mut parts: Vec<String> = Vec::new();
        let mut i: usize = 0;
        while i < self.parts.len()
            invariant
                i <= self.parts@.len(),
                texts(parts@) == texts(self.parts@).subrange(0, i as int),
            decreases self.parts@.len() - i,
        {
            let ghost old_parts = parts@;
            parts.push(self.parts[i].clone());
            proof {
                lemma_texts_push(old_parts, self.parts@[i as int]);
                assert(texts(parts@) =~= texts(self.parts@).subrange(0, i + 1));
            }
            i = i + 1;
        }
        assert(texts(self.parts@).subrange(0, self.parts@.len() as int) =~= texts(self.parts@));
        PathParts { parts }
    }

    /// Whether the path begins at the root directory.
    pub fn is_absolute(&self) -> (r: bool)
        ensures
            r == is_absolute(self@),
    {
        if self.parts.len() == 0 {
            return false;
        }
        let root = vec!['/'];
        assert(root@ =~= root_component());
        text_is(&self.parts[0], &root)
    }

    /// Whether `base` is a prefix of this path, whole component by component.
    pub fn starts_with(&self, base: &PathParts) -> (r: bool)
        ensures
            r == path_starts_with(self@, base@),
    {
        if base.parts.len() > self.parts.len() {
            return false;
        }
        let mut i: usize = 0;
        while i < base.parts.len()
            invariant
                base@.len() <= self@.len(),
                i <= base@.len(),
                forall|k: int| 0 <= k < i ==> self@[k] == base@[k],
            decreases base@.len() - i,
        {
            if !(self.parts[i] == base.parts[i]) {
                assert(self@.subrange(0, base@.len() as int)[i as int] != base@[i as int]);
                return false;
            }
            i = i + 1;
        }
        assert(self@.subrange(0, base@.len() as int) =~= base@);
        true
    }

    /// Whether both paths have the same components.
    pub fn same_as(&self, other: &PathParts) -> (r: bool)
        ensures
            r == (self@ == other@),
    {
        if self.parts.len() != other.parts.len() {
            return false;
        }
        let r = self.starts_with(other);
        proof {
            assert(self@.len() == other@.len());
            assert(self@.subrange(0, other@.len() as int) =~= self@);
        }
        r
    }

    /// This path joined with `other`; an absolute `other` replaces this path.
    pub fn join(&self, other: &PathParts) -> (r: PathParts)
        ensures
            r@ == path_join(self@, other@),
    {
        if other.is_absolute() {
            return other.duplicate();
        }
        let mut r = self.duplicate();
        let mut i: usize = 0;
        while i < other.parts.len()
            invariant
                i <= other@.len(),
                r@ == self@ + other@.subrange(0, i as int),
            decreases other@.len() - i,
        {
            let ghost old_parts = r.parts@;
            r.parts.push(other.parts[i].clone());
            proof {
                lemma_texts_push(old_parts, other.parts@[i as int]);
            }
            assert(r@ =~= self@ + other@.subrange(0, i + 1));
            i = i + 1;
        }
        assert(other@.subrange(0, other@.len() as int) =~= other@);
        r
    }

    /// This path without the prefix `base`, or `None` when `base` is no prefix.
    pub fn strip_prefix(&self, base: &PathParts) -> (r: Option<PathParts>)
        ensures
            match r {
                Some(rest) => path_strip_prefix(self@, base@) == Some(rest@),
                None => path_strip_prefix(self@, base@) is None,
            },
    {
        if !self.starts_with(base) {
            return None;
        }
        let mut parts: Vec<String> = Vec::new();
        let mut i: usize = base.parts.len();
        while i < self.parts.len()
            invariant
                base@.len() <= i <= self@.len(),
                texts(parts@) == self@.subrange(base@.len() as int, i as int),
            decreases self@.len() - i,
        {
            let ghost old_parts = parts@;
            parts.push(self.parts[i].clone());
            proof {
                lemma_texts_push(old_parts, self.parts@[i as int]);
            }
            assert(texts(parts@) =~= self@.subrange(base@.len() as int, i + 1));
            i = i + 1;
        }
        let rest = PathParts { parts };
        assert(rest@ =~= self@.skip(base@.len() as int));
        Some(rest)
    }

    /// The characters of this path's text (see [`path_text`]).
    pub fn text_chars(&self) -> (r: Vec<char>)
        ensures
            r@ == path_text(self@),
    {
        let mut out: Vec<char> = Vec::new();
        let start: usize = if self.is_absolute() {
            out.push('/');
            1
        } else {
            0
        };
        let ghost body = self@.skip(start as int);
        let mut i: usize = start;
        while i < self.parts.len()
            invariant
                start <= i <= self@.len(),
                start == 0 || start == 1,
                body == self@.skip(start as int),
                out@ == (if start == 1 { seq!['/'] } else { Seq::<char>::empty() })
                    + joined_with_slash(body.subrange(0, i - start)),
            decreases self@.len() - i,
        {
            let ghost before = out@;
            if i > start {
                out.push('/');
            }
            let cs = chars_of(self.parts[i].as_str());
            let mut j: usize = 0;
            let ghost mid = out@;
            while j < cs.len()
                invariant
                    j <= cs@.len(),
                    out@ == mid + cs@.subrange(0, j as int),
                decreases cs@.len() - j,
            {
                out.push(cs[j]);
                assert(out@ =~= mid + cs@.subrange(0, j + 1));
                j = j + 1;
            }
            proof {
                let pre = body.subrange(0, i - start);
                let post = body.subrange(0, i + 1 - start);
                assert(post.drop_last() =~= pre);
                assert(post.last() == self@[i as int]);
                assert(cs@.subrange(0, cs@.len() as int) =~= cs@);
                if i > start {
                    assert(out@ =~= before + seq!['/'] + self@[i as int]);
                } else {
                    assert(pre =~= Seq::<Seq<char>>::empty());
                    assert(out@ =~= before + self@[i as int]);
                }
            }
            i = i + 1;
        }
        proof {
            assert(body.subrange(0, self@.len() - start) =~= body);
            if start == 0 {
                assert(body =~= self@);
                assert(Seq::<char>::empty() + joined_with_slash(body) =~= joined_with_slash(body));
            }
        }
        out
    }

    /// Whether the path names a file whose extension is `sol`.
    pub fn is_solidity_file(&self) -> (r: bool)
        ensures
            r == (path_extension(self@) == Some(solidity_extension())),
    {
        if self.parts.len() == 0 {
            return false;
        }
        let last = &self.parts[self.parts.len() - 1];
        let name = chars_of(last.as_str());
        let ghost n = self@.last();
        assert(name@ == n);
        let root = vec!['/'];
        let dot = vec!['.'];
        let dotdot = vec!['.', '.'];
        assert(root@ =~= root_component());
        assert(dot@ =~= seq!['.']);
        assert(dotdot@ =~= seq!['.', '.']);
        if name.len() == 0 || text_is(last, &root) || text_is(last, &dot) || text_is(last, &dotdot) {
            return false;
        }
        proof {
            lemma_last_index_bounds(name@, '.');
        }
        match last_index_of_exec(&name, '.') {
            None => false,
            Some(k) => {
                if k == 0 {
                    return false;
                }
                let ext = vec!['s', 'o', 'l'];
                assert(ext@ =~= solidity_extension());
                if name.len() - (k + 1) != 3 {
                    assert(name@.skip(k + 1).len() != 3);
                    return false;
                }
                let same = name[k + 1] == 's' && name[k + 2] == 'o' && name[k + 3] == 'l';
                assert(same == (name@.skip(k + 1) =~= solidity_extension()));
                same
            },
        }
    }
}

/// Joining a relative path to a base and then stripping the base gives the
/// relative path back; the joined path starts with the base.
pub proof fn join_then_strip_gives_back(base: Seq<Seq<char>>, rel: Seq<Seq<char>>)
    requires
        !is_absolute(rel),
    ensures
        path_starts_with(path_join(base, rel), base),
        path_strip_prefix(path_join(base, rel), base) == Some(rel),
{
    assert((base + rel).subrange(0, base.len() as int) =~= base);
    assert((base + rel).skip(base.len() as int) =~= rel);
}

/// The text of two non-empty component lists one after the other is the text of
/// the first, a `/`, and the text of the second: a `/` stands between every two
/// neighbouring components, at every depth.
pub proof fn text_of_concatenation(p: Seq<Seq<char>>, q: Seq<Seq<char>>)
    requires
        p.len() > 0,
        q.len() > 0,
    ensures
        joined_with_slash(p + q) == joined_with_slash(p) + seq!['/'] + joined_with_slash(q),
    decreases q.len(),
{
    if q.len() == 1 {
        assert((p + q).drop_last() =~= p);
        assert((p + q).last() == q[0]);
    } else {
        text_of_concatenation(p, q.drop_last());
        assert((p + q).drop_last() =~= p + q.drop_last());
        assert((p + q).last() == q.last());
        assert(joined_with_slash(p + q) =~= joined_with_slash(p) + seq!['/'] + joined_with_slash(q));
    }
}

/// The text of a relative path of a directory `d` and a name `n` is the text of `d`,
/// a `/`, then `n`.
pub proof fn text_of_child(d: Seq<Seq<char>>, n: Seq<char>)
    requires
        d.len() > 0,
        !is_absolute(d),
    ensures
        path_text(d.push(n)) == path_text(d) + seq!['/'] + n,
{
    text_of_concatenation(d, seq![n]);
    assert(d.push(n) =~= d + seq![n]);
    assert(d.push(n)[0] == d[0]);
}

/// A file name made of a non-empty stem and `.sol` has the extension `sol`, in
/// any directory and whatever the length of the name or the stem.
pub proof fn sol_names_are_solidity_files(dir: Seq<Seq<char>>, stem: Seq<char>)
    requires
        stem.len() > 0,
    ensures
        path_extension(dir.push(stem + seq!['.', 's', 'o', 'l'])) == Some(solidity_extension()),
{
    let name = stem + seq!['.', 's', 'o', 'l'];
    let a = name.drop_last();
    let b = a.drop_last();
    let c = b.drop_last();
    assert(a =~= stem + seq!['.', 's', 'o']);
    assert(b =~= stem + seq!['.', 's']);
    assert(c =~= stem + seq!['.']);
    assert(name.last() == 'l');
    assert(a.last() == 'o');
    assert(b.last() == 's');
    assert(c.last() == '.');
    assert(last_index_of(c, '.') == stem.len());
    assert(last_index_of(b, '.') == last_index_of(c, '.'));
    assert(last_index_of(a, '.') == last_index_of(b, '.'));
    assert(last_index_of(name, '.') == last_index_of(a, '.'));
    assert(name.skip(stem.len() + 1int) =~= solidity_extension());
    assert(dir.push(name).last() == name);
    assert(name.len() > 2);
    assert(name != root_component());
    assert(name != seq!['.']);
    assert(name != seq!['.', '.']);
}

/// A path with the extension `sol` ends in a plain name made of a non-empty stem
/// and `.sol`.
pub proof fn solidity_files_end_in_sol(p: Seq<Seq<char>>)
    requires
        path_extension(p) == Some(solidity_extension()),
    ensures
        p.len() > 0,
        p.last().len() >= 5,
        p.last().subrange(p.last().len() - 4, p.last().len() as int) == seq!['.', 's', 'o', 'l'],
{
    let name = p.last();
    let k = last_index_of(name, '.');
    lemma_last_index_bounds(name, '.');
    assert(name.skip(k + 1) == solidity_extension());
    assert(name.len() - (k + 1) == 3);
    assert(name[k] == '.');
    assert(name.subrange(name.len() - 4, name.len() as int) =~= seq!['.', 's', 'o', 'l']) by {
        assert(name[k + 1] == name.skip(k + 1)[0]);
        assert(name[k + 2] == name.skip(k + 1)[1]);
        assert(name[k + 3] == name.skip(k + 1)[2]);
    }
}

/// The text of a single name is the name itself, and the text of a path made of
/// the root and a name is `/` followed by the name.
pub proof fn text_of_single_name(n: Seq<char>)
    requires
        n != root_component(),
    ensures
        path_text(seq![n]) == n,
        path_text(seq![root_component(), n]) == seq!['/'] + n,
{
    assert(seq![root_component(), n].skip(1) =~= seq![n]);
}

} // verus!
