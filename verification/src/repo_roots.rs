//! Which repository holds a path: the nearest enclosing directory that has a
//! `.git` entry, searching upward from the path's directory and stopping at
//! the audited repository root. Lookups are remembered per directory.
//!
//! Whether a directory has a `.git` entry is a question for the file system;
//! it is asked from outside. A lookup first names the directories it needs
//! to probe (`probes`), then is settled with the answers (`settle`).
use vstd::prelude::*;
use crate::paths::{FsPath, Part, parent_parts};

verus! {

/// The repository that holds directory `dir`, given the set `git` of
/// directories that have a `.git` entry: the first of `dir` and its
/// ancestors that is the audited root or has `.git`; the root when neither
/// is found.
pub open spec fn root_from(root: Seq<Part>, dir: Seq<Part>, git: Set<Seq<Part>>) -> Seq<Part>
    decreases dir.len(),
{
    if dir == root {
        root
    } else if git.contains(dir) {
        dir
    } else {
        match parent_parts(dir) {
            Some(p) => root_from(root, p, git),
            None => root,
        }
    }
}

/// The repository found from `dir` is the audited root, or a directory with
/// a `.git` entry that is `dir` itself or one of its ancestors; a directory
/// other than the root that has `.git` is its own repository, and when no
/// ancestor of `dir` (itself included) has `.git`, the root is found.
pub proof fn lemma_repository_found(root: Seq<Part>, dir: Seq<Part>, git: Set<Seq<Part>>)
    ensures
        root_from(root, dir, git) == root || (git.contains(root_from(root, dir, git))
            && root_from(root, dir, git).is_prefix_of(dir)),
        dir != root && git.contains(dir) ==> root_from(root, dir, git) == dir,
        (forall|k: int| 0 <= k <= dir.len() ==> !git.contains(#[trigger] dir.subrange(0, k)))
            ==> root_from(root, dir, git) == root,
    decreases dir.len(),
{
    if dir != root && !git.contains(dir) {
        match parent_parts(dir) {
            Some(p) => {
                lemma_repository_found(root, p, git);
                let r = root_from(root, p, git);
                if r != root {
                    assert(r.is_prefix_of(dir)) by {
                        assert forall|i: int| 0 <= i < r.len() implies r[i] == dir[i] by {
                            assert(r[i] == p[i]);
                        }
                    }
                }
                if forall|k: int| 0 <= k <= dir.len() ==> !git.contains(#[trigger] dir.subrange(0, k)) {
                    assert forall|k: int| 0 <= k <= p.len() implies !git.contains(
                        #[trigger] p.subrange(0, k),
                    ) by {
                        assert(p.subrange(0, k) =~= dir.subrange(0, k));
                    }
                }
            },
            None => {},
        }
    } else if dir != root {
        assert(dir.is_prefix_of(dir));
        assert(dir.subrange(0, dir.len() as int) =~= dir);
    }
}

/// The repository that holds `path`: that of its directory, or the root
/// when the path has no parent.
pub open spec fn repository_root_of(root: Seq<Part>, path: Seq<Part>, git: Set<Seq<Part>>) -> Seq<
    Part,
> {
    match parent_parts(path) {
        Some(p) => root_from(root, p, git),
        None => root,
    }
}

/// The directory a lookup for `path` starts from.
pub open spec fn start_dir(root: Seq<Part>, path: Seq<Part>) -> Seq<Part> {
    match parent_parts(path) {
        Some(p) => p,
        None => root,
    }
}

/// The remembered answer for `dir`; a later entry wins.
pub open spec fn cache_lookup(es: Seq<(Seq<Part>, Seq<Part>)>, dir: Seq<Part>) -> Option<Seq<Part>>
    decreases es.len(),
{
    if es.len() == 0 {
        None
    } else if es.last().0 == dir {
        Some(es.last().1)
    } else {
        cache_lookup(es.drop_last(), dir)
    }
}

/// The directories a walk from `dir` probes for `.git`: each one up to (not
/// including) the root or a remembered directory.
pub open spec fn probe_chain(root: Seq<Part>, es: Seq<(Seq<Part>, Seq<Part>)>, dir: Seq<Part>) -> Seq<
    Seq<Part>,
>
    decreases dir.len(),
{
    if dir == root {
        seq![]
    } else if cache_lookup(es, dir) is Some {
        seq![]
    } else {
        seq![dir] + match parent_parts(dir) {
            Some(p) => probe_chain(root, es, p),
            None => seq![],
        }
    }
}

/// The walk upward from `dir`, where `flags[k..]` answer the probes in
/// order: the repository found and the directories searched on the way.
pub open spec fn walk(
    root: Seq<Part>,
    es: Seq<(Seq<Part>, Seq<Part>)>,
    dir: Seq<Part>,
    flags: Seq<bool>,
    k: int,
) -> (Seq<Part>, Seq<Seq<Part>>)
    decreases dir.len(),
{
    if dir == root {
        (root, seq![])
    } else {
        match cache_lookup(es, dir) {
            Some(v) => (v, seq![]),
            None => if 0 <= k < flags.len() && flags[k] {
                (dir, seq![dir])
            } else {
                match parent_parts(dir) {
                    Some(p) => {
                        let rest = walk(root, es, p, flags, k + 1);
                        (rest.0, seq![dir] + rest.1)
                    },
                    None => (root, seq![dir]),
                }
            },
        }
    }
}

/// The directories a lookup for `path` probes.
pub open spec fn lookup_probes(root: Seq<Part>, es: Seq<(Seq<Part>, Seq<Part>)>, path: Seq<Part>) -> Seq<
    Seq<Part>,
> {
    let start = start_dir(root, path);
    if cache_lookup(es, start) is Some {
        seq![]
    } else {
        probe_chain(root, es, start)
    }
}

/// A lookup's answer and the remembered entries after it: a remembered
/// start directory answers at once; otherwise every searched directory, and
/// the start directory, remember the answer.
pub open spec fn lookup_outcome(
    root: Seq<Part>,
    es: Seq<(Seq<Part>, Seq<Part>)>,
    path: Seq<Part>,
    flags: Seq<bool>,
) -> (Seq<Part>, Seq<(Seq<Part>, Seq<Part>)>) {
    let start = start_dir(root, path);
    match cache_lookup(es, start) {
        Some(v) => (v, es),
        None => {
            let w = walk(root, es, start, flags, 0);
            (w.0, es + w.1.map_values(|d: Seq<Part>| (d, w.0)) + seq![(start, w.0)])
        },
    }
}

/// Every remembered answer is the one the file system `git` gives.
pub open spec fn consistent(
    root: Seq<Part>,
    es: Seq<(Seq<Part>, Seq<Part>)>,
    git: Set<Seq<Part>>,
) -> bool {
    forall|i: int| 0 <= i < es.len() ==> (#[trigger] es[i]).1 == root_from(root, es[i].0, git)
}

/// The probe answers are those of the file system `git`.
pub open spec fn answers_agree(probes: Seq<Seq<Part>>, flags: Seq<bool>, git: Set<Seq<Part>>) -> bool {
    &&& flags.len() == probes.len()
    &&& forall|k: int| 0 <= k < probes.len() ==> flags[k] == git.contains(#[trigger] probes[k])
}

/// A remembered answer of a consistent cache is the file system's answer.
proof fn lemma_lookup_consistent(
    root: Seq<Part>,
    es: Seq<(Seq<Part>, Seq<Part>)>,
    dir: Seq<Part>,
    git: Set<Seq<Part>>,
)
    requires
        consistent(root, es, git),
    ensures
        cache_lookup(es, dir) matches Some(v) ==> v == root_from(root, dir, git),
    decreases es.len(),
{
    if es.len() > 0 && es.last().0 != dir {
        assert forall|i: int| 0 <= i < es.drop_last().len() implies (#[trigger] es.drop_last()[i]).1
            == root_from(root, es.drop_last()[i].0, git) by {
            assert(es.drop_last()[i] == es[i]);
        }
        lemma_lookup_consistent(root, es.drop_last(), dir, git);
    } else if es.len() > 0 {
        assert(es[es.len() - 1] == es.last());
    }
}

/// With a consistent cache and truthful answers, the walk finds the file
/// system's repository, and every directory it searched belongs to it.
proof fn lemma_walk_sound(
    root: Seq<Part>,
    es: Seq<(Seq<Part>, Seq<Part>)>,
    dir: Seq<Part>,
    flags: Seq<bool>,
    k: int,
    git: Set<Seq<Part>>,
)
    requires
        consistent(root, es, git),
        0 <= k,
        k + probe_chain(root, es, dir).len() == flags.len(),
        forall|j: int|
            0 <= j < probe_chain(root, es, dir).len() ==> flags[k + j] == git.contains(
                #[trigger] probe_chain(root, es, dir)[j],
            ),
    ensures
        walk(root, es, dir, flags, k).0 == root_from(root, dir, git),
        forall|j: int|
            0 <= j < walk(root, es, dir, flags, k).1.len() ==> root_from(
                root,
                #[trigger] walk(root, es, dir, flags, k).1[j],
                git,
            ) == root_from(root, dir, git),
    decreases dir.len(),
{
    lemma_lookup_consistent(root, es, dir, git);
    if dir != root && cache_lookup(es, dir) is None {
        let chain = probe_chain(root, es, dir);
        assert(chain[0] == dir);
        assert(flags[k + 0] == git.contains(chain[0]));
        if !flags[k] {
            match parent_parts(dir) {
                Some(p) => {
                    let sub = probe_chain(root, es, p);
                    assert(chain == seq![dir] + sub);
                    assert forall|j: int| 0 <= j < sub.len() implies flags[(k + 1) + j]
                        == git.contains(#[trigger] sub[j]) by {
                        assert(chain[j + 1] == sub[j]);
                        assert(flags[k + (j + 1)] == git.contains(chain[j + 1]));
                    }
                    lemma_walk_sound(root, es, p, flags, k + 1, git);
                    let rest = walk(root, es, p, flags, k + 1);
                    let w = walk(root, es, dir, flags, k);
                    assert(w.1 == seq![dir] + rest.1);
                    assert forall|j: int| 0 <= j < w.1.len() implies root_from(
                        root,
                        #[trigger] w.1[j],
                        git,
                    ) == root_from(root, dir, git) by {
                        if j > 0 {
                            assert(w.1[j] == rest.1[j - 1]);
                        }
                    }
                },
                None => {},
            }
        }
    }
}

/// A lookup settled with truthful answers gives the file system's
/// repository for the path, and leaves every remembered answer truthful:
/// remembering answers never changes what a lookup returns.
pub proof fn lemma_cached_lookup_is_uncached_walk(
    root: Seq<Part>,
    es: Seq<(Seq<Part>, Seq<Part>)>,
    path: Seq<Part>,
    flags: Seq<bool>,
    git: Set<Seq<Part>>,
)
    requires
        consistent(root, es, git),
        answers_agree(lookup_probes(root, es, path), flags, git),
    ensures
        lookup_outcome(root, es, path, flags).0 == repository_root_of(root, path, git),
        consistent(root, lookup_outcome(root, es, path, flags).1, git),
{
    let start = start_dir(root, path);
    lemma_lookup_consistent(root, es, start, git);
    assert(start == root ==> root_from(root, start, git) == root);
    if cache_lookup(es, start) is None {
        let chain = probe_chain(root, es, start);
        assert forall|j: int| 0 <= j < chain.len() implies flags[0 + j] == git.contains(
            #[trigger] chain[j],
        ) by {
            assert(flags[j] == git.contains(chain[j]));
        }
        lemma_walk_sound(root, es, start, flags, 0, git);
        let w = walk(root, es, start, flags, 0);
        let added = w.1.map_values(|d: Seq<Part>| (d, w.0));
        let es2 = es + added + seq![(start, w.0)];
        assert forall|i: int| 0 <= i < es2.len() implies (#[trigger] es2[i]).1 == root_from(
            root,
            es2[i].0,
            git,
        ) by {
            if i < es.len() {
                assert(es2[i] == es[i]);
            } else if i < es.len() + added.len() {
                assert(es2[i] == added[i - es.len()]);
                assert(added[i - es.len()] == (w.1[i - es.len()], w.0));
            } else {
                assert(es2[i] == (start, w.0));
            }
        }
    }
}

/// Remembered repository lookups, relative to an audited root.
pub struct GitRepoCache {
    repo_root: FsPath,
    known_roots: Vec<(FsPath, FsPath)>,
}

/// The views of remembered entries.
pub open spec fn entry_views(v: Seq<(FsPath, FsPath)>) -> Seq<(Seq<Part>, Seq<Part>)> {
    v.map_values(|e: (FsPath, FsPath)| (e.0@, e.1@))
}

impl GitRepoCache {
    /// The audited root.
    pub closed spec fn root(&self) -> Seq<Part> {
        self.repo_root@
    }

    /// The remembered answers, oldest first.
    pub closed spec fn entries(&self) -> Seq<(Seq<Part>, Seq<Part>)> {
        entry_views(self.known_roots@)
    }

    /// An empty cache for the audited root.
    pub fn new(repo_root: &FsPath) -> (c: GitRepoCache)
        ensures
            c.root() == repo_root@,
            c.entries() == Seq::<(Seq<Part>, Seq<Part>)>::empty(),
    {
        let c = GitRepoCache { repo_root: repo_root.duplicate(), known_roots: Vec::new() };
        assert(c.entries() =~= Seq::<(Seq<Part>, Seq<Part>)>::empty());
        c
    }

    /// The remembered answer for `dir`.
    fn lookup(&self, dir: &FsPath) -> (r: Option<FsPath>)
        ensures
            match r {
                Some(v) => cache_lookup(self.entries(), dir@) == Some(v@),
                None => cache_lookup(self.entries(), dir@) is None,
            },
    {
        let mut i: usize = self.known_roots.len();
        let ghost es = self.entries();
        assert(es.subrange(0, es.len() as int) =~= es);
        while i > 0
            invariant
                i <= self.known_roots@.len(),
                es == self.entries(),
                cache_lookup(es, dir@) == cache_lookup(es.subrange(0, i as int), dir@),
            decreases i,
        {
            let ghost sub = es.subrange(0, i as int);
            assert(sub.last() == es[i - 1]);
            if self.known_roots[i - 1].0.same(dir) {
                return Some(self.known_roots[i - 1].1.duplicate());
            }
            assert(sub.drop_last() =~= es.subrange(0, i - 1));
            i = i - 1;
        }
        None
    }

    /// The directory a lookup for `path` starts from.
    fn start(&self, path: &FsPath) -> (s: FsPath)
        ensures
            s@ == start_dir(self.root(), path@),
    {
        match path.parent() {
            Some(p) => p,
            None => self.repo_root.duplicate(),
        }
    }

    /// The directories whose `.git` entry a lookup for `path` needs to know
    /// about, nearest first.
    pub fn probes(&self, path: &FsPath) -> (r: Vec<FsPath>)
        ensures
            r@.map_values(|p: FsPath| p@) == lookup_probes(self.root(), self.entries(), path@),
    {
        let start = self.start(path);
        let ghost root = self.root();
        let ghost es = self.entries();
        let mut out: Vec<FsPath> = Vec::new();
        if self.lookup(&start).is_some() {
            assert(out@.map_values(|p: FsPath| p@) =~= Seq::<Seq<Part>>::empty());
            return out;
        }
        let mut current = Some(start);
        assert(out@.map_values(|p: FsPath| p@) =~= Seq::<Seq<Part>>::empty());
        while current.is_some()
            invariant
                root == self.root(),
                es == self.entries(),
                out@.map_values(|p: FsPath| p@) + match current {
                    Some(c) => probe_chain(root, es, c@),
                    None => Seq::<Seq<Part>>::empty(),
                } == probe_chain(root, es, start_dir(root, path@)),
            decreases match current {
                Some(c) => c@.len() + 1,
                None => 0,
            },
        {
            let c = current.unwrap();
            let ghost acc = out@.map_values(|p: FsPath| p@);
            if c.same(&self.repo_root) || self.lookup(&c).is_some() {
                current = None;
                assert(acc + Seq::<Seq<Part>>::empty() =~= acc);
            } else {
                let next = c.parent();
                let ghost cv = c@;
                out.push(c);
                assert(out@.map_values(|p: FsPath| p@) =~= acc.push(cv));
                current = next;
                match &current {
                    Some(n) => {
                        assert(probe_chain(root, es, cv) == seq![cv] + probe_chain(root, es, n@));
                    },
                    None => {
                        assert(probe_chain(root, es, cv) == seq![cv] + Seq::<Seq<Part>>::empty());
                    },
                }
                assert(acc.push(cv) + match current {
                    Some(c) => probe_chain(root, es, c@),
                    None => Seq::<Seq<Part>>::empty(),
                } =~= acc + probe_chain(root, es, cv));
            }
        }
        assert(out@.map_values(|p: FsPath| p@) + Seq::<Seq<Part>>::empty() =~= out@.map_values(
            |p: FsPath| p@,
        ));
        out
    }

    /// Settles a lookup for `path` with `has_git`, the answers for the
    /// directories `probes` named, in the same order; the answer is
    /// remembered for every directory searched.
    pub fn settle(&mut self, path: &FsPath, has_git: &Vec<bool>) -> (r: FsPath)
        ensures
            final(self).root() == old(self).root(),
            r@ == lookup_outcome(old(self).root(), old(self).entries(), path@, has_git@).0,
            final(self).entries() == lookup_outcome(
                old(self).root(),
                old(self).entries(),
                path@,
                has_git@,
            ).1,
    {
        let start = self.start(path);
        let ghost root = self.root();
        let ghost es = self.entries();
        let ghost flags = has_git@;
        match self.lookup(&start) {
            Some(v) => {
                return v;
            },
            None => {},
        }
        let mut searched: Vec<FsPath> = Vec::new();
        let mut k: usize = 0;
        let mut current = start.duplicate();
        let resolved: FsPath;
        assert(searched@.map_values(|p: FsPath| p@) =~= Seq::<Seq<Part>>::empty());
        loop
            invariant_except_break
                k == searched@.len(),
                walk(root, es, start@, flags, 0) == (
                    walk(root, es, current@, flags, k as int).0,
                    searched@.map_values(|p: FsPath| p@) + walk(root, es, current@, flags, k as int).1,
                ),
            invariant
                root == self.root(),
                es == self.entries(),
                flags == has_git@,
            ensures
                walk(root, es, start@, flags, 0) == (
                    resolved@,
                    searched@.map_values(|p: FsPath| p@),
                ),
            decreases current@.len(),
        {
            let ghost acc = searched@.map_values(|p: FsPath| p@);
            if current.same(&self.repo_root) {
                resolved = self.repo_root.duplicate();
                assert(acc + Seq::<Seq<Part>>::empty() =~= acc);
                break;
            }
            match self.lookup(&current) {
                Some(v) => {
                    resolved = v;
                    assert(acc + Seq::<Seq<Part>>::empty() =~= acc);
                    break;
                },
                None => {},
            }
            let ghost cv = current@;
            let probed = k < has_git.len() && has_git[k];
            let next = current.parent();
            if probed {
                resolved = current.duplicate();
                searched.push(current);
                assert(searched@.map_values(|p: FsPath| p@) =~= acc + seq![cv]);
                break;
            }
            match next {
                Some(n) => {
                    searched.push(current);
                    assert(searched@.map_values(|p: FsPath| p@) =~= acc.push(cv));
                    assert(acc + (seq![cv] + walk(root, es, n@, flags, k + 1).1) =~= acc.push(cv)
                        + walk(root, es, n@, flags, k + 1).1);
                    k = searched.len();
                    current = n;
                },
                None => {
                    resolved = self.repo_root.duplicate();
                    searched.push(current);
                    assert(searched@.map_values(|p: FsPath| p@) =~= acc + seq![cv]);
                    break;
                },
            }
        }
        let ghost sv = searched@.map_values(|p: FsPath| p@);
        let ghost rv = resolved@;
        let mut i: usize = 0;
        while i < searched.len()
            invariant
                i <= searched@.len(),
                sv == searched@.map_values(|p: FsPath| p@),
                rv == resolved@,
                root == self.root(),
                self.entries() == es + sv.subrange(0, i as int).map_values(
                    |d: Seq<Part>| (d, rv),
                ),
            decreases searched@.len() - i,
        {
            let ghost before = self.entries();
            self.known_roots.push((searched[i].duplicate(), resolved.duplicate()));
            assert(self.entries() =~= before.push((sv[i as int], rv)));
            i = i + 1;
            assert(sv.subrange(0, i as int).map_values(|d: Seq<Part>| (d, rv)) =~= sv.subrange(
                0,
                i - 1 as int,
            ).map_values(|d: Seq<Part>| (d, rv)).push((sv[i - 1], rv)));
        }
        assert(sv.subrange(0, sv.len() as int) =~= sv);
        let ghost before = self.entries();
        self.known_roots.push((start, resolved.duplicate()));
        assert(self.entries() =~= before.push((start_dir(root, path@), rv)));
        assert(before.push((start_dir(root, path@), rv)) =~= before + seq![(start_dir(root, path@), rv)]);
        resolved
    }
}

} // verus!
