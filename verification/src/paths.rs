//! Lexical file-system paths.
//!
//! A path is a sequence of components, read from its text the way a Unix path
//! is read: a leading `/` is the root, segments are separated by `/`, empty
//! segments and `.` segments vanish (a `.` that opens a relative path stays as
//! the current-directory component), and `..` is the parent component.
//! Nothing here touches the file system.
use vstd::prelude::*;
use crate::text::{chars_of, push_all, same_chars};

verus! {

/// One component of a path, as the contracts see it.
pub enum Part {
    RootDir,
    CurDir,
    ParentDir,
    Normal(Seq<char>),
}

/// One component of a path.
pub enum Component {
    RootDir,
    CurDir,
    ParentDir,
    Normal(Vec<char>),
}

impl View for Component {
    type V = Part;

    open spec fn view(&self) -> Part {
        match self {
            Component::RootDir => Part::RootDir,
            Component::CurDir => Part::CurDir,
            Component::ParentDir => Part::ParentDir,
            Component::Normal(n) => Part::Normal(n@),
        }
    }
}

/// A path held as its components.
pub struct FsPath {
    parts: Vec<Component>,
}

impl View for FsPath {
    type V = Seq<Part>;

    closed spec fn view(&self) -> Seq<Part> {
        self.parts@.map_values(|c: Component| c@)
    }
}

/// The `/`-separated segments of `s`; there is always at least one.
pub open spec fn split_slash(s: Seq<char>) -> Seq<Seq<char>>
    decreases s.len(),
{
    if s.len() == 0 {
        seq![Seq::<char>::empty()]
    } else {
        let init = split_slash(s.drop_last());
        if s.last() == '/' {
            init.push(Seq::<char>::empty())
        } else {
            init.update(init.len() - 1, init.last().push(s.last()))
        }
    }
}

/// Is the text that of an absolute path?
pub open spec fn is_absolute_text(s: Seq<char>) -> bool {
    s.len() > 0 && s[0] == '/'
}

/// The component a segment stands for, if any: `first` says whether it is
/// the path's first segment.
pub open spec fn segment_part(seg: Seq<char>, first: bool, absolute: bool) -> Seq<Part> {
    if seg.len() == 0 {
        seq![]
    } else if seg == seq!['.'] {
        if first && !absolute { seq![Part::CurDir] } else { seq![] }
    } else if seg == seq!['.', '.'] {
        seq![Part::ParentDir]
    } else {
        seq![Part::Normal(seg)]
    }
}

/// The components that the segments `segs` stand for.
pub open spec fn segments_parts(segs: Seq<Seq<char>>, absolute: bool) -> Seq<Part>
    decreases segs.len(),
{
    if segs.len() == 0 {
        seq![]
    } else {
        segments_parts(segs.drop_last(), absolute) + segment_part(
            segs.last(),
            segs.len() == 1,
            absolute,
        )
    }
}

/// The components of the path written as `s`.
pub open spec fn parse_text(s: Seq<char>) -> Seq<Part> {
    let absolute = is_absolute_text(s);
    (if absolute { seq![Part::RootDir] } else { seq![] }) + segments_parts(split_slash(s), absolute)
}

/// One step of lexical normalisation: the root resets the path, `.` is
/// dropped, `..` removes the last component unless that is the root (or
/// there is none), and a name is appended.
pub open spec fn normalize_step(acc: Seq<Part>, c: Part) -> Seq<Part> {
    match c {
        Part::RootDir => seq![Part::RootDir],
        Part::CurDir => acc,
        Part::ParentDir => if acc.len() > 0 && !(acc.last() is RootDir) {
            acc.drop_last()
        } else {
            acc
        },
        Part::Normal(n) => acc.push(Part::Normal(n)),
    }
}

/// Lexical normalisation of a component sequence, left to right.
pub open spec fn normalize_parts(cs: Seq<Part>) -> Seq<Part>
    decreases cs.len(),
{
    if cs.len() == 0 {
        seq![]
    } else {
        normalize_step(normalize_parts(cs.drop_last()), cs.last())
    }
}

/// The parent of a path: the path without its last component, unless that is
/// the root or there is none.
pub open spec fn parent_parts(cs: Seq<Part>) -> Option<Seq<Part>> {
    if cs.len() > 0 && !(cs.last() is RootDir) {
        Some(cs.drop_last())
    } else {
        None
    }
}

/// `cs` without a leading current-directory component.
pub open spec fn drop_leading_cur(cs: Seq<Part>) -> Seq<Part> {
    if cs.len() > 0 && cs[0] is CurDir { cs.drop_first() } else { cs }
}

/// `b` appended to `a`: an absolute `b` replaces `a`; a `.` that opened `b`
/// is no longer at the start and vanishes.
pub open spec fn join_parts(a: Seq<Part>, b: Seq<Part>) -> Seq<Part> {
    if b.len() > 0 && b[0] is RootDir {
        b
    } else if a.len() == 0 {
        b
    } else {
        a + drop_leading_cur(b)
    }
}

/// The text of one component.
pub open spec fn part_text(c: Part) -> Seq<char> {
    match c {
        Part::RootDir => seq!['/'],
        Part::CurDir => seq!['.'],
        Part::ParentDir => seq!['.', '.'],
        Part::Normal(n) => n,
    }
}

/// The texts of the components joined with `/`.
pub open spec fn join_texts(cs: Seq<Part>) -> Seq<char>
    decreases cs.len(),
{
    if cs.len() == 0 {
        seq![]
    } else if cs.len() == 1 {
        part_text(cs[0])
    } else {
        join_texts(cs.drop_last()).push('/') + part_text(cs.last())
    }
}

/// The text of a path: `/` for the root, the other components joined by `/`.
pub open spec fn render_parts(cs: Seq<Part>) -> Seq<char> {
    if cs.len() > 0 && cs[0] is RootDir {
        seq!['/'] + join_texts(cs.drop_first())
    } else {
        join_texts(cs)
    }
}

/// The last component's name, if the last component is a name.
pub open spec fn file_name_parts(cs: Seq<Part>) -> Option<Seq<char>> {
    if cs.len() > 0 && cs.last() is Normal {
        Some(cs.last()->Normal_0)
    } else {
        None
    }
}

/// The index of the last `.` in `n`, if there is one.
pub open spec fn last_dot(n: Seq<char>) -> Option<int>
    decreases n.len(),
{
    if n.len() == 0 {
        None
    } else if n.last() == '.' {
        Some(n.len() - 1)
    } else {
        last_dot(n.drop_last())
    }
}

/// The extension of a file name: what follows its last `.`, unless that `.`
/// is the name's first character or there is none.
pub open spec fn extension_of_name(n: Seq<char>) -> Option<Seq<char>> {
    match last_dot(n) {
        Some(k) => if k > 0 { Some(n.skip(k + 1)) } else { None },
        None => None,
    }
}

/// The extension of a path's file name.
pub open spec fn extension_parts(cs: Seq<Part>) -> Option<Seq<char>> {
    match file_name_parts(cs) {
        Some(n) => extension_of_name(n),
        None => None,
    }
}

/// The texts of character vectors.
pub open spec fn texts(v: Seq<Vec<char>>) -> Seq<Seq<char>> {
    v.map_values(|x: Vec<char>| x@)
}

/// Splits `s` at every `/`.
fn split_on_slash(s: &[char]) -> (segs: Vec<Vec<char>>)
    ensures
        texts(segs@) == split_slash(s@),
{
    let mut segs: Vec<Vec<char>> = Vec::new();
    let mut cur: Vec<char> = Vec::new();
    let mut i: usize = 0;
    assert(s@.subrange(0, 0) =~= Seq::<char>::empty());
    assert(texts(segs@).push(cur@) =~= split_slash(Seq::<char>::empty()));
    while i < s.len()
        invariant
            i <= s@.len(),
            texts(segs@).push(cur@) == split_slash(s@.subrange(0, i as int)),
        decreases s@.len() - i,
    {
        let ghost before = s@.subrange(0, i as int);
        let ghost old_segs = texts(segs@);
        let ghost old_cur = cur@;
        let c = s[i];
        i = i + 1;
        assert(s@.subrange(0, i as int).drop_last() =~= before);
        if c == '/' {
            segs.push(cur);
            cur = Vec::new();
            assert(texts(segs@) =~= old_segs.push(old_cur));
            assert(texts(segs@).push(cur@) =~= split_slash(s@.subrange(0, i as int)));
        } else {
            cur.push(c);
            assert(texts(segs@).push(cur@) =~= old_segs.push(old_cur).update(
                old_segs.len() as int,
                old_cur.push(c),
            ));
        }
    }
    assert(s@.subrange(0, s@.len() as int) =~= s@);
    let ghost old_segs = texts(segs@);
    segs.push(cur);
    assert(texts(segs@) =~= old_segs.push(cur@));
    segs
}

/// Copies a character vector.
fn copy_chars(v: &Vec<char>) -> (r: Vec<char>)
    ensures
        r@ == v@,
{
    let mut r: Vec<char> = Vec::new();
    push_all(&mut r, v.as_slice());
    r
}

impl Component {
    /// A copy of this component.
    pub fn duplicate(&self) -> (r: Component)
        ensures
            r@ == self@,
    {
        match self {
            Component::RootDir => Component::RootDir,
            Component::CurDir => Component::CurDir,
            Component::ParentDir => Component::ParentDir,
            Component::Normal(n) => Component::Normal(copy_chars(n)),
        }
    }

    /// Is this the root component?
    pub fn is_root(&self) -> (r: bool)
        ensures
            r == (self@ is RootDir),
    {
        match self {
            Component::RootDir => true,
            _ => false,
        }
    }

    /// Do the two components agree?
    pub fn same(&self, other: &Component) -> (r: bool)
        ensures
            r == (self@ == other@),
    {
        match (self, other) {
            (Component::RootDir, Component::RootDir) => true,
            (Component::CurDir, Component::CurDir) => true,
            (Component::ParentDir, Component::ParentDir) => true,
            (Component::Normal(a), Component::Normal(b)) => same_chars(a.as_slice(), b.as_slice()),
            _ => false,
        }
    }

    /// The text of this component.
    pub fn text(&self) -> (r: Vec<char>)
        ensures
            r@ == part_text(self@),
    {
        match self {
            Component::RootDir => {
                let mut r: Vec<char> = Vec::new();
                r.push('/');
                assert(r@ =~= seq!['/']);
                r
            },
            Component::CurDir => {
                let mut r: Vec<char> = Vec::new();
                r.push('.');
                assert(r@ =~= seq!['.']);
                r
            },
            Component::ParentDir => {
                let mut r: Vec<char> = Vec::new();
                r.push('.');
                r.push('.');
                assert(r@ =~= seq!['.', '.']);
                r
            },
            Component::Normal(n) => copy_chars(n),
        }
    }
}

/// The component for one segment, appended to `parts` when there is one.
fn push_segment(parts: &mut Vec<Component>, seg: &Vec<char>, first: bool, absolute: bool)
    ensures
        final(parts)@.map_values(|c: Component| c@) == old(parts)@.map_values(|c: Component| c@)
            + segment_part(seg@, first, absolute),
{
    let ghost before = old(parts)@.map_values(|c: Component| c@);
    if seg.len() == 0 {
        assert(parts@.map_values(|c: Component| c@) =~= before + seq![]);
    } else if seg.len() == 1 && seg[0] == '.' {
        assert(seg@ =~= seq!['.']);
        if first && !absolute {
            parts.push(Component::CurDir);
            assert(parts@.map_values(|c: Component| c@) =~= before + seq![Part::CurDir]);
        } else {
            assert(parts@.map_values(|c: Component| c@) =~= before + seq![]);
        }
    } else if seg.len() == 2 && seg[0] == '.' && seg[1] == '.' {
        assert(seg@ =~= seq!['.', '.']);
        assert(seg@ != seq!['.']);
        parts.push(Component::ParentDir);
        assert(parts@.map_values(|c: Component| c@) =~= before + seq![Part::ParentDir]);
    } else {
        assert(seg@ != seq!['.']) by {
            if seg@ == seq!['.'] {
                assert(seg@.len() == 1);
            }
        }
        assert(seg@ != seq!['.', '.']) by {
            if seg@ == seq!['.', '.'] {
                assert(seg@.len() == 2);
            }
        }
        parts.push(Component::Normal(copy_chars(seg)));
        assert(parts@.map_values(|c: Component| c@) =~= before + seq![Part::Normal(seg@)]);
    }
}

impl FsPath {
    /// The path with no components.
    pub fn empty() -> (p: FsPath)
        ensures
            p@ == Seq::<Part>::empty(),
    {
        let p = FsPath { parts: Vec::new() };
        assert(p@ =~= Seq::<Part>::empty());
        p
    }

    /// The path written as `s`.
    pub fn parse(s: &str) -> (p: FsPath)
        ensures
            p@ == parse_text(s@),
    {
        let cs = chars_of(s);
        let segs = split_on_slash(cs.as_slice());
        let absolute = cs.len() > 0 && cs[0] == '/';
        let mut parts: Vec<Component> = Vec::new();
        if absolute {
            parts.push(Component::RootDir);
        }
        let ghost head: Seq<Part> = if absolute { seq![Part::RootDir] } else { seq![] };
        assert(parts@.map_values(|c: Component| c@) =~= head);
        let ghost all = texts(segs@);
        let mut k: usize = 0;
        assert(all.subrange(0, 0) =~= Seq::<Seq<char>>::empty());
        while k < segs.len()
            invariant
                k <= segs@.len(),
                all == texts(segs@),
                all.len() == segs@.len(),
                absolute == is_absolute_text(s@),
                parts@.map_values(|c: Component| c@) == head + segments_parts(
                    all.subrange(0, k as int),
                    absolute,
                ),
            decreases segs@.len() - k,
        {
            assert(segs@[k as int]@ == all[k as int]);
            push_segment(&mut parts, &segs[k], k == 0, absolute);
            assert(all.subrange(0, k + 1 as int).drop_last() =~= all.subrange(0, k as int));
            assert(all.subrange(0, k + 1 as int).last() == all[k as int]);
            k = k + 1;
        }
        assert(all.subrange(0, all.len() as int) =~= all);
        FsPath { parts }
    }

    /// A copy of this path.
    pub fn duplicate(&self) -> (r: FsPath)
        ensures
            r@ == self@,
    {
        let mut parts: Vec<Component> = Vec::new();
        let mut i: usize = 0;
        while i < self.parts.len()
            invariant
                i <= self.parts@.len(),
                parts@.map_values(|c: Component| c@) == self@.subrange(0, i as int),
            decreases self.parts@.len() - i,
        {
            let ghost acc = parts@.map_values(|c: Component| c@);
            let d = self.parts[i].duplicate();
            assert(self@[i as int] == d@);
            parts.push(d);
            assert(parts@.map_values(|c: Component| c@) =~= acc.push(self@[i as int]));
            i = i + 1;
            assert(parts@.map_values(|c: Component| c@) =~= self@.subrange(0, i as int));
        }
        assert(self@.subrange(0, self@.len() as int) =~= self@);
        FsPath { parts }
    }

    /// The number of components.
    pub fn len(&self) -> (n: usize)
        ensures
            n == self@.len(),
    {
        self.parts.len()
    }

    /// Do the two paths have the same components?
    pub fn same(&self, other: &FsPath) -> (r: bool)
        ensures
            r == (self@ == other@),
    {
        if self.parts.len() != other.parts.len() {
            return false;
        }
        let r = self.starts_with(other);
        proof {
            if r {
                assert(self@ =~= other@);
            }
        }
        r
    }

    /// Does `base` make up the first components of this path?
    pub fn starts_with(&self, base: &FsPath) -> (r: bool)
        ensures
            r == base@.is_prefix_of(self@),
    {
        if base.parts.len() > self.parts.len() {
            return false;
        }
        let mut i: usize = 0;
        while i < base.parts.len()
            invariant
                base@.len() <= self@.len(),
                i <= base@.len(),
                forall|j: int| 0 <= j < i ==> self@[j] == base@[j],
            decreases base@.len() - i,
        {
            if !self.parts[i].same(&base.parts[i]) {
                assert(self@.subrange(0, base@.len() as int)[i as int] != base@[i as int]);
                return false;
            }
            i = i + 1;
        }
        assert(base@ =~= self@.subrange(0, base@.len() as int));
        true
    }

    /// The components after `base`, when the path starts with `base`.
    pub fn strip_prefix(&self, base: &FsPath) -> (r: Option<FsPath>)
        ensures
            match r {
                Some(rest) => base@.is_prefix_of(self@) && rest@ == self@.skip(base@.len() as int),
                None => !base@.is_prefix_of(self@),
            },
    {
        if !self.starts_with(base) {
            return None;
        }
        let mut parts: Vec<Component> = Vec::new();
        let mut i: usize = base.parts.len();
        while i < self.parts.len()
            invariant
                base@.len() <= i <= self@.len(),
                parts@.map_values(|c: Component| c@) == self@.subrange(base@.len() as int, i as int),
            decreases self@.len() - i,
        {
            let ghost acc = parts@.map_values(|c: Component| c@);
            let d = self.parts[i].duplicate();
            assert(self@[i as int] == d@);
            parts.push(d);
            assert(parts@.map_values(|c: Component| c@) =~= acc.push(self@[i as int]));
            i = i + 1;
            assert(parts@.map_values(|c: Component| c@) =~= self@.subrange(
                base@.len() as int,
                i as int,
            ));
        }
        Some(FsPath { parts })
    }

    /// The parent path, unless the last component is the root or there is none.
    pub fn parent(&self) -> (r: Option<FsPath>)
        ensures
            match r {
                Some(p) => parent_parts(self@) == Some(p@),
                None => parent_parts(self@) is None,
            },
    {
        let n = self.parts.len();
        if n == 0 || self.parts[n - 1].is_root() {
            return None;
        }
        let mut parts: Vec<Component> = Vec::new();
        let mut i: usize = 0;
        while i < n - 1
            invariant
                n == self@.len(),
                n > 0,
                i <= n - 1,
                parts@.map_values(|c: Component| c@) == self@.subrange(0, i as int),
            decreases n - 1 - i,
        {
            let ghost acc = parts@.map_values(|c: Component| c@);
            let d = self.parts[i].duplicate();
            assert(self@[i as int] == d@);
            parts.push(d);
            assert(parts@.map_values(|c: Component| c@) =~= acc.push(self@[i as int]));
            i = i + 1;
            assert(parts@.map_values(|c: Component| c@) =~= self@.subrange(0, i as int));
        }
        assert(self@.drop_last() =~= self@.subrange(0, n - 1));
        Some(FsPath { parts })
    }

    /// This path with `other` appended, as `Path::join` appends.
    pub fn join(&self, other: &FsPath) -> (r: FsPath)
        ensures
            r@ == join_parts(self@, other@),
    {
        if (other.parts.len() > 0 && other.parts[0].is_root()) || self.parts.len() == 0 {
            return other.duplicate();
        }
        let mut r = self.duplicate();
        let mut i: usize = 0;
        if other.parts.len() > 0 {
            match &other.parts[0] {
                Component::CurDir => { i = 1; },
                _ => {},
            }
        }
        let ghost tail = drop_leading_cur(other@);
        assert(tail =~= other@.skip(i as int));
        while i < other.parts.len()
            invariant
                i <= other@.len(),
                tail == other@.skip(tail_start(other@)),
                tail_start(other@) <= i,
                r@ == self@ + other@.subrange(tail_start(other@), i as int),
            decreases other@.len() - i,
        {
            let ghost acc = r@;
            let d = other.parts[i].duplicate();
            assert(other@[i as int] == d@);
            r.parts.push(d);
            assert(r@ =~= acc.push(other@[i as int]));
            i = i + 1;
            assert(r@ =~= self@ + other@.subrange(tail_start(other@), i as int));
        }
        assert(other@.subrange(tail_start(other@), other@.len() as int) =~= tail);
        r
    }

    /// Lexical normalisation, as `normalize_parts` describes it.
    pub fn normalized(&self) -> (r: FsPath)
        ensures
            r@ == normalize_parts(self@),
    {
        let mut parts: Vec<Component> = Vec::new();
        let mut i: usize = 0;
        assert(self@.subrange(0, 0) =~= Seq::<Part>::empty());
        assert(parts@.map_values(|c: Component| c@) =~= Seq::<Part>::empty());
        while i < self.parts.len()
            invariant
                i <= self@.len(),
                parts@.map_values(|c: Component| c@) == normalize_parts(self@.subrange(0, i as int)),
            decreases self@.len() - i,
        {
            let ghost acc = parts@.map_values(|c: Component| c@);
            match &self.parts[i] {
                Component::RootDir => {
                    parts = Vec::new();
                    parts.push(Component::RootDir);
                    assert(parts@.map_values(|c: Component| c@) =~= seq![Part::RootDir]);
                },
                Component::CurDir => {},
                Component::ParentDir => {
                    let n = parts.len();
                    if n > 0 && !parts[n - 1].is_root() {
                        parts.pop();
                        assert(parts@.map_values(|c: Component| c@) =~= acc.drop_last());
                    }
                },
                Component::Normal(name) => {
                    parts.push(Component::Normal(copy_chars(name)));
                    assert(parts@.map_values(|c: Component| c@) =~= acc.push(self@[i as int]));
                },
            }
            assert(self@.subrange(0, i + 1 as int).drop_last() =~= self@.subrange(0, i as int));
            i = i + 1;
        }
        assert(self@.subrange(0, self@.len() as int) =~= self@);
        FsPath { parts }
    }

    /// The text of this path.
    pub fn render(&self) -> (r: Vec<char>)
        ensures
            r@ == render_parts(self@),
    {
        let n = self.parts.len();
        let mut out: Vec<char> = Vec::new();
        let mut start: usize = 0;
        if n > 0 && self.parts[0].is_root() {
            out.push('/');
            start = 1;
        }
        let ghost rest = if start == 1 { self@.drop_first() } else { self@ };
        let ghost lead: Seq<char> = if start == 1 { seq!['/'] } else { seq![] };
        assert(out@ =~= lead);
        assert(rest =~= self@.skip(start as int));
        let mut i: usize = start;
        assert(self@.subrange(start as int, start as int) =~= Seq::<Part>::empty());
        while i < n
            invariant
                n == self@.len(),
                start <= i <= n,
                rest == self@.skip(start as int),
                out@ == lead + join_texts(self@.subrange(start as int, i as int)),
            decreases n - i,
        {
            let ghost sub = self@.subrange(start as int, i + 1 as int);
            assert(sub.drop_last() =~= self@.subrange(start as int, i as int));
            if i > start {
                out.push('/');
            } else {
                assert(sub =~= seq![self@[i as int]]);
            }
            let t = self.parts[i].text();
            push_all(&mut out, t.as_slice());
            i = i + 1;
            assert(out@ =~= lead + join_texts(self@.subrange(start as int, i as int)));
        }
        assert(self@.subrange(start as int, n as int) =~= rest);
        out
    }

    /// The last component's name, if the last component is a name.
    pub fn file_name(&self) -> (r: Option<Vec<char>>)
        ensures
            match r {
                Some(n) => file_name_parts(self@) == Some(n@),
                None => file_name_parts(self@) is None,
            },
    {
        let n = self.parts.len();
        if n == 0 {
            return None;
        }
        match &self.parts[n - 1] {
            Component::Normal(name) => Some(copy_chars(name)),
            _ => None,
        }
    }

    /// The extension of the file name.
    pub fn extension(&self) -> (r: Option<Vec<char>>)
        ensures
            match r {
                Some(e) => extension_parts(self@) == Some(e@),
                None => extension_parts(self@) is None,
            },
    {
        match self.file_name() {
            Some(name) => extension_of(name.as_slice()),
            None => None,
        }
    }
}

/// Where the appended part of `b` starts in `join_parts`.
pub open spec fn tail_start(b: Seq<Part>) -> int {
    if b.len() > 0 && b[0] is CurDir { 1 } else { 0 }
}

/// The extension of a file name, as `extension_of_name` describes it.
pub fn extension_of(n: &[char]) -> (r: Option<Vec<char>>)
    ensures
        match r {
            Some(e) => extension_of_name(n@) == Some(e@),
            None => extension_of_name(n@) is None,
        },
{
    let mut k: usize = n.len();
    assert(n@.subrange(0, n@.len() as int) =~= n@);
    while k > 0 && n[k - 1] != '.'
        invariant
            k <= n@.len(),
            last_dot(n@) == last_dot(n@.subrange(0, k as int)),
        decreases k,
    {
        assert(n@.subrange(0, k as int).drop_last() =~= n@.subrange(0, k - 1));
        k = k - 1;
    }
    if k <= 1 {
        proof {
            if k == 1 {
                assert(n@.subrange(0, 1).last() == '.');
            } else {
                assert(n@.subrange(0, 0).len() == 0);
            }
        }
        return None;
    }
    assert(n@.subrange(0, k as int).last() == '.');
    let mut e: Vec<char> = Vec::new();
    let mut i: usize = k;
    while i < n.len()
        invariant
            k <= i <= n@.len(),
            e@ == n@.subrange(k as int, i as int),
        decreases n@.len() - i,
    {
        e.push(n[i]);
        i = i + 1;
        assert(e@ =~= n@.subrange(k as int, i as int));
    }
    assert(e@ =~= n@.skip(k as int));
    Some(e)
}

/// A normalised path: the root, if any, comes first and every other
/// component is a name.
pub open spec fn is_normal_form(cs: Seq<Part>) -> bool {
    forall|i: int| 0 <= i < cs.len() ==> (#[trigger] cs[i] is Normal || (i == 0 && cs[i] is RootDir))
}

/// Normalisation yields a normalised path.
proof fn lemma_normalize_normal_form(cs: Seq<Part>)
    ensures
        is_normal_form(normalize_parts(cs)),
    decreases cs.len(),
{
    if cs.len() > 0 {
        lemma_normalize_normal_form(cs.drop_last());
        let acc = normalize_parts(cs.drop_last());
        let r = normalize_parts(cs);
        match cs.last() {
            Part::ParentDir => {
                if acc.len() > 0 && !(acc.last() is RootDir) {
                    assert forall|i: int| 0 <= i < r.len() implies (#[trigger] r[i] is Normal || (i
                        == 0 && r[i] is RootDir)) by {
                        assert(r[i] == acc[i]);
                    }
                }
            },
            Part::Normal(n) => {
                assert forall|i: int| 0 <= i < r.len() implies (#[trigger] r[i] is Normal || (i == 0
                    && r[i] is RootDir)) by {
                    if i < acc.len() {
                        assert(r[i] == acc[i]);
                    }
                }
            },
            _ => {},
        }
    }
}

/// A normalised path is left as it is by normalisation.
proof fn lemma_normalize_fixes_normal_form(cs: Seq<Part>)
    requires
        is_normal_form(cs),
    ensures
        normalize_parts(cs) == cs,
    decreases cs.len(),
{
    if cs.len() > 0 {
        let init = cs.drop_last();
        assert(is_normal_form(init)) by {
            assert forall|i: int| 0 <= i < init.len() implies (#[trigger] init[i] is Normal || (i
                == 0 && init[i] is RootDir)) by {
                assert(init[i] == cs[i]);
            }
        }
        lemma_normalize_fixes_normal_form(init);
        assert(cs[cs.len() - 1] == cs.last());
        if cs.last() is RootDir {
            assert(cs.len() == 1);
            assert(cs =~= seq![Part::RootDir]);
        } else {
            assert(init.push(cs.last()) =~= cs);
        }
    }
}

/// Lexical normalisation is idempotent, and what it yields holds no `.` or
/// `..` component and no root other than a leading one.
pub proof fn lemma_normalize_idempotent(cs: Seq<Part>)
    ensures
        is_normal_form(normalize_parts(cs)),
        normalize_parts(normalize_parts(cs)) == normalize_parts(cs),
{
    lemma_normalize_normal_form(cs);
    lemma_normalize_fixes_normal_form(normalize_parts(cs));
}

/// `name/..` cancels out, `.` changes nothing, and a root starts over.
pub proof fn lemma_normalize_steps(cs: Seq<Part>, name: Seq<char>)
    ensures
        normalize_parts(cs.push(Part::Normal(name)).push(Part::ParentDir)) == normalize_parts(cs),
        normalize_parts(cs.push(Part::CurDir)) == normalize_parts(cs),
        normalize_parts(cs.push(Part::RootDir)) == seq![Part::RootDir],
        normalize_parts(cs.push(Part::Normal(name))) == normalize_parts(cs).push(Part::Normal(name)),
{
    let a = cs.push(Part::Normal(name));
    assert(a.push(Part::ParentDir).drop_last() =~= a);
    assert(a.drop_last() =~= cs);
    assert(cs.push(Part::CurDir).drop_last() =~= cs);
    assert(cs.push(Part::RootDir).drop_last() =~= cs);
    assert(normalize_parts(a) == normalize_parts(cs).push(Part::Normal(name)));
    assert(normalize_parts(cs).push(Part::Normal(name)).drop_last() =~= normalize_parts(cs));
}

} // verus!
