//! The audit domain of entity moves.
//!
//! The audit store is a repository-level index plus generated catalog
//! artifacts, none of which is an entity folder; only findings persisted as
//! entity folders under `<audit index dir>/findings/<uuid>/` resolve a
//! source path. This module says where the domain's folders are; whether
//! they exist is asked of the file system from outside.
use vstd::prelude::*;
use crate::finding_entity::{FINDING_ENTITY_SUBDIR, RepositoryIndex, entity_id_text, hyphenated_text};
use crate::paths::{FsPath, Part, join_parts, parent_parts, parse_text};

verus! {

/// The directory of an audit store inside its workspace.
pub const AUDIT_INDEX_DIR: &'static str = ".audit";

/// The directory, inside an audit store, that holds entity folders.
pub const AUDIT_ENTITY_DIR: &'static str = FINDING_ENTITY_SUBDIR;

/// The folder of entity `id` inside the store at `store_root`.
pub open spec fn entity_folder(store_root: Seq<Part>, id: u128) -> Seq<Part> {
    join_parts(join_parts(store_root, parse_text(AUDIT_ENTITY_DIR@)), parse_text(hyphenated_text(id)))
}

/// The audit domain of entity moves, over one repository index.
pub struct AuditMoveDomain<'a> {
    index: &'a RepositoryIndex,
}

/// Are the ids strictly increasing?
pub open spec fn strictly_increasing(s: Seq<(u128, FsPath)>) -> bool {
    forall|i: int, j: int| 0 <= i < j < s.len() ==> s[i].0 < s[j].0
}

/// Is `x` one of the listed ids?
pub open spec fn listed(r: Seq<(u128, FsPath)>, x: u128) -> bool {
    exists|k: int| 0 <= k < r.len() && #[trigger] r[k].0 == x
}

/// Is `x` among the first `n` ids whose folder is present?
pub open spec fn wanted(ids: Seq<u128>, present: Seq<bool>, n: int, x: u128) -> bool {
    exists|j: int| 0 <= j < n && present[j] && #[trigger] ids[j] == x
}

impl<'a> AuditMoveDomain<'a> {
    /// The index the domain works over.
    pub closed spec fn index(&self) -> &'a RepositoryIndex {
        self.index
    }

    /// The domain over `index`.
    pub fn new(index: &'a RepositoryIndex) -> (d: AuditMoveDomain<'a>)
        ensures
            d.index() == index,
    {
        AuditMoveDomain { index }
    }

    /// The directory, inside a store, that holds entity folders.
    pub fn entity_subdir(&self) -> (r: &'static str)
        ensures
            r@ == AUDIT_ENTITY_DIR@,
    {
        AUDIT_ENTITY_DIR
    }

    /// The directory of an audit store inside its workspace.
    pub fn store_index_dir(&self) -> (r: &'static str)
        ensures
            r@ == AUDIT_INDEX_DIR@,
    {
        AUDIT_INDEX_DIR
    }

    /// The source store: the directory of the index database, or `.audit`
    /// when the database path has no parent.
    pub fn source_store_root(&self) -> (r: FsPath)
        ensures
            r@ == match parent_parts(self.index().db()) {
                Some(p) => p,
                None => parse_text(AUDIT_INDEX_DIR@),
            },
    {
        let db = self.index.db_path();
        match db.parent() {
            Some(p) => p,
            None => FsPath::parse(AUDIT_INDEX_DIR),
        }
    }

    /// The folder of entity `id` inside the store at `store_root`: an entity
    /// is indexed there when this folder exists.
    pub fn entity_folder_in(&self, store_root: &FsPath, id: u128) -> (r: FsPath)
        ensures
            r@ == entity_folder(store_root@, id),
    {
        let sub = store_root.join(&FsPath::parse(AUDIT_ENTITY_DIR));
        let name = entity_id_text(id);
        sub.join(&FsPath::parse(name.as_str()))
    }

    /// The source folders of a set of entities, keyed and ordered by id:
    /// `present[i]` says whether the folder of `entity_ids[i]` exists, and
    /// only entities whose folder exists are listed, each once.
    pub fn source_entity_paths_for_set(&self, entity_ids: &Vec<u128>, present: &Vec<bool>) -> (r:
        Vec<(u128, FsPath)>)
        requires
            parent_parts(self.index().db()) is Some,
            present@.len() == entity_ids@.len(),
        ensures
            strictly_increasing(r@),
            forall|k: int|
                0 <= k < r@.len() ==> (#[trigger] r@[k]).1@ == entity_folder(
                    parent_parts(self.index().db())->0,
                    r@[k].0,
                ),
            forall|x: u128|
                #![trigger listed(r@, x)]
                #![trigger wanted(entity_ids@, present@, entity_ids@.len() as int, x)]
                listed(r@, x) <==> wanted(entity_ids@, present@, entity_ids@.len() as int, x),
    {
        let store = self.source_store_root();
        let ghost base = parent_parts(self.index().db())->0;
        let mut r: Vec<(u128, FsPath)> = Vec::new();
        let mut i: usize = 0;
        while i < entity_ids.len()
            invariant
                i <= entity_ids@.len(),
                present@.len() == entity_ids@.len(),
                store@ == base,
                strictly_increasing(r@),
                forall|k: int|
                    0 <= k < r@.len() ==> (#[trigger] r@[k]).1@ == entity_folder(base, r@[k].0),
                forall|x: u128|
                    #![trigger listed(r@, x)]
                    #![trigger wanted(entity_ids@, present@, i as int, x)]
                    listed(r@, x) <==> wanted(entity_ids@, present@, i as int, x),
            decreases entity_ids@.len() - i,
        {
            if present[i] {
                let id = entity_ids[i];
                let mut p: usize = 0;
                while p < r.len() && r[p].0 < id
                    invariant
                        p <= r@.len(),
                        forall|j: int| 0 <= j < p ==> r@[j].0 < id,
                    decreases r@.len() - p,
                {
                    p = p + 1;
                }
                let ghost before = r@;
                if p < r.len() && r[p].0 == id {
                    assert forall|x: u128| listed(r@, x) <==> wanted(entity_ids@, present@, i + 1, x) by {
                        if x == id {
                            assert(r@[p as int].0 == x);
                            assert(entity_ids@[i as int] == x);
                        } else {
                            if exists|j: int|
                                0 <= j < i + 1 && present@[j] && #[trigger] entity_ids@[j] == x {
                                let j = choose|j: int|
                                    0 <= j < i + 1 && present@[j] && #[trigger] entity_ids@[j] == x;
                                assert(j < i);
                            }
                        }
                    }
                } else {
                    let folder = self.entity_folder_in(&store, id);
                    r.insert(p, (id, folder));
                    assert(r@ == before.insert(p as int, (id, folder)));
                    assert forall|a: int, b: int| 0 <= a < b < r@.len() implies r@[a].0
                        < r@[b].0 by {
                        if b < p {
                        } else if a > p {
                            assert(r@[a] == before[a - 1] && r@[b] == before[b - 1]);
                        } else if a == p {
                            assert(r@[b] == before[b - 1]);
                            assert(before[p as int].0 > id);
                            if b - 1 > p {
                                assert(before[p as int].0 < before[b - 1].0);
                            }
                        } else {
                            if b == p {
                                assert(r@[a] == before[a]);
                            } else {
                                assert(r@[a] == before[a] && r@[b] == before[b - 1]);
                            }
                        }
                    }
                    assert forall|k: int| 0 <= k < r@.len() implies (#[trigger] r@[k]).1@
                        == entity_folder(base, r@[k].0) by {
                        if k < p {
                            assert(r@[k] == before[k]);
                        } else if k > p {
                            assert(r@[k] == before[k - 1]);
                        }
                    }
                    assert forall|x: u128| listed(r@, x) <==> wanted(entity_ids@, present@, i + 1, x) by {
                        assert(listed(before, x) <==> wanted(entity_ids@, present@, i as int, x));
                        if listed(r@, x) {
                            let k = choose|k: int| 0 <= k < r@.len() && #[trigger] r@[k].0 == x;
                            if k < p {
                                assert(r@[k] == before[k]);
                                assert(listed(before, x));
                                let j = choose|j: int|
                                    0 <= j < i && present@[j] && #[trigger] entity_ids@[j] == x;
                                assert(0 <= j < i + 1 && present@[j] && entity_ids@[j] == x);
                            } else if k > p {
                                assert(r@[k] == before[k - 1]);
                                assert(listed(before, x));
                                let j = choose|j: int|
                                    0 <= j < i && present@[j] && #[trigger] entity_ids@[j] == x;
                                assert(0 <= j < i + 1 && present@[j] && entity_ids@[j] == x);
                            } else {
                                assert(present@[i as int] && entity_ids@[i as int] == x);
                            }
                        }
                        if wanted(entity_ids@, present@, i + 1, x) {
                            let j = choose|j: int|
                                0 <= j < i + 1 && present@[j] && #[trigger] entity_ids@[j] == x;
                            if j == i {
                                assert(r@[p as int].0 == x);
                            } else {
                                assert(wanted(entity_ids@, present@, i as int, x));
                                assert(listed(before, x));
                                let k2 = choose|k2: int|
                                    0 <= k2 < before.len() && #[trigger] before[k2].0 == x;
                                if k2 < p {
                                    assert(r@[k2] == before[k2]);
                                } else {
                                    assert(r@[k2 + 1] == before[k2]);
                                }
                            }
                        }
                    }
                }
            } else {
                assert forall|x: u128| listed(r@, x) <==> wanted(entity_ids@, present@, i + 1, x) by {
                    if exists|j: int|
                        0 <= j < i + 1 && present@[j] && #[trigger] entity_ids@[j] == x {
                        let j = choose|j: int|
                            0 <= j < i + 1 && present@[j] && #[trigger] entity_ids@[j] == x;
                        assert(j < i);
                    }
                }
            }
            i = i + 1;
        }
        r
    }
}

} // verus!
