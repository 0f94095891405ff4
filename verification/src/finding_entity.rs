//! Entity-folder persistence for moveable audit findings.
//!
//! A persisted finding lives at `<audit index dir>/findings/<uuid>/finding.json`.
//! This module says where those folders are, which folder names are entity
//! ids, and in what order ids are listed; creating, reading and listing the
//! folders is file-system work done from outside.
use vstd::prelude::*;
use crate::model::{
    AuditFinding, Evidence, JsonValue, JsonView, Severity, opt_json, opt_text, string_texts,
};
use crate::paths::{FsPath, Part, join_parts, parent_parts, parse_text};

verus! {

/// The directory, under the audit index directory, that holds finding folders.
pub const FINDING_ENTITY_SUBDIR: &'static str = "findings";

/// The file, inside a finding folder, that holds the finding.
pub const FINDING_ENTITY_FILE: &'static str = "finding.json";

/// The lower-case hexadecimal digit for `d < 16`.
pub open spec fn hex_lower(d: nat) -> char {
    if d < 10 {
        ((d + 48) as u32) as char
    } else {
        ((d - 10 + 97) as u32) as char
    }
}

/// The `k`-th hexadecimal digit (most significant first) of a 128-bit value.
pub open spec fn nibble(x: u128, k: int) -> nat {
    ((x as nat) / vstd::arithmetic::power2::pow2((4 * (31 - k)) as nat)) % 16
}

/// The 32 lower-case hexadecimal digits of a 128-bit value.
pub open spec fn hex32(x: u128) -> Seq<char> {
    Seq::new(32, |k: int| hex_lower(nibble(x, k)))
}

/// The hyphenated text of a UUID: its 32 lower-case hex digits in groups of
/// 8, 4, 4, 4 and 12 joined by `-`.
pub open spec fn hyphenated_text(x: u128) -> Seq<char> {
    let h = hex32(x);
    h.subrange(0, 8) + "-"@ + h.subrange(8, 12) + "-"@ + h.subrange(12, 16) + "-"@ + h.subrange(
        16,
        20,
    ) + "-"@ + h.subrange(20, 32)
}

/// What `uuid::Uuid::parse_str` gives for a text, as a 128-bit value.
pub uninterp spec fn uuid_from_text(text: Seq<char>) -> Option<u128>;

/// `uuid::Uuid::from_u128(id).to_string()`: the UUID's hyphenated
/// lower-case form (`LowerHex` of `as_hyphenated`), which `parse_str` reads
/// back to the same value.
#[verifier::external_body]
fn uuid_text(id: u128) -> (r: String)
    ensures
        r@ == hyphenated_text(id),
        uuid_from_text(r@) == Some(id),
{
    uuid::Uuid::from_u128(id).to_string()
}

/// `text.parse::<uuid::Uuid>()` (that is, `Uuid::parse_str`), as the 128-bit
/// big-endian value (`Uuid::as_u128`) when the text is a UUID. Which texts
/// it accepts (simple, hyphenated, braced and URN forms) is left to the
/// crate.
#[verifier::external_body]
fn parse_uuid(text: &str) -> (r: Option<u128>)
    ensures
        r == uuid_from_text(text@),
{
    match text.parse::<uuid::Uuid>() {
        Ok(id) => Some(id.as_u128()),
        Err(_) => None,
    }
}

/// The hyphenated text of an entity id.
pub fn entity_id_text(id: u128) -> (r: String)
    ensures
        r@ == hyphenated_text(id),
        uuid_from_text(r@) == Some(id),
{
    uuid_text(id)
}

/// The entity id a folder name spells, if it spells one.
pub fn entity_id_from_name(name: &str) -> (r: Option<u128>)
    ensures
        r == uuid_from_text(name@),
{
    parse_uuid(name)
}

/// The repository's audit index, located by its database file.
pub struct RepositoryIndex {
    db_path: FsPath,
}

impl RepositoryIndex {
    /// The path of the index database.
    pub closed spec fn db(&self) -> Seq<Part> {
        self.db_path@
    }

    /// The index whose database file is at `db_path`.
    pub fn at(db_path: &str) -> (r: RepositoryIndex)
        ensures
            r.db() == parse_text(db_path@),
    {
        RepositoryIndex { db_path: FsPath::parse(db_path) }
    }

    /// The path of the index database.
    pub fn db_path(&self) -> (r: FsPath)
        ensures
            r@ == self.db(),
    {
        self.db_path.duplicate()
    }

    /// Root directory holding entity-folder findings: `<index dir>/findings`.
    pub fn finding_entities_root(&self) -> (r: FsPath)
        requires
            parent_parts(self.db()) is Some,
        ensures
            r@ == join_parts(parent_parts(self.db())->0, parse_text(FINDING_ENTITY_SUBDIR@)),
    {
        let dir = self.db_path.parent().unwrap();
        dir.join(&FsPath::parse(FINDING_ENTITY_SUBDIR))
    }

    /// The folder a persisted finding with this id lives in:
    /// `<index dir>/findings/<uuid>`.
    pub fn finding_entity_dir(&self, id: u128) -> (r: FsPath)
        requires
            parent_parts(self.db()) is Some,
        ensures
            r@ == join_parts(
                join_parts(parent_parts(self.db())->0, parse_text(FINDING_ENTITY_SUBDIR@)),
                parse_text(hyphenated_text(id)),
            ),
    {
        let root = self.finding_entities_root();
        let name = uuid_text(id);
        root.join(&FsPath::parse(name.as_str()))
    }
}

/// The file inside a finding folder that holds the finding.
pub fn finding_entity_file(dir: &FsPath) -> (r: FsPath)
    ensures
        r@ == join_parts(dir@, parse_text(FINDING_ENTITY_FILE@)),
{
    dir.join(&FsPath::parse(FINDING_ENTITY_FILE))
}

/// A durably persisted, entity-addressable audit finding.
pub struct PersistedFinding {
    pub id: u128,
    pub category: String,
    pub severity: Severity,
    pub summary: String,
    pub path: Option<String>,
    pub line: Option<usize>,
    pub metric_name: String,
    pub metric_value: JsonValue,
    pub threshold: Option<JsonValue>,
    pub instructions: Vec<String>,
    pub evidence: Evidence,
}

/// A copy of an optional string.
fn copy_opt_text(o: &Option<String>) -> (r: Option<String>)
    ensures
        opt_text(r) == opt_text(*o),
{
    match o {
        Some(s) => Some(s.clone()),
        None => None,
    }
}

/// A copy of an optional JSON value.
fn copy_opt_json(o: &Option<JsonValue>) -> (r: Option<JsonValue>)
    ensures
        opt_json(r) == opt_json(*o),
{
    match o {
        Some(v) => Some(v.duplicate()),
        None => None,
    }
}

/// A copy of a list of strings.
fn copy_texts(v: &Vec<String>) -> (r: Vec<String>)
    ensures
        string_texts(r@) == string_texts(v@),
{
    let mut r: Vec<String> = Vec::new();
    let mut i: usize = 0;
    while i < v.len()
        invariant
            i <= v@.len(),
            string_texts(r@) == string_texts(v@).subrange(0, i as int),
        decreases v@.len() - i,
    {
        let ghost before = string_texts(r@);
        r.push(v[i].clone());
        assert(string_texts(r@) =~= before.push(string_texts(v@)[i as int]));
        i = i + 1;
        assert(string_texts(r@) =~= string_texts(v@).subrange(0, i as int));
    }
    assert(string_texts(v@).subrange(0, v@.len() as int) =~= string_texts(v@));
    r
}

impl PersistedFinding {
    /// A persisted finding made from a scan-produced finding, under the
    /// given stable entity id.
    pub fn from_finding(id: u128, finding: &AuditFinding) -> (r: PersistedFinding)
        ensures
            r.id == id,
            r.category@ == finding.category@,
            r.severity == finding.severity,
            r.summary@ == finding.summary@,
            opt_text(r.path) == opt_text(finding.path),
            r.line == finding.line,
            r.metric_name@ == finding.metric_name@,
            r.metric_value@ == finding.metric_value@,
            opt_json(r.threshold) == opt_json(finding.threshold),
            string_texts(r.instructions@) == string_texts(finding.instructions@),
            r.evidence@ == finding.evidence@,
    {
        PersistedFinding {
            id,
            category: finding.category.clone(),
            severity: finding.severity,
            summary: finding.summary.clone(),
            path: copy_opt_text(&finding.path),
            line: finding.line,
            metric_name: finding.metric_name.clone(),
            metric_value: finding.metric_value.duplicate(),
            threshold: copy_opt_json(&finding.threshold),
            instructions: copy_texts(&finding.instructions),
            evidence: finding.evidence.duplicate(),
        }
    }
}

/// One entry of the findings directory: its name, when it is valid UTF-8,
/// and whether it is a directory.
pub struct FolderEntry {
    pub name: Option<String>,
    pub is_dir: bool,
}

/// The entity ids that the entries name, in directory order: directories
/// whose names are UUIDs.
pub open spec fn named_ids(entries: Seq<FolderEntry>) -> Seq<u128>
    decreases entries.len(),
{
    if entries.len() == 0 {
        seq![]
    } else {
        let init = named_ids(entries.drop_last());
        let e = entries.last();
        if e.is_dir && e.name is Some && uuid_from_text(e.name->0@) is Some {
            init.push(uuid_from_text(e.name->0@)->0)
        } else {
            init
        }
    }
}

/// Is the sequence in non-decreasing order?
pub open spec fn sorted_ids(s: Seq<u128>) -> bool {
    forall|i: int, j: int| 0 <= i <= j < s.len() ==> s[i] <= s[j]
}

/// Are the ids pairwise different?
pub open spec fn distinct_ids(s: Seq<u128>) -> bool {
    forall|i: int, j: int| 0 <= i < j < s.len() ==> s[i] != s[j]
}

/// Is the sequence in strictly increasing order?
pub open spec fn increasing_ids(s: Seq<u128>) -> bool {
    forall|i: int, j: int| 0 <= i < j < s.len() ==> s[i] < s[j]
}

/// Inserts `x` into the sorted vector, after any equal elements.
fn insert_sorted(v: &mut Vec<u128>, x: u128)
    requires
        sorted_ids(old(v)@),
    ensures
        sorted_ids(final(v)@),
        final(v)@.to_multiset() == old(v)@.to_multiset().insert(x),
        increasing_ids(old(v)@) && !old(v)@.contains(x) ==> increasing_ids(final(v)@),
{
    let mut p: usize = 0;
    while p < v.len() && v[p] <= x
        invariant
            p <= v@.len(),
            forall|j: int| 0 <= j < p ==> v@[j] <= x,
        decreases v@.len() - p,
    {
        p = p + 1;
    }
    let ghost before = v@;
    proof {
        vstd::seq_lib::to_multiset_insert(before, p as int, x);
    }
    v.insert(p, x);
    assert(v@ == before.insert(p as int, x));
    assert forall|i: int, j: int| 0 <= i <= j < v@.len() implies v@[i] <= v@[j] by {
        if j < p {
        } else if i > p {
            assert(v@[i] == before[i - 1] && v@[j] == before[j - 1]);
        } else if i == p {
            if j > p {
                assert(v@[j] == before[j - 1]);
                assert(before[p as int] > x);
                assert(before[p as int] <= before[j - 1]);
            }
        } else {
            if j == p {
                assert(v@[i] == before[i]);
            } else {
                assert(v@[i] == before[i] && v@[j] == before[j - 1]);
            }
        }
    }
    proof {
        if increasing_ids(before) && !before.contains(x) {
            assert forall|i: int, j: int| 0 <= i < j < v@.len() implies v@[i] < v@[j] by {
                if j < p {
                } else if i > p {
                    assert(v@[i] == before[i - 1] && v@[j] == before[j - 1]);
                } else if i == p {
                    assert(v@[j] == before[j - 1]);
                    assert(before[p as int] > x);
                    assert(before[p as int] <= before[j - 1]);
                } else if j == p {
                    assert(v@[i] == before[i]);
                    assert(before[i] != x);
                } else {
                    assert(v@[i] == before[i] && v@[j] == before[j - 1]);
                }
            }
        }
    }
}

/// The persisted finding ids of a findings directory's entries, sorted
/// ascending by their 128-bit big-endian value (the order `uuid::Uuid`
/// compares in).
pub fn entity_ids_from_listing(entries: &Vec<FolderEntry>) -> (ids: Vec<u128>)
    ensures
        sorted_ids(ids@),
        ids@.to_multiset() == named_ids(entries@).to_multiset(),
        forall|x: u128| ids@.contains(x) <==> named_ids(entries@).contains(x),
        distinct_ids(named_ids(entries@)) ==> increasing_ids(ids@),
{
    let mut ids: Vec<u128> = Vec::new();
    let mut i: usize = 0;
    assert(entries@.subrange(0, 0) =~= Seq::<FolderEntry>::empty());
    proof {
        broadcast use vstd::seq_lib::group_to_multiset_ensures;
        assert(ids@ =~= Seq::<u128>::empty());
    }
    while i < entries.len()
        invariant
            i <= entries@.len(),
            sorted_ids(ids@),
            ids@.to_multiset() == named_ids(entries@.subrange(0, i as int)).to_multiset(),
            distinct_ids(named_ids(entries@.subrange(0, i as int))) ==> increasing_ids(ids@),
        decreases entries@.len() - i,
    {
        let ghost sub = entries@.subrange(0, i + 1 as int);
        let ghost prev = named_ids(entries@.subrange(0, i as int));
        assert(sub.drop_last() =~= entries@.subrange(0, i as int));
        proof {
            lemma_distinct_prefix(named_ids(sub), prev);
        }
        let entry = &entries[i];
        if entry.is_dir {
            match &entry.name {
                Some(name) => {
                    match parse_uuid(name.as_str()) {
                        Some(id) => {
                            proof {
                                broadcast use vstd::seq_lib::group_to_multiset_ensures;

                                if distinct_ids(prev.push(id)) {
                                    assert forall|k: int| 0 <= k < prev.len() implies prev[k]
                                        != id by {
                                        assert(prev.push(id)[k] == prev[k]);
                                        assert(prev.push(id)[prev.len() as int] == id);
                                    }
                                    assert(!prev.contains(id));
                                    ids@.to_multiset_ensures();
                                    prev.to_multiset_ensures();
                                    assert(ids@.to_multiset().count(id) == prev.to_multiset().count(id));
                                    assert(!ids@.contains(id));
                                }
                            }
                            insert_sorted(&mut ids, id);
                            proof {
                                vstd::seq_lib::to_multiset_build(
                                    named_ids(entries@.subrange(0, i as int)),
                                    id,
                                );
                            }
                        },
                        None => {},
                    }
                },
                None => {},
            }
        }
        i = i + 1;
    }
    assert(entries@.subrange(0, entries@.len() as int) =~= entries@);
    proof {
        let named = named_ids(entries@);
        ids@.to_multiset_ensures();
        named.to_multiset_ensures();
        assert forall|x: u128| ids@.contains(x) <==> named.contains(x) by {
            assert(ids@.to_multiset().count(x) == named.to_multiset().count(x));
        }
    }
    ids
}

/// Listing folders whose names spell distinct ids, one each, gives exactly
/// those ids in ascending order: what `entity_ids_from_listing` ensures of
/// its result `listed` pins it down.
pub proof fn lemma_listing_of_entity_folders(
    entries: Seq<FolderEntry>,
    ids: Seq<u128>,
    listed: Seq<u128>,
)
    requires
        entries.len() == ids.len(),
        forall|k: int|
            0 <= k < entries.len() ==> {
                &&& (#[trigger] entries[k]).is_dir
                &&& entries[k].name is Some
                &&& uuid_from_text(entries[k].name->0@) == Some(ids[k])
            },
        distinct_ids(ids),
        listed.to_multiset() == named_ids(entries).to_multiset(),
        forall|x: u128| listed.contains(x) <==> named_ids(entries).contains(x),
        distinct_ids(named_ids(entries)) ==> increasing_ids(listed),
    ensures
        increasing_ids(listed),
        listed.len() == ids.len(),
        forall|x: u128| listed.contains(x) <==> ids.contains(x),
{
    lemma_named_ids_of_entity_folders(entries, ids);
    listed.to_multiset_ensures();
    ids.to_multiset_ensures();
}

/// A prefix of distinct ids is distinct.
proof fn lemma_distinct_prefix(s: Seq<u128>, prefix: Seq<u128>)
    requires
        prefix.is_prefix_of(s),
    ensures
        distinct_ids(s) ==> distinct_ids(prefix),
{
    if distinct_ids(s) {
        assert forall|i: int, j: int| 0 <= i < j < prefix.len() implies prefix[i] != prefix[j] by {
            assert(prefix[i] == s[i] && prefix[j] == s[j]);
        }
    }
}

/// Folders (directories) whose names spell the ids `ids`, one each, in the
/// same order, name exactly those ids.
pub proof fn lemma_named_ids_of_entity_folders(entries: Seq<FolderEntry>, ids: Seq<u128>)
    requires
        entries.len() == ids.len(),
        forall|k: int|
            0 <= k < entries.len() ==> {
                &&& (#[trigger] entries[k]).is_dir
                &&& entries[k].name is Some
                &&& uuid_from_text(entries[k].name->0@) == Some(ids[k])
            },
    ensures
        named_ids(entries) == ids,
    decreases entries.len(),
{
    if entries.len() > 0 {
        let n = entries.len() - 1;
        assert forall|k: int| 0 <= k < n implies {
            &&& (#[trigger] entries.drop_last()[k]).is_dir
            &&& entries.drop_last()[k].name is Some
            &&& uuid_from_text(entries.drop_last()[k].name->0@) == Some(ids.drop_last()[k])
        } by {
            assert(entries.drop_last()[k] == entries[k]);
        }
        lemma_named_ids_of_entity_folders(entries.drop_last(), ids.drop_last());
        assert(entries[n].is_dir);
        assert(ids =~= ids.drop_last().push(ids[n]));
    }
}

} // verus!
