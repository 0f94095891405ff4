//! Repository guidance: the repository root must hold non-empty `README.md`,
//! `INSTALL.md` and `CONTRIBUTING.md` files.
//!
//! Reading the files is done from outside; what each read turned out to be
//! is handed in, one outcome per required file, and judged here.
use vstd::prelude::*;
use crate::model::{AuditFinding, Evidence, FindingView, JsonValue, JsonView, Severity, TrialStatus, finding_views};
use crate::text::{push_str, text_of};

verus! {

/// The required guidance files, in the order they are checked.
pub open spec fn required_files() -> Seq<Seq<char>> {
    seq!["README.md"@, "INSTALL.md"@, "CONTRIBUTING.md"@]
}

/// The required guidance files, in the order they are checked.
pub fn required_file_names() -> (v: Vec<&'static str>)
    ensures
        v@.map_values(|s: &'static str| s@) == required_files(),
{
    let mut v: Vec<&'static str> = Vec::new();
    v.push("README.md");
    v.push("INSTALL.md");
    v.push("CONTRIBUTING.md");
    assert(v@.map_values(|s: &'static str| s@) =~= required_files());
    v
}

/// What reading one required file gave.
pub enum GuidanceRead {
    /// The file does not exist.
    Missing,
    /// Reading failed for another reason, with the error's text.
    Unreadable(String),
    /// The file's bytes.
    Contents(Vec<u8>),
}

/// A read outcome as the contracts see it.
pub enum ReadView {
    Missing,
    Unreadable(Seq<char>),
    Contents(Seq<u8>),
}

impl View for GuidanceRead {
    type V = ReadView;

    open spec fn view(&self) -> ReadView {
        match self {
            GuidanceRead::Missing => ReadView::Missing,
            GuidanceRead::Unreadable(e) => ReadView::Unreadable(e@),
            GuidanceRead::Contents(b) => ReadView::Contents(b@),
        }
    }
}

/// The metric of the repository guidance trial.
pub struct RepositoryGuidanceMetric {
    pub status: TrialStatus,
    pub expected_files: usize,
    pub present_files: usize,
    pub missing_files: usize,
    pub empty_files: usize,
    pub details: Option<String>,
}

/// The result of the repository guidance trial.
pub struct RepositoryGuidanceResult {
    pub metric: RepositoryGuidanceMetric,
    pub findings: Vec<AuditFinding>,
}

/// ASCII whitespace as `u8::is_ascii_whitespace` has it: space, tab, line
/// feed, form feed and carriage return.
pub open spec fn is_ascii_ws(b: u8) -> bool {
    b == 32 || b == 9 || b == 10 || b == 12 || b == 13
}

/// Is every byte ASCII whitespace?
pub open spec fn all_whitespace(bs: Seq<u8>) -> bool {
    forall|i: int| 0 <= i < bs.len() ==> is_ascii_ws(#[trigger] bs[i])
}

/// Is every byte ASCII whitespace?
fn blank(bs: &Vec<u8>) -> (r: bool)
    ensures
        r == all_whitespace(bs@),
{
    let mut i: usize = 0;
    while i < bs.len()
        invariant
            i <= bs@.len(),
            forall|j: int| 0 <= j < i ==> is_ascii_ws(#[trigger] bs@[j]),
        decreases bs@.len() - i,
    {
        let b = bs[i];
        if !(b == 32 || b == 9 || b == 10 || b == 12 || b == 13) {
            return false;
        }
        i = i + 1;
    }
    true
}

/// The finding for a required file in the given state.
pub open spec fn guidance_finding_view(
    state: Seq<char>,
    path: Seq<char>,
    description: Seq<char>,
    evidence: Map<Seq<char>, JsonView>,
) -> FindingView {
    FindingView {
        id: "repository_guidance:"@ + state + ":"@ + path,
        category: "repository_guidance"@,
        severity: Severity::Medium,
        summary: "Repository guidance file "@ + path + " "@ + description + "."@,
        path: Some(path),
        line: None,
        metric_name: "repository_guidance"@,
        metric_value: JsonView::Text(state),
        threshold: None,
        instructions: seq![
            "Add non-whitespace content to the repository-root "@ + path + " file."@,
        ],
        evidence,
    }
}

/// The finding (if any) for a required file and what reading it gave.
pub open spec fn read_finding(path: Seq<char>, read: ReadView) -> Option<FindingView> {
    match read {
        ReadView::Missing => Some(
            guidance_finding_view(
                "missing"@,
                path,
                "is missing from the repository root"@,
                Map::empty().insert("path"@, JsonView::Text(path)).insert(
                    "state"@,
                    JsonView::Text("missing"@),
                ),
            ),
        ),
        ReadView::Unreadable(e) => Some(
            guidance_finding_view(
                "unreadable"@,
                path,
                "could not be read: "@ + e,
                Map::empty().insert("path"@, JsonView::Text(path)).insert(
                    "state"@,
                    JsonView::Text("unreadable"@),
                ).insert("error"@, JsonView::Text(e)),
            ),
        ),
        ReadView::Contents(bs) => if all_whitespace(bs) {
            Some(
                guidance_finding_view(
                    "empty"@,
                    path,
                    "contains no non-whitespace content"@,
                    Map::empty().insert("path"@, JsonView::Text(path)).insert(
                        "state"@,
                        JsonView::Text("empty"@),
                    ),
                ),
            )
        } else {
            None
        },
    }
}

/// The findings for the first `reads.len()` required files, in order.
pub open spec fn guidance_findings(names: Seq<Seq<char>>, reads: Seq<ReadView>) -> Seq<FindingView>
    decreases reads.len(),
{
    if reads.len() == 0 {
        seq![]
    } else {
        let init = guidance_findings(names, reads.drop_last());
        match read_finding(names[reads.len() - 1], reads.last()) {
            Some(f) => init.push(f),
            None => init,
        }
    }
}

/// The shape of every repository guidance finding: filed under
/// `repository_guidance` with medium severity, naming its file, its state as
/// the metric value, and identified as `repository_guidance:<state>:<file>`.
pub open spec fn is_guidance_finding(f: FindingView) -> bool {
    &&& f.category == "repository_guidance"@
    &&& f.severity == Severity::Medium
    &&& f.path is Some
    &&& f.line is None
    &&& f.metric_name == "repository_guidance"@
    &&& f.metric_value is Text
    &&& f.threshold is None
    &&& f.id == "repository_guidance:"@ + f.metric_value->Text_0 + ":"@ + f.path->0
}

/// The findings for the first `reads.len()` of the files `names` each have
/// the guidance shape and name one of those files; when the names are
/// distinct, no two findings name the same file.
pub proof fn lemma_guidance_findings(names: Seq<Seq<char>>, reads: Seq<ReadView>)
    requires
        reads.len() <= names.len(),
    ensures
        ({
            let fs = guidance_findings(names, reads);
            &&& forall|k: int| 0 <= k < fs.len() ==> is_guidance_finding(#[trigger] fs[k])
            &&& forall|k: int|
                0 <= k < fs.len() ==> exists|j: int|
                    0 <= j < reads.len() && #[trigger] fs[k].path == Some(names[j])
            &&& (forall|a: int, b: int| 0 <= a < b < names.len() ==> names[a] != names[b])
                ==> forall|k1: int, k2: int|
                0 <= k1 < k2 < fs.len() ==> #[trigger] fs[k1].path != #[trigger] fs[k2].path
        }),
    decreases reads.len(),
{
    if reads.len() > 0 {
        let init = reads.drop_last();
        lemma_guidance_findings(names, init);
        let n = reads.len() - 1;
        let prev = guidance_findings(names, init);
        let fs = guidance_findings(names, reads);
        match read_finding(names[n], reads.last()) {
            Some(f) => {
                assert(fs == prev.push(f));
                assert(fs[prev.len() as int].path == Some(names[n]));
                assert forall|k: int| 0 <= k < fs.len() implies exists|j: int|
                    0 <= j < reads.len() && #[trigger] fs[k].path == Some(names[j]) by {
                    if k < prev.len() {
                        assert(fs[k] == prev[k]);
                        let j = choose|j: int| 0 <= j < init.len() && prev[k].path == Some(names[j]);
                        assert(fs[k].path == Some(names[j]));
                    } else {
                        assert(fs[k].path == Some(names[n]));
                    }
                }
                if forall|a: int, b: int| 0 <= a < b < names.len() ==> names[a] != names[b] {
                    assert forall|k1: int, k2: int| 0 <= k1 < k2 < fs.len() implies #[trigger] fs[
                        k1
                    ].path != #[trigger] fs[k2].path by {
                        assert(fs[k1] == prev[k1]);
                        if k2 < prev.len() {
                            assert(fs[k2] == prev[k2]);
                        } else {
                            let j = choose|j: int| 0 <= j < init.len() && prev[k1].path == Some(names[j]);
                            assert(names[j] != names[n]);
                        }
                    }
                }
            },
            None => {
                assert(fs == prev);
            },
        }
    }
}

/// The counts of a single read: one of them is one.
proof fn lemma_single_read(r: ReadView)
    ensures
        count_present(seq![r]) == count_present(Seq::<ReadView>::empty()) + match r {
            ReadView::Contents(bs) => if all_whitespace(bs) { 0nat } else { 1nat },
            _ => 0nat,
        },
        count_missing(seq![r]) == match r {
            ReadView::Contents(_) => 0nat,
            _ => 1nat,
        },
        count_empty(seq![r]) == match r {
            ReadView::Contents(bs) => if all_whitespace(bs) { 1nat } else { 0nat },
            _ => 0nat,
        },
        count_present(Seq::<ReadView>::empty()) == 0,
{
    let s = seq![r];
    assert(s.drop_last() =~= Seq::<ReadView>::empty());
    assert(count_present(s.drop_last()) == 0);
    assert(count_missing(s.drop_last()) == 0);
    assert(count_empty(s.drop_last()) == 0);
}

/// A file holding a byte other than ASCII whitespace (space, tab, line
/// feed, form feed, carriage return), wherever it stands, is present: it
/// gets no finding and counts as present, not as empty or missing.
pub proof fn lemma_content_anywhere_is_present(path: Seq<char>, bs: Seq<u8>, i: int)
    requires
        0 <= i < bs.len(),
        bs[i] != 32 && bs[i] != 9 && bs[i] != 10 && bs[i] != 12 && bs[i] != 13,
    ensures
        read_finding(path, ReadView::Contents(bs)) is None,
        count_present(seq![ReadView::Contents(bs)]) == 1,
        count_empty(seq![ReadView::Contents(bs)]) == 0,
        count_missing(seq![ReadView::Contents(bs)]) == 0,
{
    assert(!is_ascii_ws(bs[i]));
    lemma_single_read(ReadView::Contents(bs));
}

/// A file made wholly of ASCII whitespace (the empty file included) is
/// empty: it counts as empty and gets the `empty` finding for its path.
pub proof fn lemma_whitespace_only_is_empty(path: Seq<char>, bs: Seq<u8>)
    requires
        forall|i: int|
            0 <= i < bs.len() ==> bs[i] == 32 || bs[i] == 9 || bs[i] == 10 || bs[i] == 12
                || bs[i] == 13,
    ensures
        read_finding(path, ReadView::Contents(bs)) matches Some(f) && f.path == Some(path)
            && f.metric_value == JsonView::Text("empty"@) && f.id == "repository_guidance:empty:"@
            + path,
        count_present(seq![ReadView::Contents(bs)]) == 0,
        count_empty(seq![ReadView::Contents(bs)]) == 1,
{
    assert(all_whitespace(bs));
    lemma_single_read(ReadView::Contents(bs));
    reveal_strlit("repository_guidance:");
    reveal_strlit("empty");
    reveal_strlit(":");
    reveal_strlit("repository_guidance:empty:");
    assert("repository_guidance:"@ + "empty"@ + ":"@ + path =~= "repository_guidance:empty:"@
        + path);
}

/// A file that is not there, or cannot be read, counts as missing and gets
/// the finding for its state.
pub proof fn lemma_absent_is_missing(path: Seq<char>, error: Seq<char>)
    ensures
        read_finding(path, ReadView::Missing) matches Some(f) && f.path == Some(path)
            && f.metric_value == JsonView::Text("missing"@),
        read_finding(path, ReadView::Unreadable(error)) matches Some(f) && f.path == Some(path)
            && f.metric_value == JsonView::Text("unreadable"@),
        count_missing(seq![ReadView::Missing]) == 1,
        count_missing(seq![ReadView::Unreadable(error)]) == 1,
        count_present(seq![ReadView::Missing]) == 0,
        count_empty(seq![ReadView::Unreadable(error)]) == 0,
{
    lemma_single_read(ReadView::Missing);
    lemma_single_read(ReadView::Unreadable(error));
}

/// How many of the reads are in each state: missing counts unreadable files
/// too.
pub open spec fn count_present(reads: Seq<ReadView>) -> nat
    decreases reads.len(),
{
    if reads.len() == 0 {
        0
    } else {
        count_present(reads.drop_last()) + match reads.last() {
            ReadView::Contents(bs) => if all_whitespace(bs) { 0nat } else { 1nat },
            _ => 0nat,
        }
    }
}

/// How many reads found no file or failed.
pub open spec fn count_missing(reads: Seq<ReadView>) -> nat
    decreases reads.len(),
{
    if reads.len() == 0 {
        0
    } else {
        count_missing(reads.drop_last()) + match reads.last() {
            ReadView::Contents(_) => 0nat,
            _ => 1nat,
        }
    }
}

/// How many reads found only whitespace.
pub open spec fn count_empty(reads: Seq<ReadView>) -> nat
    decreases reads.len(),
{
    if reads.len() == 0 {
        0
    } else {
        count_empty(reads.drop_last()) + match reads.last() {
            ReadView::Contents(bs) => if all_whitespace(bs) { 1nat } else { 0nat },
            _ => 0nat,
        }
    }
}

/// Builds the finding for a required file in the given state.
fn guidance_finding(state: &str, path: &str, description: String, evidence: Evidence) -> (f:
    AuditFinding)
    ensures
        f@ == guidance_finding_view(state@, path@, description@, evidence@),
{
    let mut id: Vec<char> = Vec::new();
    push_str(&mut id, "repository_guidance:");
    push_str(&mut id, state);
    push_str(&mut id, ":");
    push_str(&mut id, path);
    let mut summary: Vec<char> = Vec::new();
    push_str(&mut summary, "Repository guidance file ");
    push_str(&mut summary, path);
    push_str(&mut summary, " ");
    push_str(&mut summary, description.as_str());
    push_str(&mut summary, ".");
    let mut instruction: Vec<char> = Vec::new();
    push_str(&mut instruction, "Add non-whitespace content to the repository-root ");
    push_str(&mut instruction, path);
    push_str(&mut instruction, " file.");
    let mut instructions: Vec<String> = Vec::new();
    instructions.push(text_of(instruction.as_slice()));
    assert(instructions@.map_values(|s: String| s@) =~= seq![
        "Add non-whitespace content to the repository-root "@ + path@ + " file."@,
    ]);
    AuditFinding {
        id: text_of(id.as_slice()),
        category: String::from_str("repository_guidance"),
        severity: Severity::Medium,
        summary: text_of(summary.as_slice()),
        path: Some(String::from_str(path)),
        line: None,
        metric_name: String::from_str("repository_guidance"),
        metric_value: JsonValue::Text(String::from_str(state)),
        threshold: None,
        instructions,
        evidence,
    }
}

/// The finding for one required file, if its read calls for one.
fn finding_for(path: &str, read: &GuidanceRead) -> (r: Option<AuditFinding>)
    ensures
        match r {
            Some(f) => read_finding(path@, read@) == Some(f@),
            None => read_finding(path@, read@) is None,
        },
{
    match read {
        GuidanceRead::Missing => {
            let mut evidence = Evidence::new();
            evidence.insert(String::from_str("path"), JsonValue::Text(String::from_str(path)));
            evidence.insert(String::from_str("state"), JsonValue::Text(String::from_str("missing")));
            Some(
                guidance_finding(
                    "missing",
                    path,
                    String::from_str("is missing from the repository root"),
                    evidence,
                ),
            )
        },
        GuidanceRead::Unreadable(error) => {
            let mut description: Vec<char> = Vec::new();
            push_str(&mut description, "could not be read: ");
            push_str(&mut description, error.as_str());
            let mut evidence = Evidence::new();
            evidence.insert(String::from_str("path"), JsonValue::Text(String::from_str(path)));
            evidence.insert(
                String::from_str("state"),
                JsonValue::Text(String::from_str("unreadable")),
            );
            evidence.insert(String::from_str("error"), JsonValue::Text(error.clone()));
            Some(guidance_finding("unreadable", path, text_of(description.as_slice()), evidence))
        },
        GuidanceRead::Contents(bytes) => {
            if blank(bytes) {
                let mut evidence = Evidence::new();
                evidence.insert(String::from_str("path"), JsonValue::Text(String::from_str(path)));
                evidence.insert(
                    String::from_str("state"),
                    JsonValue::Text(String::from_str("empty")),
                );
                Some(
                    guidance_finding(
                        "empty",
                        path,
                        String::from_str("contains no non-whitespace content"),
                        evidence,
                    ),
                )
            } else {
                None
            }
        },
    }
}

/// Judges the required guidance files from what reading each gave (`reads`
/// in the order of `required_file_names`): a missing or unreadable file
/// counts as missing, one holding only ASCII whitespace as empty, any other
/// as present; each file that is not present gets a finding.
pub fn assess_guidance(reads: &Vec<GuidanceRead>) -> (r: RepositoryGuidanceResult)
    requires
        reads@.len() == required_files().len(),
    ensures
        r.metric.status == TrialStatus::Collected,
        r.metric.expected_files == required_files().len(),
        r.metric.present_files == count_present(reads@.map_values(|x: GuidanceRead| x@)),
        r.metric.missing_files == count_missing(reads@.map_values(|x: GuidanceRead| x@)),
        r.metric.empty_files == count_empty(reads@.map_values(|x: GuidanceRead| x@)),
        r.metric.details is None,
        finding_views(r.findings@) == guidance_findings(
            required_files(),
            reads@.map_values(|x: GuidanceRead| x@),
        ),
        r.metric.present_files + r.metric.missing_files + r.metric.empty_files
            == r.metric.expected_files,
        r.findings@.len() == r.metric.missing_files + r.metric.empty_files,
        forall|k: int|
            0 <= k < r.findings@.len() ==> is_guidance_finding(
                #[trigger] finding_views(r.findings@)[k],
            ),
        forall|k: int|
            0 <= k < r.findings@.len() ==> exists|j: int|
                0 <= j < required_files().len() && #[trigger] finding_views(r.findings@)[k].path
                    == Some(required_files()[j]),
        forall|k1: int, k2: int|
            0 <= k1 < k2 < r.findings@.len() ==> #[trigger] finding_views(r.findings@)[k1].path
                != #[trigger] finding_views(r.findings@)[k2].path,
{
    proof {
        reveal_strlit("README.md");
        reveal_strlit("INSTALL.md");
        reveal_strlit("CONTRIBUTING.md");
        assert("README.md"@[0] != "INSTALL.md"@[0]);
        assert("README.md"@[0] != "CONTRIBUTING.md"@[0]);
        assert("INSTALL.md"@[0] != "CONTRIBUTING.md"@[0]);
        lemma_guidance_findings(required_files(), reads@.map_values(|x: GuidanceRead| x@));
    }
    let names = required_file_names();
    assert(names@.map_values(|s: &'static str| s@).len() == names@.len());
    assert(names@.len() == 3);
    let ghost rv = reads@.map_values(|x: GuidanceRead| x@);
    let mut findings: Vec<AuditFinding> = Vec::new();
    let mut present_files: usize = 0;
    let mut missing_files: usize = 0;
    let mut empty_files: usize = 0;
    let mut i: usize = 0;
    assert(rv.subrange(0, 0) =~= Seq::<ReadView>::empty());
    assert(finding_views(findings@) =~= Seq::<FindingView>::empty());
    while i < reads.len()
        invariant
            i <= reads@.len(),
            reads@.len() == 3,
            names@.len() == 3,
            names@.map_values(|s: &'static str| s@) == required_files(),
            rv == reads@.map_values(|x: GuidanceRead| x@),
            present_files == count_present(rv.subrange(0, i as int)),
            missing_files == count_missing(rv.subrange(0, i as int)),
            empty_files == count_empty(rv.subrange(0, i as int)),
            present_files + missing_files + empty_files == i,
            findings@.len() == missing_files + empty_files,
            finding_views(findings@) == guidance_findings(required_files(), rv.subrange(0, i as int)),
        decreases reads@.len() - i,
    {
        let ghost sub = rv.subrange(0, i + 1 as int);
        assert(sub.drop_last() =~= rv.subrange(0, i as int));
        assert(sub.last() == reads@[i as int]@);
        assert(names@.map_values(|s: &'static str| s@)[i as int] == names@[i as int]@);
        assert(names@[i as int]@ == required_files()[i as int]);
        let ghost before = finding_views(findings@);
        match &reads[i] {
            GuidanceRead::Contents(bytes) => {
                if blank(bytes) {
                    empty_files = empty_files + 1;
                } else {
                    present_files = present_files + 1;
                }
            },
            _ => {
                missing_files = missing_files + 1;
            },
        }
        match finding_for(names[i], &reads[i]) {
            Some(f) => {
                findings.push(f);
                assert(finding_views(findings@) =~= before.push(
                    finding_views(findings@).last(),
                ));
            },
            None => {},
        }
        i = i + 1;
    }
    assert(rv.subrange(0, 3) =~= rv);
    RepositoryGuidanceResult {
        metric: RepositoryGuidanceMetric {
            status: TrialStatus::Collected,
            expected_files: names.len(),
            present_files,
            missing_files,
            empty_files,
            details: None,
        },
        findings,
    }
}

} // verus!
