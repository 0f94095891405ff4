//! The records that audit trials produce: findings, their evidence, and the
//! metrics of the link trial.
use vstd::prelude::*;

verus! {

/// How serious a finding is.
#[derive(Clone, Copy, Debug, PartialEq, Eq, Structural)]
pub enum Severity {
    Low,
    Medium,
    High,
}

/// The state a trial's metric was recorded in.
#[derive(Clone, Copy, Debug, PartialEq, Eq, Structural)]
pub enum TrialStatus {
    Collected,
}

/// A JSON value: null, a boolean, an integer, a text, an array, or an
/// object (kept as its key/value insertions, a later one replacing an
/// earlier one with the same key).
#[derive(Debug)]
pub enum JsonValue {
    Null,
    Bool(bool),
    Int(i64),
    UInt(u64),
    Text(String),
    Array(Vec<JsonValue>),
    Object(Vec<(String, JsonValue)>),
}

/// A JSON value as the contracts see it; integers of either sign are one
/// kind, as JSON numbers are, and an object is the map its insertions leave.
pub enum JsonView {
    Null,
    Bool(bool),
    Int(int),
    Text(Seq<char>),
    Array(Seq<JsonView>),
    Object(Map<Seq<char>, JsonView>),
}

/// The view of a JSON value.
pub open spec fn json_view(v: JsonValue) -> JsonView
    decreases v,
{
    match v {
        JsonValue::Null => JsonView::Null,
        JsonValue::Bool(b) => JsonView::Bool(b),
        JsonValue::Int(i) => JsonView::Int(i as int),
        JsonValue::UInt(u) => JsonView::Int(u as int),
        JsonValue::Text(s) => JsonView::Text(s@),
        JsonValue::Array(items) => JsonView::Array(json_views(items@)),
        JsonValue::Object(entries) => JsonView::Object(json_object(entries@)),
    }
}

/// The views of a list of JSON values.
pub open spec fn json_views(items: Seq<JsonValue>) -> Seq<JsonView>
    decreases items,
{
    if items.len() == 0 {
        Seq::empty()
    } else {
        json_views(items.drop_last()).push(json_view(items.last()))
    }
}

/// The map that a list of key/value insertions leaves: a later insertion of
/// a key replaces an earlier one.
pub open spec fn json_object(entries: Seq<(String, JsonValue)>) -> Map<Seq<char>, JsonView>
    decreases entries,
{
    if entries.len() == 0 {
        Map::empty()
    } else {
        json_object(entries.drop_last()).insert(entries.last().0@, json_view(entries.last().1))
    }
}

impl View for JsonValue {
    type V = JsonView;

    open spec fn view(&self) -> JsonView {
        json_view(*self)
    }
}

/// Copies of a list of JSON values.
fn duplicate_items(items: &Vec<JsonValue>) -> (r: Vec<JsonValue>)
    ensures
        json_views(r@) == json_views(items@),
    decreases items@, 1nat,
{
    let mut r: Vec<JsonValue> = Vec::new();
    let mut i: usize = 0;
    while i < items.len()
        invariant
            i <= items@.len(),
            json_views(r@) == json_views(items@.subrange(0, i as int)),
        decreases items@.len() - i,
    {
        let ghost before = r@;
        assert(decreases_to!(items@ => items@[i as int]));
        let copy = items[i].duplicate();
        r.push(copy);
        assert(r@.drop_last() =~= before);
        assert(items@.subrange(0, i + 1 as int).drop_last() =~= items@.subrange(0, i as int));
        i = i + 1;
    }
    assert(items@.subrange(0, items@.len() as int) =~= items@);
    r
}

/// Copies of a list of key/value insertions.
fn duplicate_entries(entries: &Vec<(String, JsonValue)>) -> (r: Vec<(String, JsonValue)>)
    ensures
        json_object(r@) == json_object(entries@),
    decreases entries@, 1nat,
{
    let mut r: Vec<(String, JsonValue)> = Vec::new();
    let mut i: usize = 0;
    while i < entries.len()
        invariant
            i <= entries@.len(),
            json_object(r@) == json_object(entries@.subrange(0, i as int)),
        decreases entries@.len() - i,
    {
        let ghost before = r@;
        assert(decreases_to!(entries@ => entries@[i as int].1));
        let key = entries[i].0.clone();
        let value = entries[i].1.duplicate();
        r.push((key, value));
        assert(r@.drop_last() =~= before);
        assert(entries@.subrange(0, i + 1 as int).drop_last() =~= entries@.subrange(0, i as int));
        i = i + 1;
    }
    assert(entries@.subrange(0, entries@.len() as int) =~= entries@);
    r
}

impl JsonValue {
    /// A copy of this value.
    pub fn duplicate(&self) -> (r: JsonValue)
        ensures
            r@ == self@,
        decreases *self, 0nat,
    {
        match self {
            JsonValue::Null => JsonValue::Null,
            JsonValue::Bool(b) => JsonValue::Bool(*b),
            JsonValue::Int(i) => JsonValue::Int(*i),
            JsonValue::UInt(u) => JsonValue::UInt(*u),
            JsonValue::Text(s) => JsonValue::Text(s.clone()),
            JsonValue::Array(items) => {
                assert(decreases_to!(*self => items@));
                JsonValue::Array(duplicate_items(items))
            },
            JsonValue::Object(entries) => {
                assert(decreases_to!(*self => entries@));
                JsonValue::Object(duplicate_entries(entries))
            },
        }
    }
}

/// A JSON object, kept as the insertions that built it.
pub struct Evidence {
    entries: Vec<(String, JsonValue)>,
}

impl View for Evidence {
    type V = Map<Seq<char>, JsonView>;

    closed spec fn view(&self) -> Map<Seq<char>, JsonView> {
        json_object(self.entries@)
    }
}

impl Evidence {
    /// The empty object.
    pub fn new() -> (e: Evidence)
        ensures
            e@ == Map::<Seq<char>, JsonView>::empty(),
    {
        Evidence { entries: Vec::new() }
    }

    /// Sets `key` to `value`, replacing any earlier value of `key`.
    pub fn insert(&mut self, key: String, value: JsonValue)
        ensures
            final(self)@ == old(self)@.insert(key@, value@),
    {
        let ghost before = self.entries@;
        self.entries.push((key, value));
        assert(self.entries@.drop_last() =~= before);
    }

    /// The insertions in order; replaying them gives the object.
    pub fn entries(&self) -> (r: &Vec<(String, JsonValue)>)
        ensures
            json_object(r@) == self@,
    {
        &self.entries
    }

    /// A copy of this object.
    pub fn duplicate(&self) -> (r: Evidence)
        ensures
            r@ == self@,
    {
        Evidence { entries: duplicate_entries(&self.entries) }
    }
}

/// An actionable audit finding.
pub struct AuditFinding {
    pub id: String,
    pub category: String,
    pub severity: Severity,
    pub summary: String,
    pub path: Option<String>,
    pub line: Option<usize>,
    pub metric_name: String,
    pub metric_value: JsonValue,
    pub threshold: Option<JsonValue>,
    pub instructions: Vec<String>,
    pub evidence: Evidence,
}

/// A finding as the contracts see it.
pub struct FindingView {
    pub id: Seq<char>,
    pub category: Seq<char>,
    pub severity: Severity,
    pub summary: Seq<char>,
    pub path: Option<Seq<char>>,
    pub line: Option<usize>,
    pub metric_name: Seq<char>,
    pub metric_value: JsonView,
    pub threshold: Option<JsonView>,
    pub instructions: Seq<Seq<char>>,
    pub evidence: Map<Seq<char>, JsonView>,
}

impl View for AuditFinding {
    type V = FindingView;

    open spec fn view(&self) -> FindingView {
        FindingView {
            id: self.id@,
            category: self.category@,
            severity: self.severity,
            summary: self.summary@,
            path: opt_text(self.path),
            line: self.line,
            metric_name: self.metric_name@,
            metric_value: self.metric_value@,
            threshold: opt_json(self.threshold),
            instructions: string_texts(self.instructions@),
            evidence: self.evidence@,
        }
    }
}

/// The views of a list of findings.
pub open spec fn finding_views(v: Seq<AuditFinding>) -> Seq<FindingView> {
    v.map_values(|f: AuditFinding| f@)
}

/// The texts of a list of strings.
pub open spec fn string_texts(v: Seq<String>) -> Seq<Seq<char>> {
    v.map_values(|s: String| s@)
}

/// The text of an optional string.
pub open spec fn opt_text(o: Option<String>) -> Option<Seq<char>> {
    match o {
        Some(s) => Some(s@),
        None => None,
    }
}

/// The view of an optional JSON value.
pub open spec fn opt_json(o: Option<JsonValue>) -> Option<JsonView> {
    match o {
        Some(v) => Some(v@),
        None => None,
    }
}

/// The metric recorded by the guidance-link trial.
pub struct MarkdownLinkMetric {
    pub status: TrialStatus,
    pub markdown_files: usize,
    pub links_checked: usize,
    pub broken_links: usize,
    pub skipped_links: usize,
    pub blocking_findings: usize,
    pub non_guidance_links: usize,
    pub cross_repository_links: usize,
    pub unsupported_dependency_links: usize,
    pub unsafe_path_links: usize,
    pub unreadable_links: usize,
    pub details: Option<String>,
}

} // verus!
