//! The findings that the guidance-link trial records, one builder per class.
use vstd::prelude::*;
use crate::markdown_links::{
    LinkClass, class_category, display_relative, display_relative_text,
    detect_non_guidance_subclass, non_guidance_subclass,
};
use crate::model::{AuditFinding, Evidence, FindingView, JsonValue, JsonView, Severity};
use crate::paths::{FsPath, Part, render_parts};
use crate::text::{chars_of, decimal, decimal_chars, push_all, push_str, replace_char, replaced, text_of};

verus! {

/// `file:line`.
pub open spec fn location(file: Seq<char>, line: nat) -> Seq<char> {
    file + ":"@ + decimal(line)
}

/// The evidence every link finding carries on top of its own.
pub open spec fn link_evidence(
    own: Map<Seq<char>, JsonView>,
    file: Seq<char>,
    line: usize,
    destination: Seq<char>,
    class: LinkClass,
) -> Map<Seq<char>, JsonView> {
    own.insert("source"@, JsonView::Text(file)).insert("line"@, JsonView::Int(line as int)).insert(
        "target"@,
        JsonView::Text(destination),
    ).insert("classification"@, JsonView::Text(class_category(class)))
}

/// The finding that `build_finding` produces.
pub open spec fn link_finding(
    class: LinkClass,
    severity: Severity,
    file: Seq<char>,
    line: usize,
    destination: Seq<char>,
    summary: Seq<char>,
    instructions: Seq<Seq<char>>,
    own: Map<Seq<char>, JsonView>,
) -> FindingView {
    FindingView {
        id: class_category(class) + ":"@ + location(file, line as nat) + ":"@ + destination,
        category: class_category(class),
        severity,
        summary,
        path: Some(file),
        line: Some(line),
        metric_name: "markdown_link_coherence"@,
        metric_value: JsonView::Text(destination),
        threshold: None,
        instructions,
        evidence: link_evidence(own, file, line, destination, class),
    }
}

/// The severity of a link finding of class `c`: a link into another
/// repository is low, an unreadable source medium, every other finding high.
pub open spec fn class_severity(c: LinkClass) -> Severity {
    match c {
        LinkClass::CrossRepository => Severity::Low,
        LinkClass::UnreadableArtifact => Severity::Medium,
        _ => Severity::High,
    }
}

/// The shape of every finding of the link trial for class `class`: it names
/// its source file and line, its destination is the metric value, its id is
/// the class's category, the location and the destination joined by `:`,
/// it carries the class's category and severity, and its evidence records
/// source, line, target and classification.
pub open spec fn is_link_finding(f: FindingView, class: LinkClass) -> bool {
    let file = f.path->0;
    let line = f.line->0;
    let destination = f.metric_value->Text_0;
    &&& f.path is Some
    &&& f.line is Some
    &&& f.metric_value is Text
    &&& f.id == class_category(class) + ":"@ + location(file, line as nat) + ":"@ + destination
    &&& f.category == class_category(class)
    &&& f.severity == class_severity(class)
    &&& f.metric_name == "markdown_link_coherence"@
    &&& f.threshold is None
    &&& f.evidence.contains_key("source"@)
    &&& f.evidence["source"@] == JsonView::Text(file)
    &&& f.evidence.contains_key("line"@)
    &&& f.evidence["line"@] == JsonView::Int(line as int)
    &&& f.evidence.contains_key("target"@)
    &&& f.evidence["target"@] == JsonView::Text(destination)
    &&& f.evidence.contains_key("classification"@)
    &&& f.evidence["classification"@] == JsonView::Text(class_category(class))
}

/// The evidence keys that every link finding sets are distinct.
proof fn lemma_evidence_keys_distinct()
    ensures
        "source"@ != "line"@,
        "source"@ != "target"@,
        "source"@ != "classification"@,
        "line"@ != "target"@,
        "line"@ != "classification"@,
        "target"@ != "classification"@,
{
    reveal_strlit("source");
    reveal_strlit("line");
    reveal_strlit("target");
    reveal_strlit("classification");
    assert("source"@[0] != "target"@[0]);
    assert("line"@[0] != "classification"@[0]);
}

/// A link finding built with its class's severity has the shape of a link
/// finding of that class, whatever its summary, instructions and own evidence.
pub proof fn lemma_link_finding_shape(
    class: LinkClass,
    file: Seq<char>,
    line: usize,
    destination: Seq<char>,
    summary: Seq<char>,
    instructions: Seq<Seq<char>>,
    own: Map<Seq<char>, JsonView>,
)
    ensures
        is_link_finding(
            link_finding(
                class,
                class_severity(class),
                file,
                line,
                destination,
                summary,
                instructions,
                own,
            ),
            class,
        ),
{
    lemma_evidence_keys_distinct();
}

/// Every link finding is filed under its class's category, and its id
/// begins with that category and a `:`.
pub proof fn lemma_link_finding_id_prefix(
    class: LinkClass,
    severity: Severity,
    file: Seq<char>,
    line: usize,
    destination: Seq<char>,
    summary: Seq<char>,
    instructions: Seq<Seq<char>>,
    own: Map<Seq<char>, JsonView>,
)
    ensures
        ({
            let f = link_finding(class, severity, file, line, destination, summary, instructions, own);
            &&& f.category == class_category(class)
            &&& (class_category(class) + ":"@).is_prefix_of(f.id)
        }),
{
    let f = link_finding(class, severity, file, line, destination, summary, instructions, own);
    let head = class_category(class) + ":"@;
    let tail = location(file, line as nat) + ":"@ + destination;
    assert(f.id =~= head + tail);
    assert(f.id.subrange(0, head.len() as int) =~= head);
}

/// `file:line` as characters.
fn location_chars(file: &str, line: usize) -> (r: Vec<char>)
    ensures
        r@ == location(file@, line as nat),
{
    let mut v: Vec<char> = Vec::new();
    push_str(&mut v, file);
    push_str(&mut v, ":");
    let d = decimal_chars(line);
    push_all(&mut v, d.as_slice());
    v
}

/// Assembles a link finding of the given class.
pub fn build_finding(
    class: LinkClass,
    severity: Severity,
    file: &str,
    line: usize,
    destination: &str,
    summary: String,
    instructions: Vec<String>,
    evidence: Evidence,
) -> (f: AuditFinding)
    ensures
        f@ == link_finding(
            class,
            severity,
            file@,
            line,
            destination@,
            summary@,
            instructions@.map_values(|s: String| s@),
            evidence@,
        ),
        severity == class_severity(class) ==> is_link_finding(f@, class),
{
    proof {
        lemma_link_finding_shape(
            class,
            file@,
            line,
            destination@,
            summary@,
            instructions@.map_values(|s: String| s@),
            evidence@,
        );
    }
    let mut evidence = evidence;
    let category = class.category();
    evidence.insert(String::from_str("source"), JsonValue::Text(String::from_str(file)));
    evidence.insert(String::from_str("line"), JsonValue::UInt(line as u64));
    evidence.insert(String::from_str("target"), JsonValue::Text(String::from_str(destination)));
    evidence.insert(
        String::from_str("classification"),
        JsonValue::Text(String::from_str(category)),
    );
    let mut id: Vec<char> = Vec::new();
    push_str(&mut id, category);
    push_str(&mut id, ":");
    let loc = location_chars(file, line);
    push_all(&mut id, loc.as_slice());
    push_str(&mut id, ":");
    push_str(&mut id, destination);
    AuditFinding {
        id: text_of(id.as_slice()),
        category: String::from_str(category),
        severity,
        summary,
        path: Some(String::from_str(file)),
        line: Some(line),
        metric_name: String::from_str("markdown_link_coherence"),
        metric_value: JsonValue::Text(String::from_str(destination)),
        threshold: None,
        instructions,
        evidence,
    }
}

/// A one-element list of strings.
fn single(s: String) -> (v: Vec<String>)
    ensures
        v@.map_values(|x: String| x@) == seq![s@],
{
    let mut v: Vec<String> = Vec::new();
    v.push(s);
    assert(v@.map_values(|x: String| x@) =~= seq![s@]);
    v
}

/// The finding for a local link whose target does not exist.
pub open spec fn missing_target_view(
    file: Seq<char>,
    line: usize,
    destination: Seq<char>,
    shown: Seq<char>,
) -> FindingView {
    link_finding(
        LinkClass::MissingTarget,
        Severity::High,
        file,
        line,
        destination,
        "Markdown link in "@ + location(file, line as nat) + " points to missing target '"@
            + destination + "'."@,
        seq![
            "Repair the Markdown link in "@ + location(file, line as nat)
                + " so it resolves to an existing target (currently '"@ + shown + "')."@,
        ],
        Map::empty().insert("resolved_target"@, JsonView::Text(shown)),
    )
}

/// Records a link whose local target does not exist.
pub fn missing_target_finding(
    file: &str,
    line: usize,
    destination: &str,
    repo_root: &FsPath,
    target_path: &FsPath,
) -> (f: AuditFinding)
    ensures
        f@ == missing_target_view(
            file@,
            line,
            destination@,
            display_relative_text(repo_root@, target_path@),
        ),
        is_link_finding(f@, LinkClass::MissingTarget),
{
    let shown = display_relative(repo_root, target_path);
    let loc = location_chars(file, line);
    let mut summary: Vec<char> = Vec::new();
    push_str(&mut summary, "Markdown link in ");
    push_all(&mut summary, loc.as_slice());
    push_str(&mut summary, " points to missing target '");
    push_str(&mut summary, destination);
    push_str(&mut summary, "'.");
    let mut instruction: Vec<char> = Vec::new();
    push_str(&mut instruction, "Repair the Markdown link in ");
    push_all(&mut instruction, loc.as_slice());
    push_str(&mut instruction, " so it resolves to an existing target (currently '");
    push_str(&mut instruction, shown.as_str());
    push_str(&mut instruction, "').");
    let mut evidence = Evidence::new();
    evidence.insert(String::from_str("resolved_target"), JsonValue::Text(shown));
    build_finding(
        LinkClass::MissingTarget,
        Severity::High,
        file,
        line,
        destination,
        text_of(summary.as_slice()),
        single(text_of(instruction.as_slice())),
        evidence,
    )
}

/// The finding for a local link whose existing target is outside the
/// guidance corpus.
pub open spec fn non_guidance_view(
    file: Seq<char>,
    line: usize,
    destination: Seq<char>,
    target_relative: Seq<char>,
) -> FindingView {
    let detected = non_guidance_subclass(target_relative);
    link_finding(
        LinkClass::NonGuidanceTarget,
        Severity::High,
        file,
        line,
        destination,
        "Markdown link in "@ + location(file, line as nat) + " points to a non-guidance target '"@
            + target_relative + "' ("@ + detected + ")."@,
        seq![
            "Remove the reference to '"@ + target_relative
                + "' from the portable guidance corpus, or replace it with a guidance-corpus pointer; do not link directly to "@
                + detected + "."@,
        ],
        Map::empty().insert("resolved_target"@, JsonView::Text(target_relative)).insert(
            "detected_class"@,
            JsonView::Text(detected),
        ),
    )
}

/// Records a link to an existing target outside the guidance corpus.
pub fn non_guidance_finding(
    file: &str,
    line: usize,
    destination: &str,
    target_relative: &str,
) -> (f: AuditFinding)
    ensures
        f@ == non_guidance_view(file@, line, destination@, target_relative@),
        is_link_finding(f@, LinkClass::NonGuidanceTarget),
{
    let detected = detect_non_guidance_subclass(target_relative);
    let loc = location_chars(file, line);
    let mut summary: Vec<char> = Vec::new();
    push_str(&mut summary, "Markdown link in ");
    push_all(&mut summary, loc.as_slice());
    push_str(&mut summary, " points to a non-guidance target '");
    push_str(&mut summary, target_relative);
    push_str(&mut summary, "' (");
    push_str(&mut summary, detected);
    push_str(&mut summary, ").");
    let mut instruction: Vec<char> = Vec::new();
    push_str(&mut instruction, "Remove the reference to '");
    push_str(&mut instruction, target_relative);
    push_str(
        &mut instruction,
        "' from the portable guidance corpus, or replace it with a guidance-corpus pointer; do not link directly to ",
    );
    push_str(&mut instruction, detected);
    push_str(&mut instruction, ".");
    let mut evidence = Evidence::new();
    evidence.insert(
        String::from_str("resolved_target"),
        JsonValue::Text(String::from_str(target_relative)),
    );
    evidence.insert(String::from_str("detected_class"), JsonValue::Text(String::from_str(detected)));
    build_finding(
        LinkClass::NonGuidanceTarget,
        Severity::High,
        file,
        line,
        destination,
        text_of(summary.as_slice()),
        single(text_of(instruction.as_slice())),
        evidence,
    )
}

/// The finding for a link that crosses into a nested repository.
pub open spec fn cross_repository_view(
    file: Seq<char>,
    line: usize,
    destination: Seq<char>,
    source_shown: Seq<char>,
    target_shown: Seq<char>,
) -> FindingView {
    link_finding(
        LinkClass::CrossRepository,
        Severity::Low,
        file,
        line,
        destination,
        "Markdown link in "@ + location(file, line as nat)
            + " crosses a repository boundary from '"@ + source_shown + "' to '"@ + target_shown
            + "'."@,
        seq![
            "Confirm the cross-repository reference to '"@ + destination
                + "' is intentional; nested-repository links are not validated for existence."@,
        ],
        Map::empty().insert("source_repository"@, JsonView::Text(source_shown)).insert(
            "target_repository"@,
            JsonView::Text(target_shown),
        ),
    )
}

/// Records a link that crosses a nested-repository boundary.
pub fn cross_repository_finding(
    file: &str,
    line: usize,
    destination: &str,
    repo_root: &FsPath,
    source_repository: &FsPath,
    target_repository: &FsPath,
) -> (f: AuditFinding)
    ensures
        f@ == cross_repository_view(
            file@,
            line,
            destination@,
            display_relative_text(repo_root@, source_repository@),
            display_relative_text(repo_root@, target_repository@),
        ),
        is_link_finding(f@, LinkClass::CrossRepository),
{
    let source_shown = display_relative(repo_root, source_repository);
    let target_shown = display_relative(repo_root, target_repository);
    let loc = location_chars(file, line);
    let mut summary: Vec<char> = Vec::new();
    push_str(&mut summary, "Markdown link in ");
    push_all(&mut summary, loc.as_slice());
    push_str(&mut summary, " crosses a repository boundary from '");
    push_str(&mut summary, source_shown.as_str());
    push_str(&mut summary, "' to '");
    push_str(&mut summary, target_shown.as_str());
    push_str(&mut summary, "'.");
    let mut instruction: Vec<char> = Vec::new();
    push_str(&mut instruction, "Confirm the cross-repository reference to '");
    push_str(&mut instruction, destination);
    push_str(
        &mut instruction,
        "' is intentional; nested-repository links are not validated for existence.",
    );
    let mut evidence = Evidence::new();
    evidence.insert(String::from_str("source_repository"), JsonValue::Text(source_shown));
    evidence.insert(String::from_str("target_repository"), JsonValue::Text(target_shown));
    build_finding(
        LinkClass::CrossRepository,
        Severity::Low,
        file,
        line,
        destination,
        text_of(summary.as_slice()),
        single(text_of(instruction.as_slice())),
        evidence,
    )
}

/// The finding for a destination of an unsupported shape.
pub open spec fn unsupported_view(file: Seq<char>, line: usize, destination: Seq<char>) -> FindingView {
    link_finding(
        LinkClass::UnsupportedDependency,
        Severity::High,
        file,
        line,
        destination,
        "Markdown link in "@ + location(file, line as nat) + " uses an unsupported destination '"@
            + destination + "'."@,
        seq![
            "Use a relative guidance-corpus path, an http(s) URL, or a mailto:/data: destination instead."@,
        ],
        Map::empty(),
    )
}

/// Records a destination of an unsupported shape.
pub fn unsupported_finding(file: &str, line: usize, destination: &str) -> (f: AuditFinding)
    ensures
        f@ == unsupported_view(file@, line, destination@),
        is_link_finding(f@, LinkClass::UnsupportedDependency),
{
    let loc = location_chars(file, line);
    let mut summary: Vec<char> = Vec::new();
    push_str(&mut summary, "Markdown link in ");
    push_all(&mut summary, loc.as_slice());
    push_str(&mut summary, " uses an unsupported destination '");
    push_str(&mut summary, destination);
    push_str(&mut summary, "'.");
    build_finding(
        LinkClass::UnsupportedDependency,
        Severity::High,
        file,
        line,
        destination,
        text_of(summary.as_slice()),
        single(
            String::from_str(
                "Use a relative guidance-corpus path, an http(s) URL, or a mailto:/data: destination instead.",
            ),
        ),
        Evidence::new(),
    )
}

/// The finding for a local destination that resolves outside the
/// repository root.
pub open spec fn unsafe_path_view(
    file: Seq<char>,
    line: usize,
    destination: Seq<char>,
    target: Seq<Part>,
) -> FindingView {
    link_finding(
        LinkClass::UnsafePath,
        Severity::High,
        file,
        line,
        destination,
        "Markdown link in "@ + location(file, line as nat)
            + " resolves outside the repository root ('"@ + destination + "')."@,
        seq![
            "Repair the Markdown link in "@ + location(file, line as nat)
                + " so it stays within the repository."@,
        ],
        Map::empty().insert(
            "resolved_target"@,
            JsonView::Text(replace_char(render_parts(target), '\\', '/')),
        ),
    )
}

/// Records a local destination that resolves outside the repository root.
pub fn unsafe_path_finding(file: &str, line: usize, destination: &str, target_path: &FsPath) -> (f:
    AuditFinding)
    ensures
        f@ == unsafe_path_view(file@, line, destination@, target_path@),
        is_link_finding(f@, LinkClass::UnsafePath),
{
    let loc = location_chars(file, line);
    let mut summary: Vec<char> = Vec::new();
    push_str(&mut summary, "Markdown link in ");
    push_all(&mut summary, loc.as_slice());
    push_str(&mut summary, " resolves outside the repository root ('");
    push_str(&mut summary, destination);
    push_str(&mut summary, "').");
    let mut instruction: Vec<char> = Vec::new();
    push_str(&mut instruction, "Repair the Markdown link in ");
    push_all(&mut instruction, loc.as_slice());
    push_str(&mut instruction, " so it stays within the repository.");
    let rendered = target_path.render();
    let shown = replaced(rendered.as_slice(), '\\', '/');
    let mut evidence = Evidence::new();
    evidence.insert(String::from_str("resolved_target"), JsonValue::Text(text_of(shown.as_slice())));
    build_finding(
        LinkClass::UnsafePath,
        Severity::High,
        file,
        line,
        destination,
        text_of(summary.as_slice()),
        single(text_of(instruction.as_slice())),
        evidence,
    )
}

/// The finding for a guidance source that could not be read.
pub open spec fn unreadable_source_view(file: Seq<char>) -> FindingView {
    link_finding(
        LinkClass::UnreadableArtifact,
        Severity::Medium,
        file,
        0,
        ""@,
        "Guidance source '"@ + file + "' could not be read as UTF-8 Markdown."@,
        seq![
            "Ensure '"@ + file
                + "' is readable UTF-8 Markdown or remove it from the guidance corpus."@,
        ],
        Map::empty(),
    )
}

/// Records a guidance source that could not be read as UTF-8 Markdown.
pub fn unreadable_source_finding(file: &str) -> (f: AuditFinding)
    ensures
        f@ == unreadable_source_view(file@),
        is_link_finding(f@, LinkClass::UnreadableArtifact),
{
    let mut summary: Vec<char> = Vec::new();
    push_str(&mut summary, "Guidance source '");
    push_str(&mut summary, file);
    push_str(&mut summary, "' could not be read as UTF-8 Markdown.");
    let mut instruction: Vec<char> = Vec::new();
    push_str(&mut instruction, "Ensure '");
    push_str(&mut instruction, file);
    push_str(&mut instruction, "' is readable UTF-8 Markdown or remove it from the guidance corpus.");
    build_finding(
        LinkClass::UnreadableArtifact,
        Severity::Medium,
        file,
        0,
        "",
        text_of(summary.as_slice()),
        single(text_of(instruction.as_slice())),
        Evidence::new(),
    )
}

} // verus!
