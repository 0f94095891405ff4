//! The guidance-link trial, driven over small in-memory repositories.

use audit_api::link_audit::{LinkAudit, LinkStep, MarkdownLinkResult};
use audit_api::link_scan::link_occurrences;
use audit_api::markdown_links::{guidance_markdown_candidate, LinkClass};
use audit_api::model::{AuditFinding, JsonValue, Severity};
use audit_api::paths::FsPath;
use audit_api::repo_roots::GitRepoCache;

/// A repository as the trial sees it: files (with their text, or `None` when
/// unreadable), other existing directories, and directories holding `.git`.
struct Repo {
    root: String,
    files: Vec<(String, Option<String>)>,
    dirs: Vec<String>,
    git_dirs: Vec<String>,
}

fn text(p: &FsPath) -> String {
    p.render().into_iter().collect()
}

impl Repo {
    fn new(root: &str) -> Self {
        Repo { root: root.to_string(), files: Vec::new(), dirs: Vec::new(), git_dirs: Vec::new() }
    }

    fn file(mut self, rel: &str, contents: &str) -> Self {
        self.files.push((rel.to_string(), Some(contents.to_string())));
        self
    }

    fn unreadable(mut self, rel: &str) -> Self {
        self.files.push((rel.to_string(), None));
        self
    }

    fn dir(mut self, rel: &str) -> Self {
        self.dirs.push(rel.to_string());
        self
    }

    fn git(mut self, rel: &str) -> Self {
        self.git_dirs.push(format!("{}/{}", self.root, rel));
        self.dirs.push(format!("{rel}/.git"));
        self
    }

    fn has_path(&self, p: &FsPath) -> bool {
        let t = text(p);
        t == self.root
            || self.files.iter().any(|(f, _)| t == format!("{}/{}", self.root, f))
            || self.dirs.iter().any(|d| t == format!("{}/{}", self.root, d))
            || self.files.iter().any(|(f, _)| format!("{}/{}", self.root, f).starts_with(&format!("{t}/")))
    }

    fn repository_of(&self, cache: &mut GitRepoCache, p: &FsPath) -> FsPath {
        let probes = cache.probes(p);
        let flags: Vec<bool> = probes.iter().map(|d| self.git_dirs.contains(&text(d))).collect();
        cache.settle(p, &flags)
    }

    fn evaluate(&self) -> MarkdownLinkResult {
        let root = FsPath::parse(&self.root);
        let mut cache = GitRepoCache::new(&root);
        let mut guidance = Vec::new();
        let mut files = self.files.clone();
        files.sort();
        for (rel, contents) in &files {
            let path = root.join(&FsPath::parse(rel));
            if let Some(r) = guidance_markdown_candidate(&root, &path) {
                if self.repository_of(&mut cache, &path).same(&root) {
                    guidance.push((r, contents.clone()));
                }
            }
        }
        let mut audit = LinkAudit::new(guidance.len());
        for (file, contents) in &guidance {
            let source = root.join(&FsPath::parse(file));
            match contents {
                None => audit.record_unreadable_source(file),
                Some(contents) => {
                    let source_repository = self.repository_of(&mut cache, &source);
                    for link in link_occurrences(contents) {
                        match audit.examine_link(&root, &source, file, link.line, &link.destination) {
                            LinkStep::Settled => {}
                            LinkStep::NeedsTarget(target) => {
                                let target_repository = self.repository_of(&mut cache, &target);
                                let exists = self.has_path(&target);
                                audit.settle_local_link(
                                    &root,
                                    file,
                                    link.line,
                                    &link.destination,
                                    &target,
                                    &source_repository,
                                    &target_repository,
                                    exists,
                                );
                            }
                        }
                    }
                }
            }
        }
        audit.finish()
    }
}

fn evidence_text(f: &AuditFinding, key: &str) -> Option<String> {
    let mut found = None;
    for (k, v) in f.evidence.entries() {
        if k == key {
            found = match v {
                JsonValue::Text(t) => Some(t.clone()),
                JsonValue::UInt(u) => Some(u.to_string()),
                JsonValue::Int(i) => Some(i.to_string()),
                JsonValue::Bool(b) => Some(b.to_string()),
                JsonValue::Null => Some("null".to_string()),
                JsonValue::Array(_) | JsonValue::Object(_) => None,
            };
        }
    }
    found
}

#[test]
fn reports_broken_guidance_links_and_skips_non_local_links() {
    let repo = Repo::new("/repo")
        .dir(".agents/instructions")
        .file("README.md", "# Repo\n")
        .file(
            ".agents/instructions/links.md",
            "[good](../../README.md)\n[bad](missing.md)\n[web](https://example.com)\n[anchor](#section)\n",
        );

    let result = repo.evaluate();

    assert_eq!(result.metric.markdown_files, 1);
    assert_eq!(result.metric.links_checked, 2);
    assert_eq!(result.metric.broken_links, 1);
    assert_eq!(result.metric.skipped_links, 2);
    assert_eq!(result.metric.blocking_findings, 1);
    assert_eq!(result.findings[0].line, Some(2));
    assert_eq!(result.findings[0].path.as_deref(), Some(".agents/instructions/links.md"));
    assert_eq!(result.findings[0].category, LinkClass::MissingTarget.category());
}

#[test]
fn classifies_nested_repository_targets_instead_of_silently_skipping() {
    let repo = Repo::new("/repo")
        .dir(".agents")
        .git("nested")
        .file("nested/README.md", "# Nested\n")
        .file(".agents/links.md", "[nested](../nested/README.md)\n");

    let result = repo.evaluate();

    assert_eq!(result.metric.links_checked, 0);
    assert_eq!(result.metric.skipped_links, 1);
    assert_eq!(result.metric.cross_repository_links, 1);
    assert_eq!(result.metric.blocking_findings, 0);
    assert_eq!(result.findings.len(), 1);
    assert_eq!(result.findings[0].category, LinkClass::CrossRepository.category());
    assert_eq!(evidence_text(&result.findings[0], "source_repository").as_deref(), Some("."));
    assert_eq!(evidence_text(&result.findings[0], "target_repository").as_deref(), Some("nested"));
}

#[test]
fn blocks_links_to_non_guidance_local_targets() {
    let repo = Repo::new("/repo")
        .dir(".agents")
        .dir("src")
        .file("src/lib.rs", "fn main() {}\n")
        .file(".agents/links.md", "[code](../src/lib.rs)\n");

    let result = repo.evaluate();

    assert_eq!(result.metric.non_guidance_links, 1);
    assert_eq!(result.metric.blocking_findings, 1);
    assert_eq!(result.findings[0].category, LinkClass::NonGuidanceTarget.category());
    assert_eq!(evidence_text(&result.findings[0], "detected_class").as_deref(), Some("source_code"));
}

#[test]
fn blocks_unsupported_and_unsafe_destinations() {
    let repo = Repo::new("/repo").dir(".agents").file(
        ".agents/links.md",
        "[ftp](ftp://example.com/file)\n[escape](../../../../outside.md)\n",
    );

    let result = repo.evaluate();

    assert_eq!(result.metric.unsupported_dependency_links, 1);
    assert_eq!(result.metric.unsafe_path_links, 1);
    assert_eq!(result.metric.blocking_findings, 2);
    let categories: Vec<&str> = result.findings.iter().map(|f| f.category.as_str()).collect();
    assert!(categories.contains(&LinkClass::UnsupportedDependency.category()));
    assert!(categories.contains(&LinkClass::UnsafePath.category()));
}

#[test]
fn permits_non_markdown_files_under_agents_directory() {
    let repo = Repo::new("/repo")
        .dir(".agents/skills")
        .file(".agents/skills/icon.png", "\u{89}PNG")
        .file(".agents/links.md", "[icon](skills/icon.png)\n");

    let result = repo.evaluate();

    assert_eq!(result.metric.links_checked, 1);
    assert_eq!(result.metric.blocking_findings, 0);
    assert!(result.findings.is_empty());
}

#[test]
fn links_command_passes_on_clean_guidance_corpus() {
    let repo = Repo::new("/repo")
        .dir(".agents")
        .file("README.md", "# Repo\n")
        .file(".agents/links.md", "[good](../README.md)\n");

    let result = repo.evaluate();

    assert_eq!(result.metric.blocking_findings, 0);
    assert_eq!(result.metric.links_checked, 1);
}

#[test]
fn links_command_fails_with_stable_category_and_evidence_on_blocking_finding() {
    let repo = Repo::new("/repo").dir(".agents").file(".agents/links.md", "[broken](missing.md)\n");

    let result = repo.evaluate();

    // The `links` command fails when the trial counts a blocking finding and
    // reports each finding by its id; both are checked here at the library.
    assert!(result.metric.blocking_findings > 0);
    let message = result.findings.iter().map(|f| f.id.clone()).collect::<Vec<_>>().join("\n");
    assert!(message.contains("markdown_link_missing_target"));
    assert!(message.contains(".agents/links.md"));
    assert!(message.contains("missing.md"));
}

#[test]
fn missing_target_finding_reads_in_full() {
    let repo = Repo::new("/repo").dir(".agents").file(".agents/links.md", "intro\n\n[broken](gone.md#part)\n");

    let result = repo.evaluate();

    let f = &result.findings[0];
    assert_eq!(f.id, "markdown_link_missing_target:.agents/links.md:3:gone.md#part");
    assert_eq!(f.severity, Severity::High);
    assert_eq!(f.summary, "Markdown link in .agents/links.md:3 points to missing target 'gone.md#part'.");
    assert_eq!(
        f.instructions,
        vec!["Repair the Markdown link in .agents/links.md:3 so it resolves to an existing target (currently '.agents/gone.md').".to_string()]
    );
    assert_eq!(f.metric_name, "markdown_link_coherence");
    assert_eq!(evidence_text(f, "resolved_target").as_deref(), Some(".agents/gone.md"));
    assert_eq!(evidence_text(f, "line").as_deref(), Some("3"));
    assert_eq!(evidence_text(f, "source").as_deref(), Some(".agents/links.md"));
    assert_eq!(evidence_text(f, "target").as_deref(), Some("gone.md#part"));
    assert_eq!(evidence_text(f, "classification").as_deref(), Some("markdown_link_missing_target"));
}

#[test]
fn unreadable_source_is_blocking() {
    let repo = Repo::new("/repo").dir(".agents").unreadable(".agents/broken.md");

    let result = repo.evaluate();

    assert_eq!(result.metric.markdown_files, 1);
    assert_eq!(result.metric.unreadable_links, 1);
    assert_eq!(result.metric.blocking_findings, 1);
    let f = &result.findings[0];
    assert_eq!(f.category, LinkClass::UnreadableArtifact.category());
    assert_eq!(f.severity, Severity::Medium);
    assert_eq!(f.line, Some(0));
    assert_eq!(f.id, "markdown_link_unreadable_artifact:.agents/broken.md:0:");
    assert_eq!(f.summary, "Guidance source '.agents/broken.md' could not be read as UTF-8 Markdown.");
}

#[test]
fn findings_count_blocking_plus_cross_repository() {
    let repo = Repo::new("/repo")
        .dir(".agents")
        .git("nested")
        .file("nested/README.md", "# Nested\n")
        .file("src/main.rs", "")
        .file(
            ".agents/links.md",
            "[a](missing.md)\n[b](../nested/README.md)\n[c](mailto:x@y)\n[d](<a b>)\n[e](../src/main.rs)\n[f](/abs.md)\n",
        );

    let result = repo.evaluate();

    assert_eq!(result.findings.len(), result.metric.blocking_findings + result.metric.cross_repository_links);
    let blocking = result
        .findings
        .iter()
        .filter(|f| {
            [
                LinkClass::MissingTarget,
                LinkClass::NonGuidanceTarget,
                LinkClass::UnsupportedDependency,
                LinkClass::UnsafePath,
                LinkClass::UnreadableArtifact,
            ]
            .iter()
            .any(|c| f.category == c.category())
        })
        .count();
    assert_eq!(blocking, result.metric.blocking_findings);
    assert_eq!(result.metric.links_checked + result.metric.skipped_links, 6);
}

#[test]
fn only_agents_markdown_is_guidance() {
    let repo = Repo::new("/repo")
        .file("README.md", "[x](missing.md)\n")
        .file("docs/AGENTS.md", "[x](missing.md)\n")
        .file(".agents/notes.txt", "[x](missing.md)\n");

    let result = repo.evaluate();

    assert_eq!(result.metric.markdown_files, 1);
    assert_eq!(result.findings[0].path.as_deref(), Some("docs/AGENTS.md"));
}

#[test]
fn every_finding_names_its_location_and_destination() {
    let repo = Repo::new("/repo")
        .dir(".agents")
        .git("nested")
        .file("nested/README.md", "# Nested\n")
        .file("src/main.rs", "")
        .unreadable(".agents/broken.md")
        .file(
            ".agents/links.md",
            "[a](missing.md)\n[b](../nested/README.md)\n[c](ftp://x/y)\n\n[e](../src/main.rs)\n[f](../../../x.md)\n",
        );

    let result = repo.evaluate();

    assert_eq!(result.findings.len(), 6);
    assert!(result.metric.broken_links + result.metric.non_guidance_links <= result.metric.links_checked);
    for f in &result.findings {
        let path = f.path.clone().unwrap();
        let line = f.line.unwrap();
        let target = evidence_text(f, "target").unwrap();
        assert_eq!(f.id, format!("{}:{}:{}:{}", f.category, path, line, target));
        assert!(matches!(&f.metric_value, JsonValue::Text(t) if *t == target));
        assert_eq!(f.metric_name, "markdown_link_coherence");
        assert!(f.threshold.is_none());
        assert_eq!(evidence_text(f, "source"), Some(path));
        assert_eq!(evidence_text(f, "line"), Some(line.to_string()));
        assert_eq!(evidence_text(f, "classification").as_deref(), Some(f.category.as_str()));
        let expected = if f.category == LinkClass::CrossRepository.category() {
            Severity::Low
        } else if f.category == LinkClass::UnreadableArtifact.category() {
            Severity::Medium
        } else {
            Severity::High
        };
        assert_eq!(f.severity, expected);
    }
}
