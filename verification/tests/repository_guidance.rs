//! The repository guidance trial.

use audit_api::model::{JsonValue, Severity, TrialStatus};
use audit_api::repository_guidance::{assess_guidance, required_file_names, GuidanceRead};

fn read(files: &[(&str, &str)], name: &str) -> GuidanceRead {
    match files.iter().find(|(n, _)| *n == name) {
        Some((_, c)) => GuidanceRead::Contents(c.as_bytes().to_vec()),
        None => GuidanceRead::Missing,
    }
}

#[test]
fn reports_missing_and_empty_guidance_files() {
    let files = [("README.md", "# Repo\n"), ("INSTALL.md", "  \n")];
    let reads: Vec<GuidanceRead> = required_file_names().iter().map(|n| read(&files, n)).collect();

    let result = assess_guidance(&reads);

    assert_eq!(result.metric.present_files, 1);
    assert_eq!(result.metric.missing_files, 1);
    assert_eq!(result.metric.empty_files, 1);
    assert!(result.findings.iter().any(|finding| finding.id == "repository_guidance:empty:INSTALL.md"));
    assert!(result.findings.iter().any(|finding| finding.id == "repository_guidance:missing:CONTRIBUTING.md"));
}

#[test]
fn accepts_non_empty_guidance_files() {
    let files = [("README.md", "content"), ("INSTALL.md", "content"), ("CONTRIBUTING.md", "content")];
    let reads: Vec<GuidanceRead> = required_file_names().iter().map(|n| read(&files, n)).collect();

    let result = assess_guidance(&reads);

    assert!(result.findings.is_empty());
    assert_eq!(result.metric.present_files, 3);
    assert_eq!(result.metric.missing_files, 0);
    assert_eq!(result.metric.empty_files, 0);
}

#[test]
fn unreadable_file_counts_as_missing_with_its_error() {
    let reads = vec![
        GuidanceRead::Unreadable("permission denied".to_string()),
        GuidanceRead::Contents(b"\t\r\n\x0c ".to_vec()),
        GuidanceRead::Contents(b"\x0b".to_vec()),
    ];

    let result = assess_guidance(&reads);

    assert_eq!(result.metric.status, TrialStatus::Collected);
    assert_eq!(result.metric.expected_files, 3);
    assert_eq!(result.metric.missing_files, 1);
    assert_eq!(result.metric.empty_files, 1);
    assert_eq!(result.metric.present_files, 1);
    assert_eq!(result.findings.len(), 2);
    let f = &result.findings[0];
    assert_eq!(f.id, "repository_guidance:unreadable:README.md");
    assert_eq!(f.summary, "Repository guidance file README.md could not be read: permission denied.");
    assert_eq!(f.severity, Severity::Medium);
    assert_eq!(f.instructions, vec!["Add non-whitespace content to the repository-root README.md file.".to_string()]);
    assert!(matches!(&f.metric_value, JsonValue::Text(s) if s == "unreadable"));
    let error = f.evidence.entries().iter().rev().find(|(k, _)| k == "error").map(|(_, v)| v);
    assert!(matches!(error, Some(JsonValue::Text(s)) if s == "permission denied"));
    assert_eq!(result.findings[1].summary, "Repository guidance file INSTALL.md contains no non-whitespace content.");
}

#[test]
fn every_guidance_finding_names_one_distinct_file_and_its_state() {
    let reads = vec![
        GuidanceRead::Missing,
        GuidanceRead::Unreadable("denied".to_string()),
        GuidanceRead::Contents(b"\t\r\n ".to_vec()),
    ];
    let result = assess_guidance(&reads);
    assert_eq!(result.findings.len(), 3);
    let mut paths = Vec::new();
    for f in &result.findings {
        let path = f.path.clone().unwrap();
        let state = match &f.metric_value {
            JsonValue::Text(s) => s.clone(),
            _ => panic!("state is not a text"),
        };
        assert_eq!(f.category, "repository_guidance");
        assert_eq!(f.severity, Severity::Medium);
        assert_eq!(f.id, format!("repository_guidance:{state}:{path}"));
        assert!(required_file_names().contains(&path.as_str()));
        assert!(!paths.contains(&path));
        paths.push(path);
    }
}
