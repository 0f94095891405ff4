//! The pieces of the guidance-link trial on their own.

use audit_api::link_scan::{link_occurrences, occurrences_from_events, LineIndex, MarkdownEvent};
use audit_api::markdown_links::{
    classify_destination, decode_percent_escapes, detect_non_guidance_subclass, display_relative,
    hex_digit, is_excluded_path, is_guidance_markdown, is_guidance_target, DestinationShape, LinkClass,
};
use audit_api::paths::FsPath;

fn local(d: &str) -> Option<String> {
    match classify_destination(d) {
        DestinationShape::Local(p) => Some(p.into_iter().collect()),
        _ => None,
    }
}

#[test]
fn destinations_are_classified_by_their_path_part() {
    assert!(matches!(classify_destination("#section"), DestinationShape::FragmentOnly));
    assert!(matches!(classify_destination(""), DestinationShape::FragmentOnly));
    assert!(matches!(classify_destination("https://example.com"), DestinationShape::External));
    assert!(matches!(classify_destination("http://example.com#x"), DestinationShape::External));
    assert!(matches!(classify_destination("mailto:a@b"), DestinationShape::External));
    assert!(matches!(classify_destination("data:text/plain,hi"), DestinationShape::External));
    assert!(matches!(classify_destination("ftp://example.com/file"), DestinationShape::Unsupported));
    assert!(matches!(classify_destination("//cdn.example.com/x"), DestinationShape::Unsupported));
    assert!(matches!(classify_destination("a<b"), DestinationShape::Unsupported));
    assert!(matches!(classify_destination("/etc/passwd"), DestinationShape::Unsupported));
    assert_eq!(local("docs/a.md#intro"), Some("docs/a.md".to_string()));
    assert_eq!(local("a.md"), Some("a.md".to_string()));
    assert_eq!(local("x#y://z"), Some("x".to_string()));
}

#[test]
fn hex_digits_and_percent_escapes() {
    assert_eq!(hex_digit(b'0'), Some(0));
    assert_eq!(hex_digit(b'9'), Some(9));
    assert_eq!(hex_digit(b'a'), Some(10));
    assert_eq!(hex_digit(b'F'), Some(15));
    assert_eq!(hex_digit(b'g'), None);
    assert_eq!(decode_percent_escapes("a%20b"), "a b");
    assert_eq!(decode_percent_escapes("%41%42c"), "ABc");
    assert_eq!(decode_percent_escapes("50%"), "50%");
    assert_eq!(decode_percent_escapes("%4"), "%4");
    assert_eq!(decode_percent_escapes("%zz1"), "%zz1");
    assert_eq!(decode_percent_escapes("%e9"), "\u{e9}");
    assert_eq!(decode_percent_escapes("\u{e9}"), "\u{c3}\u{a9}");
}

#[test]
fn guidance_corpus_membership() {
    assert!(is_guidance_target("AGENTS.md"));
    assert!(is_guidance_target("docs/README.md"));
    assert!(is_guidance_target(".agents/skills/icon.png"));
    assert!(is_guidance_target("x/.agents/y"));
    assert!(is_guidance_target("docs\\AGENTS.md"));
    assert!(!is_guidance_target("src/lib.rs"));
    assert!(!is_guidance_target("READMEX.md"));
    assert!(is_guidance_markdown("AGENTS.md"));
    assert!(is_guidance_markdown(".agents/a/b.md"));
    assert!(is_guidance_markdown("docs/AGENTS.md"));
    assert!(!is_guidance_markdown("README.md"));
    assert!(!is_guidance_markdown(".agents/notes.txt"));
}

#[test]
fn non_guidance_subclasses() {
    assert_eq!(detect_non_guidance_subclass(".ticket/T-1.md"), "ticket_store");
    assert_eq!(detect_non_guidance_subclass("a/.spec/s.md"), "spec_store");
    assert_eq!(detect_non_guidance_subclass("target/debug/x"), "generated_artifact");
    assert_eq!(detect_non_guidance_subclass("src/lib.rs"), "source_code");
    assert_eq!(detect_non_guidance_subclass("ci.yaml"), "source_code");
    assert_eq!(detect_non_guidance_subclass("docs/guide.md"), "unrelated_repository_file");
    assert_eq!(detect_non_guidance_subclass(".rs"), "unrelated_repository_file");
    assert_eq!(detect_non_guidance_subclass("LICENSE"), "unrelated_repository_file");
}

#[test]
fn excluded_paths() {
    let none: Vec<String> = Vec::new();
    assert!(is_excluded_path("node_modules", &none));
    assert!(is_excluded_path("a/.git", &none));
    assert!(!is_excluded_path("docs", &none));
    let ex = vec!["/vendor/".to_string(), "".to_string()];
    assert!(is_excluded_path("vendor", &ex));
    assert!(is_excluded_path("vendor/x/y.md", &ex));
    assert!(!is_excluded_path("vendors/x.md", &ex));
    assert!(!is_excluded_path("docs", &vec!["/".to_string()]));
    let docs = vec!["a/docs".to_string()];
    assert!(is_excluded_path("a/docs/x.md", &docs));
    assert!(!is_excluded_path("a/./docs", &docs));
    assert!(is_excluded_path("a/.git/.", &none));
}

#[test]
fn paths_shown_relative_to_the_root() {
    let root = FsPath::parse("/repo");
    assert_eq!(display_relative(&root, &FsPath::parse("/repo")), ".");
    assert_eq!(display_relative(&root, &FsPath::parse("/repo/nested")), "nested");
    assert_eq!(display_relative(&root, &FsPath::parse("/other/x")), "/other/x");
}

#[test]
fn line_numbers_follow_newlines() {
    let idx = LineIndex::new("a\nbb\n\nc");
    assert_eq!(idx.line_number(0), 1);
    assert_eq!(idx.line_number(1), 1);
    assert_eq!(idx.line_number(2), 2);
    assert_eq!(idx.line_number(5), 3);
    assert_eq!(idx.line_number(6), 4);
    assert_eq!(idx.line_number(100), 4);
}

#[test]
fn link_occurrences_in_document_order() {
    let links = link_occurrences("# T\n\nsee [a](x.md) and [b](<y z.md>)\n\n[c]: ref.md\n\nuse [c]\n");
    let found: Vec<(String, usize)> = links.into_iter().map(|l| (l.destination, l.line)).collect();
    assert_eq!(
        found,
        vec![("x.md".to_string(), 3), ("y z.md".to_string(), 3), ("ref.md".to_string(), 7)]
    );
}

#[test]
fn occurrences_come_from_link_start_events() {
    let idx = LineIndex::new("a\nb\nc");
    let events = vec![
        MarkdownEvent::Other,
        MarkdownEvent::LinkStart { destination: "x.md".to_string(), offset: 0 },
        MarkdownEvent::Other,
        MarkdownEvent::LinkStart { destination: "y.md".to_string(), offset: 2 },
        MarkdownEvent::LinkStart { destination: "z.md".to_string(), offset: 4 },
    ];
    let found: Vec<(String, usize)> =
        occurrences_from_events(&events, &idx).into_iter().map(|l| (l.destination, l.line)).collect();
    assert_eq!(
        found,
        vec![("x.md".to_string(), 1), ("y.md".to_string(), 2), ("z.md".to_string(), 3)]
    );
    assert!(occurrences_from_events(&vec![MarkdownEvent::Other], &idx).is_empty());
}

#[test]
fn newline_offsets_give_lines() {
    let idx = LineIndex::new("a\nb\nc");
    assert_eq!(idx.line_number(1), 1);
    assert_eq!(idx.line_number(3), 2);
    assert_eq!(idx.line_number(4), 3);
}

#[test]
fn plain_ascii_destinations_decode_to_themselves() {
    for d in ["docs/a.md", "../README.md", "a b#c", ""] {
        assert_eq!(decode_percent_escapes(d), d);
    }
    for d in ["%41", "a%20b%2", "\u{e9}%e9", "%%%"] {
        assert!(decode_percent_escapes(d).chars().count() <= d.len());
    }
    assert_eq!(decode_percent_escapes("%41%42%43").chars().count(), 3);
}

#[test]
fn every_class_has_its_category_and_blocking_bit() {
    let table = [
        (LinkClass::GuidanceTarget, "markdown_link_guidance_target", false),
        (LinkClass::MissingTarget, "markdown_link_missing_target", true),
        (LinkClass::NonGuidanceTarget, "markdown_link_non_guidance_target", true),
        (LinkClass::CrossRepository, "markdown_link_cross_repository", false),
        (LinkClass::External, "markdown_link_external", false),
        (LinkClass::FragmentOnly, "markdown_link_fragment_only", false),
        (LinkClass::UnsupportedDependency, "markdown_link_unsupported_dependency", true),
        (LinkClass::UnsafePath, "markdown_link_unsafe_path", true),
        (LinkClass::UnreadableArtifact, "markdown_link_unreadable_artifact", true),
    ];
    for (class, category, blocking) in table {
        assert_eq!(class.category(), category);
        assert_eq!(class.is_blocking(), blocking);
    }
}
