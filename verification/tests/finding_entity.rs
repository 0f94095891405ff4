//! Finding folders, entity ids and the move domain's folders.

use audit_api::finding_entity::{
    entity_id_from_name, entity_id_text, entity_ids_from_listing, finding_entity_file, FolderEntry,
    PersistedFinding, RepositoryIndex, FINDING_ENTITY_FILE, FINDING_ENTITY_SUBDIR,
};
use audit_api::model::{AuditFinding, Evidence, JsonValue, Severity};
use audit_api::move_domain::{AuditMoveDomain, AUDIT_INDEX_DIR};
use audit_api::paths::FsPath;

fn show(p: &FsPath) -> String {
    p.render().into_iter().collect()
}

const ID: u128 = 0x7b3a7c62_1f3f_45d6_b8a1_f2b83e3d9f71;

#[test]
fn entity_ids_read_and_write_as_hyphenated_text() {
    assert_eq!(entity_id_text(ID), "7b3a7c62-1f3f-45d6-b8a1-f2b83e3d9f71");
    assert_eq!(entity_id_from_name("7b3a7c62-1f3f-45d6-b8a1-f2b83e3d9f71"), Some(ID));
    assert_eq!(entity_id_from_name("7B3A7C621F3F45D6B8A1F2B83E3D9F71"), Some(ID));
    assert_eq!(entity_id_from_name("not-a-uuid"), None);
    assert_eq!(entity_id_text(1), "00000000-0000-0000-0000-000000000001");
}

#[test]
fn finding_folders_live_under_the_index_directory() {
    let index = RepositoryIndex::at("/repo/.audit/index.sqlite");
    assert_eq!(FINDING_ENTITY_SUBDIR, "findings");
    assert_eq!(show(&index.finding_entities_root()), "/repo/.audit/findings");
    let dir = index.finding_entity_dir(ID);
    assert_eq!(show(&dir), "/repo/.audit/findings/7b3a7c62-1f3f-45d6-b8a1-f2b83e3d9f71");
    assert_eq!(
        show(&finding_entity_file(&dir)),
        format!("/repo/.audit/findings/7b3a7c62-1f3f-45d6-b8a1-f2b83e3d9f71/{FINDING_ENTITY_FILE}")
    );
}

#[test]
fn listed_ids_are_directories_named_by_uuids_in_order() {
    let entry = |n: &str, d: bool| FolderEntry { name: Some(n.to_string()), is_dir: d };
    let entries = vec![
        entry("ffffffff-0000-0000-0000-000000000000", true),
        entry("00000000-0000-0000-0000-000000000002", true),
        entry("notes", true),
        entry("00000000-0000-0000-0000-000000000001", false),
        FolderEntry { name: None, is_dir: true },
        entry("00000000-0000-0000-0000-000000000001", true),
    ];
    assert_eq!(entity_ids_from_listing(&entries), vec![1, 2, 0xffffffff_u128 << 96]);
}

#[test]
fn persisted_finding_copies_the_finding() {
    let mut evidence = Evidence::new();
    evidence.insert("lines".to_string(), JsonValue::UInt(500));
    let finding = AuditFinding {
        id: "file-length:src/lib.rs".to_string(),
        category: "file-length".to_string(),
        severity: Severity::Medium,
        summary: "file too long".to_string(),
        path: Some("src/lib.rs".to_string()),
        line: None,
        metric_name: "line_count".to_string(),
        metric_value: JsonValue::UInt(500),
        threshold: Some(JsonValue::UInt(400)),
        instructions: vec!["split the file".to_string()],
        evidence,
    };
    let p = PersistedFinding::from_finding(ID, &finding);
    assert_eq!(p.id, ID);
    assert_eq!(p.category, "file-length");
    assert_eq!(p.severity, Severity::Medium);
    assert_eq!(p.summary, "file too long");
    assert_eq!(p.path.as_deref(), Some("src/lib.rs"));
    assert_eq!(p.line, None);
    assert_eq!(p.metric_name, "line_count");
    assert!(matches!(p.metric_value, JsonValue::UInt(500)));
    assert!(matches!(p.threshold, Some(JsonValue::UInt(400))));
    assert_eq!(p.instructions, vec!["split the file".to_string()]);
    assert!(matches!(p.evidence.entries().as_slice(), [(k, JsonValue::UInt(500))] if k == "lines"));
}

#[test]
fn move_domain_folders() {
    let index = RepositoryIndex::at("/src/.audit/index.sqlite");
    let domain = AuditMoveDomain::new(&index);
    assert_eq!(domain.entity_subdir(), "findings");
    assert_eq!(domain.store_index_dir(), AUDIT_INDEX_DIR);
    assert_eq!(show(&domain.source_store_root()), "/src/.audit");
    assert_eq!(
        show(&domain.entity_folder_in(&FsPath::parse("/dst/.audit"), 1)),
        "/dst/.audit/findings/00000000-0000-0000-0000-000000000001"
    );
    let bare = RepositoryIndex::at("/");
    assert_eq!(show(&AuditMoveDomain::new(&bare).source_store_root()), ".audit");
    let set = domain.source_entity_paths_for_set(&vec![3, 1, 2, 3, 1], &vec![true, true, false, true, true]);
    let shown: Vec<(u128, String)> = set.iter().map(|(id, p)| (*id, show(p))).collect();
    assert_eq!(
        shown,
        vec![
            (1, "/src/.audit/findings/00000000-0000-0000-0000-000000000001".to_string()),
            (3, "/src/.audit/findings/00000000-0000-0000-0000-000000000003".to_string()),
        ]
    );
}

#[test]
fn folders_named_by_two_ids_list_them_in_ascending_order() {
    let (a, b) = (ID, 3u128);
    let folder = |id: u128| FolderEntry { name: Some(entity_id_text(id)), is_dir: true };
    assert_eq!(entity_ids_from_listing(&vec![folder(a), folder(b)]), vec![b, a]);
    assert_eq!(entity_ids_from_listing(&vec![folder(b), folder(a)]), vec![b, a]);
}

#[test]
fn persisted_finding_copies_nested_values() {
    let mut evidence = Evidence::new();
    evidence.insert(
        "spans".to_string(),
        JsonValue::Array(vec![JsonValue::UInt(1), JsonValue::Object(vec![("end".to_string(), JsonValue::Int(-2))])]),
    );
    let finding = AuditFinding {
        id: "x".to_string(),
        category: "c".to_string(),
        severity: Severity::Low,
        summary: "s".to_string(),
        path: None,
        line: Some(4),
        metric_name: "m".to_string(),
        metric_value: JsonValue::Array(vec![JsonValue::Text("a".to_string()), JsonValue::Null]),
        threshold: Some(JsonValue::Object(vec![("max".to_string(), JsonValue::Bool(true))])),
        instructions: Vec::new(),
        evidence,
    };
    let p = PersistedFinding::from_finding(ID, &finding);
    match &p.metric_value {
        JsonValue::Array(items) => {
            assert_eq!(items.len(), 2);
            assert!(matches!(&items[0], JsonValue::Text(t) if t == "a"));
            assert!(matches!(&items[1], JsonValue::Null));
        }
        _ => panic!("metric value is not an array"),
    }
    match &p.threshold {
        Some(JsonValue::Object(entries)) => {
            assert!(matches!(entries.as_slice(), [(k, JsonValue::Bool(true))] if k == "max"));
        }
        _ => panic!("threshold is not an object"),
    }
    match p.evidence.entries().as_slice() {
        [(k, JsonValue::Array(items))] => {
            assert_eq!(k, "spans");
            assert!(matches!(&items[0], JsonValue::UInt(1)));
            match &items[1] {
                JsonValue::Object(inner) => {
                    assert!(matches!(inner.as_slice(), [(e, JsonValue::Int(-2))] if e == "end"));
                }
                _ => panic!("nested value is not an object"),
            }
        }
        _ => panic!("evidence was not copied"),
    }
}
