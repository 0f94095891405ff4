//! Lexical paths.

use audit_api::paths::FsPath;

fn show(p: &FsPath) -> String {
    p.render().into_iter().collect()
}

#[test]
fn parsing_and_rendering() {
    assert_eq!(show(&FsPath::parse("/a//b/./c/")), "/a/b/c");
    assert_eq!(show(&FsPath::parse("./a")), "./a");
    assert_eq!(show(&FsPath::parse("a/../b")), "a/../b");
    assert_eq!(show(&FsPath::parse("/")), "/");
    assert_eq!(FsPath::parse("").len(), 0);
    assert!(FsPath::parse("a/b").same(&FsPath::parse("a//b/")));
    assert!(!FsPath::parse("./a").same(&FsPath::parse("a")));
}

#[test]
fn normalization_is_lexical_and_idempotent() {
    let p = FsPath::parse("/repo/.agents/../../../../outside.md").normalized();
    assert_eq!(show(&p), "/outside.md");
    assert_eq!(show(&FsPath::parse("a/./b/../c").normalized()), "a/c");
    assert_eq!(show(&FsPath::parse("../x").normalized()), "x");
    let once = FsPath::parse("/a/b/../../c/./d").normalized();
    assert!(once.normalized().same(&once));
}

#[test]
fn joining_parents_and_prefixes() {
    let base = FsPath::parse("/repo/docs");
    assert_eq!(show(&base.join(&FsPath::parse("./x.md"))), "/repo/docs/x.md");
    assert_eq!(show(&base.join(&FsPath::parse("/abs"))), "/abs");
    assert_eq!(show(&FsPath::parse("").join(&FsPath::parse("./x"))), "./x");
    assert_eq!(show(&FsPath::parse("/repo/a.md").parent().unwrap()), "/repo");
    assert!(FsPath::parse("/").parent().is_none());
    assert_eq!(show(&FsPath::parse("a").parent().unwrap()), "");
    let root = FsPath::parse("/repo");
    assert!(FsPath::parse("/repo/x").starts_with(&root));
    assert!(!FsPath::parse("/repository/x").starts_with(&root));
    assert_eq!(show(&FsPath::parse("/repo/x/y").strip_prefix(&root).unwrap()), "x/y");
    assert!(FsPath::parse("/elsewhere").strip_prefix(&root).is_none());
}

#[test]
fn file_names_and_extensions() {
    let ext = |s: &str| FsPath::parse(s).extension().map(|e| e.into_iter().collect::<String>());
    assert_eq!(ext("a/b.tar.gz"), Some("gz".to_string()));
    assert_eq!(ext(".bashrc"), None);
    assert_eq!(ext("a/.x.rs"), Some("rs".to_string()));
    assert_eq!(ext("noext"), None);
    assert_eq!(ext("dot."), Some("".to_string()));
    assert_eq!(ext("a/.."), None);
    assert_eq!(
        FsPath::parse("x/y.md/").file_name().map(|n| n.into_iter().collect::<String>()),
        Some("y.md".to_string())
    );
}
