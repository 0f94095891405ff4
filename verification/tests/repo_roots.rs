//! Repository lookups and what the cache remembers.

use audit_api::paths::FsPath;
use audit_api::repo_roots::GitRepoCache;

fn show(p: &FsPath) -> String {
    p.render().into_iter().collect()
}

fn lookup(cache: &mut GitRepoCache, path: &str, git: &[&str], asked: &mut Vec<String>) -> String {
    let p = FsPath::parse(path);
    let probes = cache.probes(&p);
    let flags: Vec<bool> = probes
        .iter()
        .map(|d| {
            asked.push(show(d));
            git.contains(&show(d).as_str())
        })
        .collect();
    show(&cache.settle(&p, &flags))
}

#[test]
fn nearest_git_directory_below_the_root_wins() {
    let git = ["/repo/nested", "/repo"];
    let mut cache = GitRepoCache::new(&FsPath::parse("/repo"));
    let mut asked = Vec::new();
    assert_eq!(lookup(&mut cache, "/repo/nested/a/b.md", &git, &mut asked), "/repo/nested");
    assert_eq!(asked, vec!["/repo/nested/a", "/repo/nested"]);
    assert_eq!(lookup(&mut cache, "/repo/docs/x.md", &git, &mut asked), "/repo");
    assert_eq!(lookup(&mut cache, "/repo/x.md", &git, &mut asked), "/repo");
}

#[test]
fn remembered_answers_need_no_probes_and_agree() {
    let git = ["/repo/nested"];
    let mut cache = GitRepoCache::new(&FsPath::parse("/repo"));
    let mut asked = Vec::new();
    let first = lookup(&mut cache, "/repo/nested/a/b/c.md", &git, &mut asked);
    assert_eq!(first, "/repo/nested");
    asked.clear();
    let second = lookup(&mut cache, "/repo/nested/a/b/d.md", &git, &mut asked);
    assert_eq!(second, first);
    assert!(asked.is_empty());
    let third = lookup(&mut cache, "/repo/nested/a/e.md", &git, &mut asked);
    assert_eq!(third, first);
    assert!(asked.is_empty());
}

#[test]
fn paths_outside_the_root_belong_to_the_root() {
    let mut cache = GitRepoCache::new(&FsPath::parse("/repo"));
    let mut asked = Vec::new();
    assert_eq!(lookup(&mut cache, "/outside.md", &[], &mut asked), "/repo");
    assert_eq!(asked, vec!["/"]);
}
