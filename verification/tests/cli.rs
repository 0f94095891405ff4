//! The `audit` command line.

use audit_api::cli::{parse_cli_from, AuditCommand, CliError};

fn args(a: &[&str]) -> Vec<String> {
    a.iter().map(|s| s.to_string()).collect()
}

#[test]
fn parses_move_command() {
    let cli = parse_cli_from(&args(&[
        "audit",
        "move",
        "7b3a7c62-1f3f-45d6-b8a1-f2b83e3d9f71",
        "--repo-root",
        "/repo",
        "--to-workspace-root",
        "/target",
    ]))
    .expect("parse move");

    match cli.command {
        AuditCommand::Move(args) => {
            assert_eq!(args.id.as_deref(), Some("7b3a7c62-1f3f-45d6-b8a1-f2b83e3d9f71"));
            assert_eq!(args.repo_root, "/repo");
            assert_eq!(args.to_workspace_root.as_deref(), Some("/target"));
        }
        other => panic!("unexpected command: {other:?}"),
    }
}

#[test]
fn parses_run_session_selector_flags() {
    let cli = parse_cli_from(&args(&[
        "audit",
        "run",
        "/repo",
        "--latest-session",
        "--session-store-root",
        "/repo/.session",
        "--session-workspace-slug",
        "context-engine",
    ]))
    .expect("parse run latest-session");

    match cli.command {
        AuditCommand::Run(args) => {
            assert!(args.latest_session);
            assert_eq!(args.session_id, None);
            assert_eq!(args.session_store_root.as_deref(), Some("/repo/.session"));
            assert_eq!(args.session_workspace_slug.as_deref(), Some("context-engine"));
        }
        other => panic!("unexpected command: {other:?}"),
    }
}

#[test]
fn json_flag_and_defaults() {
    let cli = parse_cli_from(&args(&["audit", "--json", "links"])).expect("parse links");
    assert!(cli.json);
    match cli.command {
        AuditCommand::Links(a) => assert_eq!(a.path, "."),
        other => panic!("unexpected command: {other:?}"),
    }
    let cli = parse_cli_from(&args(&["audit", "move", "--rollback", "j1", "--json", "--dry-run"])).expect("parse");
    assert!(cli.json);
    match cli.command {
        AuditCommand::Move(a) => {
            assert_eq!(a.id, None);
            assert_eq!(a.repo_root, ".");
            assert_eq!(a.rollback.as_deref(), Some("j1"));
            assert!(a.dry_run);
        }
        other => panic!("unexpected command: {other:?}"),
    }
}

#[test]
fn refusals() {
    assert!(matches!(parse_cli_from(&args(&["audit"])), Err(CliError::MissingSubcommand)));
    assert!(matches!(parse_cli_from(&args(&["audit", "frob"])), Err(CliError::UnknownSubcommand(s)) if s == "frob"));
    assert!(matches!(parse_cli_from(&args(&["audit", "--frob"])), Err(CliError::UnknownOption(s)) if s == "--frob"));
    assert!(matches!(parse_cli_from(&args(&["audit", "links", "--dry-run"])), Err(CliError::UnknownOption(_))));
    assert!(matches!(parse_cli_from(&args(&["audit", "move", "--repo-root"])), Err(CliError::MissingValue(s)) if s == "--repo-root"));
    assert!(matches!(
        parse_cli_from(&args(&["audit", "move", "--repo-root", "a", "--repo-root", "b"])),
        Err(CliError::DuplicateOption(s)) if s == "--repo-root"
    ));
    assert!(matches!(parse_cli_from(&args(&["audit", "links", "a", "b"])), Err(CliError::UnexpectedArgument(s)) if s == "b"));
    assert!(matches!(parse_cli_from(&args(&["audit", "--json", "--json", "run"])), Err(CliError::DuplicateOption(_))));
}
