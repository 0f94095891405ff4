//! The `audit` command line: `audit [--json] <run|links|move> [options]`.
//!
//! After the subcommand, a token starting with `--` names an option of that
//! subcommand; a value option takes the next token whatever it looks like;
//! any other token is the subcommand's positional argument, of which there
//! is at most one. Each option may be given once, `--json` included.
use vstd::prelude::*;
use crate::model::opt_text;
use crate::text::{chars_of, is_text, starts_with_str};

verus! {

/// The subcommands.
#[derive(Clone, Copy, Debug, PartialEq, Eq, Structural)]
pub enum Subcommand {
    Run,
    Links,
    Move,
}

/// The options a subcommand knows.
#[derive(Clone, Copy, Debug, PartialEq, Eq, Structural)]
pub enum OptionKind {
    Json,
    LatestSession,
    SessionId,
    SessionStoreRoot,
    SessionWorkspaceSlug,
    DryRun,
    RepoRoot,
    ToWorkspaceRoot,
    Rollback,
    Resume,
}

/// Is the option a flag (one that takes no value)?
pub open spec fn is_flag(k: OptionKind) -> bool {
    k == OptionKind::Json || k == OptionKind::LatestSession || k == OptionKind::DryRun
}

/// The subcommand a token names.
pub open spec fn subcommand_named(t: Seq<char>) -> Option<Subcommand> {
    if t == "run"@ {
        Some(Subcommand::Run)
    } else if t == "links"@ {
        Some(Subcommand::Links)
    } else if t == "move"@ {
        Some(Subcommand::Move)
    } else {
        None
    }
}

/// The option a token names for a subcommand.
pub open spec fn option_named(sub: Subcommand, t: Seq<char>) -> Option<OptionKind> {
    if t == "--json"@ {
        Some(OptionKind::Json)
    } else {
        match sub {
            Subcommand::Run => if t == "--latest-session"@ {
                Some(OptionKind::LatestSession)
            } else if t == "--session-id"@ {
                Some(OptionKind::SessionId)
            } else if t == "--session-store-root"@ {
                Some(OptionKind::SessionStoreRoot)
            } else if t == "--session-workspace-slug"@ {
                Some(OptionKind::SessionWorkspaceSlug)
            } else {
                None
            },
            Subcommand::Links => None,
            Subcommand::Move => if t == "--dry-run"@ {
                Some(OptionKind::DryRun)
            } else if t == "--repo-root"@ {
                Some(OptionKind::RepoRoot)
            } else if t == "--to-workspace-root"@ {
                Some(OptionKind::ToWorkspaceRoot)
            } else if t == "--rollback"@ {
                Some(OptionKind::Rollback)
            } else if t == "--resume"@ {
                Some(OptionKind::Resume)
            } else {
                None
            },
        }
    }
}

/// Why a command line was refused.
#[derive(Debug)]
pub enum CliError {
    MissingSubcommand,
    UnknownSubcommand(String),
    UnknownOption(String),
    MissingValue(String),
    DuplicateOption(String),
    UnexpectedArgument(String),
}

/// A refusal as the contracts see it.
pub enum ErrorView {
    MissingSubcommand,
    UnknownSubcommand(Seq<char>),
    UnknownOption(Seq<char>),
    MissingValue(Seq<char>),
    DuplicateOption(Seq<char>),
    UnexpectedArgument(Seq<char>),
}

impl View for CliError {
    type V = ErrorView;

    open spec fn view(&self) -> ErrorView {
        match self {
            CliError::MissingSubcommand => ErrorView::MissingSubcommand,
            CliError::UnknownSubcommand(t) => ErrorView::UnknownSubcommand(t@),
            CliError::UnknownOption(t) => ErrorView::UnknownOption(t@),
            CliError::MissingValue(t) => ErrorView::MissingValue(t@),
            CliError::DuplicateOption(t) => ErrorView::DuplicateOption(t@),
            CliError::UnexpectedArgument(t) => ErrorView::UnexpectedArgument(t@),
        }
    }
}

/// What the options of a subcommand have gathered so far.
pub struct ScanView {
    pub json: bool,
    pub latest_session: bool,
    pub dry_run: bool,
    pub positional: Option<Seq<char>>,
    pub session_id: Option<Seq<char>>,
    pub session_store_root: Option<Seq<char>>,
    pub session_workspace_slug: Option<Seq<char>>,
    pub repo_root: Option<Seq<char>>,
    pub to_workspace_root: Option<Seq<char>>,
    pub rollback: Option<Seq<char>>,
    pub resume: Option<Seq<char>>,
    pub pending: Option<(OptionKind, Seq<char>)>,
}

/// The value gathered for a value option.
pub open spec fn value_of(s: ScanView, k: OptionKind) -> Option<Seq<char>> {
    match k {
        OptionKind::SessionId => s.session_id,
        OptionKind::SessionStoreRoot => s.session_store_root,
        OptionKind::SessionWorkspaceSlug => s.session_workspace_slug,
        OptionKind::RepoRoot => s.repo_root,
        OptionKind::ToWorkspaceRoot => s.to_workspace_root,
        OptionKind::Rollback => s.rollback,
        OptionKind::Resume => s.resume,
        _ => None,
    }
}

/// Whether a flag has been given.
pub open spec fn flag_of(s: ScanView, k: OptionKind) -> bool {
    match k {
        OptionKind::Json => s.json,
        OptionKind::LatestSession => s.latest_session,
        OptionKind::DryRun => s.dry_run,
        _ => false,
    }
}

/// The gathering with value option `k` set to `v`.
pub open spec fn with_value(s: ScanView, k: OptionKind, v: Seq<char>) -> ScanView {
    match k {
        OptionKind::SessionId => ScanView { session_id: Some(v), pending: None, ..s },
        OptionKind::SessionStoreRoot => ScanView { session_store_root: Some(v), pending: None, ..s },
        OptionKind::SessionWorkspaceSlug => ScanView {
            session_workspace_slug: Some(v),
            pending: None,
            ..s
        },
        OptionKind::RepoRoot => ScanView { repo_root: Some(v), pending: None, ..s },
        OptionKind::ToWorkspaceRoot => ScanView { to_workspace_root: Some(v), pending: None, ..s },
        OptionKind::Rollback => ScanView { rollback: Some(v), pending: None, ..s },
        OptionKind::Resume => ScanView { resume: Some(v), pending: None, ..s },
        _ => ScanView { pending: None, ..s },
    }
}

/// The gathering with flag `k` set.
pub open spec fn with_flag(s: ScanView, k: OptionKind) -> ScanView {
    match k {
        OptionKind::Json => ScanView { json: true, ..s },
        OptionKind::LatestSession => ScanView { latest_session: true, ..s },
        OptionKind::DryRun => ScanView { dry_run: true, ..s },
        _ => s,
    }
}

/// One token after the subcommand.
pub open spec fn scan_step(sub: Subcommand, s: ScanView, t: Seq<char>) -> Result<ScanView, ErrorView> {
    match s.pending {
        Some((k, name)) => if value_of(s, k) is Some {
            Err(ErrorView::DuplicateOption(name))
        } else {
            Ok(with_value(s, k, t))
        },
        None => if "--"@.is_prefix_of(t) {
            match option_named(sub, t) {
                None => Err(ErrorView::UnknownOption(t)),
                Some(k) => if is_flag(k) {
                    if flag_of(s, k) {
                        Err(ErrorView::DuplicateOption(t))
                    } else {
                        Ok(with_flag(s, k))
                    }
                } else {
                    Ok(ScanView { pending: Some((k, t)), ..s })
                },
            }
        } else if s.positional is Some {
            Err(ErrorView::UnexpectedArgument(t))
        } else {
            Ok(ScanView { positional: Some(t), ..s })
        },
    }
}

/// The tokens after the subcommand, left to right, from gathering `s`.
pub open spec fn scan_all(sub: Subcommand, s: ScanView, ts: Seq<Seq<char>>) -> Result<ScanView, ErrorView>
    decreases ts.len(),
{
    if ts.len() == 0 {
        Ok(s)
    } else {
        match scan_step(sub, s, ts[0]) {
            Ok(s2) => scan_all(sub, s2, ts.drop_first()),
            Err(e) => Err(e),
        }
    }
}

/// The `run` arguments.
#[derive(Debug)]
pub struct RunArgs {
    pub path: String,
    pub latest_session: bool,
    pub session_id: Option<String>,
    pub session_store_root: Option<String>,
    pub session_workspace_slug: Option<String>,
}

/// The `links` arguments.
#[derive(Debug)]
pub struct LinksArgs {
    pub path: String,
}

/// The `move` arguments.
#[derive(Debug)]
pub struct MoveArgs {
    pub id: Option<String>,
    pub repo_root: String,
    pub to_workspace_root: Option<String>,
    pub dry_run: bool,
    pub rollback: Option<String>,
    pub resume: Option<String>,
}

/// A subcommand with its arguments.
#[derive(Debug)]
pub enum AuditCommand {
    Run(RunArgs),
    Links(LinksArgs),
    Move(MoveArgs),
}

/// A parsed command line.
#[derive(Debug)]
pub struct Cli {
    pub json: bool,
    pub command: AuditCommand,
}

/// `o`, or `.` when absent.
pub open spec fn or_dot(o: Option<Seq<char>>) -> Seq<char> {
    match o {
        Some(v) => v,
        None => "."@,
    }
}

/// Does the parsed command line agree with a finished gathering for `sub`?
/// Positional arguments default to `.`, as does the move's `--repo-root`.
pub open spec fn cli_matches(c: Cli, sub: Subcommand, s: ScanView) -> bool {
    &&& c.json == s.json
    &&& match c.command {
        AuditCommand::Run(a) => {
            &&& sub == Subcommand::Run
            &&& a.path@ == or_dot(s.positional)
            &&& a.latest_session == s.latest_session
            &&& opt_text(a.session_id) == s.session_id
            &&& opt_text(a.session_store_root) == s.session_store_root
            &&& opt_text(a.session_workspace_slug) == s.session_workspace_slug
        },
        AuditCommand::Links(a) => {
            &&& sub == Subcommand::Links
            &&& a.path@ == or_dot(s.positional)
        },
        AuditCommand::Move(a) => {
            &&& sub == Subcommand::Move
            &&& opt_text(a.id) == s.positional
            &&& a.repo_root@ == or_dot(s.repo_root)
            &&& opt_text(a.to_workspace_root) == s.to_workspace_root
            &&& a.dry_run == s.dry_run
            &&& opt_text(a.rollback) == s.rollback
            &&& opt_text(a.resume) == s.resume
        },
    }
}

/// The number of leading `--json` tokens of `ts` from index `i`.
pub open spec fn json_prefix(ts: Seq<Seq<char>>, i: int) -> int
    decreases ts.len() - i,
{
    if 0 <= i < ts.len() && ts[i] == "--json"@ {
        json_prefix(ts, i + 1)
    } else {
        i
    }
}

/// The empty gathering, with `--json` as given before the subcommand.
pub open spec fn start_scan(json: bool) -> ScanView {
    ScanView {
        json,
        latest_session: false,
        dry_run: false,
        positional: None,
        session_id: None,
        session_store_root: None,
        session_workspace_slug: None,
        repo_root: None,
        to_workspace_root: None,
        rollback: None,
        resume: None,
        pending: None,
    }
}

/// The outcome of parsing `args` (the program name first): `--json` may
/// precede the subcommand (twice is a duplicate); the subcommand's tokens
/// are gathered left to right; a value option left without its value is
/// refused.
pub open spec fn cli_outcome(args: Seq<Seq<char>>) -> Result<(Subcommand, ScanView), ErrorView> {
    let j = json_prefix(args, 1);
    if j > 2 {
        Err(ErrorView::DuplicateOption("--json"@))
    } else if j >= args.len() {
        Err(ErrorView::MissingSubcommand)
    } else {
        match subcommand_named(args[j]) {
            None => if "--"@.is_prefix_of(args[j]) {
                Err(ErrorView::UnknownOption(args[j]))
            } else {
                Err(ErrorView::UnknownSubcommand(args[j]))
            },
            Some(sub) => match scan_all(sub, start_scan(j == 2), args.skip(j + 1)) {
                Err(e) => Err(e),
                Ok(s) => match s.pending {
                    Some((_, name)) => Err(ErrorView::MissingValue(name)),
                    None => Ok((sub, s)),
                },
            },
        }
    }
}

/// The subcommand words differ from `--json` from their first character.
proof fn lemma_subcommand_words()
    ensures
        "run"@ != "--json"@,
        "links"@ != "--json"@,
        "move"@ != "--json"@,
        subcommand_named("run"@) == Some(Subcommand::Run),
        subcommand_named("links"@) == Some(Subcommand::Links),
        subcommand_named("move"@) == Some(Subcommand::Move),
{
    reveal_strlit("run");
    reveal_strlit("links");
    reveal_strlit("move");
    reveal_strlit("--json");
    assert("run"@[0] != "--json"@[0]);
    assert("links"@[0] != "--json"@[0]);
    assert("move"@[0] != "--json"@[0]);
}

/// `audit run P`, `audit links P` and `audit move P` with one argument `P`
/// that is not an option: the argument is the path to audit (for `run` and
/// `links`) or the finding to move (for `move`, whose repository root is then
/// `.`), and no `--json` was given.
pub proof fn lemma_single_argument(program: Seq<char>, arg: Seq<char>, c: Cli)
    requires
        !"--"@.is_prefix_of(arg),
    ensures
        (match cli_outcome(seq![program, "run"@, arg]) {
            Ok((k, s)) => cli_matches(c, k, s) ==> !c.json && match c.command {
                AuditCommand::Run(a) => a.path@ == arg && !a.latest_session && a.session_id is None,
                _ => false,
            },
            Err(_) => false,
        }),
        (match cli_outcome(seq![program, "links"@, arg]) {
            Ok((k, s)) => cli_matches(c, k, s) ==> !c.json && match c.command {
                AuditCommand::Links(a) => a.path@ == arg,
                _ => false,
            },
            Err(_) => false,
        }),
        (match cli_outcome(seq![program, "move"@, arg]) {
            Ok((k, s)) => cli_matches(c, k, s) ==> !c.json && match c.command {
                AuditCommand::Move(a) => opt_text(a.id) == Some(arg) && a.repo_root@ == "."@
                    && !a.dry_run,
                _ => false,
            },
            Err(_) => false,
        }),
{
    lemma_subcommand_words();
    reveal_with_fuel(scan_all, 2);
    assert(seq![program, "run"@, arg].skip(2) =~= seq![arg]);
    assert(seq![program, "links"@, arg].skip(2) =~= seq![arg]);
    assert(seq![program, "move"@, arg].skip(2) =~= seq![arg]);
    assert(seq![arg].drop_first() =~= Seq::<Seq<char>>::empty());
}

/// `audit run` and `audit links` with no argument audit `.`.
pub proof fn lemma_no_argument(program: Seq<char>, c: Cli)
    ensures
        (match cli_outcome(seq![program, "run"@]) {
            Ok((k, s)) => cli_matches(c, k, s) ==> match c.command {
                AuditCommand::Run(a) => a.path@ == "."@,
                _ => false,
            },
            Err(_) => false,
        }),
        (match cli_outcome(seq![program, "links"@]) {
            Ok((k, s)) => cli_matches(c, k, s) ==> match c.command {
                AuditCommand::Links(a) => a.path@ == "."@,
                _ => false,
            },
            Err(_) => false,
        }),
{
    lemma_subcommand_words();
    assert(seq![program, "run"@].skip(2) =~= Seq::<Seq<char>>::empty());
    assert(seq![program, "links"@].skip(2) =~= Seq::<Seq<char>>::empty());
}

/// The option words: each starts with `--` and differs from every word
/// checked before it.
proof fn lemma_option_words()
    ensures
        option_named(Subcommand::Run, "--latest-session"@) == Some(OptionKind::LatestSession),
        option_named(Subcommand::Run, "--session-id"@) == Some(OptionKind::SessionId),
        option_named(Subcommand::Run, "--session-store-root"@) == Some(
            OptionKind::SessionStoreRoot,
        ),
        option_named(Subcommand::Run, "--session-workspace-slug"@) == Some(
            OptionKind::SessionWorkspaceSlug,
        ),
        option_named(Subcommand::Move, "--dry-run"@) == Some(OptionKind::DryRun),
        option_named(Subcommand::Move, "--repo-root"@) == Some(OptionKind::RepoRoot),
        option_named(Subcommand::Move, "--to-workspace-root"@) == Some(
            OptionKind::ToWorkspaceRoot,
        ),
        option_named(Subcommand::Move, "--rollback"@) == Some(OptionKind::Rollback),
        option_named(Subcommand::Move, "--resume"@) == Some(OptionKind::Resume),
        "--"@.is_prefix_of("--latest-session"@),
        "--"@.is_prefix_of("--session-id"@),
        "--"@.is_prefix_of("--session-store-root"@),
        "--"@.is_prefix_of("--session-workspace-slug"@),
        "--"@.is_prefix_of("--dry-run"@),
        "--"@.is_prefix_of("--repo-root"@),
        "--"@.is_prefix_of("--to-workspace-root"@),
        "--"@.is_prefix_of("--rollback"@),
        "--"@.is_prefix_of("--resume"@),
        "--"@.is_prefix_of("--json"@),
{
    reveal_strlit("--");
    reveal_strlit("--json");
    reveal_strlit("--latest-session");
    reveal_strlit("--session-id");
    reveal_strlit("--session-store-root");
    reveal_strlit("--session-workspace-slug");
    reveal_strlit("--dry-run");
    reveal_strlit("--repo-root");
    reveal_strlit("--to-workspace-root");
    reveal_strlit("--rollback");
    reveal_strlit("--resume");
    assert("--latest-session"@[2] != "--json"@[2]);
    assert("--session-id"@[2] != "--json"@[2]);
    assert("--session-id"@[2] != "--latest-session"@[2]);
    assert("--session-store-root"@[2] != "--json"@[2]);
    assert("--session-store-root"@[2] != "--latest-session"@[2]);
    assert("--session-store-root"@[10] != "--session-id"@[10]);
    assert("--session-workspace-slug"@[2] != "--json"@[2]);
    assert("--session-workspace-slug"@[2] != "--latest-session"@[2]);
    assert("--session-workspace-slug"@[10] != "--session-id"@[10]);
    assert("--session-workspace-slug"@[10] != "--session-store-root"@[10]);
    assert("--dry-run"@[2] != "--json"@[2]);
    assert("--repo-root"@[2] != "--json"@[2]);
    assert("--repo-root"@[2] != "--dry-run"@[2]);
    assert("--to-workspace-root"@[2] != "--json"@[2]);
    assert("--to-workspace-root"@[2] != "--dry-run"@[2]);
    assert("--to-workspace-root"@[2] != "--repo-root"@[2]);
    assert("--rollback"@[2] != "--json"@[2]);
    assert("--rollback"@[2] != "--dry-run"@[2]);
    assert("--rollback"@[3] != "--repo-root"@[3]);
    assert("--rollback"@[2] != "--to-workspace-root"@[2]);
    assert("--resume"@[2] != "--json"@[2]);
    assert("--resume"@[2] != "--dry-run"@[2]);
    assert("--resume"@[4] != "--repo-root"@[4]);
    assert("--resume"@[2] != "--to-workspace-root"@[2]);
    assert("--resume"@[3] != "--rollback"@[3]);
    assert("--"@ =~= "--latest-session"@.subrange(0, 2));
    assert("--"@ =~= "--session-id"@.subrange(0, 2));
    assert("--"@ =~= "--session-store-root"@.subrange(0, 2));
    assert("--"@ =~= "--session-workspace-slug"@.subrange(0, 2));
    assert("--"@ =~= "--dry-run"@.subrange(0, 2));
    assert("--"@ =~= "--repo-root"@.subrange(0, 2));
    assert("--"@ =~= "--to-workspace-root"@.subrange(0, 2));
    assert("--"@ =~= "--rollback"@.subrange(0, 2));
    assert("--"@ =~= "--resume"@.subrange(0, 2));
    assert("--"@ =~= "--json"@.subrange(0, 2));
}

/// Each option of `run` sets its own field, to the token after it for a
/// value option (whatever that token looks like); the path stays `.`.
pub proof fn lemma_run_options(program: Seq<char>, v: Seq<char>, c: Cli)
    ensures
        (match cli_outcome(seq![program, "run"@, "--session-id"@, v]) {
            Ok((k, s)) => cli_matches(c, k, s) ==> match c.command {
                AuditCommand::Run(a) => opt_text(a.session_id) == Some(v) && a.path@ == "."@
                    && a.session_store_root is None && a.session_workspace_slug is None,
                _ => false,
            },
            Err(_) => false,
        }),
        (match cli_outcome(seq![program, "run"@, "--session-store-root"@, v]) {
            Ok((k, s)) => cli_matches(c, k, s) ==> match c.command {
                AuditCommand::Run(a) => opt_text(a.session_store_root) == Some(v)
                    && a.session_id is None && a.session_workspace_slug is None,
                _ => false,
            },
            Err(_) => false,
        }),
        (match cli_outcome(seq![program, "run"@, "--session-workspace-slug"@, v]) {
            Ok((k, s)) => cli_matches(c, k, s) ==> match c.command {
                AuditCommand::Run(a) => opt_text(a.session_workspace_slug) == Some(v)
                    && a.session_id is None && a.session_store_root is None,
                _ => false,
            },
            Err(_) => false,
        }),
        (match cli_outcome(seq![program, "run"@, "--latest-session"@]) {
            Ok((k, s)) => cli_matches(c, k, s) ==> match c.command {
                AuditCommand::Run(a) => a.latest_session && a.path@ == "."@,
                _ => false,
            },
            Err(_) => false,
        }),
        (match cli_outcome(seq![program, "--json"@, "run"@]) {
            Ok((k, s)) => cli_matches(c, k, s) ==> c.json && c.command is Run,
            Err(_) => false,
        }),
{
    lemma_subcommand_words();
    lemma_option_words();
    reveal_with_fuel(scan_all, 3);
    reveal_with_fuel(json_prefix, 3);
    assert(seq![program, "run"@, "--session-id"@, v].skip(2) =~= seq!["--session-id"@, v]);
    assert(seq![program, "run"@, "--session-store-root"@, v].skip(2) =~= seq![
        "--session-store-root"@,
        v,
    ]);
    assert(seq![program, "run"@, "--session-workspace-slug"@, v].skip(2) =~= seq![
        "--session-workspace-slug"@,
        v,
    ]);
    assert(seq![program, "run"@, "--latest-session"@].skip(2) =~= seq!["--latest-session"@]);
    assert(seq![program, "--json"@, "run"@].skip(3) =~= Seq::<Seq<char>>::empty());
    assert(seq!["--session-id"@, v].drop_first() =~= seq![v]);
    assert(seq!["--session-store-root"@, v].drop_first() =~= seq![v]);
    assert(seq!["--session-workspace-slug"@, v].drop_first() =~= seq![v]);
    assert(seq![v].drop_first() =~= Seq::<Seq<char>>::empty());
    assert(seq!["--latest-session"@].drop_first() =~= Seq::<Seq<char>>::empty());
}

/// Each option of `move` sets its own field, to the token after it for a
/// value option; without `--repo-root` the repository root is `.`.
pub proof fn lemma_move_options(program: Seq<char>, v: Seq<char>, c: Cli)
    ensures
        (match cli_outcome(seq![program, "move"@, "--repo-root"@, v]) {
            Ok((k, s)) => cli_matches(c, k, s) ==> match c.command {
                AuditCommand::Move(a) => a.repo_root@ == v && a.id is None
                    && a.to_workspace_root is None,
                _ => false,
            },
            Err(_) => false,
        }),
        (match cli_outcome(seq![program, "move"@, "--to-workspace-root"@, v]) {
            Ok((k, s)) => cli_matches(c, k, s) ==> match c.command {
                AuditCommand::Move(a) => opt_text(a.to_workspace_root) == Some(v)
                    && a.repo_root@ == "."@,
                _ => false,
            },
            Err(_) => false,
        }),
        (match cli_outcome(seq![program, "move"@, "--rollback"@, v]) {
            Ok((k, s)) => cli_matches(c, k, s) ==> match c.command {
                AuditCommand::Move(a) => opt_text(a.rollback) == Some(v) && a.resume is None,
                _ => false,
            },
            Err(_) => false,
        }),
        (match cli_outcome(seq![program, "move"@, "--resume"@, v]) {
            Ok((k, s)) => cli_matches(c, k, s) ==> match c.command {
                AuditCommand::Move(a) => opt_text(a.resume) == Some(v) && a.rollback is None,
                _ => false,
            },
            Err(_) => false,
        }),
        (match cli_outcome(seq![program, "move"@, "--dry-run"@]) {
            Ok((k, s)) => cli_matches(c, k, s) ==> match c.command {
                AuditCommand::Move(a) => a.dry_run,
                _ => false,
            },
            Err(_) => false,
        }),
{
    lemma_subcommand_words();
    lemma_option_words();
    reveal_with_fuel(scan_all, 3);
    assert(seq![program, "move"@, "--repo-root"@, v].skip(2) =~= seq!["--repo-root"@, v]);
    assert(seq![program, "move"@, "--to-workspace-root"@, v].skip(2) =~= seq![
        "--to-workspace-root"@,
        v,
    ]);
    assert(seq![program, "move"@, "--rollback"@, v].skip(2) =~= seq!["--rollback"@, v]);
    assert(seq![program, "move"@, "--resume"@, v].skip(2) =~= seq!["--resume"@, v]);
    assert(seq![program, "move"@, "--dry-run"@].skip(2) =~= seq!["--dry-run"@]);
    assert(seq!["--repo-root"@, v].drop_first() =~= seq![v]);
    assert(seq!["--to-workspace-root"@, v].drop_first() =~= seq![v]);
    assert(seq!["--rollback"@, v].drop_first() =~= seq![v]);
    assert(seq!["--resume"@, v].drop_first() =~= seq![v]);
    assert(seq![v].drop_first() =~= Seq::<Seq<char>>::empty());
    assert(seq!["--dry-run"@].drop_first() =~= Seq::<Seq<char>>::empty());
}

/// The gathering as it is held while scanning.
struct Scan {
    json: bool,
    latest_session: bool,
    dry_run: bool,
    positional: Option<String>,
    session_id: Option<String>,
    session_store_root: Option<String>,
    session_workspace_slug: Option<String>,
    repo_root: Option<String>,
    to_workspace_root: Option<String>,
    rollback: Option<String>,
    resume: Option<String>,
    pending: Option<(OptionKind, String)>,
}

impl View for Scan {
    type V = ScanView;

    closed spec fn view(&self) -> ScanView {
        ScanView {
            json: self.json,
            latest_session: self.latest_session,
            dry_run: self.dry_run,
            positional: opt_text(self.positional),
            session_id: opt_text(self.session_id),
            session_store_root: opt_text(self.session_store_root),
            session_workspace_slug: opt_text(self.session_workspace_slug),
            repo_root: opt_text(self.repo_root),
            to_workspace_root: opt_text(self.to_workspace_root),
            rollback: opt_text(self.rollback),
            resume: opt_text(self.resume),
            pending: match self.pending {
                Some((k, n)) => Some((k, n@)),
                None => None,
            },
        }
    }
}

/// The subcommand a token names.
fn subcommand_of(t: &[char]) -> (r: Option<Subcommand>)
    ensures
        r == subcommand_named(t@),
{
    if is_text(t, "run") {
        Some(Subcommand::Run)
    } else if is_text(t, "links") {
        Some(Subcommand::Links)
    } else if is_text(t, "move") {
        Some(Subcommand::Move)
    } else {
        None
    }
}

/// The option a token names for a subcommand.
fn option_of(sub: Subcommand, t: &[char]) -> (r: Option<OptionKind>)
    ensures
        r == option_named(sub, t@),
{
    if is_text(t, "--json") {
        return Some(OptionKind::Json);
    }
    match sub {
        Subcommand::Run => if is_text(t, "--latest-session") {
            Some(OptionKind::LatestSession)
        } else if is_text(t, "--session-id") {
            Some(OptionKind::SessionId)
        } else if is_text(t, "--session-store-root") {
            Some(OptionKind::SessionStoreRoot)
        } else if is_text(t, "--session-workspace-slug") {
            Some(OptionKind::SessionWorkspaceSlug)
        } else {
            None
        },
        Subcommand::Links => None,
        Subcommand::Move => if is_text(t, "--dry-run") {
            Some(OptionKind::DryRun)
        } else if is_text(t, "--repo-root") {
            Some(OptionKind::RepoRoot)
        } else if is_text(t, "--to-workspace-root") {
            Some(OptionKind::ToWorkspaceRoot)
        } else if is_text(t, "--rollback") {
            Some(OptionKind::Rollback)
        } else if is_text(t, "--resume") {
            Some(OptionKind::Resume)
        } else {
            None
        },
    }
}

/// Is a value already gathered for value option `k`?
fn has_value(s: &Scan, k: OptionKind) -> (r: bool)
    ensures
        r == (value_of(s@, k) is Some),
{
    match k {
        OptionKind::SessionId => s.session_id.is_some(),
        OptionKind::SessionStoreRoot => s.session_store_root.is_some(),
        OptionKind::SessionWorkspaceSlug => s.session_workspace_slug.is_some(),
        OptionKind::RepoRoot => s.repo_root.is_some(),
        OptionKind::ToWorkspaceRoot => s.to_workspace_root.is_some(),
        OptionKind::Rollback => s.rollback.is_some(),
        OptionKind::Resume => s.resume.is_some(),
        _ => false,
    }
}

/// Has flag `k` been given?
fn has_flag(s: &Scan, k: OptionKind) -> (r: bool)
    ensures
        r == flag_of(s@, k),
{
    match k {
        OptionKind::Json => s.json,
        OptionKind::LatestSession => s.latest_session,
        OptionKind::DryRun => s.dry_run,
        _ => false,
    }
}

/// Gathers one token after the subcommand.
fn step(sub: Subcommand, s: Scan, t: &String) -> (r: Result<Scan, CliError>)
    ensures
        match r {
            Ok(s2) => scan_step(sub, s@, t@) == Ok::<ScanView, ErrorView>(s2@),
            Err(e) => scan_step(sub, s@, t@) == Err::<ScanView, ErrorView>(e@),
        },
{
    let mut s = s;
    let tc = chars_of(t.as_str());
    match s.pending {
        Some((k, name)) => {
            s.pending = None;
            if has_value(&s, k) {
                return Err(CliError::DuplicateOption(name));
            }
            let v = Some(t.clone());
            match k {
                OptionKind::SessionId => { s.session_id = v; },
                OptionKind::SessionStoreRoot => { s.session_store_root = v; },
                OptionKind::SessionWorkspaceSlug => { s.session_workspace_slug = v; },
                OptionKind::RepoRoot => { s.repo_root = v; },
                OptionKind::ToWorkspaceRoot => { s.to_workspace_root = v; },
                OptionKind::Rollback => { s.rollback = v; },
                OptionKind::Resume => { s.resume = v; },
                _ => {},
            }
            Ok(s)
        },
        None => {
            if starts_with_str(tc.as_slice(), "--") {
                match option_of(sub, tc.as_slice()) {
                    None => Err(CliError::UnknownOption(t.clone())),
                    Some(k) => {
                        if k == OptionKind::Json || k == OptionKind::LatestSession || k
                            == OptionKind::DryRun {
                            if has_flag(&s, k) {
                                return Err(CliError::DuplicateOption(t.clone()));
                            }
                            match k {
                                OptionKind::Json => { s.json = true; },
                                OptionKind::LatestSession => { s.latest_session = true; },
                                _ => { s.dry_run = true; },
                            }
                            Ok(s)
                        } else {
                            s.pending = Some((k, t.clone()));
                            Ok(s)
                        }
                    },
                }
            } else if s.positional.is_some() {
                Err(CliError::UnexpectedArgument(t.clone()))
            } else {
                s.positional = Some(t.clone());
                Ok(s)
            }
        },
    }
}

/// `o`, or `.` when absent.
fn or_dot_text(o: Option<String>) -> (r: String)
    ensures
        r@ == or_dot(opt_text(o)),
{
    match o {
        Some(v) => v,
        None => String::from_str("."),
    }
}

/// Parses a command line, the program name first.
pub fn parse_cli_from(args: &Vec<String>) -> (r: Result<Cli, CliError>)
    ensures
        match cli_outcome(args@.map_values(|a: String| a@)) {
            Ok((sub, s)) => r matches Ok(c) && cli_matches(c, sub, s),
            Err(e) => r matches Err(err) && err@ == e,
        },
{
    let ghost ts = args@.map_values(|a: String| a@);
    let mut j: usize = 1;
    while j < args.len() && is_text(chars_of(args[j].as_str()).as_slice(), "--json")
        invariant
            1 <= j,
            ts == args@.map_values(|a: String| a@),
            json_prefix(ts, 1) == json_prefix(ts, j as int),
        decreases args@.len() - j,
    {
        j = j + 1;
    }
    assert(json_prefix(ts, j as int) == j);
    if j > 2 {
        return Err(CliError::DuplicateOption(String::from_str("--json")));
    }
    if j >= args.len() {
        return Err(CliError::MissingSubcommand);
    }
    let name = chars_of(args[j].as_str());
    assert(ts[j as int] == args@[j as int]@);
    let sub = match subcommand_of(name.as_slice()) {
        Some(sub) => sub,
        None => {
            if starts_with_str(name.as_slice(), "--") {
                return Err(CliError::UnknownOption(args[j].clone()));
            }
            return Err(CliError::UnknownSubcommand(args[j].clone()));
        },
    };
    let mut s = Scan {
        json: j == 2,
        latest_session: false,
        dry_run: false,
        positional: None,
        session_id: None,
        session_store_root: None,
        session_workspace_slug: None,
        repo_root: None,
        to_workspace_root: None,
        rollback: None,
        resume: None,
        pending: None,
    };
    assert(subcommand_named(ts[j as int]) == Some(sub));
    let ghost rest = ts.skip(j + 1);
    let mut i: usize = j + 1;
    assert(ts.skip(i as int) =~= rest);
    while i < args.len()
        invariant
            j + 1 <= i <= args@.len(),
            1 <= j <= 2,
            j < args@.len(),
            json_prefix(ts, 1) == j,
            subcommand_named(ts[j as int]) == Some(sub),
            ts == args@.map_values(|a: String| a@),
            rest == ts.skip(j + 1),
            scan_all(sub, start_scan(j == 2), rest) == scan_all(sub, s@, ts.skip(i as int)),
        decreases args@.len() - i,
    {
        let ghost tail = ts.skip(i as int);
        assert(tail[0] == args@[i as int]@);
        assert(tail.drop_first() =~= ts.skip(i + 1));
        let ghost s_before = s@;
        match step(sub, s, &args[i]) {
            Ok(s2) => { s = s2; },
            Err(e) => {
                assert(scan_all(sub, s_before, tail) == Err::<ScanView, ErrorView>(e@));
                assert(subcommand_named(ts[j as int]) == Some(sub));
                return Err(e);
            },
        }
        i = i + 1;
    }
    assert(ts.skip(i as int) =~= Seq::<Seq<char>>::empty());
    match s.pending {
        Some((_, name)) => {
            return Err(CliError::MissingValue(name));
        },
        None => {},
    }
    let command = match sub {
        Subcommand::Run => AuditCommand::Run(
            RunArgs {
                path: or_dot_text(s.positional),
                latest_session: s.latest_session,
                session_id: s.session_id,
                session_store_root: s.session_store_root,
                session_workspace_slug: s.session_workspace_slug,
            },
        ),
        Subcommand::Links => AuditCommand::Links(LinksArgs { path: or_dot_text(s.positional) }),
        Subcommand::Move => AuditCommand::Move(
            MoveArgs {
                id: s.positional,
                repo_root: or_dot_text(s.repo_root),
                to_workspace_root: s.to_workspace_root,
                dry_run: s.dry_run,
                rollback: s.rollback,
                resume: s.resume,
            },
        ),
    };
    Ok(Cli { json: s.json, command })
}

} // verus!
