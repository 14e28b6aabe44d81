use editr::commands::{
    capabilities, list_line, session_scope, watch_notify, watch_report_lines, watch_scan, ScopeError,
    SessionScope, WatchAction,
};
use editr::config::{
    config_ignore_patterns, config_local_root, config_path, dedupe_patterns, default_local_root,
    expand_path, home_dir, Config, ConfigPathError, HydrationMode, IgnoreTable, WatcherConfig,
};
use editr::context::{
    editr_context, relative_remote_path_for_root, relative_remote_path_with_aliases,
    remote_path_aliases, RelativePathError,
};
use editr::editor::{cleanup_outcome, editor_environment, editor_shell_command};
use editr::hydrate::{
    next_hydration_stage, HydrationStage, existing_check_needed, existing_hydration_matches, hydrate_response, hydrate_step,
    hydration_bootstrap_args, hydration_live_args, hydration_metadata, hydration_mode,
    hydration_session_name, hydration_target, max_size_text, HydrateStep,
};
use editr::mutagen::{mutagen_create_command, mutagen_label_value, mutagen_labels, SessionKind};
use editr::naming::{hex_prefix, sanitize_component, truncate_component};
use editr::open::{
    next_open_stage, open_outcome, OpenEvent, OpenOutcome, OpenStage,
    bootstrap_create_args, create_steady_session, mirror_check_needed, open_step, plan_lines,
    resolve_open, OpenError, OpenOptions, OpenRefusal, OpenStep,
};
use editr::order::sort_strings;
use editr::process::{command_failure_message, command_probe_script};
use editr::quantity::{parse_duration, parse_duration_nanos, parse_size, QuantityError};
use editr::session::{
    editr_sessions_from_listing, listing_mentions_session, merge_session_records,
    metadata_sessions, orphan_record, project_metadata, record_for_metadata,
    remove_session_files, session_needs_reconfigure, SessionClassification, SessionMetadata,
};
use editr::shell::{applescript_escape, shell_quote};
use editr::ssh::{
    remote_directory_command, remote_file_size, remote_physical_path, remote_size_command,
    ssh_probe_command, RemoteStatError,
};
use editr::target::{
    local_path_for_target, metadata_dir, normalize_remote_path, selector_to_session,
    session_name_for_target, Target, TargetError,
};
use editr::wildcard::wildcard_match;
use std::time::Duration;

fn strings(items: &[&str]) -> Vec<String> {
    items.iter().map(|s| s.to_string()).collect()
}

fn options() -> OpenOptions {
    OpenOptions {
        local_root: None,
        local_path: None,
        session_name: None,
        config: None,
        ignore: Vec::new(),
        mode: None,
        editor: None,
        no_bootstrap: false,
        create_remote: false,
        allow_nonempty: false,
        sync_vcs: false,
        ignore_vcs: false,
        keep_session: false,
        dry_run: false,
    }
}

fn metadata(kind: SessionKind, name: &str) -> SessionMetadata {
    SessionMetadata {
        schema_version: 1,
        kind,
        session_name: name.to_string(),
        target: "host:/p".to_string(),
        host: "host".to_string(),
        remote_path: "/p".to_string(),
        local_path: "/m/host/p".to_string(),
        mode: "two-way-safe".to_string(),
        sync_vcs: true,
        keep_session: false,
        project_session: None,
        relative_path: None,
        owner_pid: Some(42),
        created_at_unix: 100,
        updated_at_unix: 100,
        context_file: None,
        ignore_patterns: Vec::new(),
    }
}

// --- targets -------------------------------------------------------------

#[test]
fn target_errors_name_their_cause() {
    assert_eq!(Target::parse("/local/path").unwrap_err(), TargetError::MissingSeparator);
    assert_eq!(Target::parse(":/x").unwrap_err(), TargetError::EmptyHost);
    assert_eq!(Target::parse("h:/a\0b").unwrap_err(), TargetError::NulByte);
    assert_eq!(
        TargetError::EmptyHost.message(),
        "target host cannot be empty"
    );
}

#[test]
fn target_text_reads_back_as_the_same_target() {
    let first = Target::parse("a::/x//").unwrap();
    assert_eq!(first.host, "a:");
    assert_eq!(first.path, "/x");
    let again = Target::parse(&first.to_string()).unwrap();
    assert_eq!(again.host, first.host);
    assert_eq!(again.path, first.path);
}

#[test]
fn normalising_twice_equals_normalising_once() {
    for path in ["/a//", "/", "///", "/a/b", ""] {
        let once = normalize_remote_path(path);
        assert_eq!(normalize_remote_path(&once), once);
    }
    assert_eq!(normalize_remote_path("///"), "/");
    assert_eq!(normalize_remote_path("/a//"), "/a");
}

#[test]
fn mirror_paths_follow_the_target() {
    let target = Target::parse("user@host:/a//b/").unwrap();
    assert_eq!(local_path_for_target("/m", &target), "/m/user-host/a/b");
    assert_eq!(local_path_for_target("/m/", &target), "/m/user-host/a/b");
    assert_eq!(metadata_dir("/m"), "/m/.editr-sessions");
    assert_eq!(metadata_dir(""), ".editr-sessions");
}

#[test]
fn session_names_carry_the_target_digest() {
    let target = Target::parse("host:/a/b").unwrap();
    assert_eq!(session_name_for_target(&target), "editr-host-b540cf0f4328");
    let other = Target::parse("host:/a/c").unwrap();
    assert_ne!(session_name_for_target(&target), session_name_for_target(&other));
    assert_eq!(selector_to_session("host:/a/b"), "editr-host-b540cf0f4328");
    assert_eq!(selector_to_session("editr-custom"), "editr-custom");
}

// --- name components ------------------------------------------------------

#[test]
fn name_components() {
    assert_eq!(hex_prefix(&[0xab, 0x01], 3), "ab0");
    assert_eq!(hex_prefix(&[0xab], 12), "ab");
    assert_eq!(hex_prefix(&[0xab], 0), "");
    assert_eq!(sanitize_component("--a b--"), "a-b");
    assert_eq!(sanitize_component("é"), "");
    assert_eq!(sanitize_component("x.y_z-1"), "x.y_z-1");
    assert_eq!(truncate_component("héllo", 2), "hé");
    assert_eq!(truncate_component("ab", 5), "ab");
}

#[test]
fn quoting() {
    assert_eq!(shell_quote(""), "''");
    assert_eq!(shell_quote("it's"), "'it'\\''s'");
    assert_eq!(applescript_escape("a\"b\\c"), "a\\\"b\\\\c");
}

#[test]
fn wildcard_star_in_text() {
    assert!(wildcard_match("a*c", "abbbc"));
    assert!(!wildcard_match("a*c", "abbbd"));
    assert!(wildcard_match("", ""));
    assert!(!wildcard_match("", "a"));
    assert!(wildcard_match("**", ""));
    assert!(wildcard_match("*a", "*ba"));
    assert!(wildcard_match("*", "*"));
    assert!(wildcard_match("a*", "a*"));
    assert!(wildcard_match("*ab", "aab"));
    assert!(wildcard_match("a*", "a"));
    assert!(!wildcard_match("a", "ab"));
}

// --- quantities -----------------------------------------------------------

#[test]
fn size_formulas() {
    assert_eq!(parse_size("1.5 kib").unwrap(), 1536);
    assert_eq!(parse_size(" 2 GB ").unwrap(), 2_000_000_000);
    assert_eq!(parse_size("0.5").unwrap(), 1);
    assert_eq!(parse_size("7").unwrap(), 7);
    assert_eq!(parse_size("1 tib").unwrap(), 1_099_511_627_776);
}

#[test]
fn size_errors() {
    assert!(matches!(parse_size(""), Err(QuantityError::Empty)));
    assert!(matches!(parse_size("   "), Err(QuantityError::Empty)));
    match parse_size("1.2.3") {
        Err(QuantityError::Invalid(text)) => assert_eq!(text, "1.2.3"),
        other => panic!("unexpected {other:?}"),
    }
    match parse_size("5 MB 3") {
        Err(QuantityError::Invalid(text)) => assert_eq!(text, "5 MB 3"),
        other => panic!("unexpected {other:?}"),
    }
    match parse_size("12 parsecs") {
        Err(QuantityError::UnknownUnit(unit)) => assert_eq!(unit, "parsecs"),
        other => panic!("unexpected {other:?}"),
    }
}

#[test]
fn duration_formulas() {
    assert_eq!(parse_duration("1.5h").unwrap(), Duration::from_secs(5400));
    assert_eq!(parse_duration("90").unwrap(), Duration::from_secs(90));
    assert_eq!(parse_duration("10 minutes").unwrap(), Duration::from_secs(600));
    assert_eq!(parse_duration_nanos("1.5s").unwrap(), 1_500_000_000);
    assert_eq!(parse_duration("0.25s").unwrap(), Duration::from_millis(250));
    assert!(matches!(parse_duration(""), Err(QuantityError::Empty)));
    assert!(matches!(parse_duration("3 days"), Err(QuantityError::UnknownUnit(_))));
}

// --- configuration --------------------------------------------------------

#[test]
fn ignore_table_keeps_key_order() {
    let mut table = IgnoreTable::new();
    table.insert("z*".to_string(), strings(&["z/"]));
    table.insert("*".to_string(), strings(&["g/"]));
    table.insert("h*".to_string(), strings(&["h/"]));
    table.insert("h*".to_string(), strings(&["h2/"]));
    assert_eq!(table.len(), 3);
    let config = Config {
        ignore: Some(table),
        ..Default::default()
    };
    assert_eq!(config_ignore_patterns(&config, "h:/x"), strings(&["g/", "h2/"]));
    assert_eq!(config_ignore_patterns(&config, "zz"), strings(&["g/", "z/"]));
    assert!(config_ignore_patterns(&Config::default(), "h:/x").is_empty());
}

#[test]
fn patterns_deduplicate_keeping_first_occurrences() {
    let mut patterns = strings(&["a", "b", "a", "c", "b"]);
    dedupe_patterns(&mut patterns);
    assert_eq!(patterns, strings(&["a", "b", "c"]));
    let mut again = patterns.clone();
    dedupe_patterns(&mut again);
    assert_eq!(again, patterns);
}

#[test]
fn home_relative_paths() {
    assert_eq!(expand_path("~/x", Some("/home/u")), "/home/u/x");
    assert_eq!(expand_path("~", Some("/home/u")), "/home/u");
    assert_eq!(expand_path("~user/x", Some("/home/u")), "~user/x");
    assert_eq!(expand_path("~/x", None), "~/x");
    assert_eq!(home_dir(Some("")), None);
    assert_eq!(home_dir(Some("/h")), Some("/h".to_string()));
    assert_eq!(default_local_root(None), "./remote");
    assert_eq!(default_local_root(Some("/h")), "/h/remote");
    let mut config = Config::default();
    assert_eq!(config_local_root(&config, Some("/h"), Some("/h")), "/h/remote");
    config.local_root = Some("~/mirrors".to_string());
    assert_eq!(config_local_root(&config, Some("/h"), Some("/t")), "/t/mirrors");
}

#[test]
fn configuration_file_location() {
    assert_eq!(
        config_path(None, Some("  "), Some("/h"), Some("/h")).unwrap(),
        "/h/.config/editr/config.toml"
    );
    assert_eq!(
        config_path(Some("~/c.toml"), Some("/e.toml"), None, Some("/t")).unwrap(),
        "/t/c.toml"
    );
    assert_eq!(config_path(None, Some("/e.toml"), None, None).unwrap(), "/e.toml");
    assert_eq!(config_path(None, None, Some(""), None), Err(ConfigPathError::NoHome));
}

// --- opening --------------------------------------------------------------

#[test]
fn resolving_an_open() {
    let mut table = IgnoreTable::new();
    table.insert("*".to_string(), strings(&["node_modules/"]));
    let config = Config {
        local_root: Some("~/remote".to_string()),
        editor: Some(" hx {path} ".to_string()),
        ignore: Some(table),
        ..Default::default()
    };
    let mut opts = options();
    opts.ignore = strings(&["", "x", "node_modules/"]);
    let resolved = resolve_open("host:/p/", &opts, &config, Some("/h"), Some("/h")).unwrap();
    assert_eq!(resolved.local_root, "/h/remote");
    assert_eq!(resolved.local_path, "/h/remote/host/p");
    assert_eq!(resolved.session_name, session_name_for_target(&resolved.target));
    let expected_record = format!("/h/remote/.editr-sessions/{}.toml", resolved.session_name);
    assert_eq!(resolved.metadata_file, expected_record);
    assert_eq!(resolved.editor, "hx {path}");
    assert_eq!(resolved.mode, "two-way-safe");
    assert!(resolved.sync_vcs);
    assert!(!resolved.keep_session);
    assert_eq!(resolved.ignore_patterns, strings(&["node_modules/", "x"]));
    assert!(resolved.bootstrap);
    let lines = plan_lines(&resolved);
    assert_eq!(lines.len(), 8);
    assert_eq!(lines[2], "Remote path:     host:/p");
    assert_eq!(lines[7], "Ignore patterns: node_modules/, x");
}

#[test]
fn resolving_refuses_blank_names() {
    let config = Config::default();
    let mut opts = options();
    opts.session_name = Some("  ".to_string());
    assert_eq!(
        resolve_open("host:/p", &opts, &config, None, None).unwrap_err(),
        OpenError::EmptySessionName
    );
    let mut opts = options();
    opts.editor = Some(" ".to_string());
    assert_eq!(
        resolve_open("host:/p", &opts, &config, None, None).unwrap_err(),
        OpenError::EmptyEditor
    );
    assert_eq!(
        resolve_open("host", &options(), &config, None, None).unwrap_err(),
        OpenError::Target(TargetError::MissingSeparator)
    );
}

#[test]
fn merging_options() {
    let mut base = options();
    base.mode = Some("one".to_string());
    base.ignore = strings(&["a"]);
    base.dry_run = true;
    let mut other = options();
    other.editor = Some("vim".to_string());
    other.ignore = strings(&["b"]);
    other.keep_session = true;
    base.merge(other);
    assert_eq!(base.mode.as_deref(), Some("one"));
    assert_eq!(base.editor.as_deref(), Some("vim"));
    assert_eq!(base.ignore, strings(&["a", "b"]));
    assert!(base.dry_run && base.keep_session);
}

fn resolved_for(path: &str) -> editr::open::ResolvedOpen {
    resolve_open(path, &options(), &Config::default(), Some("/h"), Some("/h")).unwrap()
}

#[test]
fn open_decisions() {
    let resolved = resolved_for("host:/p");
    let current = project_metadata(&resolved, 7, 100);
    assert!(!session_needs_reconfigure(&current, &resolved));
    assert_eq!(open_step(true, Some(&current), &resolved, true), Ok(OpenStep::Resume));
    let mut changed = project_metadata(&resolved, 7, 100);
    changed.mode = "one-way-safe".to_string();
    assert_eq!(open_step(true, Some(&changed), &resolved, true), Ok(OpenStep::Reconfigure));
    assert_eq!(open_step(true, None, &resolved, true), Err(OpenRefusal::UnmarkedMirror));
    assert_eq!(open_step(true, None, &resolved, false), Ok(OpenStep::Reconfigure));
    assert_eq!(open_step(false, Some(&current), &resolved, true), Err(OpenRefusal::StaleMirror));
    assert_eq!(open_step(false, None, &resolved, true), Err(OpenRefusal::UnmarkedBootstrap));
    assert_eq!(open_step(false, None, &resolved, false), Ok(OpenStep::Create));
    assert!(mirror_check_needed(false, false, &resolved));
    assert!(mirror_check_needed(false, true, &resolved));
    assert!(!mirror_check_needed(true, true, &resolved));
    assert!(OpenRefusal::UnmarkedBootstrap
        .message("/m")
        .contains("--no-bootstrap --allow-nonempty"));
    let mut no_bootstrap = options();
    no_bootstrap.no_bootstrap = true;
    let quiet = resolve_open("host:/p", &no_bootstrap, &Config::default(), None, None).unwrap();
    assert_eq!(open_step(false, None, &quiet, true), Err(OpenRefusal::NonEmptyMirror));
    assert!(OpenRefusal::NonEmptyMirror
        .message("/m")
        .starts_with("refusing to create a new sync session with a non-empty local mirror:\n  /m\n"));
}

#[test]
fn session_creation_arguments() {
    let resolved = resolved_for("host:/p");
    let steady = create_steady_session(&resolved);
    assert_eq!(&steady[..6], &strings(&["sync", "create", "--name", &resolved.session_name, "--mode", "two-way-safe"])[..]);
    assert_eq!(steady[steady.len() - 2], "/h/remote/host/p");
    assert_eq!(steady[steady.len() - 1], "host:/p");
    assert!(steady.contains(&"--no-ignore-vcs".to_string()));
    let bootstrap = bootstrap_create_args(&resolved);
    assert_eq!(bootstrap[3], format!("{}-bootstrap", resolved.session_name));
    assert_eq!(bootstrap[5], "one-way-replica");
    assert_eq!(bootstrap[bootstrap.len() - 2], "host:/p");
    let args = mutagen_create_command(
        "n",
        "m",
        false,
        &strings(&["x", "y"]),
        &vec![("k".to_string(), "v".to_string())],
        "a",
        "b",
    );
    assert_eq!(
        args,
        strings(&[
            "sync", "create", "--name", "n", "--mode", "m", "--label", "k=v", "--ignore-vcs", "-i", "x",
            "-i", "y", "a", "b"
        ])
    );
}

#[test]
fn labels() {
    let labels = mutagen_labels("s", SessionKind::Bootstrap, Some("p"));
    assert_eq!(
        labels,
        vec![
            ("editr".to_string(), "true".to_string()),
            ("editr.session".to_string(), "s".to_string()),
            ("editr.kind".to_string(), "bootstrap".to_string()),
            ("editr.project".to_string(), "p".to_string()),
        ]
    );
    let long = "editr-hydrate-editr-very-long-host-name-with-a-very-long-project-name-and-path-0123456789abcdef-bootstrap";
    assert_eq!(
        mutagen_label_value(long),
        "editr-hydrate-editr-very-long-host-name-with-a-ver-99d7ed009fa1"
    );
    assert_eq!(mutagen_label_value("a b"), "a-b");
}

// --- sessions -------------------------------------------------------------

#[test]
fn classifying_recorded_sessions() {
    let live = metadata(SessionKind::Hydration, "h");
    let stuck = record_for_metadata(&live, true, false, 50);
    assert_eq!(stuck.classification, SessionClassification::StuckHydration);
    assert_eq!(stuck.age_seconds, Some(0));
    let owned = record_for_metadata(&live, false, true, 50);
    assert_eq!(owned.classification, SessionClassification::Suspicious);
    let running = record_for_metadata(&live, true, true, 50);
    assert_eq!(running.classification, SessionClassification::Active);
    let active = record_for_metadata(&metadata(SessionKind::Project, "p"), true, true, 160);
    assert_eq!(active.classification, SessionClassification::Active);
    assert_eq!(active.age_seconds, Some(60));
    let mut kept = metadata(SessionKind::Project, "k");
    kept.keep_session = true;
    kept.created_at_unix = 0;
    let persistent = record_for_metadata(&kept, true, false, 160);
    assert_eq!(persistent.classification, SessionClassification::Persistent);
    assert_eq!(persistent.age_seconds, None);
    let mut ownerless = metadata(SessionKind::Project, "o");
    ownerless.owner_pid = None;
    let suspicious = record_for_metadata(&ownerless, true, true, 160);
    assert!(!suspicious.owner_alive);
    assert_eq!(suspicious.classification, SessionClassification::Suspicious);
}

#[test]
fn listing_sessions() {
    let recorded = vec![
        record_for_metadata(&metadata(SessionKind::Project, "editr-b"), true, true, 100),
        record_for_metadata(&metadata(SessionKind::Project, "editr-a"), true, true, 100),
    ];
    let running = strings(&["editr-c", "editr-b", "editr-0"]);
    let listed = merge_session_records(recorded, &running);
    let names: Vec<&str> = listed.iter().map(|r| r.session_name.as_str()).collect();
    assert_eq!(names, vec!["editr-0", "editr-a", "editr-b", "editr-c"]);
    assert_eq!(listed[0].classification, SessionClassification::Orphaned);
    assert_eq!(listed[3].classification, SessionClassification::Orphaned);
    assert_eq!(listed[1].classification, SessionClassification::Active);
    let orphan = orphan_record("editr-x".to_string());
    assert!(orphan.mutagen_session && orphan.target.is_none());
    assert_eq!(list_line(&orphan), "editr-x\tProject\tOrphaned\t-");
}

#[test]
fn recorded_session_names() {
    let files = strings(&["b.toml", ".toml", "a.b.toml", "c.context.json", "toml", "a.toml"]);
    assert_eq!(metadata_sessions(&files), strings(&["a", "a.b", "b"]));
    assert_eq!(sort_strings(&strings(&["b", "a", "b"])), strings(&["a", "b", "b"]));
}

#[test]
fn running_session_names() {
    let listing = "editr-a\n  editr-b \r\nother\n\neditr-\n";
    assert_eq!(
        editr_sessions_from_listing(listing),
        strings(&["editr-a", "editr-b", "editr-"])
    );
    assert!(listing_mentions_session("s1", true, "Name: s1\n", ""));
    assert!(listing_mentions_session("s1", true, "", "x Name: s1"));
    assert!(!listing_mentions_session("s1", false, "Name: s1", ""));
    assert!(!listing_mentions_session("s1", true, "Name: s2", ""));
}

#[test]
fn stopping_removes_session_files() {
    assert_eq!(
        remove_session_files("/m", "s", Some("/c.json".to_string())),
        strings(&["/c.json", "/m/.editr-sessions/s.context.json", "/m/.editr-sessions/s.toml"])
    );
    assert_eq!(remove_session_files("/m", "s", None).len(), 2);
}

// --- context and relative paths ------------------------------------------

#[test]
fn editor_context() {
    let resolved = resolved_for("host:/p");
    let context = editr_context(&resolved, "/bin/editr", Some("/real/p/"));
    assert_eq!(context.target, "host:/p");
    assert_eq!(context.metadata_dir, "/h/remote/.editr-sessions");
    assert_eq!(context.remote_path_aliases, strings(&["/real/p"]));
    assert!(remote_path_aliases(&resolved.target, Some("/p//")).is_empty());
    assert!(remote_path_aliases(&resolved.target, None).is_empty());
    let env = editor_environment(&context);
    assert_eq!(env[0], ("EDITR".to_string(), "1".to_string()));
    assert_eq!(env[7], ("EDITR_BIN".to_string(), "/bin/editr".to_string()));
    assert_eq!(env.len(), 8);
}

#[test]
fn relative_path_errors() {
    match relative_remote_path_for_root("/repo", "/repo/a/../b") {
        Err(RelativePathError::InvalidRelative(rel)) => assert_eq!(rel, "a/../b"),
        other => panic!("unexpected {other:?}"),
    }
    assert!(matches!(relative_remote_path_for_root("/repo/", "/repo"), Err(RelativePathError::RemoteRoot)));
    assert!(matches!(relative_remote_path_for_root("/repo", "/other"), Ok(None)));
    let aliases = strings(&["/alt"]);
    let error = relative_remote_path_with_aliases("/repo/", &aliases, "/x/").unwrap_err();
    assert_eq!(
        error.message(),
        "remote path is outside editr root:\n  root: /repo\n  path: /x\n  aliases: /alt"
    );
    let joined = relative_remote_path_with_aliases("/repo", &aliases, "/repo/a/b").unwrap();
    assert_eq!(format!("/repo/{joined}"), "/repo/a/b");
}

// --- hydration ------------------------------------------------------------

#[test]
fn hydration_names_and_settings() {
    assert_eq!(
        hydration_session_name("editr-host-project", "/repo/a.txt"),
        "editr-hydrate-editr-host-project-b79a5629e002"
    );
    let config = Config::default();
    assert_eq!(hydration_mode(None, &config), HydrationMode::Live);
    assert_eq!(hydration_mode(Some(HydrationMode::Oneshot), &config), HydrationMode::Oneshot);
    assert_eq!(max_size_text(None, &config), "25 MB");
    assert_eq!(max_size_text(Some("1 KB"), &config), "1 KB");
}

#[test]
fn hydration_flow() {
    let resolved = resolved_for("host:/repo");
    let context = editr_context(&resolved, "editr", None);
    let target = hydration_target(&context, "/repo/logs/run.txt/").unwrap();
    assert_eq!(target.remote_path, "/repo/logs/run.txt");
    assert_eq!(target.relative_path, "logs/run.txt");
    assert_eq!(target.local_path, "/h/remote/host/repo/logs/run.txt");
    assert!(hydration_target(&context, "/elsewhere").is_err());
    let name = hydration_session_name(&context.session_name, &target.remote_path);
    let response = hydrate_response(&target, &name, Some(30), false, HydrationMode::Live, 20);
    assert!(response.over_limit && !response.hydrated);
    assert_eq!(response.session_name.as_deref(), Some(name.as_str()));
    let once = hydrate_response(&target, &name, None, false, HydrationMode::Oneshot, 20);
    assert!(!once.over_limit && once.session_name.is_none());
    assert_eq!(hydrate_step(true, true, false, true, false, false), HydrateStep::Report);
    assert_eq!(hydrate_step(false, true, false, true, false, false), HydrateStep::RefuseLarge);
    assert_eq!(hydrate_step(false, true, true, true, false, false), HydrateStep::RefuseExisting);
    assert_eq!(hydrate_step(false, true, true, true, false, true), HydrateStep::Proceed);
    assert!(existing_check_needed(false, false, false, true, false));
    assert!(!existing_check_needed(false, false, false, true, true));
    let record = hydration_metadata(&context, &target.remote_path, &target.relative_path, &target.local_path, &name, 9, 5);
    assert!(existing_hydration_matches(Some(&record), &target.remote_path, &target.local_path));
    assert!(!existing_hydration_matches(Some(&record), "/repo/other", &target.local_path));
    assert!(!existing_hydration_matches(None, &target.remote_path, &target.local_path));
    let bootstrap = hydration_bootstrap_args(&context, &target.remote_path, &target.local_path, &name);
    assert_eq!(bootstrap[bootstrap.len() - 2], "host:/repo/logs/run.txt");
    let live = hydration_live_args(&context, &target.remote_path, &target.local_path, &name);
    assert_eq!(live[3], name);
    assert_eq!(live[live.len() - 1], "host:/repo/logs/run.txt");
}

// --- editor, ssh and processes --------------------------------------------

#[test]
fn editor_commands_and_cleanup() {
    assert_eq!(editor_shell_command("hx {path} {path}", "a b"), "hx 'a b' 'a b'");
    assert_eq!(editor_shell_command("  vim  ", ""), "vim ''");
    assert_eq!(cleanup_outcome(None, None), Ok(()));
    assert_eq!(
        cleanup_outcome(Some("f".to_string()), Some("t".to_string())).unwrap_err(),
        "final Mutagen flush failed and terminating the session also failed: f; t"
    );
    assert!(cleanup_outcome(None, Some("t".to_string())).unwrap_err().ends_with("failed: t"));
}

#[test]
fn remote_probes() {
    let target = Target::parse("h:/it's").unwrap();
    assert_eq!(remote_directory_command(&target, true), "mkdir -p '/it'\\''s'");
    assert_eq!(remote_directory_command(&target, false), "test -d '/it'\\''s'");
    assert_eq!(ssh_probe_command("h").last().unwrap(), "h");
    assert_eq!(ssh_probe_command("h").len(), 9);
    assert!(remote_size_command("/f").starts_with("p='/f'; if [ -d \"$p\" ]; then printf 'directory\\n'; exit 3; fi;"));
    assert_eq!(remote_file_size("/f", true, "file\t123\n").unwrap(), Some(123));
    assert_eq!(remote_file_size("/f", true, "file\t+7").unwrap(), Some(7));
    assert_eq!(remote_file_size("/f", true, "file\tabc").unwrap(), None);
    assert_eq!(remote_file_size("/f", true, "other").unwrap(), None);
    assert!(matches!(remote_file_size("/f", false, "directory\n"), Err(RemoteStatError::IsDirectory(_))));
    assert!(matches!(remote_file_size("/f", false, "missing"), Err(RemoteStatError::Missing(_))));
    assert_eq!(
        remote_file_size("/f", false, "").unwrap_err().message(),
        "failed to stat remote path: /f"
    );
    assert_eq!(remote_physical_path(true, "/real/p/\n"), Some("/real/p".to_string()));
    assert_eq!(remote_physical_path(true, "  \n"), None);
    assert_eq!(remote_physical_path(false, "/real"), None);
}

#[test]
fn process_messages() {
    assert_eq!(command_probe_script("mutagen"), "command -v 'mutagen' >/dev/null 2>&1");
    assert_eq!(
        command_failure_message("mutagen sync create", "exit status: 1", " out \n", "err", true),
        "mutagen sync create failed with status exit status: 1:\nout\nerr"
    );
    assert_eq!(
        command_failure_message("x", "s", "", " ", true),
        "x failed with status s"
    );
    assert_eq!(command_failure_message("x", "s", "out", "err", false), "x failed with status s");
}

// --- session manager --------------------------------------------------------

#[test]
fn command_scopes() {
    assert_eq!(session_scope(true, Some("x")).unwrap_err(), ScopeError::Conflict);
    assert!(matches!(session_scope(true, None), Ok(SessionScope::All)));
    assert!(matches!(session_scope(false, None), Ok(SessionScope::Unspecified)));
    match session_scope(false, Some("host:/a/b")) {
        Ok(SessionScope::One(name)) => assert_eq!(name, "editr-host-b540cf0f4328"),
        other => panic!("unexpected {other:?}"),
    }
}

#[test]
fn watcher_scans() {
    let mut stuck = metadata(SessionKind::Hydration, "h");
    stuck.created_at_unix = 10;
    let records = vec![
        record_for_metadata(&stuck, false, false, 1000),
        record_for_metadata(&metadata(SessionKind::Project, "p"), false, true, 1000),
        orphan_record("o".to_string()),
        record_for_metadata(&metadata(SessionKind::Project, "a"), true, true, 1000),
    ];
    let mut notified = Vec::new();
    let actions = watch_scan(&records, 600, true, &mut notified);
    assert_eq!(actions.len(), 3);
    assert!(matches!(&actions[0], WatchAction::Stop(name) if name == "h"));
    match &actions[1] {
        WatchAction::Notify { key, message } => {
            assert_eq!(key, "p:Suspicious");
            assert_eq!(message, "p is Suspicious");
        }
        other => panic!("unexpected {other:?}"),
    }
    assert_eq!(notified, strings(&["p:Suspicious", "o:Orphaned"]));
    let again = watch_scan(&records, 600, true, &mut notified);
    assert_eq!(again.len(), 1);
    assert_eq!(notified.len(), 2);
    let quiet = watch_scan(&records, 6000, false, &mut Vec::new());
    assert!(quiet.is_empty());
    assert_eq!(
        watch_report_lines(&records),
        strings(&["h: StuckHydration", "p: Suspicious", "o: Orphaned"])
    );
    let config = Config {
        watcher: Some(WatcherConfig { interval: None, notify: Some(false), auto_stop_hydration_after: None }),
        ..Default::default()
    };
    assert!(!watch_notify(false, false, &config));
    assert!(watch_notify(false, true, &config));
    assert!(!watch_notify(true, true, &config));
    let caps = capabilities("1.2.3");
    assert_eq!(caps.features, strings(&["context-v1", "hydrate-v1", "list-json-v1", "watch-v1"]));
}

#[test]
fn hydration_stages() {
    let mut stage = HydrationStage::TerminateStaleBootstrap;
    for outcome in [true, true, false] {
        stage = next_hydration_stage(stage, outcome, HydrationMode::Live);
    }
    assert_eq!(stage, HydrationStage::TerminateBootstrap { flushed: false });
    assert_eq!(next_hydration_stage(stage, true, HydrationMode::Live), HydrationStage::Failed);
    let flushed = HydrationStage::TerminateBootstrap { flushed: true };
    assert_eq!(next_hydration_stage(flushed, false, HydrationMode::Oneshot), HydrationStage::Done);
    assert_eq!(next_hydration_stage(flushed, false, HydrationMode::Live), HydrationStage::CheckLiveSession);
    assert_eq!(
        next_hydration_stage(HydrationStage::CheckLiveSession, true, HydrationMode::Live),
        HydrationStage::WriteRecord
    );
    assert_eq!(
        next_hydration_stage(HydrationStage::CheckLiveSession, false, HydrationMode::Live),
        HydrationStage::CreateLiveSession
    );
}

#[test]
fn open_stages() {
    let resolved = resolved_for("host:/p");
    let mut stage = OpenStage::Begin;
    let events = [
        OpenEvent::Succeeded,
        OpenEvent::Decided(OpenStep::Create),
        OpenEvent::Succeeded,
        OpenEvent::Succeeded,
        OpenEvent::Succeeded,
        OpenEvent::Failed,
    ];
    for event in events {
        stage = next_open_stage(stage, event, &resolved);
    }
    assert_eq!(stage, OpenStage::TerminateBootstrap { flushed: false });
    assert_eq!(next_open_stage(stage, OpenEvent::Succeeded, &resolved), OpenStage::Failed);
    assert_eq!(
        next_open_stage(OpenStage::RunEditor, OpenEvent::Failed, &resolved),
        OpenStage::Cleanup { editor_ok: false }
    );
    assert_eq!(
        next_open_stage(OpenStage::Cleanup { editor_ok: false }, OpenEvent::Failed, &resolved),
        OpenStage::Finished { editor_ok: false, cleanup_ok: false }
    );
    let mut dry = options();
    dry.dry_run = true;
    let dry_run = resolve_open("host:/p", &dry, &Config::default(), None, None).unwrap();
    assert_eq!(next_open_stage(OpenStage::Begin, OpenEvent::Succeeded, &dry_run), OpenStage::DryRunDone);
    assert_eq!(open_outcome(true, true), OpenOutcome::Success);
    assert_eq!(open_outcome(false, false), OpenOutcome::EditorFailedCleanupWarned);
    assert_eq!(open_outcome(true, false), OpenOutcome::CleanupFailed);
}

#[test]
fn generated_names_have_fixed_hash_length() {
    let long = "x".repeat(100);
    assert_eq!(mutagen_label_value(&long).len(), 63);
    let target = Target::parse("h@st:/p").unwrap();
    assert_eq!(session_name_for_target(&target).len(), "editr-".len() + "h-st".len() + 1 + 12);
    assert_eq!(hydration_session_name(&long, "/a").len(), "editr-hydrate-".len() + 40 + 1 + 12);
}
