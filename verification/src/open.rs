//! Opening a remote target: the options given, how they resolve against the
//! configuration, and the decisions taken before the mirror is synchronised.

use vstd::prelude::*;
use crate::text::{chars_of, owned, concat2, concat3, trim, trim_chars, string_of, opt_text, strings_text, join_strings, joined_with};
use crate::target::{Target, TargetError, target_error_text, target_reading, target_text, path_joined, join_path, local_path_of, local_path_for_target, session_name_of, session_name_for_target, metadata_dir};
use crate::config::{Config, config_patterns, config_ignore_patterns, deduped, dedupe_patterns, tilde_expanded, expand_path, configured_root, config_local_root};
use crate::session::{SessionMetadata, reconfigure_needed, session_needs_reconfigure};
use crate::mutagen::{SessionKind, create_args, labels_of, mutagen_create_command, mutagen_labels};

verus! {

/// The mirror's synchronisation mode when none is configured.
pub const DEFAULT_MODE: &'static str = "two-way-safe";

/// The editor command when none is configured.
pub const DEFAULT_EDITOR: &'static str = "nvim";

/// The characters of an optional string slice.
pub open spec fn opt_str(o: Option<&str>) -> Option<Seq<char>> {
    match o {
        Some(s) => Some(s@),
        None => None,
    }
}

/// Options of `editr open`; paths are as given, before `~` is expanded.
pub struct OpenOptions {
    pub local_root: Option<String>,
    pub local_path: Option<String>,
    pub session_name: Option<String>,
    pub config: Option<String>,
    pub ignore: Vec<String>,
    pub mode: Option<String>,
    pub editor: Option<String>,
    pub no_bootstrap: bool,
    pub create_remote: bool,
    pub allow_nonempty: bool,
    pub sync_vcs: bool,
    pub ignore_vcs: bool,
    pub keep_session: bool,
    pub dry_run: bool,
}

/// `later` when it is set, else `earlier`.
pub open spec fn prefer(later: Option<Seq<char>>, earlier: Option<Seq<char>>) -> Option<Seq<char>> {
    if later is Some {
        later
    } else {
        earlier
    }
}

fn take_preferred(slot: &mut Option<String>, value: Option<String>)
    ensures
        opt_text(*final(slot)) == prefer(opt_text(value), opt_text(*old(slot))),
{
    if value.is_some() {
        *slot = value;
    }
}

impl OpenOptions {
    /// Takes on `other`'s settings: its values win where it has them, its
    /// ignore patterns are appended, and each flag is set if either sets it.
    pub fn merge(&mut self, other: OpenOptions)
        ensures
            opt_text(final(self).local_root) == prefer(opt_text(other.local_root), opt_text(old(self).local_root)),
            opt_text(final(self).local_path) == prefer(opt_text(other.local_path), opt_text(old(self).local_path)),
            opt_text(final(self).session_name) == prefer(
                opt_text(other.session_name),
                opt_text(old(self).session_name),
            ),
            opt_text(final(self).config) == prefer(opt_text(other.config), opt_text(old(self).config)),
            strings_text(final(self).ignore@) == strings_text(old(self).ignore@) + strings_text(other.ignore@),
            opt_text(final(self).mode) == prefer(opt_text(other.mode), opt_text(old(self).mode)),
            opt_text(final(self).editor) == prefer(opt_text(other.editor), opt_text(old(self).editor)),
            final(self).no_bootstrap == (old(self).no_bootstrap || other.no_bootstrap),
            final(self).create_remote == (old(self).create_remote || other.create_remote),
            final(self).allow_nonempty == (old(self).allow_nonempty || other.allow_nonempty),
            final(self).sync_vcs == (old(self).sync_vcs || other.sync_vcs),
            final(self).ignore_vcs == (old(self).ignore_vcs || other.ignore_vcs),
            final(self).keep_session == (old(self).keep_session || other.keep_session),
            final(self).dry_run == (old(self).dry_run || other.dry_run),
    {
        let OpenOptions {
            local_root,
            local_path,
            session_name,
            config,
            mut ignore,
            mode,
            editor,
            no_bootstrap,
            create_remote,
            allow_nonempty,
            sync_vcs,
            ignore_vcs,
            keep_session,
            dry_run,
        } = other;
        take_preferred(&mut self.local_root, local_root);
        take_preferred(&mut self.local_path, local_path);
        take_preferred(&mut self.session_name, session_name);
        take_preferred(&mut self.config, config);
        let ghost before = self.ignore@;
        let ghost added = ignore@;
        self.ignore.append(&mut ignore);
        assert(strings_text(self.ignore@) =~= strings_text(before) + strings_text(added));
        take_preferred(&mut self.mode, mode);
        take_preferred(&mut self.editor, editor);
        self.no_bootstrap = self.no_bootstrap || no_bootstrap;
        self.create_remote = self.create_remote || create_remote;
        self.allow_nonempty = self.allow_nonempty || allow_nonempty;
        self.sync_vcs = self.sync_vcs || sync_vcs;
        self.ignore_vcs = self.ignore_vcs || ignore_vcs;
        self.keep_session = self.keep_session || keep_session;
        self.dry_run = self.dry_run || dry_run;
    }
}

/// Everything `editr open` needs to know about a target once the options and
/// the configuration are combined.
#[derive(Debug)]
pub struct ResolvedOpen {
    pub target: Target,
    pub local_root: String,
    pub local_path: String,
    pub session_name: String,
    pub metadata_file: String,
    pub context_file: String,
    pub editor: String,
    pub mode: String,
    pub sync_vcs: bool,
    pub keep_session: bool,
    pub ignore_patterns: Vec<String>,
    pub bootstrap: bool,
    pub create_remote: bool,
    pub allow_nonempty: bool,
    pub dry_run: bool,
}

/// Why a target could not be resolved.
#[derive(Debug, PartialEq, Eq, Structural)]
pub enum OpenError {
    /// The target is not `host:/absolute/path`.
    Target(TargetError),
    /// The session name is blank.
    EmptySessionName,
    /// The editor command is blank.
    EmptyEditor,
}

impl OpenError {
    /// The message shown for this error.
    pub fn message(&self) -> (m: String)
        ensures
            m@ == match *self {
                OpenError::Target(e) => target_error_text(e),
                OpenError::EmptySessionName => "session name cannot be empty"@,
                OpenError::EmptyEditor => "editor command cannot be empty"@,
            },
    {
        match self {
            OpenError::Target(e) => e.message(),
            OpenError::EmptySessionName => owned("session name cannot be empty"),
            OpenError::EmptyEditor => owned("editor command cannot be empty"),
        }
    }
}

/// The mirror root: the given one or the configured one, with `~` expanded.
pub open spec fn open_local_root(
    options: &OpenOptions,
    config: &Config,
    home_env: Option<Seq<char>>,
    tilde_home: Option<Seq<char>>,
) -> Seq<char> {
    let given = match &options.local_root {
        Some(p) => p@,
        None => configured_root(config, home_env, tilde_home),
    };
    tilde_expanded(given, tilde_home)
}

/// The mirror path: the given one with `~` expanded, or the target's place
/// under the root.
pub open spec fn open_local_path(
    options: &OpenOptions,
    root: Seq<char>,
    host: Seq<char>,
    path: Seq<char>,
    tilde_home: Option<Seq<char>>,
) -> Seq<char> {
    match &options.local_path {
        Some(p) => tilde_expanded(p@, tilde_home),
        None => local_path_of(root, host, path),
    }
}

/// The session name: the given one, or the target's.
pub open spec fn open_session_name(options: &OpenOptions, host: Seq<char>, path: Seq<char>) -> Seq<char> {
    match &options.session_name {
        Some(s) => s@,
        None => session_name_of(host, path),
    }
}

/// The editor command as chosen, before trimming.
pub open spec fn open_editor_choice(options: &OpenOptions, config: &Config) -> Seq<char> {
    match &options.editor {
        Some(e) => e@,
        None => match &config.editor {
            Some(e) => e@,
            None => DEFAULT_EDITOR@,
        },
    }
}

/// The synchronisation mode.
pub open spec fn open_mode(options: &OpenOptions, config: &Config) -> Seq<char> {
    match &options.mode {
        Some(m) => m@,
        None => match &config.mode {
            Some(m) => m@,
            None => DEFAULT_MODE@,
        },
    }
}

/// Whether VCS metadata is synchronised: `--ignore-vcs` wins over
/// `--sync-vcs`, which wins over the configuration; the default is yes.
pub open spec fn open_sync_vcs(options: &OpenOptions, config: &Config) -> bool {
    if options.ignore_vcs {
        false
    } else if options.sync_vcs {
        true
    } else {
        match config.sync_vcs {
            Some(b) => b,
            None => true,
        }
    }
}

/// Whether the session outlives the editor.
pub open spec fn open_keep_session(options: &OpenOptions, config: &Config) -> bool {
    options.keep_session || match config.keep_session {
        Some(b) => b,
        None => false,
    }
}

/// `s` without its empty strings.
pub open spec fn non_empty_only(s: Seq<Seq<char>>) -> Seq<Seq<char>>
    decreases s.len(),
{
    if s.len() == 0 {
        Seq::empty()
    } else if s.last().len() == 0 {
        non_empty_only(s.drop_last())
    } else {
        non_empty_only(s.drop_last()).push(s.last())
    }
}

/// The ignore patterns: the configured ones for the target, then the non-empty
/// ones given, each kept once.
pub open spec fn open_ignore_patterns(options: &OpenOptions, config: &Config, host: Seq<char>, path: Seq<char>) -> Seq<
    Seq<char>,
> {
    deduped(config_patterns(config, target_text(host, path)) + non_empty_only(strings_text(options.ignore@)))
}

/// Whether `r` is what the target `host`/`path` resolves to.
pub open spec fn resolved_as(
    r: &ResolvedOpen,
    options: &OpenOptions,
    config: &Config,
    host: Seq<char>,
    path: Seq<char>,
    home_env: Option<Seq<char>>,
    tilde_home: Option<Seq<char>>,
) -> bool {
    let root = open_local_root(options, config, home_env, tilde_home);
    let dir = path_joined(root, ".editr-sessions"@);
    let session = open_session_name(options, host, path);
    &&& r.target.host@ == host
    &&& r.target.path@ == path
    &&& r.local_root@ == root
    &&& r.local_path@ == open_local_path(options, root, host, path, tilde_home)
    &&& r.session_name@ == session
    &&& r.metadata_file@ == path_joined(dir, session + ".toml"@)
    &&& r.context_file@ == path_joined(dir, session + ".context.json"@)
    &&& r.editor@ == trim(open_editor_choice(options, config))
    &&& r.mode@ == open_mode(options, config)
    &&& r.sync_vcs == open_sync_vcs(options, config)
    &&& r.keep_session == open_keep_session(options, config)
    &&& strings_text(r.ignore_patterns@) == open_ignore_patterns(options, config, host, path)
    &&& r.bootstrap == !options.no_bootstrap
    &&& r.create_remote == options.create_remote
    &&& r.allow_nonempty == options.allow_nonempty
    &&& r.dry_run == options.dry_run
}

/// What is given on the command line wins over the configuration, which wins
/// over the defaults: the mode, the editor, the session name and the mirror
/// path; `--ignore-vcs` turns VCS sync off and `--sync-vcs` on, before the
/// configuration is asked; `--keep-session` keeps the session whatever the
/// configuration says.
pub proof fn lemma_open_choices_precedence(options: &OpenOptions, config: &Config, host: Seq<char>, path: Seq<char>, root: Seq<char>, tilde_home: Option<Seq<char>>)
    ensures
        options.mode matches Some(m) ==> open_mode(options, config) == m@,
        options.mode is None && config.mode is Some ==> open_mode(options, config) == config.mode->0@,
        options.mode is None && config.mode is None ==> open_mode(options, config) == "two-way-safe"@,
        options.editor matches Some(e) ==> open_editor_choice(options, config) == e@,
        options.editor is None && config.editor is Some ==> open_editor_choice(options, config) == config.editor->0@,
        options.editor is None && config.editor is None ==> open_editor_choice(options, config) == "nvim"@,
        options.session_name matches Some(s) ==> open_session_name(options, host, path) == s@,
        options.local_path matches Some(p) ==> open_local_path(options, root, host, path, tilde_home) == tilde_expanded(
            p@,
            tilde_home,
        ),
        options.ignore_vcs ==> !open_sync_vcs(options, config),
        !options.ignore_vcs && options.sync_vcs ==> open_sync_vcs(options, config),
        !options.ignore_vcs && !options.sync_vcs && config.sync_vcs is Some ==> open_sync_vcs(options, config)
            == config.sync_vcs->0,
        !options.ignore_vcs && !options.sync_vcs && config.sync_vcs is None ==> open_sync_vcs(options, config),
        options.keep_session ==> open_keep_session(options, config),
        !options.keep_session ==> open_keep_session(options, config) == (config.keep_session == Some(true)),
{
    reveal_strlit("two-way-safe");
    reveal_strlit("nvim");
}

/// A resolved open takes the mode, the editor command (trimmed) and the
/// session name given on the command line, whatever the configuration says.
pub proof fn lemma_resolved_follows_options(
    r: &ResolvedOpen,
    options: &OpenOptions,
    config: &Config,
    host: Seq<char>,
    path: Seq<char>,
    home_env: Option<Seq<char>>,
    tilde_home: Option<Seq<char>>,
)
    requires
        resolved_as(r, options, config, host, path, home_env, tilde_home),
    ensures
        options.mode matches Some(m) ==> r.mode@ == m@,
        options.editor matches Some(e) ==> r.editor@ == trim(e@),
        options.session_name matches Some(s) ==> r.session_name@ == s@,
        options.ignore_vcs ==> !r.sync_vcs,
        options.keep_session ==> r.keep_session,
        r.bootstrap == !options.no_bootstrap,
{
}

fn first_of(a: &Option<String>, b: &Option<String>, fallback: &str) -> (r: String)
    ensures
        r@ == match opt_text(*a) {
            Some(x) => x,
            None => match opt_text(*b) {
                Some(y) => y,
                None => fallback@,
            },
        },
{
    match a {
        Some(x) => x.clone(),
        None => match b {
            Some(y) => y.clone(),
            None => owned(fallback),
        },
    }
}

fn extend_non_empty(patterns: &mut Vec<String>, extra: &Vec<String>)
    ensures
        strings_text(final(patterns)@) == strings_text(old(patterns)@) + non_empty_only(strings_text(extra@)),
{
    let ghost start = strings_text(patterns@);
    let mut i: usize = 0;
    assert(strings_text(extra@.take(0)) =~= Seq::<Seq<char>>::empty());
    assert(start + Seq::<Seq<char>>::empty() =~= start);
    while i < extra.len()
        invariant
            i <= extra.len(),
            strings_text(patterns@) == start + non_empty_only(strings_text(extra@.take(i as int))),
        decreases extra.len() - i,
    {
        assert(strings_text(extra@.take(i + 1)).drop_last() =~= strings_text(extra@.take(i as int)));
        let c = chars_of(extra[i].as_str());
        if c.len() > 0 {
            let ghost before = strings_text(patterns@);
            patterns.push(extra[i].clone());
            assert(strings_text(patterns@) =~= before.push(extra@[i as int]@));
        }
        i += 1;
    }
    assert(extra@.take(extra.len() as int) =~= extra@);
}

/// Combines the target, the options and the configuration into everything an
/// open needs. `home_env` is `HOME` as set; `tilde_home` is the home directory
/// that `~` stands for.
pub fn resolve_open(
    target: &str,
    options: &OpenOptions,
    config: &Config,
    home_env: Option<&str>,
    tilde_home: Option<&str>,
) -> (r: Result<ResolvedOpen, OpenError>)
    ensures
        match target_reading(target@) {
            Err(e) => r == Err::<ResolvedOpen, OpenError>(OpenError::Target(e)),
            Ok((host, path)) => if trim(open_session_name(options, host, path)).len() == 0 {
                r == Err::<ResolvedOpen, OpenError>(OpenError::EmptySessionName)
            } else if trim(open_editor_choice(options, config)).len() == 0 {
                r == Err::<ResolvedOpen, OpenError>(OpenError::EmptyEditor)
            } else {
                r matches Ok(x) && resolved_as(&x, options, config, host, path, opt_str(home_env), opt_str(tilde_home))
            },
        },
{
    let target = match Target::parse(target) {
        Ok(t) => t,
        Err(e) => return Err(OpenError::Target(e)),
    };
    let given_root = match &options.local_root {
        Some(p) => p.clone(),
        None => config_local_root(config, home_env, tilde_home),
    };
    let local_root = expand_path(given_root.as_str(), tilde_home);
    let local_path = match &options.local_path {
        Some(p) => expand_path(p.as_str(), tilde_home),
        None => local_path_for_target(local_root.as_str(), &target),
    };
    let session_name = match &options.session_name {
        Some(s) => s.clone(),
        None => session_name_for_target(&target),
    };
    let sc = chars_of(session_name.as_str());
    let st = trim_chars(sc.as_slice());
    if st.len() == 0 {
        return Err(OpenError::EmptySessionName);
    }
    let dir = metadata_dir(local_root.as_str());
    let metadata_name = concat2(session_name.as_str(), ".toml");
    let metadata_file = join_path(dir.as_str(), metadata_name.as_str());
    let context_name = concat2(session_name.as_str(), ".context.json");
    let context_file = join_path(dir.as_str(), context_name.as_str());
    let chosen_editor = first_of(&options.editor, &config.editor, DEFAULT_EDITOR);
    let ec = chars_of(chosen_editor.as_str());
    let et = trim_chars(ec.as_slice());
    if et.len() == 0 {
        return Err(OpenError::EmptyEditor);
    }
    let editor = string_of(et.as_slice());
    let mode = first_of(&options.mode, &config.mode, DEFAULT_MODE);
    let sync_vcs = if options.ignore_vcs {
        false
    } else if options.sync_vcs {
        true
    } else {
        match config.sync_vcs {
            Some(b) => b,
            None => true,
        }
    };
    let keep_session = options.keep_session || match config.keep_session {
        Some(b) => b,
        None => false,
    };
    let text = target.to_string();
    let mut ignore_patterns = config_ignore_patterns(config, text.as_str());
    extend_non_empty(&mut ignore_patterns, &options.ignore);
    dedupe_patterns(&mut ignore_patterns);
    Ok(ResolvedOpen {
        target,
        local_root,
        local_path,
        session_name,
        metadata_file,
        context_file,
        editor,
        mode,
        sync_vcs,
        keep_session,
        ignore_patterns,
        bootstrap: !options.no_bootstrap,
        create_remote: options.create_remote,
        allow_nonempty: options.allow_nonempty,
        dry_run: options.dry_run,
    })
}

// ---------------------------------------------------------------------------
// The plan
// ---------------------------------------------------------------------------

/// The lines that describe what an open will do.
pub open spec fn plan_text(r: &ResolvedOpen) -> Seq<Seq<char>> {
    let lines = seq![
        "Mutagen session: "@ + r.session_name@,
        "Local mirror:    "@ + r.local_path@,
        "Remote path:     "@ + target_text(r.target.host@, r.target.path@),
        "Editor:          "@ + r.editor@,
        "Mode:            "@ + r.mode@,
        "VCS metadata:    "@ + if r.sync_vcs { "sync"@ } else { "ignore"@ },
        "Session:         "@ + if r.keep_session {
            "keep after editor exits"@
        } else {
            "terminate after editor exits"@
        },
    ];
    if r.ignore_patterns@.len() > 0 {
        lines.push("Ignore patterns: "@ + joined_with(strings_text(r.ignore_patterns@), ", "@))
    } else {
        lines
    }
}

/// The lines that describe what an open of `resolved` will do.
pub fn plan_lines(resolved: &ResolvedOpen) -> (lines: Vec<String>)
    ensures
        strings_text(lines@) == plan_text(resolved),
{
    let mut lines: Vec<String> = Vec::new();
    lines.push(concat2("Mutagen session: ", resolved.session_name.as_str()));
    lines.push(concat2("Local mirror:    ", resolved.local_path.as_str()));
    let text = resolved.target.to_string();
    lines.push(concat2("Remote path:     ", text.as_str()));
    lines.push(concat2("Editor:          ", resolved.editor.as_str()));
    lines.push(concat2("Mode:            ", resolved.mode.as_str()));
    lines.push(concat2("VCS metadata:    ", if resolved.sync_vcs { "sync" } else { "ignore" }));
    lines.push(
        concat2(
            "Session:         ",
            if resolved.keep_session {
                "keep after editor exits"
            } else {
                "terminate after editor exits"
            },
        ),
    );
    if resolved.ignore_patterns.len() > 0 {
        let joined = join_strings(&resolved.ignore_patterns, ", ");
        lines.push(concat2("Ignore patterns: ", joined.as_str()));
    }
    assert(strings_text(lines@) =~= plan_text(resolved));
    lines
}

// ---------------------------------------------------------------------------
// Deciding how to start
// ---------------------------------------------------------------------------

/// How an open proceeds once the checks pass.
#[derive(Clone, Copy, Debug, PartialEq, Eq, Structural)]
pub enum OpenStep {
    /// Resume the existing session unchanged.
    Resume,
    /// Flush, terminate and recreate the existing session.
    Reconfigure,
    /// Create a new session, after refreshing the mirror when bootstrapping.
    Create,
}

/// Why an open refuses to touch the mirror.
#[derive(Clone, Copy, Debug, PartialEq, Eq, Structural)]
pub enum OpenRefusal {
    /// A session exists, but nothing records that this mirror belongs to it.
    UnmarkedMirror,
    /// A record of an earlier session exists, but the session does not.
    StaleMirror,
    /// A new session would start from a non-empty mirror without bootstrap.
    NonEmptyMirror,
    /// A new session would bootstrap over a non-empty mirror that no record
    /// marks as editr's.
    UnmarkedBootstrap,
}

impl OpenRefusal {
    /// The message shown for this refusal of the mirror at `local_path`.
    pub fn message(&self, local_path: &str) -> (m: String)
        ensures
            m@ == match *self {
                OpenRefusal::UnmarkedMirror => "refusing to resume an existing Mutagen session with an unmarked non-empty local mirror:\n  "@
                    + local_path@ + "\npass --allow-nonempty once if this is already the correct editr mirror"@,
                OpenRefusal::StaleMirror => "found editr metadata for a previous session, but no active Mutagen session:\n  "@
                    + local_path@
                    + "\nrefusing to bootstrap over a possibly dirty local mirror. Reopen with --no-bootstrap --allow-nonempty to reconcile, or inspect/remove the mirror intentionally."@,
                OpenRefusal::NonEmptyMirror => "refusing to create a new sync session with a non-empty local mirror:\n  "@
                    + local_path@
                    + "\nenable the default bootstrap, move the directory, or pass --allow-nonempty intentionally"@,
                OpenRefusal::UnmarkedBootstrap => "refusing to bootstrap over an unmarked non-empty local mirror:\n  "@
                    + local_path@
                    + "\nbootstrapping could push stray local files to the remote. If this is already the correct editr mirror, reopen with --no-bootstrap --allow-nonempty; otherwise inspect or move the mirror first."@,
            },
    {
        match self {
            OpenRefusal::UnmarkedMirror => concat3(
                "refusing to resume an existing Mutagen session with an unmarked non-empty local mirror:\n  ",
                local_path,
                "\npass --allow-nonempty once if this is already the correct editr mirror",
            ),
            OpenRefusal::StaleMirror => concat3(
                "found editr metadata for a previous session, but no active Mutagen session:\n  ",
                local_path,
                "\nrefusing to bootstrap over a possibly dirty local mirror. Reopen with --no-bootstrap --allow-nonempty to reconcile, or inspect/remove the mirror intentionally.",
            ),
            OpenRefusal::NonEmptyMirror => concat3(
                "refusing to create a new sync session with a non-empty local mirror:\n  ",
                local_path,
                "\nenable the default bootstrap, move the directory, or pass --allow-nonempty intentionally",
            ),
            OpenRefusal::UnmarkedBootstrap => concat3(
                "refusing to bootstrap over an unmarked non-empty local mirror:\n  ",
                local_path,
                "\nbootstrapping could push stray local files to the remote. If this is already the correct editr mirror, reopen with --no-bootstrap --allow-nonempty; otherwise inspect or move the mirror first.",
            ),
        }
    }
}

/// Whether the decision depends on whether the mirror is empty.
pub open spec fn mirror_check_matters(session_exists: bool, has_metadata: bool, allow_nonempty: bool) -> bool {
    !allow_nonempty && (session_exists ==> !has_metadata)
}

/// How an open proceeds, or why it refuses. `reconfigure` is, when a session
/// record exists, whether it differs from the resolved open.
pub open spec fn open_decision(
    session_exists: bool,
    reconfigure: Option<bool>,
    allow_nonempty: bool,
    bootstrap: bool,
    mirror_nonempty: bool,
) -> Result<OpenStep, OpenRefusal> {
    if session_exists {
        match reconfigure {
            Some(true) => Ok(OpenStep::Reconfigure),
            Some(false) => Ok(OpenStep::Resume),
            None => if !allow_nonempty && mirror_nonempty {
                Err(OpenRefusal::UnmarkedMirror)
            } else {
                Ok(OpenStep::Reconfigure)
            },
        }
    } else if reconfigure is Some && !allow_nonempty && mirror_nonempty {
        Err(OpenRefusal::StaleMirror)
    } else if !allow_nonempty && mirror_nonempty {
        if bootstrap {
            Err(OpenRefusal::UnmarkedBootstrap)
        } else {
            Err(OpenRefusal::NonEmptyMirror)
        }
    } else {
        Ok(OpenStep::Create)
    }
}

/// Whether the mirror must be inspected before deciding.
pub fn mirror_check_needed(session_exists: bool, has_metadata: bool, resolved: &ResolvedOpen) -> (needed: bool)
    ensures
        needed == mirror_check_matters(session_exists, has_metadata, resolved.allow_nonempty),
{
    !resolved.allow_nonempty && (!session_exists || !has_metadata)
}

/// How an open of `resolved` proceeds given whether its session exists, the
/// session record found (if any) and whether the mirror holds anything.
pub fn open_step(
    session_exists: bool,
    metadata: Option<&SessionMetadata>,
    resolved: &ResolvedOpen,
    mirror_nonempty: bool,
) -> (r: Result<OpenStep, OpenRefusal>)
    ensures
        r == open_decision(
            session_exists,
            match metadata {
                Some(m) => Some(reconfigure_needed(m, resolved)),
                None => None,
            },
            resolved.allow_nonempty,
            resolved.bootstrap,
            mirror_nonempty,
        ),
{
    if session_exists {
        match metadata {
            Some(m) => {
                if session_needs_reconfigure(m, resolved) {
                    Ok(OpenStep::Reconfigure)
                } else {
                    Ok(OpenStep::Resume)
                }
            },
            None => {
                if !resolved.allow_nonempty && mirror_nonempty {
                    Err(OpenRefusal::UnmarkedMirror)
                } else {
                    Ok(OpenStep::Reconfigure)
                }
            },
        }
    } else if metadata.is_some() && !resolved.allow_nonempty && mirror_nonempty {
        Err(OpenRefusal::StaleMirror)
    } else if !resolved.allow_nonempty && mirror_nonempty {
        if resolved.bootstrap {
            Err(OpenRefusal::UnmarkedBootstrap)
        } else {
            Err(OpenRefusal::NonEmptyMirror)
        }
    } else {
        Ok(OpenStep::Create)
    }
}

/// When the mirror need not be inspected, what it holds does not change the
/// decision.
pub proof fn lemma_unneeded_check_is_irrelevant(
    session_exists: bool,
    reconfigure: Option<bool>,
    allow_nonempty: bool,
    bootstrap: bool,
)
    requires
        !mirror_check_matters(session_exists, reconfigure is Some, allow_nonempty),
    ensures
        open_decision(session_exists, reconfigure, allow_nonempty, bootstrap, true) == open_decision(
            session_exists,
            reconfigure,
            allow_nonempty,
            bootstrap,
            false,
        ),
{
}

/// What each decision means: a new session is created only when none
/// exists; an existing session is resumed only when its record matches, and
/// recreated when the record differs or is missing; with `--allow-nonempty`,
/// or with an empty mirror, an open is never refused.
pub proof fn lemma_open_decision_meaning(
    session_exists: bool,
    reconfigure: Option<bool>,
    allow_nonempty: bool,
    bootstrap: bool,
    mirror_nonempty: bool,
)
    ensures
        ({
            let d = open_decision(session_exists, reconfigure, allow_nonempty, bootstrap, mirror_nonempty);
            &&& d == Ok::<OpenStep, OpenRefusal>(OpenStep::Create) ==> !session_exists
            &&& d == Ok::<OpenStep, OpenRefusal>(OpenStep::Resume) ==> session_exists && reconfigure == Some(false)
            &&& session_exists && reconfigure == Some(true) ==> d == Ok::<OpenStep, OpenRefusal>(OpenStep::Reconfigure)
            &&& session_exists && reconfigure == Some(false) ==> d == Ok::<OpenStep, OpenRefusal>(OpenStep::Resume)
            &&& !session_exists ==> d is Err || d == Ok::<OpenStep, OpenRefusal>(OpenStep::Create)
            &&& (allow_nonempty || !mirror_nonempty) ==> d is Ok
            &&& d == Err::<OpenStep, OpenRefusal>(OpenRefusal::UnmarkedBootstrap) ==> !session_exists && reconfigure is None && bootstrap
            &&& d == Err::<OpenStep, OpenRefusal>(OpenRefusal::StaleMirror) ==> !session_exists && reconfigure is Some
            &&& d == Err::<OpenStep, OpenRefusal>(OpenRefusal::UnmarkedMirror) ==> session_exists && reconfigure is None
            &&& d == Err::<OpenStep, OpenRefusal>(OpenRefusal::NonEmptyMirror) ==> !session_exists && reconfigure is None
                && !bootstrap
        }),
{
}

/// An open never refuses a mirror that is empty, nor one it may take over.
pub proof fn lemma_refusals_need_unmarked_content(
    session_exists: bool,
    reconfigure: Option<bool>,
    allow_nonempty: bool,
    bootstrap: bool,
    mirror_nonempty: bool,
)
    requires
        open_decision(session_exists, reconfigure, allow_nonempty, bootstrap, mirror_nonempty) is Err,
    ensures
        mirror_nonempty,
        !allow_nonempty,
{
}

// ---------------------------------------------------------------------------
// Carrying out an open
// ---------------------------------------------------------------------------

/// A step of carrying out an open, after its plan has been printed.
#[derive(Clone, Copy, Debug, PartialEq, Eq, Structural)]
pub enum OpenStage {
    /// Nothing done yet.
    Begin,
    /// Check for `mutagen` and `ssh`, create the mirror and record
    /// directories, look at the session, its record and the mirror, and decide
    /// how to proceed.
    Prepare,
    /// Check (or create) the remote directory, then proceed as `step` says.
    EnsureRemote { step: OpenStep },
    /// Resume the existing session; its outcome does not matter.
    ResumeSession,
    /// Resume the existing session before recreating it; its outcome does not
    /// matter.
    ResumeBeforeReconfigure,
    /// Flush the existing session before recreating it.
    FlushBeforeReconfigure,
    /// Terminate the existing session before recreating it.
    TerminateBeforeReconfigure,
    /// Terminate a bootstrap session left over from an earlier run; its
    /// outcome does not matter.
    TerminateStaleBootstrap,
    /// Create the one-shot session that refreshes the mirror from the remote.
    CreateBootstrap,
    /// Flush the bootstrap session.
    FlushBootstrap,
    /// Terminate the bootstrap session; `flushed` is whether its flush
    /// succeeded.
    TerminateBootstrap { flushed: bool },
    /// Create the project's steady session.
    CreateSession,
    /// Write the session record.
    WriteRecord,
    /// Flush the steady session.
    FlushSession,
    /// Write the editor context.
    WriteContext,
    /// Install the handler that terminates the session on a signal.
    InstallCleanup,
    /// Run the editor.
    RunEditor,
    /// Flush and terminate the session after the editor; `editor_ok` is
    /// whether the editor succeeded.
    Cleanup { editor_ok: bool },
    /// Everything has run; the outcome follows from `editor_ok` and
    /// `cleanup_ok` (see [`open_outcome`]).
    Finished { editor_ok: bool, cleanup_ok: bool },
    /// A dry run: nothing is done.
    DryRunDone,
    /// A step failed before the editor ran; its error is reported.
    Failed,
}

/// What a step of an open gave.
#[derive(Clone, Copy, Debug, PartialEq, Eq, Structural)]
pub enum OpenEvent {
    /// The step succeeded.
    Succeeded,
    /// The step failed.
    Failed,
    /// [`OpenStage::Prepare`] succeeded and decided how to proceed.
    Decided(OpenStep),
}

/// Whether an event reports success.
pub open spec fn event_ok(e: OpenEvent) -> bool {
    !(e is Failed)
}

/// The step after `stage`, given what `stage` gave, for an open that is a dry
/// run or not, bootstraps or not, and keeps its session or not.
pub open spec fn open_successor(stage: OpenStage, event: OpenEvent, dry_run: bool, bootstrap: bool, keep_session: bool) -> OpenStage {
    let ok = event_ok(event);
    match stage {
        OpenStage::Begin => if dry_run {
            OpenStage::DryRunDone
        } else {
            OpenStage::Prepare
        },
        OpenStage::Prepare => match event {
            OpenEvent::Decided(step) => OpenStage::EnsureRemote { step },
            _ => OpenStage::Failed,
        },
        OpenStage::EnsureRemote { step } => if !ok {
            OpenStage::Failed
        } else {
            match step {
                OpenStep::Resume => OpenStage::ResumeSession,
                OpenStep::Reconfigure => OpenStage::ResumeBeforeReconfigure,
                OpenStep::Create => if bootstrap {
                    OpenStage::TerminateStaleBootstrap
                } else {
                    OpenStage::CreateSession
                },
            }
        },
        OpenStage::ResumeSession => OpenStage::WriteRecord,
        OpenStage::ResumeBeforeReconfigure => OpenStage::FlushBeforeReconfigure,
        OpenStage::FlushBeforeReconfigure => if ok {
            OpenStage::TerminateBeforeReconfigure
        } else {
            OpenStage::Failed
        },
        OpenStage::TerminateBeforeReconfigure => if ok {
            OpenStage::CreateSession
        } else {
            OpenStage::Failed
        },
        OpenStage::TerminateStaleBootstrap => OpenStage::CreateBootstrap,
        OpenStage::CreateBootstrap => if ok {
            OpenStage::FlushBootstrap
        } else {
            OpenStage::Failed
        },
        OpenStage::FlushBootstrap => OpenStage::TerminateBootstrap { flushed: ok },
        OpenStage::TerminateBootstrap { flushed } => if flushed {
            OpenStage::CreateSession
        } else {
            OpenStage::Failed
        },
        OpenStage::CreateSession => if ok {
            OpenStage::WriteRecord
        } else {
            OpenStage::Failed
        },
        OpenStage::WriteRecord => if ok {
            OpenStage::FlushSession
        } else {
            OpenStage::Failed
        },
        OpenStage::FlushSession => if ok {
            OpenStage::WriteContext
        } else {
            OpenStage::Failed
        },
        OpenStage::WriteContext => if !ok {
            OpenStage::Failed
        } else if keep_session {
            OpenStage::RunEditor
        } else {
            OpenStage::InstallCleanup
        },
        OpenStage::InstallCleanup => if ok {
            OpenStage::RunEditor
        } else {
            OpenStage::Failed
        },
        OpenStage::RunEditor => if keep_session {
            OpenStage::Finished { editor_ok: ok, cleanup_ok: true }
        } else {
            OpenStage::Cleanup { editor_ok: ok }
        },
        OpenStage::Cleanup { editor_ok } => OpenStage::Finished { editor_ok, cleanup_ok: ok },
        OpenStage::Finished { editor_ok, cleanup_ok } => OpenStage::Finished { editor_ok, cleanup_ok },
        OpenStage::DryRunDone => OpenStage::DryRunDone,
        OpenStage::Failed => OpenStage::Failed,
    }
}

/// The step after `stage` in an open of `resolved` (see [`open_successor`]).
pub fn next_open_stage(stage: OpenStage, event: OpenEvent, resolved: &ResolvedOpen) -> (next: OpenStage)
    ensures
        next == open_successor(stage, event, resolved.dry_run, resolved.bootstrap, resolved.keep_session),
{
    let ok = match event {
        OpenEvent::Failed => false,
        _ => true,
    };
    match stage {
        OpenStage::Begin => if resolved.dry_run {
            OpenStage::DryRunDone
        } else {
            OpenStage::Prepare
        },
        OpenStage::Prepare => match event {
            OpenEvent::Decided(step) => OpenStage::EnsureRemote { step },
            _ => OpenStage::Failed,
        },
        OpenStage::EnsureRemote { step } => if !ok {
            OpenStage::Failed
        } else {
            match step {
                OpenStep::Resume => OpenStage::ResumeSession,
                OpenStep::Reconfigure => OpenStage::ResumeBeforeReconfigure,
                OpenStep::Create => if resolved.bootstrap {
                    OpenStage::TerminateStaleBootstrap
                } else {
                    OpenStage::CreateSession
                },
            }
        },
        OpenStage::ResumeSession => OpenStage::WriteRecord,
        OpenStage::ResumeBeforeReconfigure => OpenStage::FlushBeforeReconfigure,
        OpenStage::FlushBeforeReconfigure => if ok {
            OpenStage::TerminateBeforeReconfigure
        } else {
            OpenStage::Failed
        },
        OpenStage::TerminateBeforeReconfigure => if ok {
            OpenStage::CreateSession
        } else {
            OpenStage::Failed
        },
        OpenStage::TerminateStaleBootstrap => OpenStage::CreateBootstrap,
        OpenStage::CreateBootstrap => if ok {
            OpenStage::FlushBootstrap
        } else {
            OpenStage::Failed
        },
        OpenStage::FlushBootstrap => OpenStage::TerminateBootstrap { flushed: ok },
        OpenStage::TerminateBootstrap { flushed } => if flushed {
            OpenStage::CreateSession
        } else {
            OpenStage::Failed
        },
        OpenStage::CreateSession => if ok {
            OpenStage::WriteRecord
        } else {
            OpenStage::Failed
        },
        OpenStage::WriteRecord => if ok {
            OpenStage::FlushSession
        } else {
            OpenStage::Failed
        },
        OpenStage::FlushSession => if ok {
            OpenStage::WriteContext
        } else {
            OpenStage::Failed
        },
        OpenStage::WriteContext => if !ok {
            OpenStage::Failed
        } else if resolved.keep_session {
            OpenStage::RunEditor
        } else {
            OpenStage::InstallCleanup
        },
        OpenStage::InstallCleanup => if ok {
            OpenStage::RunEditor
        } else {
            OpenStage::Failed
        },
        OpenStage::RunEditor => if resolved.keep_session {
            OpenStage::Finished { editor_ok: ok, cleanup_ok: true }
        } else {
            OpenStage::Cleanup { editor_ok: ok }
        },
        OpenStage::Cleanup { editor_ok } => OpenStage::Finished { editor_ok, cleanup_ok: ok },
        OpenStage::Finished { editor_ok, cleanup_ok } => OpenStage::Finished { editor_ok, cleanup_ok },
        OpenStage::DryRunDone => OpenStage::DryRunDone,
        OpenStage::Failed => OpenStage::Failed,
    }
}

/// How an open ends once the editor and the cleanup have run.
#[derive(Clone, Copy, Debug, PartialEq, Eq, Structural)]
pub enum OpenOutcome {
    /// Both succeeded.
    Success,
    /// The editor failed; its error is reported.
    EditorFailed,
    /// The cleanup failed; its error is reported.
    CleanupFailed,
    /// Both failed; the cleanup's error is shown as a warning and the
    /// editor's is reported.
    EditorFailedCleanupWarned,
}

/// How an open ends: the editor's error wins over the cleanup's.
pub open spec fn outcome_of(editor_ok: bool, cleanup_ok: bool) -> OpenOutcome {
    if editor_ok && cleanup_ok {
        OpenOutcome::Success
    } else if !editor_ok && cleanup_ok {
        OpenOutcome::EditorFailed
    } else if editor_ok {
        OpenOutcome::CleanupFailed
    } else {
        OpenOutcome::EditorFailedCleanupWarned
    }
}

/// How an open ends (see [`outcome_of`]).
pub fn open_outcome(editor_ok: bool, cleanup_ok: bool) -> (outcome: OpenOutcome)
    ensures
        outcome == outcome_of(editor_ok, cleanup_ok),
{
    if editor_ok && cleanup_ok {
        OpenOutcome::Success
    } else if !editor_ok && cleanup_ok {
        OpenOutcome::EditorFailed
    } else if editor_ok {
        OpenOutcome::CleanupFailed
    } else {
        OpenOutcome::EditorFailedCleanupWarned
    }
}

/// The order of an open: a dry run does nothing; a flushed bootstrap is
/// always terminated next, and a failed flush fails the open only after that;
/// a session that is not kept is always cleaned up after the editor, whatever
/// the editor gave; the editor runs only after the context is written; and
/// the final stages stay final.
pub proof fn lemma_open_order(stage: OpenStage, event: OpenEvent, dry_run: bool, bootstrap: bool, keep_session: bool)
    ensures
        stage == OpenStage::Begin && dry_run ==> open_successor(stage, event, dry_run, bootstrap, keep_session)
            == OpenStage::DryRunDone,
        stage == OpenStage::FlushBootstrap ==> open_successor(stage, event, dry_run, bootstrap, keep_session) is TerminateBootstrap,
        stage == (OpenStage::TerminateBootstrap { flushed: false }) ==> open_successor(
            stage,
            event,
            dry_run,
            bootstrap,
            keep_session,
        ) == OpenStage::Failed,
        stage == OpenStage::RunEditor && !keep_session ==> open_successor(stage, event, dry_run, bootstrap, keep_session)
            is Cleanup,
        open_successor(stage, event, dry_run, bootstrap, keep_session) == OpenStage::RunEditor ==> (stage
            == OpenStage::WriteContext && keep_session) || stage == OpenStage::InstallCleanup,
        open_successor(stage, event, dry_run, bootstrap, keep_session) == OpenStage::InstallCleanup ==> !keep_session,
        open_successor(stage, event, dry_run, bootstrap, keep_session) == OpenStage::TerminateStaleBootstrap ==> bootstrap,
        stage is Finished ==> open_successor(stage, event, dry_run, bootstrap, keep_session) == stage,
        stage == OpenStage::DryRunDone ==> open_successor(stage, event, dry_run, bootstrap, keep_session) == stage,
        stage == OpenStage::Failed ==> open_successor(stage, event, dry_run, bootstrap, keep_session) == stage,
{
}

/// Where each step of an open can come from: an existing session is flushed
/// before it is terminated and terminated (successfully) before it is
/// recreated; a bootstrap is created right after the stale one was
/// terminated and flushed only once created; the steady session is created
/// only after a successful terminate, a successful bootstrap flush, or
/// directly when creating without bootstrap; the record is written only after
/// the session was created or resumed; the context only after the session was
/// flushed; and the checks come only after the decision.
pub proof fn lemma_open_predecessors(stage: OpenStage, event: OpenEvent, dry_run: bool, bootstrap: bool, keep_session: bool)
    ensures
        ({
            let next = open_successor(stage, event, dry_run, bootstrap, keep_session);
            let ok = !(event is Failed);
            &&& next == OpenStage::Prepare ==> stage == OpenStage::Begin && !dry_run
            &&& next matches OpenStage::EnsureRemote { step } ==> stage == OpenStage::Prepare && event
                == OpenEvent::Decided(step)
            &&& next == OpenStage::ResumeSession ==> stage == (OpenStage::EnsureRemote { step: OpenStep::Resume })
                && ok
            &&& next == OpenStage::ResumeBeforeReconfigure ==> stage == (OpenStage::EnsureRemote {
                step: OpenStep::Reconfigure,
            }) && ok
            &&& next == OpenStage::FlushBeforeReconfigure ==> stage == OpenStage::ResumeBeforeReconfigure
            &&& next == OpenStage::TerminateBeforeReconfigure ==> stage == OpenStage::FlushBeforeReconfigure && ok
            &&& next == OpenStage::TerminateStaleBootstrap ==> stage == (OpenStage::EnsureRemote {
                step: OpenStep::Create,
            }) && ok && bootstrap
            &&& next == OpenStage::CreateBootstrap ==> stage == OpenStage::TerminateStaleBootstrap
            &&& next == OpenStage::FlushBootstrap ==> stage == OpenStage::CreateBootstrap && ok
            &&& next == OpenStage::CreateSession ==> (stage == OpenStage::TerminateBeforeReconfigure && ok) || stage
                == (OpenStage::TerminateBootstrap { flushed: true }) || (stage == (OpenStage::EnsureRemote {
                step: OpenStep::Create,
            }) && ok && !bootstrap)
            &&& next == OpenStage::WriteRecord ==> (stage == OpenStage::CreateSession && ok) || stage
                == OpenStage::ResumeSession
            &&& next == OpenStage::FlushSession ==> stage == OpenStage::WriteRecord && ok
            &&& next == OpenStage::WriteContext ==> stage == OpenStage::FlushSession && ok
            &&& next == OpenStage::InstallCleanup ==> stage == OpenStage::WriteContext && ok && !keep_session
            &&& next is Cleanup ==> stage == OpenStage::RunEditor && !keep_session
            &&& next == OpenStage::DryRunDone ==> (stage == OpenStage::Begin && dry_run) || stage
                == OpenStage::DryRunDone
        }),
{
}

/// The outcome of an open reports success only when both the editor and the
/// cleanup succeeded, and the editor's failure whenever the editor failed.
pub proof fn lemma_outcome_meaning(editor_ok: bool, cleanup_ok: bool)
    ensures
        (outcome_of(editor_ok, cleanup_ok) == OpenOutcome::Success) == (editor_ok && cleanup_ok),
        !editor_ok ==> outcome_of(editor_ok, cleanup_ok) == OpenOutcome::EditorFailed || outcome_of(editor_ok, cleanup_ok)
            == OpenOutcome::EditorFailedCleanupWarned,
        (outcome_of(editor_ok, cleanup_ok) == OpenOutcome::CleanupFailed) == (editor_ok && !cleanup_ok),
        (outcome_of(editor_ok, cleanup_ok) == OpenOutcome::EditorFailedCleanupWarned) == (!editor_ok && !cleanup_ok),
{
}

/// The stage an open reaches from `stage` after the events `events`.
pub open spec fn open_run(stage: OpenStage, events: Seq<OpenEvent>, dry_run: bool, bootstrap: bool, keep_session: bool) -> OpenStage
    decreases events.len(),
{
    if events.len() == 0 {
        stage
    } else {
        open_run(
            open_successor(stage, events[0], dry_run, bootstrap, keep_session),
            events.drop_first(),
            dry_run,
            bootstrap,
            keep_session,
        )
    }
}

/// A first open that bootstraps and whose steps all succeed runs the editor
/// and cleans up after it.
pub proof fn lemma_fresh_open_succeeds()
    ensures
        open_run(
            OpenStage::Begin,
            seq![
                OpenEvent::Succeeded,
                OpenEvent::Decided(OpenStep::Create),
                OpenEvent::Succeeded,
                OpenEvent::Succeeded,
                OpenEvent::Succeeded,
                OpenEvent::Succeeded,
                OpenEvent::Succeeded,
                OpenEvent::Succeeded,
                OpenEvent::Succeeded,
                OpenEvent::Succeeded,
                OpenEvent::Succeeded,
                OpenEvent::Succeeded,
                OpenEvent::Succeeded,
                OpenEvent::Succeeded,
            ],
            false,
            true,
            false,
        ) == (OpenStage::Finished { editor_ok: true, cleanup_ok: true }),
{
    reveal_with_fuel(open_run, 15);
}

// ---------------------------------------------------------------------------
// The sessions an open creates
// ---------------------------------------------------------------------------

/// The arguments of `mutagen` that create the project's steady session, from
/// the mirror to the remote.
pub fn create_steady_session(resolved: &ResolvedOpen) -> (args: Vec<String>)
    ensures
        strings_text(args@) == create_args(
            resolved.session_name@,
            resolved.mode@,
            resolved.sync_vcs,
            strings_text(resolved.ignore_patterns@),
            labels_of(resolved.session_name@, SessionKind::Project, None),
            resolved.local_path@,
            target_text(resolved.target.host@, resolved.target.path@),
        ),
{
    let labels = mutagen_labels(resolved.session_name.as_str(), SessionKind::Project, None);
    let text = resolved.target.to_string();
    mutagen_create_command(
        resolved.session_name.as_str(),
        resolved.mode.as_str(),
        resolved.sync_vcs,
        &resolved.ignore_patterns,
        &labels,
        resolved.local_path.as_str(),
        text.as_str(),
    )
}

/// The name of the one-shot session that refreshes a mirror: the session's
/// name followed by `-bootstrap`.
pub fn bootstrap_session_name(session_name: &str) -> (name: String)
    ensures
        name@ == session_name@ + "-bootstrap"@,
{
    concat2(session_name, "-bootstrap")
}

/// The arguments of `mutagen` that create the one-shot session refreshing the
/// mirror from the remote.
pub fn bootstrap_create_args(resolved: &ResolvedOpen) -> (args: Vec<String>)
    ensures
        strings_text(args@) == create_args(
            resolved.session_name@ + "-bootstrap"@,
            "one-way-replica"@,
            resolved.sync_vcs,
            strings_text(resolved.ignore_patterns@),
            labels_of(resolved.session_name@ + "-bootstrap"@, SessionKind::Bootstrap, Some(resolved.session_name@)),
            target_text(resolved.target.host@, resolved.target.path@),
            resolved.local_path@,
        ),
{
    let name = bootstrap_session_name(resolved.session_name.as_str());
    let labels = mutagen_labels(name.as_str(), SessionKind::Bootstrap, Some(resolved.session_name.as_str()));
    let text = resolved.target.to_string();
    mutagen_create_command(
        name.as_str(),
        "one-way-replica",
        resolved.sync_vcs,
        &resolved.ignore_patterns,
        &labels,
        text.as_str(),
        resolved.local_path.as_str(),
    )
}

} // verus!
