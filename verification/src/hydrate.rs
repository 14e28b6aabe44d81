//! Hydration: bringing one remote file into a mirror on demand, either as a
//! one-time copy or as a live two-way session of its own.

use vstd::prelude::*;
use vstd::utf8::encode_utf8;
use crate::text::{owned, concat2, concat3, push_str, strings_text, opt_text, str_eq};
use crate::naming::{sanitized, sanitize_component, hex_prefix, hex_prefix_of, truncated, truncate_component, lemma_hex_prefix_len};
use crate::hash::{sha256, sha256_digest};
use crate::target::{normalized, normalize_remote_path, path_joined, join_path};
use crate::config::{Config, HydrationMode};
use crate::context::{EditrContext, RelativePathError, relative_with_aliases, relative_remote_path_with_aliases};
use crate::session::{SessionMetadata, CONTEXT_SCHEMA_VERSION};
use crate::mutagen::{SessionKind, create_args, labels_of, mutagen_create_command, mutagen_labels};

verus! {

/// The largest file hydrated without `--allow-large` when none is configured.
pub const DEFAULT_MAX_AUTO_HYDRATE_SIZE: &'static str = "25 MB";

/// The name of the live session of a hydrated file: `editr-hydrate-`, the
/// project session's name sanitised and cut to forty characters, `-`, and
/// twelve hex digits of the SHA-256 digest of the project session's name, a
/// NUL character and the remote path.
pub open spec fn hydration_name_of(project_session: Seq<char>, remote_path: Seq<char>) -> Seq<char> {
    "editr-hydrate-"@ + truncated(sanitized(project_session), 40) + "-"@ + hex_prefix_of(
        sha256(encode_utf8(project_session + seq!['\0'] + remote_path)),
        12,
    )
}

/// The name of the live session that hydrates `remote_path` for the project
/// session `project_session` (see [`hydration_name_of`]).
pub fn hydration_session_name(project_session: &str, remote_path: &str) -> (name: String)
    ensures
        name@ == hydration_name_of(project_session@, remote_path@),
        name@.len() == "editr-hydrate-"@.len() + truncated(sanitized(project_session@), 40).len() + 1 + 12,
{
    let mut hashed = owned(project_session);
    hashed.push('\0');
    push_str(&mut hashed, remote_path);
    assert(hashed@ =~= project_session@ + seq!['\0'] + remote_path@);
    let digest = sha256_digest(hashed.as_str().as_bytes());
    let hash = hex_prefix(digest.as_slice(), 12);
    proof {
        lemma_hex_prefix_len(digest@, 12);
        reveal_strlit("-");
    }
    let cleaned = sanitize_component(project_session);
    let project = truncate_component(cleaned.as_str(), 40);
    let mut name = concat3("editr-hydrate-", project.as_str(), "-");
    push_str(&mut name, hash.as_str());
    name
}

/// The hydration mode: the one asked for, else the configured default, else live.
pub open spec fn mode_choice(asked: Option<HydrationMode>, config: &Config) -> HydrationMode {
    match asked {
        Some(m) => m,
        None => match &config.hydrate {
            Some(h) => match h.default_mode {
                Some(m) => m,
                None => HydrationMode::Live,
            },
            None => HydrationMode::Live,
        },
    }
}

/// The hydration mode for a request (see [`mode_choice`]).
pub fn hydration_mode(asked: Option<HydrationMode>, config: &Config) -> (mode: HydrationMode)
    ensures
        mode == mode_choice(asked, config),
{
    match asked {
        Some(m) => m,
        None => match &config.hydrate {
            Some(h) => match h.default_mode {
                Some(m) => m,
                None => HydrationMode::Live,
            },
            None => HydrationMode::Live,
        },
    }
}

/// The mode asked for always wins; without one, the configured default is
/// used, and live mode when there is none.
pub proof fn lemma_mode_precedence(asked: Option<HydrationMode>, config: &Config)
    ensures
        asked matches Some(m) ==> mode_choice(asked, config) == m,
        asked is None && (config.hydrate matches Some(h) && h.default_mode is Some) ==> mode_choice(asked, config)
            == config.hydrate->0.default_mode->0,
        asked is None && !(config.hydrate matches Some(h) && h.default_mode is Some) ==> mode_choice(asked, config)
            == HydrationMode::Live,
{
}

/// The size limit as written: the one asked for, else the configured one,
/// else `25 MB`.
pub open spec fn max_size_choice(asked: Option<Seq<char>>, config: &Config) -> Seq<char> {
    match asked {
        Some(s) => s,
        None => match &config.hydrate {
            Some(h) => match &h.max_auto_size {
                Some(s) => s@,
                None => DEFAULT_MAX_AUTO_HYDRATE_SIZE@,
            },
            None => DEFAULT_MAX_AUTO_HYDRATE_SIZE@,
        },
    }
}

/// The size limit, as written, for a request (see [`max_size_choice`]).
pub fn max_size_text(asked: Option<&str>, config: &Config) -> (text: String)
    ensures
        text@ == max_size_choice(match asked { Some(s) => Some(s@), None => None }, config),
{
    match asked {
        Some(s) => owned(s),
        None => match &config.hydrate {
            Some(h) => match &h.max_auto_size {
                Some(s) => s.clone(),
                None => owned(DEFAULT_MAX_AUTO_HYDRATE_SIZE),
            },
            None => owned(DEFAULT_MAX_AUTO_HYDRATE_SIZE),
        },
    }
}

/// The size limit asked for always wins; without one, the configured limit is
/// used, and `25 MB` when there is none.
pub proof fn lemma_max_size_precedence(asked: Option<Seq<char>>, config: &Config)
    ensures
        asked matches Some(s) ==> max_size_choice(asked, config) == s,
        asked is None && (config.hydrate matches Some(h) && h.max_auto_size is Some) ==> max_size_choice(asked, config)
            == config.hydrate->0.max_auto_size->0@,
        asked is None && !(config.hydrate matches Some(h) && h.max_auto_size is Some) ==> max_size_choice(asked, config)
            == "25 MB"@,
{
}

/// A remote file placed in the mirror.
#[derive(Debug)]
pub struct HydrationTarget {
    /// The remote path, normalised.
    pub remote_path: String,
    /// The path below the remote root.
    pub relative_path: String,
    /// Where the file goes in the mirror.
    pub local_path: String,
}

/// Where the remote file `remote_path` goes in the mirror of `context`, or why
/// it cannot go there.
pub fn hydration_target(context: &EditrContext, remote_path: &str) -> (r: Result<HydrationTarget, RelativePathError>)
    ensures
        match (r, relative_with_aliases(
            context.remote_path@,
            strings_text(context.remote_path_aliases@),
            normalized(remote_path@),
        )) {
            (Ok(t), Ok(rel)) => t.remote_path@ == normalized(remote_path@) && t.relative_path@ == rel
                && t.local_path@ == path_joined(context.local_path@, rel),
            (Err(e), Err(v)) => e.view() == v,
            _ => false,
        },
{
    let remote = normalize_remote_path(remote_path);
    match relative_remote_path_with_aliases(
        context.remote_path.as_str(),
        context.remote_path_aliases.as_slice(),
        remote.as_str(),
    ) {
        Ok(relative) => {
            let local = join_path(context.local_path.as_str(), relative.as_str());
            Ok(HydrationTarget { remote_path: remote, relative_path: relative, local_path: local })
        },
        Err(e) => Err(e),
    }
}

/// What a hydration request reports.
#[derive(Debug)]
pub struct HydrateResponse {
    pub remote_path: String,
    pub local_path: String,
    pub relative_path: String,
    pub size_bytes: Option<u64>,
    pub local_exists: bool,
    pub mode: HydrationMode,
    pub hydrated: bool,
    pub session_name: Option<String>,
    pub over_limit: bool,
}

/// Whether a file of `size_bytes` (when known) exceeds `max_size`.
pub open spec fn exceeds(size_bytes: Option<u64>, max_size: u64) -> bool {
    size_bytes matches Some(s) && s > max_size
}

/// The report of a hydration of `target` before anything is done: the live
/// session is named only in live mode.
pub fn hydrate_response(
    target: &HydrationTarget,
    session_name: &str,
    size_bytes: Option<u64>,
    local_exists: bool,
    mode: HydrationMode,
    max_size: u64,
) -> (resp: HydrateResponse)
    ensures
        resp.remote_path@ == target.remote_path@,
        resp.local_path@ == target.local_path@,
        resp.relative_path@ == target.relative_path@,
        resp.size_bytes == size_bytes,
        resp.local_exists == local_exists,
        resp.mode == mode,
        !resp.hydrated,
        opt_text(resp.session_name) == if mode == HydrationMode::Live { Some(session_name@) } else { None },
        resp.over_limit == exceeds(size_bytes, max_size),
{
    let over_limit = match size_bytes {
        Some(s) => s > max_size,
        None => false,
    };
    HydrateResponse {
        remote_path: target.remote_path.clone(),
        local_path: target.local_path.clone(),
        relative_path: target.relative_path.clone(),
        size_bytes,
        local_exists,
        mode,
        hydrated: false,
        session_name: if mode == HydrationMode::Live { Some(owned(session_name)) } else { None },
        over_limit,
    }
}

/// What a hydration request does after looking at the file.
#[derive(Clone, Copy, Debug, PartialEq, Eq, Structural)]
pub enum HydrateStep {
    /// Only report (`--check`).
    Report,
    /// Report, then refuse: the file exceeds the limit.
    RefuseLarge,
    /// Refuse: a local file is in the way.
    RefuseExisting,
    /// Hydrate.
    Proceed,
}

/// Whether the decision depends on whether an earlier hydration of the same
/// file is still live.
pub open spec fn existing_check_matters(check: bool, over_limit: bool, allow_large: bool, local_exists: bool, allow_existing: bool) -> bool {
    !check && !(over_limit && !allow_large) && local_exists && !allow_existing
}

/// What a hydration request does.
pub open spec fn hydrate_decision(
    check: bool,
    over_limit: bool,
    allow_large: bool,
    local_exists: bool,
    allow_existing: bool,
    existing_matches: bool,
) -> HydrateStep {
    if check {
        HydrateStep::Report
    } else if over_limit && !allow_large {
        HydrateStep::RefuseLarge
    } else if local_exists && !allow_existing && !existing_matches {
        HydrateStep::RefuseExisting
    } else {
        HydrateStep::Proceed
    }
}

/// Whether an earlier hydration must be looked up before deciding.
pub fn existing_check_needed(check: bool, over_limit: bool, allow_large: bool, local_exists: bool, allow_existing: bool) -> (needed: bool)
    ensures
        needed == existing_check_matters(check, over_limit, allow_large, local_exists, allow_existing),
{
    !check && !(over_limit && !allow_large) && local_exists && !allow_existing
}

/// What a hydration request does (see [`hydrate_decision`]).
pub fn hydrate_step(
    check: bool,
    over_limit: bool,
    allow_large: bool,
    local_exists: bool,
    allow_existing: bool,
    existing_matches: bool,
) -> (step: HydrateStep)
    ensures
        step == hydrate_decision(check, over_limit, allow_large, local_exists, allow_existing, existing_matches),
{
    if check {
        HydrateStep::Report
    } else if over_limit && !allow_large {
        HydrateStep::RefuseLarge
    } else if local_exists && !allow_existing && !existing_matches {
        HydrateStep::RefuseExisting
    } else {
        HydrateStep::Proceed
    }
}

/// When an earlier hydration need not be looked up, whether it matches does
/// not change the decision; and a file over the limit is never hydrated
/// without `--allow-large`.
pub proof fn lemma_hydrate_decision_rules(
    check: bool,
    over_limit: bool,
    allow_large: bool,
    local_exists: bool,
    allow_existing: bool,
    existing_matches: bool,
)
    ensures
        !existing_check_matters(check, over_limit, allow_large, local_exists, allow_existing) ==> hydrate_decision(
            check,
            over_limit,
            allow_large,
            local_exists,
            allow_existing,
            true,
        ) == hydrate_decision(check, over_limit, allow_large, local_exists, allow_existing, false),
        hydrate_decision(check, over_limit, allow_large, local_exists, allow_existing, existing_matches)
            == HydrateStep::Proceed ==> !over_limit || allow_large,
{
}

/// What each hydration decision means: `--check` only reports; otherwise a
/// file over the limit is refused unless `--allow-large`; a local file in the
/// way is refused unless `--allow-existing` or it is the same live
/// hydration; anything else proceeds.
pub proof fn lemma_hydrate_decision_meaning(
    check: bool,
    over_limit: bool,
    allow_large: bool,
    local_exists: bool,
    allow_existing: bool,
    existing_matches: bool,
)
    ensures
        ({
            let step = hydrate_decision(check, over_limit, allow_large, local_exists, allow_existing, existing_matches);
            &&& (step == HydrateStep::Report) == check
            &&& (step == HydrateStep::RefuseLarge) == (!check && over_limit && !allow_large)
            &&& step == HydrateStep::RefuseExisting ==> local_exists && !allow_existing && !existing_matches
            &&& step == HydrateStep::Proceed ==> !check && (!over_limit || allow_large) && (!local_exists
                || allow_existing || existing_matches)
            &&& !check && (!over_limit || allow_large) && (!local_exists || allow_existing || existing_matches)
                ==> step == HydrateStep::Proceed
        }),
{
}

/// The message shown when a local file is in the way.
pub fn existing_file_refusal(local_path: &str) -> (m: String)
    ensures
        m@ == "refusing to hydrate over existing local file without --allow-existing:\n  "@ + local_path@,
{
    concat2("refusing to hydrate over existing local file without --allow-existing:\n  ", local_path)
}

/// Whether an earlier hydration record matches: it is a hydration of the same
/// remote file into the same local file.
pub open spec fn hydration_matches(m: &SessionMetadata, remote_path: Seq<char>, local_path: Seq<char>) -> bool {
    m.kind == SessionKind::Hydration && m.remote_path@ == remote_path && m.local_path@ == local_path
}

/// Whether the file is already hydrated by a live session: `found` is its
/// record, when both the record and the session exist.
pub fn existing_hydration_matches(found: Option<&SessionMetadata>, remote_path: &str, local_path: &str) -> (matches: bool)
    ensures
        matches == match found {
            Some(m) => hydration_matches(m, remote_path@, local_path@),
            None => false,
        },
{
    match found {
        Some(m) => m.kind == SessionKind::Hydration && str_eq(m.remote_path.as_str(), remote_path) && str_eq(
            m.local_path.as_str(),
            local_path,
        ),
        None => false,
    }
}

/// The remote side of a hydrated file: `host:remote_path`.
pub open spec fn remote_endpoint(host: Seq<char>, remote_path: Seq<char>) -> Seq<char> {
    host + ":"@ + remote_path
}

/// The arguments of `mutagen` that copy the remote file into the mirror once.
pub fn hydration_bootstrap_args(context: &EditrContext, remote_path: &str, local_path: &str, session_name: &str) -> (args: Vec<String>)
    ensures
        strings_text(args@) == create_args(
            session_name@ + "-bootstrap"@,
            "one-way-replica"@,
            false,
            Seq::empty(),
            labels_of(session_name@ + "-bootstrap"@, SessionKind::Bootstrap, Some(context.session_name@)),
            remote_endpoint(context.host@, remote_path@),
            local_path@,
        ),
{
    let name = concat2(session_name, "-bootstrap");
    let labels = mutagen_labels(name.as_str(), SessionKind::Bootstrap, Some(context.session_name.as_str()));
    let remote = concat3(context.host.as_str(), ":", remote_path);
    let none: Vec<String> = Vec::new();
    assert(strings_text(none@) =~= Seq::<Seq<char>>::empty());
    mutagen_create_command(name.as_str(), "one-way-replica", false, &none, &labels, remote.as_str(), local_path)
}

/// The arguments of `mutagen` that keep the hydrated file in sync both ways.
pub fn hydration_live_args(context: &EditrContext, remote_path: &str, local_path: &str, session_name: &str) -> (args: Vec<String>)
    ensures
        strings_text(args@) == create_args(
            session_name@,
            "two-way-safe"@,
            false,
            Seq::empty(),
            labels_of(session_name@, SessionKind::Hydration, Some(context.session_name@)),
            local_path@,
            remote_endpoint(context.host@, remote_path@),
        ),
{
    let labels = mutagen_labels(session_name, SessionKind::Hydration, Some(context.session_name.as_str()));
    let remote = concat3(context.host.as_str(), ":", remote_path);
    let none: Vec<String> = Vec::new();
    assert(strings_text(none@) =~= Seq::<Seq<char>>::empty());
    mutagen_create_command(session_name, "two-way-safe", false, &none, &labels, local_path, remote.as_str())
}

/// A step of carrying out a hydration.
#[derive(Clone, Copy, Debug, PartialEq, Eq, Structural)]
pub enum HydrationStage {
    /// Terminate a bootstrap session left over from an earlier run; its
    /// outcome does not matter.
    TerminateStaleBootstrap,
    /// Create the one-shot bootstrap session that copies the file.
    CreateBootstrap,
    /// Flush the bootstrap session.
    FlushBootstrap,
    /// Terminate the bootstrap session; `flushed` is whether its flush
    /// succeeded.
    TerminateBootstrap { flushed: bool },
    /// Ask whether the live session already exists.
    CheckLiveSession,
    /// Create the live session.
    CreateLiveSession,
    /// Write the record of the live session.
    WriteRecord,
    /// Flush the live session.
    FlushLiveSession,
    /// The hydration is complete.
    Done,
    /// The hydration failed; the error of the step that failed is reported.
    Failed,
}

/// The step after `stage` in a hydration of mode `mode`, given the outcome of
/// `stage`: whether it succeeded, or for [`HydrationStage::CheckLiveSession`]
/// whether the live session exists. The bootstrap session is always
/// terminated after its flush, whatever the flush gave; the live session is
/// created only when it does not exist yet.
pub open spec fn hydration_successor(stage: HydrationStage, outcome: bool, mode: HydrationMode) -> HydrationStage {
    match stage {
        HydrationStage::TerminateStaleBootstrap => HydrationStage::CreateBootstrap,
        HydrationStage::CreateBootstrap => if outcome {
            HydrationStage::FlushBootstrap
        } else {
            HydrationStage::Failed
        },
        HydrationStage::FlushBootstrap => HydrationStage::TerminateBootstrap { flushed: outcome },
        HydrationStage::TerminateBootstrap { flushed } => if !flushed {
            HydrationStage::Failed
        } else if mode == HydrationMode::Live {
            HydrationStage::CheckLiveSession
        } else {
            HydrationStage::Done
        },
        HydrationStage::CheckLiveSession => if outcome {
            HydrationStage::WriteRecord
        } else {
            HydrationStage::CreateLiveSession
        },
        HydrationStage::CreateLiveSession => if outcome {
            HydrationStage::WriteRecord
        } else {
            HydrationStage::Failed
        },
        HydrationStage::WriteRecord => if outcome {
            HydrationStage::FlushLiveSession
        } else {
            HydrationStage::Failed
        },
        HydrationStage::FlushLiveSession => if outcome {
            HydrationStage::Done
        } else {
            HydrationStage::Failed
        },
        HydrationStage::Done => HydrationStage::Done,
        HydrationStage::Failed => HydrationStage::Failed,
    }
}

/// The step after `stage` (see [`hydration_successor`]).
pub fn next_hydration_stage(stage: HydrationStage, outcome: bool, mode: HydrationMode) -> (next: HydrationStage)
    ensures
        next == hydration_successor(stage, outcome, mode),
{
    match stage {
        HydrationStage::TerminateStaleBootstrap => HydrationStage::CreateBootstrap,
        HydrationStage::CreateBootstrap => if outcome {
            HydrationStage::FlushBootstrap
        } else {
            HydrationStage::Failed
        },
        HydrationStage::FlushBootstrap => HydrationStage::TerminateBootstrap { flushed: outcome },
        HydrationStage::TerminateBootstrap { flushed } => if !flushed {
            HydrationStage::Failed
        } else if mode == HydrationMode::Live {
            HydrationStage::CheckLiveSession
        } else {
            HydrationStage::Done
        },
        HydrationStage::CheckLiveSession => if outcome {
            HydrationStage::WriteRecord
        } else {
            HydrationStage::CreateLiveSession
        },
        HydrationStage::CreateLiveSession => if outcome {
            HydrationStage::WriteRecord
        } else {
            HydrationStage::Failed
        },
        HydrationStage::WriteRecord => if outcome {
            HydrationStage::FlushLiveSession
        } else {
            HydrationStage::Failed
        },
        HydrationStage::FlushLiveSession => if outcome {
            HydrationStage::Done
        } else {
            HydrationStage::Failed
        },
        HydrationStage::Done => HydrationStage::Done,
        HydrationStage::Failed => HydrationStage::Failed,
    }
}

/// The stages a hydration of mode `mode` passes through when the outcomes are
/// `outcomes`, one per step, starting at `stage`.
pub open spec fn hydration_run(stage: HydrationStage, outcomes: Seq<bool>, mode: HydrationMode) -> HydrationStage
    decreases outcomes.len(),
{
    if outcomes.len() == 0 {
        stage
    } else {
        hydration_run(hydration_successor(stage, outcomes[0], mode), outcomes.drop_first(), mode)
    }
}

/// The order of a hydration: a flushed bootstrap is always terminated next,
/// whatever the flush gave, and a failed flush fails the hydration only after
/// that; the live session is created only after it was found missing; a
/// one-shot hydration never touches a live session; `Done` and `Failed` are
/// final.
pub proof fn lemma_hydration_order(stage: HydrationStage, outcome: bool, mode: HydrationMode)
    ensures
        stage == HydrationStage::FlushBootstrap ==> hydration_successor(stage, outcome, mode) is TerminateBootstrap,
        stage == (HydrationStage::TerminateBootstrap { flushed: false }) ==> hydration_successor(stage, outcome, mode)
            == HydrationStage::Failed,
        hydration_successor(stage, outcome, mode) == HydrationStage::CreateLiveSession ==> stage
            == HydrationStage::CheckLiveSession && !outcome,
        hydration_successor(stage, outcome, mode) == HydrationStage::CheckLiveSession ==> mode == HydrationMode::Live,
        stage == HydrationStage::Done ==> hydration_successor(stage, outcome, mode) == HydrationStage::Done,
        stage == HydrationStage::Failed ==> hydration_successor(stage, outcome, mode) == HydrationStage::Failed,
{
}

/// Where each step of a hydration can come from: the bootstrap is created
/// only right after the stale one was terminated and flushed only after it was
/// created; the live session is checked only after a successful flush in live
/// mode; the record is written only once the live session exists or was
/// created; it is flushed only after the record was written; and a hydration
/// is done only after a successful one-shot flush or live flush.
pub proof fn lemma_hydration_predecessors(stage: HydrationStage, outcome: bool, mode: HydrationMode)
    ensures
        ({
            let next = hydration_successor(stage, outcome, mode);
            &&& next == HydrationStage::CreateBootstrap ==> stage == HydrationStage::TerminateStaleBootstrap
            &&& next == HydrationStage::FlushBootstrap ==> stage == HydrationStage::CreateBootstrap && outcome
            &&& next is TerminateBootstrap ==> stage == HydrationStage::FlushBootstrap && next
                == (HydrationStage::TerminateBootstrap { flushed: outcome })
            &&& next == HydrationStage::CheckLiveSession ==> stage == (HydrationStage::TerminateBootstrap {
                flushed: true,
            }) && mode == HydrationMode::Live
            &&& next == HydrationStage::WriteRecord ==> (stage == HydrationStage::CheckLiveSession || stage
                == HydrationStage::CreateLiveSession) && outcome
            &&& next == HydrationStage::FlushLiveSession ==> stage == HydrationStage::WriteRecord && outcome
            &&& next == HydrationStage::Done ==> (stage == (HydrationStage::TerminateBootstrap { flushed: true })
                && mode == HydrationMode::Oneshot) || (stage == HydrationStage::FlushLiveSession && outcome) || stage
                == HydrationStage::Done
        }),
{
}

/// A hydration whose steps all succeed ends after four steps in one-shot mode,
/// and after eight in live mode when the live session is missing.
pub proof fn lemma_hydration_succeeds(mode: HydrationMode)
    ensures
        mode == HydrationMode::Oneshot ==> hydration_run(
            HydrationStage::TerminateStaleBootstrap,
            seq![true, true, true, true],
            mode,
        ) == HydrationStage::Done,
        mode == HydrationMode::Live ==> hydration_run(
            HydrationStage::TerminateStaleBootstrap,
            seq![true, true, true, true, false, true, true, true],
            mode,
        ) == HydrationStage::Done,
{
    reveal_with_fuel(hydration_run, 9);
}

/// Whether `m` records the live hydration of `remote_path` (below the root as
/// `relative_path`) into `local_path`, owned by `owner_pid` and written at `now`.
pub open spec fn records_hydration(
    m: &SessionMetadata,
    context: &EditrContext,
    remote_path: Seq<char>,
    relative_path: Seq<char>,
    local_path: Seq<char>,
    session_name: Seq<char>,
    owner_pid: u32,
    now: u64,
) -> bool {
    &&& m.schema_version == CONTEXT_SCHEMA_VERSION
    &&& m.kind == SessionKind::Hydration
    &&& m.session_name@ == session_name
    &&& m.target@ == context.target@
    &&& m.host@ == context.host@
    &&& m.remote_path@ == remote_path
    &&& m.local_path@ == local_path
    &&& m.mode@ == "two-way-safe"@
    &&& !m.sync_vcs
    &&& !m.keep_session
    &&& opt_text(m.project_session) == Some(context.session_name@)
    &&& opt_text(m.relative_path) == Some(relative_path)
    &&& m.owner_pid == Some(owner_pid)
    &&& m.created_at_unix == now
    &&& m.updated_at_unix == now
    &&& opt_text(m.context_file) == Some(context.context_file@)
    &&& m.ignore_patterns@.len() == 0
}

/// The record of a live hydration (see [`records_hydration`]).
pub fn hydration_metadata(
    context: &EditrContext,
    remote_path: &str,
    relative_path: &str,
    local_path: &str,
    session_name: &str,
    owner_pid: u32,
    now: u64,
) -> (m: SessionMetadata)
    ensures
        records_hydration(&m, context, remote_path@, relative_path@, local_path@, session_name@, owner_pid, now),
{
    SessionMetadata {
        schema_version: CONTEXT_SCHEMA_VERSION,
        kind: SessionKind::Hydration,
        session_name: owned(session_name),
        target: context.target.clone(),
        host: context.host.clone(),
        remote_path: owned(remote_path),
        local_path: owned(local_path),
        mode: owned("two-way-safe"),
        sync_vcs: false,
        keep_session: false,
        project_session: Some(context.session_name.clone()),
        relative_path: Some(owned(relative_path)),
        owner_pid: Some(owner_pid),
        created_at_unix: now,
        updated_at_unix: now,
        context_file: Some(context.context_file.clone()),
        ignore_patterns: Vec::new(),
    }
}

/// A hydration that has just been recorded matches itself.
pub proof fn lemma_recorded_hydration_matches(
    m: &SessionMetadata,
    context: &EditrContext,
    remote_path: Seq<char>,
    relative_path: Seq<char>,
    local_path: Seq<char>,
    session_name: Seq<char>,
    owner_pid: u32,
    now: u64,
)
    requires
        records_hydration(m, context, remote_path, relative_path, local_path, session_name, owner_pid, now),
    ensures
        hydration_matches(m, remote_path, local_path),
{
}

} // verus!
