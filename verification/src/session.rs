//! Session records: what is written beside a mirror, how a recorded session is
//! classified, and how the recorded and the running sessions are listed.

use vstd::prelude::*;
use crate::text::{chars_of, owned, concat2, trim, trim_chars, string_of, string_of_range, opt_text, clone_opt, strings_text, clone_strings, strings_equal, str_eq, starts_with, ends_with, seq_starts_with, seq_contains, contains_seq, split_on, split_chars};
use crate::order::{str_lt, str_less, ascending, sort_strings, lemma_insert_ascending, insertion_point};
use crate::target::{target_text, path_joined, join_path, metadata_dir};
use crate::mutagen::SessionKind;
use crate::open::ResolvedOpen;

verus! {

/// The version of the context and record formats.
pub const CONTEXT_SCHEMA_VERSION: u32 = 1;

/// The schema version assumed when a record does not say.
pub fn default_schema_version() -> (v: u32)
    ensures
        v == CONTEXT_SCHEMA_VERSION,
{
    CONTEXT_SCHEMA_VERSION
}

/// What is recorded about a session beside its mirror.
#[derive(Debug)]
pub struct SessionMetadata {
    pub schema_version: u32,
    pub kind: SessionKind,
    pub session_name: String,
    pub target: String,
    pub host: String,
    pub remote_path: String,
    pub local_path: String,
    pub mode: String,
    pub sync_vcs: bool,
    pub keep_session: bool,
    pub project_session: Option<String>,
    pub relative_path: Option<String>,
    pub owner_pid: Option<u32>,
    pub created_at_unix: u64,
    pub updated_at_unix: u64,
    pub context_file: Option<String>,
    pub ignore_patterns: Vec<String>,
}

/// Whether the recorded session was made with other settings than `r` asks
/// for: another target, mirror, mode, VCS choice or ignore list.
pub open spec fn reconfigure_needed(m: &SessionMetadata, r: &ResolvedOpen) -> bool {
    ||| m.target@ != target_text(r.target.host@, r.target.path@)
    ||| m.local_path@ != r.local_path@
    ||| m.mode@ != r.mode@
    ||| m.sync_vcs != r.sync_vcs
    ||| strings_text(m.ignore_patterns@) != strings_text(r.ignore_patterns@)
}

/// Whether the recorded session must be recreated to match `resolved`.
pub fn session_needs_reconfigure(metadata: &SessionMetadata, resolved: &ResolvedOpen) -> (r: bool)
    ensures
        r == reconfigure_needed(metadata, resolved),
{
    let text = resolved.target.to_string();
    !str_eq(metadata.target.as_str(), text.as_str()) || !str_eq(
        metadata.local_path.as_str(),
        resolved.local_path.as_str(),
    ) || !str_eq(metadata.mode.as_str(), resolved.mode.as_str()) || metadata.sync_vcs != resolved.sync_vcs
        || !strings_equal(&metadata.ignore_patterns, &resolved.ignore_patterns)
}

/// Whether `m` records the project session of `r`, owned by `owner_pid` and
/// written at `now`.
pub open spec fn records_open(m: &SessionMetadata, r: &ResolvedOpen, owner_pid: u32, now: u64) -> bool {
    &&& m.schema_version == CONTEXT_SCHEMA_VERSION
    &&& m.kind == SessionKind::Project
    &&& m.session_name@ == r.session_name@
    &&& m.target@ == target_text(r.target.host@, r.target.path@)
    &&& m.host@ == r.target.host@
    &&& m.remote_path@ == r.target.path@
    &&& m.local_path@ == r.local_path@
    &&& m.mode@ == r.mode@
    &&& m.sync_vcs == r.sync_vcs
    &&& m.keep_session == r.keep_session
    &&& m.project_session is None
    &&& m.relative_path is None
    &&& m.owner_pid == Some(owner_pid)
    &&& m.created_at_unix == now
    &&& m.updated_at_unix == now
    &&& opt_text(m.context_file) == Some(r.context_file@)
    &&& strings_text(m.ignore_patterns@) == strings_text(r.ignore_patterns@)
}

/// The record of the project session of `resolved`.
pub fn project_metadata(resolved: &ResolvedOpen, owner_pid: u32, now: u64) -> (m: SessionMetadata)
    ensures
        records_open(&m, resolved, owner_pid, now),
{
    SessionMetadata {
        schema_version: CONTEXT_SCHEMA_VERSION,
        kind: SessionKind::Project,
        session_name: resolved.session_name.clone(),
        target: resolved.target.to_string(),
        host: resolved.target.host.clone(),
        remote_path: resolved.target.path.clone(),
        local_path: resolved.local_path.clone(),
        mode: resolved.mode.clone(),
        sync_vcs: resolved.sync_vcs,
        keep_session: resolved.keep_session,
        project_session: None,
        relative_path: None,
        owner_pid: Some(owner_pid),
        created_at_unix: now,
        updated_at_unix: now,
        context_file: Some(resolved.context_file.clone()),
        ignore_patterns: clone_strings(&resolved.ignore_patterns),
    }
}

/// A session recorded for an open never needs recreating for that same open.
pub proof fn lemma_recorded_open_is_current(m: &SessionMetadata, r: &ResolvedOpen, owner_pid: u32, now: u64)
    requires
        records_open(m, r, owner_pid, now),
    ensures
        !reconfigure_needed(m, r),
{
}

// ---------------------------------------------------------------------------
// Classification
// ---------------------------------------------------------------------------

/// How a session looks to the session manager.
#[derive(Clone, Copy, Debug, PartialEq, Eq, Structural)]
pub enum SessionClassification {
    /// Running, with its owner alive.
    Active,
    /// Running and meant to outlive its editor.
    Persistent,
    /// Recorded, but not running or without its owner.
    Suspicious,
    /// Running under an editr name, with no record.
    Orphaned,
    /// A hydration that has outlived its owner process.
    StuckHydration,
}

/// The classification of a recorded session.
pub open spec fn classify(kind: SessionKind, keep_session: bool, mutagen_session: bool, owner_alive: bool) -> SessionClassification {
    if kind == SessionKind::Hydration && !owner_alive {
        SessionClassification::StuckHydration
    } else if keep_session && mutagen_session {
        SessionClassification::Persistent
    } else if mutagen_session && owner_alive {
        SessionClassification::Active
    } else {
        SessionClassification::Suspicious
    }
}

/// A session as the session manager lists it.
#[derive(Debug)]
pub struct SessionRecord {
    pub session_name: String,
    pub kind: SessionKind,
    pub target: Option<String>,
    pub host: Option<String>,
    pub remote_path: Option<String>,
    pub local_path: Option<String>,
    pub project_session: Option<String>,
    pub owner_pid: Option<u32>,
    pub owner_alive: bool,
    pub keep_session: bool,
    pub mutagen_session: bool,
    pub classification: SessionClassification,
    pub age_seconds: Option<u64>,
}

/// Whether `rec` lists the recorded session `m`, given whether its Mutagen
/// session runs, what probing its owner process answered, and the time now.
pub open spec fn lists_metadata(rec: &SessionRecord, m: &SessionMetadata, mutagen_session: bool, owner_probe: bool, now: u64) -> bool {
    let owner_alive = m.owner_pid is Some && owner_probe;
    &&& rec.session_name@ == m.session_name@
    &&& rec.kind == m.kind
    &&& opt_text(rec.target) == Some(m.target@)
    &&& opt_text(rec.host) == Some(m.host@)
    &&& opt_text(rec.remote_path) == Some(m.remote_path@)
    &&& opt_text(rec.local_path) == Some(m.local_path@)
    &&& opt_text(rec.project_session) == opt_text(m.project_session)
    &&& rec.owner_pid == m.owner_pid
    &&& rec.owner_alive == owner_alive
    &&& rec.keep_session == m.keep_session
    &&& rec.mutagen_session == mutagen_session
    &&& rec.classification == classify(m.kind, m.keep_session, mutagen_session, owner_alive)
    &&& rec.age_seconds == if m.created_at_unix > 0 {
        Some(if now >= m.created_at_unix { (now - m.created_at_unix) as u64 } else { 0u64 })
    } else {
        None
    }
}

/// How the session manager lists the recorded session `metadata`.
/// `owner_probe` is what probing the recorded owner process answered; it
/// counts only when an owner is recorded.
pub fn record_for_metadata(metadata: &SessionMetadata, mutagen_session: bool, owner_probe: bool, now: u64) -> (rec: SessionRecord)
    ensures
        lists_metadata(&rec, metadata, mutagen_session, owner_probe, now),
{
    let owner_alive = metadata.owner_pid.is_some() && owner_probe;
    let age_seconds = if metadata.created_at_unix > 0 {
        Some(now.saturating_sub(metadata.created_at_unix))
    } else {
        None
    };
    let classification = if metadata.kind == SessionKind::Hydration && !owner_alive {
        SessionClassification::StuckHydration
    } else if metadata.keep_session && mutagen_session {
        SessionClassification::Persistent
    } else if mutagen_session && owner_alive {
        SessionClassification::Active
    } else {
        SessionClassification::Suspicious
    };
    SessionRecord {
        session_name: metadata.session_name.clone(),
        kind: metadata.kind,
        target: Some(metadata.target.clone()),
        host: Some(metadata.host.clone()),
        remote_path: Some(metadata.remote_path.clone()),
        local_path: Some(metadata.local_path.clone()),
        project_session: clone_opt(&metadata.project_session),
        owner_pid: metadata.owner_pid,
        owner_alive,
        keep_session: metadata.keep_session,
        mutagen_session,
        classification,
        age_seconds,
    }
}

/// A session is stuck exactly when it is a hydration whose owner is gone, and
/// a running session with a live owner is never suspicious.
pub proof fn lemma_classification_rules(kind: SessionKind, keep_session: bool, mutagen_session: bool, owner_alive: bool)
    ensures
        (classify(kind, keep_session, mutagen_session, owner_alive) == SessionClassification::StuckHydration) == (
        kind == SessionKind::Hydration && !owner_alive),
        mutagen_session && owner_alive ==> classify(kind, keep_session, mutagen_session, owner_alive)
            != SessionClassification::Suspicious,
        classify(kind, keep_session, mutagen_session, owner_alive) != SessionClassification::Orphaned,
{
}

/// What each classification of a recorded session means: a persistent session
/// is kept and its Mutagen session runs; an active one runs, has a live owner
/// and is not kept; a stuck one is a hydration whose owner is gone; every
/// other recorded session, in particular one whose Mutagen session is not
/// running, is suspicious.
pub proof fn lemma_classification_meaning(kind: SessionKind, keep_session: bool, mutagen_session: bool, owner_alive: bool)
    ensures
        classify(kind, keep_session, mutagen_session, owner_alive) == SessionClassification::Persistent ==> keep_session
            && mutagen_session,
        classify(kind, keep_session, mutagen_session, owner_alive) == SessionClassification::Active ==> mutagen_session
            && owner_alive && !keep_session,
        !(kind == SessionKind::Hydration && !owner_alive) && keep_session && mutagen_session ==> classify(
            kind,
            keep_session,
            mutagen_session,
            owner_alive,
        ) == SessionClassification::Persistent,
        !(kind == SessionKind::Hydration && !owner_alive) && !keep_session && mutagen_session && owner_alive
            ==> classify(kind, keep_session, mutagen_session, owner_alive) == SessionClassification::Active,
        !(kind == SessionKind::Hydration && !owner_alive) && !mutagen_session ==> classify(
            kind,
            keep_session,
            mutagen_session,
            owner_alive,
        ) == SessionClassification::Suspicious,
{
}

/// A listed record is persistent or active only when its Mutagen session
/// runs, and active only when its recorded owner is alive.
pub proof fn lemma_listed_record_running(rec: &SessionRecord, m: &SessionMetadata, mutagen_session: bool, owner_probe: bool, now: u64)
    requires
        lists_metadata(rec, m, mutagen_session, owner_probe, now),
    ensures
        rec.classification == SessionClassification::Persistent ==> rec.mutagen_session && rec.keep_session,
        rec.classification == SessionClassification::Active ==> rec.mutagen_session && rec.owner_alive && m.owner_pid is Some,
        !rec.mutagen_session && rec.classification != SessionClassification::StuckHydration ==> rec.classification
            == SessionClassification::Suspicious,
{
    lemma_classification_meaning(m.kind, m.keep_session, mutagen_session, m.owner_pid is Some && owner_probe);
}

/// A listed record's owner is alive only when one is recorded and the probe
/// found it; its age is known exactly when a creation time is recorded, and is
/// then the time since creation (zero when the clock is behind it).
pub proof fn lemma_listed_record_owner_and_age(rec: &SessionRecord, m: &SessionMetadata, mutagen_session: bool, owner_probe: bool, now: u64)
    requires
        lists_metadata(rec, m, mutagen_session, owner_probe, now),
    ensures
        rec.owner_alive == (m.owner_pid is Some && owner_probe),
        (rec.age_seconds is Some) == (m.created_at_unix > 0),
        m.created_at_unix > 0 && now >= m.created_at_unix ==> rec.age_seconds->0 + m.created_at_unix == now,
        m.created_at_unix > 0 && now < m.created_at_unix ==> rec.age_seconds->0 == 0,
{
}

/// Whether `rec` lists the running, unrecorded session `name`.
pub open spec fn lists_orphan(rec: &SessionRecord, name: Seq<char>) -> bool {
    &&& rec.session_name@ == name
    &&& rec.kind == SessionKind::Project
    &&& rec.target is None
    &&& rec.host is None
    &&& rec.remote_path is None
    &&& rec.local_path is None
    &&& rec.project_session is None
    &&& rec.owner_pid is None
    &&& !rec.owner_alive
    &&& !rec.keep_session
    &&& rec.mutagen_session
    &&& rec.classification == SessionClassification::Orphaned
    &&& rec.age_seconds is None
}

/// How the session manager lists a running session that has no record.
pub fn orphan_record(session_name: String) -> (rec: SessionRecord)
    ensures
        lists_orphan(&rec, session_name@),
{
    SessionRecord {
        session_name,
        kind: SessionKind::Project,
        target: None,
        host: None,
        remote_path: None,
        local_path: None,
        project_session: None,
        owner_pid: None,
        owner_alive: false,
        keep_session: false,
        mutagen_session: true,
        classification: SessionClassification::Orphaned,
        age_seconds: None,
    }
}

// ---------------------------------------------------------------------------
// Listing
// ---------------------------------------------------------------------------

/// The names of the records.
pub open spec fn record_names(s: Seq<SessionRecord>) -> Seq<Seq<char>> {
    s.map_values(|r: SessionRecord| r.session_name@)
}

/// The index at which `x` goes into `s`: before the first record whose name
/// comes after its own.
pub open spec fn name_place(s: Seq<SessionRecord>, x: Seq<char>) -> int
    decreases s.len(),
{
    if s.len() == 0 || str_lt(x, s[0].session_name@) {
        0
    } else {
        1 + name_place(s.drop_first(), x)
    }
}

/// `s` sorted by name, records with equal names kept in their order: each
/// record in turn goes after every record whose name does not come after its
/// own.
pub open spec fn sorted_by_name(s: Seq<SessionRecord>) -> Seq<SessionRecord>
    decreases s.len(),
{
    if s.len() == 0 {
        Seq::empty()
    } else {
        let r = sorted_by_name(s.drop_last());
        r.insert(name_place(r, s.last().session_name@), s.last())
    }
}

proof fn lemma_name_place_is(s: Seq<SessionRecord>, x: Seq<char>, k: int)
    requires
        0 <= k <= s.len(),
        forall|j: int| 0 <= j < k ==> !str_lt(x, #[trigger] s[j].session_name@),
        k < s.len() ==> str_lt(x, s[k].session_name@),
    ensures
        name_place(s, x) == k,
    decreases k,
{
    if k > 0 {
        assert(!str_lt(x, s[0].session_name@));
        assert forall|j: int| 0 <= j < k - 1 implies !str_lt(x, #[trigger] s.drop_first()[j].session_name@) by {
            assert(s.drop_first()[j] == s[j + 1]);
        }
        lemma_name_place_is(s.drop_first(), x, k - 1);
    }
}

/// Records sorted by name have ascending names and are the same records.
pub proof fn lemma_sorted_by_name(s: Seq<SessionRecord>)
    ensures
        ascending(record_names(sorted_by_name(s))),
        sorted_by_name(s).to_multiset() == s.to_multiset(),
    decreases s.len(),
{
    if s.len() > 0 {
        let p = s.drop_last();
        let x = s.last();
        lemma_sorted_by_name(p);
        let r = sorted_by_name(p);
        let k = name_place(r, x.session_name@);
        lemma_name_place_bounds(r, x.session_name@);
        assert(record_names(r.insert(k, x)) =~= record_names(r).insert(k, x.session_name@));
        assert(insertion_point(record_names(r), x.session_name@, k)) by {
            assert forall|j: int| 0 <= j < k implies !str_lt(x.session_name@, #[trigger] record_names(r)[j]) by {
                lemma_name_place_prefix(r, x.session_name@, j);
            }
        }
        lemma_insert_ascending(record_names(r), x.session_name@, k);
        vstd::seq_lib::to_multiset_insert(r, k, x);
        vstd::seq_lib::to_multiset_build(p, x);
        assert(p.push(x) =~= s);
        assert(sorted_by_name(s) == r.insert(k, x));
        assert(sorted_by_name(s).to_multiset() == r.to_multiset().insert(x));
        assert(s.to_multiset() == p.to_multiset().insert(x));
    } else {
        assert(s =~= Seq::<SessionRecord>::empty());
    }
}

proof fn lemma_name_place_bounds(s: Seq<SessionRecord>, x: Seq<char>)
    ensures
        0 <= name_place(s, x) <= s.len(),
        name_place(s, x) < s.len() ==> str_lt(x, s[name_place(s, x)].session_name@),
    decreases s.len(),
{
    if s.len() > 0 && !str_lt(x, s[0].session_name@) {
        lemma_name_place_bounds(s.drop_first(), x);
    }
}

proof fn lemma_name_place_prefix(s: Seq<SessionRecord>, x: Seq<char>, j: int)
    requires
        0 <= j < name_place(s, x),
    ensures
        !str_lt(x, s[j].session_name@),
    decreases s.len(),
{
    lemma_name_place_bounds(s, x);
    if j > 0 {
        lemma_name_place_prefix(s.drop_first(), x, j - 1);
        assert(s[j] == s.drop_first()[j - 1]);
    }
}

/// `records` sorted by name, equal names kept in their order.
pub fn sort_records_by_name(records: Vec<SessionRecord>) -> (sorted: Vec<SessionRecord>)
    ensures
        sorted@ == sorted_by_name(records@),
{
    let ghost original = records@;
    assert(original.len() == records.len());
    let mut rest = records;
    let mut out: Vec<SessionRecord> = Vec::new();
    let mut done: usize = 0;
    assert(out@ =~= sorted_by_name(original.take(0)));
    assert(rest@ =~= original.skip(0));
    while rest.len() > 0
        invariant
            done <= original.len(),
            original.len() <= usize::MAX,
            rest@.len() + done == original.len(),
            rest@ == original.skip(done as int),
            out@ == sorted_by_name(original.take(done as int)),
        decreases rest.len(),
    {
        let x = rest.remove(0);
        proof {
            assert(original[done as int] == x);
            assert(rest@ =~= original.skip(done + 1));
            assert(original.take(done + 1).drop_last() =~= original.take(done as int));
            assert(original.take(done + 1).last() == x);
        }
        let mut k: usize = 0;
        while k < out.len() && !str_less(x.session_name.as_str(), out[k].session_name.as_str())
            invariant
                k <= out.len(),
                forall|j: int| 0 <= j < k ==> !str_lt(x.session_name@, #[trigger] out@[j].session_name@),
            decreases out.len() - k,
        {
            k += 1;
        }
        proof {
            lemma_name_place_is(out@, x.session_name@, k as int);
        }
        out.insert(k, x);
        done += 1;
    }
    assert(original.take(done as int) =~= original);
    out
}

/// Whether a name is none of `names`.
pub open spec fn not_among(names: Seq<Seq<char>>) -> spec_fn(Seq<char>) -> bool {
    |n: Seq<char>| !names.contains(n)
}

/// Whether `orphans` lists, in order, each name of `running` that none of the
/// `recorded` sessions has.
pub open spec fn merged_records(recorded: Seq<SessionRecord>, running: Seq<Seq<char>>, orphans: Seq<SessionRecord>) -> bool {
    let unrecorded = running.filter(not_among(record_names(recorded)));
    &&& orphans.len() == unrecorded.len()
    &&& forall|i: int| 0 <= i < orphans.len() ==> lists_orphan(&orphans[i], #[trigger] unrecorded[i])
}

/// The records the session manager lists: `recorded` (one per session record
/// read), then an orphan record for each name in `running` that no recorded
/// session has, all sorted by name with equal names in that order.
pub fn merge_session_records(recorded: Vec<SessionRecord>, running: &Vec<String>) -> (listed: Vec<SessionRecord>)
    ensures
        exists|orphans: Seq<SessionRecord>|
            merged_records(recorded@, strings_text(running@), orphans) && listed@ == sorted_by_name(
                recorded@ + orphans,
            ),
{
    let ghost names = record_names(recorded@);
    let mut seen: Vec<String> = Vec::new();
    let mut i: usize = 0;
    assert(strings_text(seen@) =~= names.take(0));
    while i < recorded.len()
        invariant
            i <= recorded.len(),
            names == record_names(recorded@),
            strings_text(seen@) == names.take(i as int),
        decreases recorded.len() - i,
    {
        let ghost before = strings_text(seen@);
        seen.push(recorded[i].session_name.clone());
        assert(strings_text(seen@) =~= before.push(names[i as int]));
        assert(names.take(i + 1) =~= names.take(i as int).push(names[i as int]));
        i += 1;
    }
    assert(names.take(recorded.len() as int) =~= names);
    let ghost run = strings_text(running@);
    let ghost pred = not_among(names);
    let mut orphans: Vec<SessionRecord> = Vec::new();
    let mut j: usize = 0;
    assert(run.take(0).filter(pred) =~= Seq::<Seq<char>>::empty());
    while j < running.len()
        invariant
            j <= running.len(),
            run == strings_text(running@),
            strings_text(seen@) == names,
            pred == not_among(names),
            orphans@.len() == run.take(j as int).filter(pred).len(),
            forall|m: int| 0 <= m < orphans@.len() ==> lists_orphan(&orphans@[m], #[trigger] run.take(j as int).filter(pred)[m]),
        decreases running.len() - j,
    {
        let name = &running[j];
        proof {
            assert(run.take(j + 1) =~= run.take(j as int).push(name@));
            run.take(j as int).lemma_filter_push(name@, pred);
        }
        if !crate::text::contains_string(&seen, name.as_str()) {
            orphans.push(orphan_record(name.clone()));
        }
        j += 1;
    }
    assert(run.take(running.len() as int) =~= run);
    let ghost og = orphans@;
    let mut all = recorded;
    let ghost base = all@;
    all.append(&mut orphans);
    assert(merged_records(base, run, og));
    let listed = sort_records_by_name(all);
    assert(listed@ == sorted_by_name(base + og));
    listed
}

/// The sessions that have a record among the files of a record directory:
/// each `NAME.toml` (with `NAME` not empty) gives `NAME`.
pub open spec fn toml_stems(names: Seq<Seq<char>>) -> Seq<Seq<char>>
    decreases names.len(),
{
    if names.len() == 0 {
        Seq::empty()
    } else {
        let rest = toml_stems(names.drop_last());
        let n = names.last();
        if n.len() > 5 && ends_with(n, ".toml"@) {
            rest.push(n.take(n.len() - 5))
        } else {
            rest
        }
    }
}

/// The sessions recorded in a directory holding the files `file_names`, in
/// ascending order.
pub fn metadata_sessions(file_names: &Vec<String>) -> (sessions: Vec<String>)
    ensures
        ascending(strings_text(sessions@)),
        strings_text(sessions@).to_multiset() == toml_stems(strings_text(file_names@)).to_multiset(),
{
    let suffix: [char; 5] = ['.', 't', 'o', 'm', 'l'];
    proof { reveal_strlit(".toml"); }
    assert(suffix@ =~= ".toml"@);
    let mut stems: Vec<String> = Vec::new();
    let ghost all = strings_text(file_names@);
    let mut i: usize = 0;
    assert(strings_text(stems@) =~= toml_stems(all.take(0)));
    while i < file_names.len()
        invariant
            i <= file_names.len(),
            all == strings_text(file_names@),
            suffix@ == ".toml"@,
            strings_text(stems@) == toml_stems(all.take(i as int)),
        decreases file_names.len() - i,
    {
        let c = chars_of(file_names[i].as_str());
        assert(all.take(i + 1).drop_last() =~= all.take(i as int));
        assert(all.take(i + 1).last() == c@);
        if c.len() > 5 && crate::text::seq_ends_with(c.as_slice(), &suffix) {
            let ghost before = strings_text(stems@);
            stems.push(string_of_range(c.as_slice(), 0, c.len() - 5));
            assert(strings_text(stems@) =~= before.push(c@.take(c@.len() - 5)));
        }
        i += 1;
    }
    assert(all.take(file_names.len() as int) =~= all);
    sort_strings(stems.as_slice())
}

/// The editr sessions in a listing of session names, one per line: each line,
/// trimmed, that begins with `editr-`.
pub open spec fn editr_lines(lines: Seq<Seq<char>>) -> Seq<Seq<char>>
    decreases lines.len(),
{
    if lines.len() == 0 {
        Seq::empty()
    } else {
        let rest = editr_lines(lines.drop_last());
        let l = trim(lines.last());
        if starts_with(l, "editr-"@) {
            rest.push(l)
        } else {
            rest
        }
    }
}

/// The editr sessions named in `listing` (see [`editr_lines`]).
pub fn editr_sessions_from_listing(listing: &str) -> (sessions: Vec<String>)
    ensures
        strings_text(sessions@) == editr_lines(split_on(listing@, '\n')),
{
    let prefix: [char; 6] = ['e', 'd', 'i', 't', 'r', '-'];
    proof { reveal_strlit("editr-"); }
    assert(prefix@ =~= "editr-"@);
    let c = chars_of(listing);
    let lines = split_chars(c.as_slice(), '\n');
    let ghost all = lines@.map_values(|p: Vec<char>| p@);
    let mut out: Vec<String> = Vec::new();
    let mut i: usize = 0;
    assert(strings_text(out@) =~= editr_lines(all.take(0)));
    while i < lines.len()
        invariant
            i <= lines.len(),
            all == lines@.map_values(|p: Vec<char>| p@),
            prefix@ == "editr-"@,
            strings_text(out@) == editr_lines(all.take(i as int)),
        decreases lines.len() - i,
    {
        assert(all.take(i + 1).drop_last() =~= all.take(i as int));
        assert(all.take(i + 1).last() == lines@[i as int]@);
        let t = trim_chars(lines[i].as_slice());
        if seq_starts_with(t.as_slice(), &prefix) {
            let ghost before = strings_text(out@);
            out.push(string_of(t.as_slice()));
            assert(strings_text(out@) =~= before.push(t@));
        }
        i += 1;
    }
    assert(all.take(lines.len() as int) =~= all);
    out
}

/// Whether a listing of a session mentions it: the listing succeeded and its
/// output or error output holds `Name: ` followed by the session's name.
pub open spec fn mentions_session(name: Seq<char>, success: bool, stdout: Seq<char>, stderr: Seq<char>) -> bool {
    success && (contains_seq(stdout, "Name: "@ + name) || contains_seq(stderr, "Name: "@ + name))
}

/// Whether the listing of session `name` shows that it exists.
pub fn listing_mentions_session(name: &str, success: bool, stdout: &str, stderr: &str) -> (exists: bool)
    ensures
        exists == mentions_session(name@, success, stdout@, stderr@),
{
    if !success {
        return false;
    }
    let needle = concat2("Name: ", name);
    let n = chars_of(needle.as_str());
    let o = chars_of(stdout);
    let e = chars_of(stderr);
    seq_contains(o.as_slice(), n.as_slice()) || seq_contains(e.as_slice(), n.as_slice())
}

/// The files removed when a session is stopped, in order: the context file
/// its record names (if the record could be read), then the usual context
/// file and the record itself.
pub open spec fn session_files(local_root: Seq<char>, session: Seq<char>, recorded_context: Option<Seq<char>>) -> Seq<Seq<char>> {
    let dir = path_joined(local_root, ".editr-sessions"@);
    let usual = seq![path_joined(dir, session + ".context.json"@), path_joined(dir, session + ".toml"@)];
    match recorded_context {
        Some(c) => seq![c] + usual,
        None => usual,
    }
}

/// The files to remove when `session` under `local_root` is stopped;
/// `recorded_context` is the context file named by its readable record.
pub fn remove_session_files(local_root: &str, session: &str, recorded_context: Option<String>) -> (files: Vec<String>)
    ensures
        strings_text(files@) == session_files(local_root@, session@, opt_text(recorded_context)),
{
    let dir = metadata_dir(local_root);
    let mut files: Vec<String> = Vec::new();
    let ghost rc = opt_text(recorded_context);
    if let Some(c) = recorded_context {
        files.push(c);
    }
    let context_name = concat2(session, ".context.json");
    files.push(join_path(dir.as_str(), context_name.as_str()));
    let record_name = concat2(session, ".toml");
    files.push(join_path(dir.as_str(), record_name.as_str()));
    assert(strings_text(files@) =~= session_files(local_root@, session@, rc));
    files
}

} // verus!
