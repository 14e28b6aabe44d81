//! The session manager's commands: which sessions a command applies to, what
//! is listed, and what the watcher does on each scan.

use vstd::prelude::*;
use crate::text::{owned, concat2, concat3, push_str, strings_text, opt_text, contains_string};
use crate::target::{selected_session, selector_to_session};
use crate::config::{Config, tilde_expanded, expand_path, configured_root, config_local_root};
use crate::open::opt_str;
use crate::session::{SessionRecord, SessionClassification, CONTEXT_SCHEMA_VERSION};
use crate::mutagen::SessionKind;

verus! {

/// The watcher's polling interval when none is configured.
pub const DEFAULT_WATCH_INTERVAL: &'static str = "60s";

/// How old a stuck hydration may get before the watcher stops it, when not
/// configured.
pub const DEFAULT_AUTO_STOP_HYDRATION_AFTER: &'static str = "10m";

// ---------------------------------------------------------------------------
// Which sessions a command applies to
// ---------------------------------------------------------------------------

/// The sessions a command applies to.
#[derive(Debug)]
pub enum SessionScope {
    /// Every session recorded under the mirror root.
    All,
    /// The session a selector names.
    One(String),
    /// None was named.
    Unspecified,
}

/// Why a command's sessions could not be determined.
#[derive(Debug, PartialEq, Eq, Structural)]
pub enum ScopeError {
    /// Both `--all` and a selector were given.
    Conflict,
}

impl ScopeError {
    /// The message shown for this error.
    pub fn message(&self) -> (m: String)
        ensures
            m@ == "pass either --all or a target/session, not both"@,
    {
        owned("pass either --all or a target/session, not both")
    }
}

/// The sessions a command applies to, given `--all` and the selector (a
/// target or a session name).
pub fn session_scope(all: bool, selector: Option<&str>) -> (r: Result<SessionScope, ScopeError>)
    ensures
        all && selector is Some ==> r == Err::<SessionScope, ScopeError>(ScopeError::Conflict),
        all && selector is None ==> r matches Ok(SessionScope::All),
        !all && selector is None ==> r matches Ok(SessionScope::Unspecified),
        !all && selector is Some ==> (r matches Ok(SessionScope::One(s)) && s@ == selected_session(
            selector->0@,
        )),
{
    if all {
        if selector.is_some() {
            return Err(ScopeError::Conflict);
        }
        return Ok(SessionScope::All);
    }
    match selector {
        Some(s) => Ok(SessionScope::One(selector_to_session(s))),
        None => Ok(SessionScope::Unspecified),
    }
}

/// The message shown when `command` was given no session and no `--all`.
pub fn missing_scope_message(command: &str) -> (m: String)
    ensures
        m@ == command@ + " requires a target/session, or --all"@,
{
    concat2(command, " requires a target/session, or --all")
}

/// The mirror root the session manager looks under: the given one, or the
/// configured one, with `~` expanded.
pub fn manager_local_root(local_root: Option<&str>, config: &Config, home_env: Option<&str>, tilde_home: Option<&str>) -> (root: String)
    ensures
        root@ == tilde_expanded(
            match local_root {
                Some(p) => p@,
                None => configured_root(config, opt_str(home_env), opt_str(tilde_home)),
            },
            opt_str(tilde_home),
        ),
{
    let given = match local_root {
        Some(p) => owned(p),
        None => config_local_root(config, home_env, tilde_home),
    };
    expand_path(given.as_str(), tilde_home)
}

// ---------------------------------------------------------------------------
// Listing
// ---------------------------------------------------------------------------

/// The name of a classification as listings show it.
pub open spec fn class_name(c: SessionClassification) -> Seq<char> {
    match c {
        SessionClassification::Active => "Active"@,
        SessionClassification::Persistent => "Persistent"@,
        SessionClassification::Suspicious => "Suspicious"@,
        SessionClassification::Orphaned => "Orphaned"@,
        SessionClassification::StuckHydration => "StuckHydration"@,
    }
}

/// The name of a classification as listings show it.
pub fn classification_name(c: SessionClassification) -> (name: &'static str)
    ensures
        name@ == class_name(c),
{
    match c {
        SessionClassification::Active => "Active",
        SessionClassification::Persistent => "Persistent",
        SessionClassification::Suspicious => "Suspicious",
        SessionClassification::Orphaned => "Orphaned",
        SessionClassification::StuckHydration => "StuckHydration",
    }
}

/// The name of a session kind as listings show it.
pub open spec fn kind_name(k: SessionKind) -> Seq<char> {
    match k {
        SessionKind::Project => "Project"@,
        SessionKind::Bootstrap => "Bootstrap"@,
        SessionKind::Hydration => "Hydration"@,
    }
}

/// The name of a session kind as listings show it.
pub fn session_kind_name(k: SessionKind) -> (name: &'static str)
    ensures
        name@ == kind_name(k),
{
    match k {
        SessionKind::Project => "Project",
        SessionKind::Bootstrap => "Bootstrap",
        SessionKind::Hydration => "Hydration",
    }
}

/// A record as `editr list` shows it: name, kind, classification and mirror
/// (or `-`), separated by tabs.
pub open spec fn list_line_text(r: &SessionRecord) -> Seq<char> {
    r.session_name@ + "\t"@ + kind_name(r.kind) + "\t"@ + class_name(r.classification) + "\t"@ + match opt_text(
        r.local_path,
    ) {
        Some(p) => p,
        None => "-"@,
    }
}

/// The line `editr list` shows for `record`.
pub fn list_line(record: &SessionRecord) -> (line: String)
    ensures
        line@ == list_line_text(record),
{
    let mut line = concat3(record.session_name.as_str(), "\t", session_kind_name(record.kind));
    push_str(&mut line, "\t");
    push_str(&mut line, classification_name(record.classification));
    push_str(&mut line, "\t");
    match &record.local_path {
        Some(p) => push_str(&mut line, p.as_str()),
        None => push_str(&mut line, "-"),
    }
    line
}

// ---------------------------------------------------------------------------
// Watching
// ---------------------------------------------------------------------------

/// The interval as written: the one asked for, else the configured one, else
/// `60s`.
pub fn watch_interval_text(asked: Option<&str>, config: &Config) -> (text: String)
    ensures
        text@ == match asked {
            Some(s) => s@,
            None => match &config.watcher {
                Some(w) => match &w.interval {
                    Some(i) => i@,
                    None => DEFAULT_WATCH_INTERVAL@,
                },
                None => DEFAULT_WATCH_INTERVAL@,
            },
        },
{
    match asked {
        Some(s) => owned(s),
        None => match &config.watcher {
            Some(w) => match &w.interval {
                Some(i) => i.clone(),
                None => owned(DEFAULT_WATCH_INTERVAL),
            },
            None => owned(DEFAULT_WATCH_INTERVAL),
        },
    }
}

/// The auto-stop age as written: the one asked for, else the configured one,
/// else `10m`.
pub fn auto_stop_text(asked: Option<&str>, config: &Config) -> (text: String)
    ensures
        text@ == match asked {
            Some(s) => s@,
            None => match &config.watcher {
                Some(w) => match &w.auto_stop_hydration_after {
                    Some(i) => i@,
                    None => DEFAULT_AUTO_STOP_HYDRATION_AFTER@,
                },
                None => DEFAULT_AUTO_STOP_HYDRATION_AFTER@,
            },
        },
{
    match asked {
        Some(s) => owned(s),
        None => match &config.watcher {
            Some(w) => match &w.auto_stop_hydration_after {
                Some(i) => i.clone(),
                None => owned(DEFAULT_AUTO_STOP_HYDRATION_AFTER),
            },
            None => owned(DEFAULT_AUTO_STOP_HYDRATION_AFTER),
        },
    }
}

/// Whether the watcher notifies: `--no-notify` wins over `--notify`, which
/// wins over the configuration; the default is yes.
pub fn watch_notify(no_notify: bool, notify: bool, config: &Config) -> (on: bool)
    ensures
        on == if no_notify {
            false
        } else if notify {
            true
        } else {
            match &config.watcher {
                Some(w) => match w.notify {
                    Some(b) => b,
                    None => true,
                },
                None => true,
            }
        },
{
    if no_notify {
        false
    } else if notify {
        true
    } else {
        match &config.watcher {
            Some(w) => match w.notify {
                Some(b) => b,
                None => true,
            },
            None => true,
        }
    }
}

/// What the watcher does about a session.
#[derive(Debug)]
pub enum WatchAction {
    /// Terminate the session and remove its files.
    Stop(String),
    /// Tell the user, once per `key`.
    Notify { key: String, message: String },
}

/// The mathematical content of a [`WatchAction`].
pub enum WatchActionView {
    Stop(Seq<char>),
    Notify(Seq<char>, Seq<char>),
}

/// The views of a list of actions.
pub open spec fn actions_view(actions: Seq<WatchAction>) -> Seq<WatchActionView> {
    actions.map_values(|a: WatchAction| match a {
        WatchAction::Stop(s) => WatchActionView::Stop(s@),
        WatchAction::Notify { key, message } => WatchActionView::Notify(key@, message@),
    })
}

/// Whether a session is stopped: a stuck hydration at least `limit` seconds old.
pub open spec fn stops(r: &SessionRecord, limit: u64) -> bool {
    r.classification == SessionClassification::StuckHydration && (r.age_seconds matches Some(a) && a >= limit)
}

/// Whether a session's state is worth telling the user about.
pub open spec fn needs_attention(c: SessionClassification) -> bool {
    c == SessionClassification::Suspicious || c == SessionClassification::Orphaned || c
        == SessionClassification::StuckHydration
}

/// What identifies a notification: the session and its classification.
pub open spec fn notice_key(r: &SessionRecord) -> Seq<char> {
    r.session_name@ + ":"@ + class_name(r.classification)
}

/// What a notification says.
pub open spec fn notice_text(r: &SessionRecord) -> Seq<char> {
    r.session_name@ + " is "@ + class_name(r.classification)
}

/// The actions of a scan of `records`, in order, and the notification keys
/// known after it, starting from the keys `notified`.
pub open spec fn scan_records(records: Seq<SessionRecord>, limit: u64, notify: bool, notified: Seq<Seq<char>>) -> (
    Seq<WatchActionView>,
    Seq<Seq<char>>,
)
    decreases records.len(),
{
    if records.len() == 0 {
        (Seq::empty(), notified)
    } else {
        let (actions, seen) = scan_records(records.drop_last(), limit, notify, notified);
        let r = records.last();
        if stops(&r, limit) {
            (actions.push(WatchActionView::Stop(r.session_name@)), seen)
        } else if notify && needs_attention(r.classification) && !seen.contains(notice_key(&r)) {
            (actions.push(WatchActionView::Notify(notice_key(&r), notice_text(&r))), seen.push(notice_key(&r)))
        } else {
            (actions, seen)
        }
    }
}

fn record_notice(r: &SessionRecord, separator: &str) -> (text: String)
    ensures
        text@ == r.session_name@ + separator@ + class_name(r.classification),
{
    concat3(r.session_name.as_str(), separator, classification_name(r.classification))
}

/// One scan of the watcher over `records`: the actions to take, in order;
/// `notified` holds the keys of notifications already given and gains those
/// given now.
pub fn watch_scan(records: &Vec<SessionRecord>, auto_stop_secs: u64, notify: bool, notified: &mut Vec<String>) -> (actions: Vec<WatchAction>)
    ensures
        (actions_view(actions@), strings_text(final(notified)@)) == scan_records(
            records@,
            auto_stop_secs,
            notify,
            strings_text(old(notified)@),
        ),
{
    let ghost start = strings_text(notified@);
    let mut actions: Vec<WatchAction> = Vec::new();
    let mut i: usize = 0;
    assert(actions_view(actions@) =~= Seq::<WatchActionView>::empty());
    assert(records@.take(0) =~= Seq::<SessionRecord>::empty());
    while i < records.len()
        invariant
            i <= records.len(),
            (actions_view(actions@), strings_text(notified@)) == scan_records(
                records@.take(i as int),
                auto_stop_secs,
                notify,
                start,
            ),
        decreases records.len() - i,
    {
        let r = &records[i];
        assert(records@.take(i + 1).drop_last() =~= records@.take(i as int));
        assert(records@.take(i + 1).last() == *r);
        let ghost before_actions = actions_view(actions@);
        let stuck_and_old = r.classification == SessionClassification::StuckHydration && match r.age_seconds {
            Some(a) => a >= auto_stop_secs,
            None => false,
        };
        if stuck_and_old {
            actions.push(WatchAction::Stop(r.session_name.clone()));
            assert(actions_view(actions@) =~= before_actions.push(WatchActionView::Stop(r.session_name@)));
        } else if notify && (r.classification == SessionClassification::Suspicious || r.classification
            == SessionClassification::Orphaned || r.classification == SessionClassification::StuckHydration) {
            let key = record_notice(r, ":");
            if !contains_string(notified, key.as_str()) {
                let message = record_notice(r, " is ");
                let ghost before_seen = strings_text(notified@);
                notified.push(key.clone());
                assert(strings_text(notified@) =~= before_seen.push(key@));
                actions.push(WatchAction::Notify { key, message });
                assert(actions_view(actions@) =~= before_actions.push(
                    WatchActionView::Notify(notice_key(r), notice_text(r)),
                ));
            }
        }
        i += 1;
    }
    assert(records@.take(records.len() as int) =~= records@);
    actions
}

/// The keys known after a scan are those known before, followed by the new
/// ones; each new one was unknown, so no notification is given twice.
pub proof fn lemma_scan_notifies_once(records: Seq<SessionRecord>, limit: u64, notify: bool, notified: Seq<Seq<char>>)
    ensures
        scan_records(records, limit, notify, notified).1.take(notified.len() as int) == notified,
        notified.len() <= scan_records(records, limit, notify, notified).1.len(),
        notified.no_duplicates() ==> scan_records(records, limit, notify, notified).1.no_duplicates(),
    decreases records.len(),
{
    if records.len() == 0 {
        assert(notified.take(notified.len() as int) =~= notified);
    } else {
        lemma_scan_notifies_once(records.drop_last(), limit, notify, notified);
        let (actions, seen) = scan_records(records.drop_last(), limit, notify, notified);
        let r = records.last();
        if !stops(&r, limit) && notify && needs_attention(r.classification) && !seen.contains(notice_key(&r)) {
            assert(seen.push(notice_key(&r)).take(notified.len() as int) =~= seen.take(notified.len() as int));
            if seen.no_duplicates() {
                let t = seen.push(notice_key(&r));
                assert forall|a: int, b: int| 0 <= a < t.len() && 0 <= b < t.len() && a != b implies t[a] != t[b] by {
                    if a == seen.len() {
                        assert(t[b] == seen[b]);
                    } else if b == seen.len() {
                        assert(t[a] == seen[a]);
                    }
                }
            }
        }
    }
}

/// A session that is stopped is not also notified about in the same scan
/// step, and sessions that need no attention are never notified about.
pub proof fn lemma_scan_step_rules(records: Seq<SessionRecord>, limit: u64, notify: bool, notified: Seq<Seq<char>>)
    requires
        records.len() > 0,
    ensures
        ({
            let before = scan_records(records.drop_last(), limit, notify, notified);
            let after = scan_records(records, limit, notify, notified);
            let r = records.last();
            &&& stops(&r, limit) ==> after.1 == before.1
            &&& !needs_attention(r.classification) || !notify ==> after.1 == before.1
            &&& after.0.len() <= before.0.len() + 1
        }),
{
}

/// The watcher stops only stuck hydrations that reached the age limit: each
/// `Stop` of a scan names such a session among the records scanned.
pub proof fn lemma_scan_stops_only_stale_hydrations(records: Seq<SessionRecord>, limit: u64, notify: bool, notified: Seq<Seq<char>>)
    ensures
        forall|i: int|
            0 <= i < scan_records(records, limit, notify, notified).0.len() && (#[trigger] scan_records(
                records,
                limit,
                notify,
                notified,
            ).0[i]) is Stop ==> exists|j: int|
                0 <= j < records.len() && records[j].session_name@ == scan_records(records, limit, notify, notified).0[i]->Stop_0
                    && stops(&records[j], limit),
    decreases records.len(),
{
    if records.len() > 0 {
        let p = records.drop_last();
        lemma_scan_stops_only_stale_hydrations(p, limit, notify, notified);
        let before = scan_records(p, limit, notify, notified).0;
        let after = scan_records(records, limit, notify, notified).0;
        assert forall|i: int| 0 <= i < after.len() && (#[trigger] after[i]) is Stop implies exists|j: int|
            0 <= j < records.len() && records[j].session_name@ == after[i]->Stop_0 && stops(&records[j], limit) by {
            if i < before.len() {
                assert(after[i] == before[i]);
                let j = choose|j: int| 0 <= j < p.len() && p[j].session_name@ == before[i]->Stop_0 && stops(&p[j], limit);
                assert(records[j] == p[j]);
            } else {
                let j = records.len() - 1;
                assert(records[j] == records.last());
            }
        }
    }
}

/// A scan stops every stuck hydration that reached the age limit.
pub proof fn lemma_scan_stops_every_stale_hydration(records: Seq<SessionRecord>, limit: u64, notify: bool, notified: Seq<Seq<char>>)
    ensures
        forall|j: int|
            0 <= j < records.len() && stops(&#[trigger] records[j], limit) ==> exists|i: int|
                0 <= i < scan_records(records, limit, notify, notified).0.len() && scan_records(
                    records,
                    limit,
                    notify,
                    notified,
                ).0[i] == WatchActionView::Stop(records[j].session_name@),
    decreases records.len(),
{
    if records.len() > 0 {
        let p = records.drop_last();
        lemma_scan_stops_every_stale_hydration(p, limit, notify, notified);
        let before = scan_records(p, limit, notify, notified).0;
        let after = scan_records(records, limit, notify, notified).0;
        assert forall|j: int| 0 <= j < records.len() && stops(&#[trigger] records[j], limit) implies exists|i: int|
            0 <= i < after.len() && after[i] == WatchActionView::Stop(records[j].session_name@) by {
            if j < p.len() {
                assert(records[j] == p[j]);
                let i = choose|i: int| 0 <= i < before.len() && before[i] == WatchActionView::Stop(p[j].session_name@);
                assert(after[i] == before[i]);
            } else {
                assert(records[j] == records.last());
                assert(after[after.len() - 1] == WatchActionView::Stop(records[j].session_name@));
            }
        }
    }
}

/// With notifications on, a scan notifies about each suspicious, orphaned or
/// stuck session that it does not stop and has not notified about before,
/// under the key `name:Classification`; an active or persistent session is
/// neither stopped nor notified about.
pub proof fn lemma_scan_notifies_attention(records: Seq<SessionRecord>, limit: u64, notify: bool, notified: Seq<Seq<char>>)
    requires
        records.len() > 0,
    ensures
        ({
            let (actions, seen) = scan_records(records.drop_last(), limit, notify, notified);
            let after = scan_records(records, limit, notify, notified);
            let r = records.last();
            let key = r.session_name@ + ":"@ + class_name(r.classification);
            &&& notify && !stops(&r, limit) && (r.classification == SessionClassification::Suspicious
                || r.classification == SessionClassification::Orphaned || r.classification
                == SessionClassification::StuckHydration) && !seen.contains(key) ==> after == (
                actions.push(WatchActionView::Notify(key, r.session_name@ + " is "@ + class_name(r.classification))),
                seen.push(key),
            )
            &&& notify && !stops(&r, limit) && seen.contains(key) ==> after == (actions, seen)
            &&& (r.classification == SessionClassification::Active || r.classification
                == SessionClassification::Persistent) ==> after == (actions, seen)
            &&& !notify && !stops(&r, limit) ==> after == (actions, seen)
        }),
{
}

/// Stopping depends only on the record: a stuck hydration whose age is known
/// and at least the limit is stopped, whatever else holds; nothing else is.
pub proof fn lemma_scan_stop_rule(records: Seq<SessionRecord>, limit: u64, notify: bool, notified: Seq<Seq<char>>)
    requires
        records.len() > 0,
    ensures
        ({
            let (actions, seen) = scan_records(records.drop_last(), limit, notify, notified);
            let after = scan_records(records, limit, notify, notified);
            let r = records.last();
            &&& (r.classification == SessionClassification::StuckHydration && r.age_seconds is Some
                && r.age_seconds->0 >= limit) ==> after == (actions.push(WatchActionView::Stop(r.session_name@)), seen)
            &&& !(r.classification == SessionClassification::StuckHydration) ==> !(after.0.len() > actions.len()
                && after.0.last() is Stop)
            &&& r.age_seconds is None ==> !(after.0.len() > actions.len() && after.0.last() is Stop)
            &&& (r.age_seconds is Some && r.age_seconds->0 < limit) ==> !(after.0.len() > actions.len()
                && after.0.last() is Stop)
        }),
{
}

/// The lines a scan reports: every session that is neither active nor
/// persistent, with its classification.
pub open spec fn report_lines(records: Seq<SessionRecord>) -> Seq<Seq<char>>
    decreases records.len(),
{
    if records.len() == 0 {
        Seq::empty()
    } else {
        let rest = report_lines(records.drop_last());
        let r = records.last();
        if r.classification == SessionClassification::Active || r.classification == SessionClassification::Persistent {
            rest
        } else {
            rest.push(r.session_name@ + ": "@ + class_name(r.classification))
        }
    }
}

/// The lines a scan of `records` reports (see [`report_lines`]).
pub fn watch_report_lines(records: &Vec<SessionRecord>) -> (lines: Vec<String>)
    ensures
        strings_text(lines@) == report_lines(records@),
{
    let mut lines: Vec<String> = Vec::new();
    let mut i: usize = 0;
    assert(strings_text(lines@) =~= report_lines(records@.take(0)));
    while i < records.len()
        invariant
            i <= records.len(),
            strings_text(lines@) == report_lines(records@.take(i as int)),
        decreases records.len() - i,
    {
        let r = &records[i];
        assert(records@.take(i + 1).drop_last() =~= records@.take(i as int));
        assert(records@.take(i + 1).last() == *r);
        if !(r.classification == SessionClassification::Active || r.classification
            == SessionClassification::Persistent) {
            let ghost before = strings_text(lines@);
            lines.push(record_notice(r, ": "));
            assert(strings_text(lines@) =~= before.push(r.session_name@ + ": "@ + class_name(r.classification)));
        }
        i += 1;
    }
    assert(records@.take(records.len() as int) =~= records@);
    lines
}

// ---------------------------------------------------------------------------
// Capabilities
// ---------------------------------------------------------------------------

/// What the command-line tool offers to companion integrations.
pub struct Capabilities {
    pub name: String,
    pub version: String,
    pub context_schema_version: u32,
    pub features: Vec<String>,
}

/// The capabilities of version `version` of the tool.
pub fn capabilities(version: &str) -> (c: Capabilities)
    ensures
        c.name@ == "editr"@,
        c.version@ == version@,
        c.context_schema_version == CONTEXT_SCHEMA_VERSION,
        strings_text(c.features@) == seq!["context-v1"@, "hydrate-v1"@, "list-json-v1"@, "watch-v1"@],
{
    let mut features: Vec<String> = Vec::new();
    features.push(owned("context-v1"));
    features.push(owned("hydrate-v1"));
    features.push(owned("list-json-v1"));
    features.push(owned("watch-v1"));
    assert(strings_text(features@) =~= seq!["context-v1"@, "hydrate-v1"@, "list-json-v1"@, "watch-v1"@]);
    Capabilities {
        name: owned("editr"),
        version: owned(version),
        context_schema_version: CONTEXT_SCHEMA_VERSION,
        features,
    }
}

} // verus!
