//! The user's configuration as the rest of the library reads it: the table of
//! ignore patterns keyed by target pattern, home-relative paths, and the
//! choices that fall back on defaults.

use vstd::prelude::*;
use crate::text::{chars_of, owned, str_eq};
use crate::text::strings_text;
use crate::order::{str_lt, str_less, lemma_str_lt_total, lemma_str_lt_transitive, lemma_str_lt_irreflexive};
use crate::wildcard::{wildcard_match, glob};
use crate::target::{path_joined, join_path};

verus! {

// ---------------------------------------------------------------------------
// The ignore table
// ---------------------------------------------------------------------------

/// One row of the ignore table: a target pattern and its ignore patterns.
pub type IgnoreRow = (Seq<char>, Seq<Seq<char>>);

/// Whether the rows' keys strictly ascend, so that no key occurs twice.
pub open spec fn keys_ascend(rows: Seq<IgnoreRow>) -> bool {
    forall|i: int, j: int| 0 <= i < j < rows.len() ==> str_lt(rows[i].0, rows[j].0)
}

/// Whether some row has key `key`.
pub open spec fn has_key(rows: Seq<IgnoreRow>, key: Seq<char>) -> bool {
    exists|i: int| 0 <= i < rows.len() && rows[i].0 == key
}

/// The patterns stored under `key`, if any.
pub open spec fn row_for(rows: Seq<IgnoreRow>, key: Seq<char>) -> Option<Seq<Seq<char>>> {
    if has_key(rows, key) {
        Some(rows[choose|i: int| 0 <= i < rows.len() && rows[i].0 == key].1)
    } else {
        None
    }
}

/// Ignore patterns keyed by target pattern, kept in key order with each key
/// once, as a sorted map holds them. The rows are a vector, not a
/// `BTreeMap<String, _>`: vstd's specification of that map holds only for keys
/// whose order vstd specifies, and `String`'s is not among them; so the key
/// order that the ignore rules are applied in, and each key occurring once,
/// is this type's invariant instead.
#[derive(Debug)]
pub struct IgnoreTable {
    rows: Vec<(String, Vec<String>)>,
}

/// The contents of a stored row.
pub open spec fn row_view(row: (String, Vec<String>)) -> IgnoreRow {
    (row.0@, strings_text(row.1@))
}

impl View for IgnoreTable {
    type V = Seq<IgnoreRow>;

    closed spec fn view(&self) -> Seq<IgnoreRow> {
        self.rows@.map_values(|row: (String, Vec<String>)| row_view(row))
    }
}

impl IgnoreTable {
    #[verifier::type_invariant]
    spec fn rows_ascend(self) -> bool {
        keys_ascend(self@)
    }

    /// An empty table.
    pub fn new() -> (t: IgnoreTable)
        ensures
            t@ == Seq::<IgnoreRow>::empty(),
    {
        let t = IgnoreTable { rows: Vec::new() };
        assert(t@ =~= Seq::<IgnoreRow>::empty());
        t
    }

    /// The number of rows.
    pub fn len(&self) -> (n: usize)
        ensures
            n == self@.len(),
    {
        self.rows.len()
    }

    /// Stores `patterns` under `key`: an existing row with that key is
    /// replaced, otherwise a row is added at the key's place in the order.
    pub fn insert(&mut self, key: String, patterns: Vec<String>)
        ensures
            keys_ascend(final(self)@),
            has_key(old(self)@, key@) ==> exists|i: int|
                0 <= i < old(self)@.len() && old(self)@[i].0 == key@ && final(self)@ == old(self)@.update(
                    i,
                    (key@, strings_text(patterns@)),
                ),
            !has_key(old(self)@, key@) ==> exists|k: int|
                0 <= k <= old(self)@.len() && (forall|j: int| 0 <= j < k ==> str_lt(#[trigger] old(self)@[j].0, key@))
                    && (k < old(self)@.len() ==> str_lt(key@, old(self)@[k].0)) && final(self)@
                    == old(self)@.insert(k, (key@, strings_text(patterns@))),
    {
        proof { use_type_invariant(&*self); }
        let ghost before = self@;
        let mut rows: Vec<(String, Vec<String>)> = Vec::new();
        std::mem::swap(&mut rows, &mut self.rows);
        assert(rows@.map_values(|row: (String, Vec<String>)| row_view(row)) == before);
        let mut k: usize = 0;
        while k < rows.len() && str_less(rows[k].0.as_str(), key.as_str())
            invariant
                k <= rows.len(),
                rows@.map_values(|row: (String, Vec<String>)| row_view(row)) == before,
                forall|j: int| 0 <= j < k ==> str_lt(#[trigger] before[j].0, key@),
            decreases rows.len() - k,
        {
            assert(before[k as int] == row_view(rows@[k as int]));
            k += 1;
        }
        let ghost new_row = (key@, strings_text(patterns@));
        if k < rows.len() && str_eq(rows[k].0.as_str(), key.as_str()) {
            assert(before[k as int].0 == key@);
            assert(has_key(before, key@));
            rows.set(k, (key, patterns));
            proof {
                assert(rows@.map_values(|row: (String, Vec<String>)| row_view(row)) =~= before.update(
                    k as int,
                    new_row,
                ));
                let after = before.update(k as int, new_row);
                assert forall|i: int, j: int| 0 <= i < j < after.len() implies str_lt(after[i].0, after[j].0) by {
                    assert(after[i].0 == before[i].0 && after[j].0 == before[j].0);
                }
            }
            self.rows = rows;
        } else {
            proof {
                if k < rows.len() {
                    assert(before[k as int] == row_view(rows@[k as int]));
                    assert(before[k as int].0 != key@);
                    assert(!str_lt(before[k as int].0, key@));
                    lemma_str_lt_total(before[k as int].0, key@);
                }
                assert(!has_key(before, key@)) by {
                    if has_key(before, key@) {
                        let i = choose|i: int| 0 <= i < before.len() && before[i].0 == key@;
                        if i < k {
                            lemma_str_lt_irreflexive(key@);
                        } else if i > k {
                            assert(str_lt(before[k as int].0, before[i].0));
                            lemma_str_lt_transitive(key@, before[k as int].0, before[i].0);
                            lemma_str_lt_irreflexive(key@);
                        }
                    }
                }
            }
            rows.insert(k, (key, patterns));
            proof {
                let after = before.insert(k as int, new_row);
                assert(rows@.map_values(|row: (String, Vec<String>)| row_view(row)) =~= after);
                assert forall|i: int, j: int| 0 <= i < j < after.len() implies str_lt(after[i].0, after[j].0) by {
                    if j < k {
                        assert(after[i] == before[i] && after[j] == before[j]);
                    } else if j == k {
                        assert(after[i] == before[i]);
                    } else if i == k {
                        assert(after[j] == before[j - 1]);
                        if j - 1 > k {
                            lemma_str_lt_transitive(key@, before[k as int].0, before[j - 1].0);
                        }
                    } else if i < k {
                        assert(after[i] == before[i] && after[j] == before[j - 1]);
                        if j - 1 > k {
                            lemma_str_lt_transitive(key@, before[k as int].0, before[j - 1].0);
                        }
                        lemma_str_lt_transitive(before[i].0, key@, before[j - 1].0);
                    } else {
                        assert(after[i] == before[i - 1] && after[j] == before[j - 1]);
                    }
                }
            }
            self.rows = rows;
        }
    }
}

/// Rows after the first whose key is not `*` and matches `target`, their
/// patterns in row order.
pub open spec fn matched_patterns(rows: Seq<IgnoreRow>, target: Seq<char>) -> Seq<Seq<char>>
    decreases rows.len(),
{
    if rows.len() == 0 {
        Seq::empty()
    } else {
        let rest = matched_patterns(rows.drop_last(), target);
        let row = rows.last();
        if row.0 != "*"@ && glob(encode_utf8_of(row.0), encode_utf8_of(target)) {
            rest + row.1
        } else {
            rest
        }
    }
}

/// The UTF-8 bytes of a character sequence.
pub open spec fn encode_utf8_of(s: Seq<char>) -> Seq<u8> {
    vstd::utf8::encode_utf8(s)
}

/// The ignore patterns that apply to `target`: those under `*` first, then
/// those of every other key that matches the target, in key order.
pub open spec fn ignore_patterns_for(rows: Seq<IgnoreRow>, target: Seq<char>) -> Seq<Seq<char>> {
    let global = match row_for(rows, "*"@) {
        Some(g) => g,
        None => Seq::empty(),
    };
    global + matched_patterns(rows, target)
}

// ---------------------------------------------------------------------------
// The configuration
// ---------------------------------------------------------------------------

/// How a hydrated file is kept: copied once, or synchronised both ways.
#[derive(Clone, Copy, Debug, PartialEq, Eq, Structural)]
pub enum HydrationMode {
    Oneshot,
    Live,
}

/// The `[hydrate]` section.
pub struct HydrateConfig {
    pub max_auto_size: Option<String>,
    pub default_mode: Option<HydrationMode>,
}

/// The `[watcher]` section.
pub struct WatcherConfig {
    pub interval: Option<String>,
    pub notify: Option<bool>,
    pub auto_stop_hydration_after: Option<String>,
}

/// The configuration file's settings; each is optional.
pub struct Config {
    pub local_root: Option<String>,
    pub editor: Option<String>,
    pub mode: Option<String>,
    pub sync_vcs: Option<bool>,
    pub keep_session: Option<bool>,
    pub hydrate: Option<HydrateConfig>,
    pub watcher: Option<WatcherConfig>,
    pub ignore: Option<IgnoreTable>,
}

impl Default for Config {
    fn default() -> (c: Self)
        ensures
            c.local_root is None,
            c.editor is None,
            c.mode is None,
            c.sync_vcs is None,
            c.keep_session is None,
            c.hydrate is None,
            c.watcher is None,
            c.ignore is None,
    {
        Config {
            local_root: None,
            editor: None,
            mode: None,
            sync_vcs: None,
            keep_session: None,
            hydrate: None,
            watcher: None,
            ignore: None,
        }
    }
}

/// The ignore patterns of `config` for `target` (see [`ignore_patterns_for`]).
pub open spec fn config_patterns(config: &Config, target: Seq<char>) -> Seq<Seq<char>> {
    match &config.ignore {
        Some(table) => ignore_patterns_for(table@, target),
        None => Seq::empty(),
    }
}

/// The ignore patterns that `config` applies to the target text `target`.
pub fn config_ignore_patterns(config: &Config, target: &str) -> (patterns: Vec<String>)
    ensures
        strings_text(patterns@) == config_patterns(config, target@),
{
    let table = match &config.ignore {
        Some(t) => t,
        None => {
            let v: Vec<String> = Vec::new();
            assert(strings_text(v@) =~= Seq::<Seq<char>>::empty());
            return v;
        },
    };
    proof { use_type_invariant(table); }
    let rows = &table.rows;
    let ghost view = table@;
    let mut out: Vec<String> = Vec::new();
    // The patterns under `*`.
    let mut g: usize = 0;
    while g < rows.len() && !str_eq(rows[g].0.as_str(), "*")
        invariant
            g <= rows.len(),
            rows@.map_values(|row: (String, Vec<String>)| row_view(row)) == view,
            forall|j: int| 0 <= j < g ==> #[trigger] view[j].0 != "*"@,
        decreases rows.len() - g,
    {
        assert(view[g as int] == row_view(rows@[g as int]));
        g += 1;
    }
    if g < rows.len() {
        assert(view[g as int] == row_view(rows@[g as int]));
        assert(has_key(view, "*"@));
        proof {
            let c = choose|i: int| 0 <= i < view.len() && view[i].0 == "*"@;
            if c != g {
                if c < g {
                } else {
                    assert(str_lt(view[g as int].0, view[c].0));
                    lemma_str_lt_irreflexive(view[c].0);
                }
            }
        }
        let values = &rows[g].1;
        let mut i: usize = 0;
        while i < values.len()
            invariant
                i <= values.len(),
                strings_text(out@) == strings_text(values@.take(i as int)),
            decreases values.len() - i,
        {
            out.push(values[i].clone());
            assert(strings_text(values@.take(i + 1)) =~= strings_text(values@.take(i as int)).push(values@[i as int]@));
            assert(strings_text(out@) =~= strings_text(values@.take(i + 1)));
            i += 1;
        }
        assert(values@.take(values.len() as int) =~= values@);
    } else {
        assert(!has_key(view, "*"@));
        assert(strings_text(out@) =~= Seq::<Seq<char>>::empty());
    }
    let ghost global = strings_text(out@);
    assert(global == match row_for(view, "*"@) { Some(x) => x, None => Seq::<Seq<char>>::empty() });
    // The patterns of every other matching key, in key order.
    let mut r: usize = 0;
    assert(view.take(0) =~= Seq::<IgnoreRow>::empty());
    while r < rows.len()
        invariant
            r <= rows.len(),
            rows@.map_values(|row: (String, Vec<String>)| row_view(row)) == view,
            strings_text(out@) == global + matched_patterns(view.take(r as int), target@),
        decreases rows.len() - r,
    {
        let key = rows[r].0.as_str();
        assert(view[r as int] == row_view(rows@[r as int]));
        assert(view.take(r + 1).drop_last() =~= view.take(r as int));
        if !str_eq(key, "*") && wildcard_match(key, target) {
            let values = &rows[r].1;
            let ghost mid = strings_text(out@);
            let mut i: usize = 0;
            while i < values.len()
                invariant
                    i <= values.len(),
                    strings_text(out@) == mid + strings_text(values@.take(i as int)),
                decreases values.len() - i,
            {
                let ghost prev = out@;
                out.push(values[i].clone());
                assert(strings_text(out@) =~= strings_text(prev).push(values@[i as int]@));
                assert(strings_text(values@.take(i + 1)) =~= strings_text(values@.take(i as int)).push(values@[i as int]@));
                assert(strings_text(out@) =~= mid + strings_text(values@.take(i + 1)));
                i += 1;
            }
            assert(values@.take(values.len() as int) =~= values@);
            assert(strings_text(out@) =~= global + matched_patterns(view.take(r + 1), target@));
        } else {
            assert(strings_text(out@) =~= global + matched_patterns(view.take(r + 1), target@));
        }
        r += 1;
    }
    assert(view.take(rows.len() as int) =~= view);
    out
}

// ---------------------------------------------------------------------------
// De-duplication
// ---------------------------------------------------------------------------

/// `s` with every repeated string dropped after its first occurrence.
pub open spec fn deduped(s: Seq<Seq<char>>) -> Seq<Seq<char>>
    decreases s.len(),
{
    if s.len() == 0 {
        Seq::empty()
    } else {
        let r = deduped(s.drop_last());
        if r.contains(s.last()) {
            r
        } else {
            r.push(s.last())
        }
    }
}

/// Drops every repeated pattern after its first occurrence.
pub fn dedupe_patterns(patterns: &mut Vec<String>)
    ensures
        strings_text(final(patterns)@) == deduped(strings_text(old(patterns)@)),
{
    let ghost original = strings_text(patterns@);
    let mut kept: Vec<String> = Vec::new();
    let mut i: usize = 0;
    assert(strings_text(kept@) =~= deduped(original.take(0)));
    while i < patterns.len()
        invariant
            i <= patterns.len(),
            strings_text(patterns@) == original,
            strings_text(kept@) == deduped(original.take(i as int)),
        decreases patterns.len() - i,
    {
        let p = patterns[i].clone();
        assert(original.take(i + 1).drop_last() =~= original.take(i as int));
        assert(original.take(i + 1).last() == p@);
        if !crate::text::contains_string(&kept, p.as_str()) {
            kept.push(p);
            assert(strings_text(kept@) =~= deduped(original.take(i as int)).push(original[i as int]));
        }
        i += 1;
    }
    assert(original.take(patterns.len() as int) =~= original);
    *patterns = kept;
}

/// De-duplicated patterns hold no string twice.
pub proof fn lemma_deduped_distinct(s: Seq<Seq<char>>)
    ensures
        deduped(s).no_duplicates(),
    decreases s.len(),
{
    if s.len() > 0 {
        lemma_deduped_distinct(s.drop_last());
    }
}

/// De-duplicating keeps exactly the strings that occur.
pub proof fn lemma_deduped_same_strings(s: Seq<Seq<char>>, x: Seq<char>)
    ensures
        deduped(s).contains(x) == s.contains(x),
    decreases s.len(),
{
    if s.len() > 0 {
        let p = s.drop_last();
        let l = s.last();
        lemma_deduped_same_strings(p, x);
        if s.contains(x) {
            let j = choose|j: int| 0 <= j < s.len() && s[j] == x;
            if j < p.len() {
                assert(p[j] == x);
            }
        }
        if p.contains(x) {
            let j = choose|j: int| 0 <= j < p.len() && p[j] == x;
            assert(s[j] == x);
        }
        if x == l {
            assert(s[s.len() - 1] == x);
        }
        let r = deduped(p);
        if !r.contains(l) {
            if r.push(l).contains(x) {
                let j = choose|j: int| 0 <= j < r.push(l).len() && r.push(l)[j] == x;
                if j < r.len() {
                    assert(r[j] == x);
                }
            }
            if r.contains(x) {
                let j = choose|j: int| 0 <= j < r.len() && r[j] == x;
                assert(r.push(l)[j] == x);
            }
            if x == l {
                assert(r.push(l)[r.len() as int] == x);
            }
        }
    }
}

proof fn lemma_deduped_of_distinct(s: Seq<Seq<char>>)
    requires
        s.no_duplicates(),
    ensures
        deduped(s) == s,
    decreases s.len(),
{
    if s.len() > 0 {
        let p = s.drop_last();
        assert(p.no_duplicates());
        lemma_deduped_of_distinct(p);
        assert(!p.contains(s.last())) by {
            if p.contains(s.last()) {
                let j = choose|j: int| 0 <= j < p.len() && p[j] == s.last();
                assert(s[j] == s[s.len() - 1]);
            }
        }
        assert(p.push(s.last()) =~= s);
    } else {
        assert(s =~= Seq::<Seq<char>>::empty());
    }
}

/// De-duplicating twice gives what de-duplicating once gives.
pub proof fn lemma_deduped_idempotent(s: Seq<Seq<char>>)
    ensures
        deduped(deduped(s)) == deduped(s),
{
    lemma_deduped_distinct(s);
    lemma_deduped_of_distinct(deduped(s));
}

// ---------------------------------------------------------------------------
// Home-relative paths
// ---------------------------------------------------------------------------

/// What `shellexpand::tilde_with_context` makes of `path` given the home
/// directory `home`: a leading `~` that stands alone or before `/` becomes the
/// home directory; any other text is left as it is.
pub open spec fn tilde_expanded(path: Seq<char>, home: Option<Seq<char>>) -> Seq<char> {
    if path.len() > 0 && path[0] == '~' && (path.len() == 1 || path[1] == '/') && home is Some {
        home->0 + path.drop_first()
    } else {
        path
    }
}

/// Calls `shellexpand::tilde_with_context` with `home` as the home directory.
/// The contract restates the function's source: `~` alone or followed by `/`
/// is replaced by the home directory when there is one; otherwise the input
/// comes back unchanged.
#[verifier::external_body]
fn tilde_with_home(path: &str, home: Option<&str>) -> (expanded: String)
    ensures
        expanded@ == tilde_expanded(path@, match home { Some(h) => Some(h@), None => None }),
{
    shellexpand::tilde_with_context(path, || home).into_owned()
}

/// `path` with a leading `~` expanded to `home`.
pub fn expand_path(path: &str, home: Option<&str>) -> (expanded: String)
    ensures
        expanded@ == tilde_expanded(path@, match home { Some(h) => Some(h@), None => None }),
{
    tilde_with_home(path, home)
}

/// The home directory, when the `HOME` value is set and not empty.
pub fn home_dir(home_env: Option<&str>) -> (home: Option<String>)
    ensures
        match home_env {
            Some(h) => if h@.len() > 0 { home matches Some(d) && d@ == h@ } else { home is None },
            None => home is None,
        },
{
    match home_env {
        Some(h) => {
            let c = chars_of(h);
            if c.len() > 0 {
                Some(owned(h))
            } else {
                None
            }
        },
        None => None,
    }
}

/// The default mirror root: `remote` under `HOME`, or under `.` when `HOME`
/// is not set.
pub open spec fn default_root(home_env: Option<Seq<char>>) -> Seq<char> {
    match home_env {
        Some(h) => path_joined(h, "remote"@),
        None => path_joined("."@, "remote"@),
    }
}

/// The default mirror root for the `HOME` value `home_env`.
pub fn default_local_root(home_env: Option<&str>) -> (root: String)
    ensures
        root@ == default_root(match home_env { Some(h) => Some(h@), None => None }),
{
    match home_env {
        Some(h) => join_path(h, "remote"),
        None => join_path(".", "remote"),
    }
}

/// The mirror root of `config`: its `local_root` with `~` expanded to
/// `tilde_home`, or the default under `HOME`.
pub open spec fn configured_root(config: &Config, home_env: Option<Seq<char>>, tilde_home: Option<Seq<char>>) -> Seq<char> {
    match &config.local_root {
        Some(p) => tilde_expanded(p@, tilde_home),
        None => default_root(home_env),
    }
}

/// The mirror root that `config` names (see [`configured_root`]).
pub fn config_local_root(config: &Config, home_env: Option<&str>, tilde_home: Option<&str>) -> (root: String)
    ensures
        root@ == configured_root(
            config,
            match home_env { Some(h) => Some(h@), None => None },
            match tilde_home { Some(h) => Some(h@), None => None },
        ),
{
    match &config.local_root {
        Some(p) => expand_path(p.as_str(), tilde_home),
        None => default_local_root(home_env),
    }
}

/// Why the configuration file could not be located.
#[derive(Debug, PartialEq, Eq, Structural)]
pub enum ConfigPathError {
    /// No path was given and there is no home directory.
    NoHome,
}

/// The configuration file: the given path, else a non-blank `EDITR_CONFIG`,
/// each with `~` expanded; else `.config/editr/config.toml` under the home
/// directory.
pub open spec fn config_file(
    explicit: Option<Seq<char>>,
    env_value: Option<Seq<char>>,
    home_env: Option<Seq<char>>,
    tilde_home: Option<Seq<char>>,
) -> Result<Seq<char>, ConfigPathError> {
    match explicit {
        Some(p) => Ok(tilde_expanded(p, tilde_home)),
        None => match env_value {
            Some(v) if crate::text::trim(v).len() > 0 => Ok(tilde_expanded(v, tilde_home)),
            _ => match home_env {
                Some(h) if h.len() > 0 => Ok(
                    path_joined(path_joined(path_joined(h, ".config"@), "editr"@), "config.toml"@),
                ),
                _ => Err(ConfigPathError::NoHome),
            },
        },
    }
}

/// Where the configuration file is (see [`config_file`]).
pub fn config_path(
    explicit: Option<&str>,
    env_value: Option<&str>,
    home_env: Option<&str>,
    tilde_home: Option<&str>,
) -> (path: Result<String, ConfigPathError>)
    ensures
        match (path, config_file(
            match explicit { Some(p) => Some(p@), None => None },
            match env_value { Some(p) => Some(p@), None => None },
            match home_env { Some(p) => Some(p@), None => None },
            match tilde_home { Some(p) => Some(p@), None => None },
        )) {
            (Ok(a), Ok(b)) => a@ == b,
            (Err(a), Err(b)) => a == b,
            _ => false,
        },
{
    if let Some(p) = explicit {
        return Ok(expand_path(p, tilde_home));
    }
    if let Some(v) = env_value {
        let c = chars_of(v);
        let t = crate::text::trim_chars(c.as_slice());
        if t.len() > 0 {
            return Ok(expand_path(v, tilde_home));
        }
    }
    match home_dir(home_env) {
        Some(h) => {
            let a = join_path(h.as_str(), ".config");
            let b = join_path(a.as_str(), "editr");
            Ok(join_path(b.as_str(), "config.toml"))
        },
        None => Err(ConfigPathError::NoHome),
    }
}

} // verus!
