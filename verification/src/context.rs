//! The context an editor session receives, and how remote paths named by the
//! editor map into the mirror.

use vstd::prelude::*;
use crate::text::{chars_of, owned, concat2, push_str, string_of, strings_text, clone_strings, join_strings, joined_with, starts_with, strip_prefix_chars, split_on, split_chars, seq_eq, str_eq};
use crate::target::{Target, target_text, normalized, normalize_remote_path, path_joined, metadata_dir};
use crate::open::ResolvedOpen;
use crate::session::CONTEXT_SCHEMA_VERSION;

verus! {

/// What an editor launched by editr learns about its session.
#[derive(Debug)]
pub struct EditrContext {
    pub schema_version: u32,
    pub session_name: String,
    pub target: String,
    pub host: String,
    pub remote_path: String,
    pub local_root: String,
    pub local_path: String,
    pub metadata_dir: String,
    pub context_file: String,
    pub editr_bin: String,
    pub ignore_patterns: Vec<String>,
    pub remote_path_aliases: Vec<String>,
}

/// Other names of the remote directory: its physical path, when the remote
/// side resolved one and it differs from the target's path.
pub open spec fn aliases_of(target_path: Seq<char>, physical: Option<Seq<char>>) -> Seq<Seq<char>> {
    match physical {
        Some(p) => if normalized(p) == normalized(target_path) {
            Seq::empty()
        } else {
            seq![normalized(p)]
        },
        None => Seq::empty(),
    }
}

/// The other names of `target`'s directory, given the physical path that the
/// remote side resolved for it (`None` when it could not).
pub fn remote_path_aliases(target: &Target, physical_path: Option<&str>) -> (aliases: Vec<String>)
    ensures
        strings_text(aliases@) == aliases_of(
            target.path@,
            match physical_path { Some(p) => Some(p@), None => None },
        ),
{
    let mut aliases: Vec<String> = Vec::new();
    match physical_path {
        Some(p) => {
            let np = normalize_remote_path(p);
            let nt = normalize_remote_path(target.path.as_str());
            if !str_eq(np.as_str(), nt.as_str()) {
                aliases.push(np);
            }
        },
        None => {},
    }
    assert(strings_text(aliases@) =~= aliases_of(
        target.path@,
        match physical_path { Some(p) => Some(p@), None => None },
    ));
    aliases
}

/// Whether `c` is the context of the open `r`.
pub open spec fn context_of(
    c: &EditrContext,
    r: &ResolvedOpen,
    editr_bin: Seq<char>,
    physical: Option<Seq<char>>,
) -> bool {
    &&& c.schema_version == CONTEXT_SCHEMA_VERSION
    &&& c.session_name@ == r.session_name@
    &&& c.target@ == target_text(r.target.host@, r.target.path@)
    &&& c.host@ == r.target.host@
    &&& c.remote_path@ == r.target.path@
    &&& c.local_root@ == r.local_root@
    &&& c.local_path@ == r.local_path@
    &&& c.metadata_dir@ == path_joined(r.local_root@, ".editr-sessions"@)
    &&& c.context_file@ == r.context_file@
    &&& c.editr_bin@ == editr_bin
    &&& strings_text(c.ignore_patterns@) == strings_text(r.ignore_patterns@)
    &&& strings_text(c.remote_path_aliases@) == aliases_of(r.target.path@, physical)
}

/// The context of the open `resolved`, run by the program `editr_bin`, with the
/// physical path the remote side resolved for the target (if any).
pub fn editr_context(resolved: &ResolvedOpen, editr_bin: &str, physical_path: Option<&str>) -> (c: EditrContext)
    ensures
        context_of(&c, resolved, editr_bin@, match physical_path { Some(p) => Some(p@), None => None }),
{
    EditrContext {
        schema_version: CONTEXT_SCHEMA_VERSION,
        session_name: resolved.session_name.clone(),
        target: resolved.target.to_string(),
        host: resolved.target.host.clone(),
        remote_path: resolved.target.path.clone(),
        local_root: resolved.local_root.clone(),
        local_path: resolved.local_path.clone(),
        metadata_dir: metadata_dir(resolved.local_root.as_str()),
        context_file: resolved.context_file.clone(),
        editr_bin: owned(editr_bin),
        ignore_patterns: clone_strings(&resolved.ignore_patterns),
        remote_path_aliases: remote_path_aliases(&resolved.target, physical_path),
    }
}

// ---------------------------------------------------------------------------
// Relative remote paths
// ---------------------------------------------------------------------------

/// Why a remote path does not name a file inside the mirror.
#[derive(Debug)]
pub enum RelativePathError {
    /// The path is the remote root itself.
    RemoteRoot,
    /// What follows the root is empty or climbs with `..`; carries it.
    InvalidRelative(String),
    /// The path lies under neither the root nor any of its aliases.
    Outside { root: String, path: String, aliases: Vec<String> },
}

/// The mathematical content of a [`RelativePathError`].
pub enum RelativePathErrorView {
    RemoteRoot,
    InvalidRelative(Seq<char>),
    Outside(Seq<char>, Seq<char>, Seq<Seq<char>>),
}

impl RelativePathError {
    /// The mathematical content of this error.
    pub open spec fn view(&self) -> RelativePathErrorView {
        match self {
            RelativePathError::RemoteRoot => RelativePathErrorView::RemoteRoot,
            RelativePathError::InvalidRelative(r) => RelativePathErrorView::InvalidRelative(r@),
            RelativePathError::Outside { root, path, aliases } => RelativePathErrorView::Outside(
                root@,
                path@,
                strings_text(aliases@),
            ),
        }
    }

    /// The message shown for this error.
    pub fn message(&self) -> (m: String)
        ensures
            m@ == match self.view() {
                RelativePathErrorView::RemoteRoot => "cannot hydrate the remote root as a file"@,
                RelativePathErrorView::InvalidRelative(r) => "invalid relative hydration path: "@ + r,
                RelativePathErrorView::Outside(root, path, aliases) => "remote path is outside editr root:\n  root: "@
                    + root + "\n  path: "@ + path + if aliases.len() > 0 {
                    "\n  aliases: "@ + joined_with(aliases, ", "@)
                } else {
                    Seq::empty()
                },
            },
    {
        match self {
            RelativePathError::RemoteRoot => owned("cannot hydrate the remote root as a file"),
            RelativePathError::InvalidRelative(r) => concat2("invalid relative hydration path: ", r.as_str()),
            RelativePathError::Outside { root, path, aliases } => {
                let mut m = concat2("remote path is outside editr root:\n  root: ", root.as_str());
                push_str(&mut m, "\n  path: ");
                push_str(&mut m, path.as_str());
                let ghost base = m@;
                if aliases.len() > 0 {
                    push_str(&mut m, "\n  aliases: ");
                    let joined = join_strings(aliases, ", ");
                    push_str(&mut m, joined.as_str());
                } else {
                    assert(m@ =~= base + Seq::<char>::empty());
                }
                m
            },
        }
    }
}

/// Where `path` lies relative to `root`, both normalised: an error when it is
/// the root itself; nothing when it is not below the root; otherwise what
/// follows the root and its `/`, unless that is empty or has a `..` component.
pub open spec fn relative_to_root(root: Seq<char>, path: Seq<char>) -> Result<Option<Seq<char>>, RelativePathErrorView> {
    let r = normalized(root);
    let p = normalized(path);
    let prefix = r + "/"@;
    if p == r {
        Err(RelativePathErrorView::RemoteRoot)
    } else if !starts_with(p, prefix) {
        Ok(None)
    } else {
        let rel = p.skip(prefix.len() as int);
        if rel.len() == 0 || split_on(rel, '/').contains(".."@) {
            Err(RelativePathErrorView::InvalidRelative(rel))
        } else {
            Ok(Some(rel))
        }
    }
}

/// The view of an outcome.
pub open spec fn relative_view<T>(r: Result<T, RelativePathError>) -> Result<T, RelativePathErrorView> {
    match r {
        Ok(v) => Ok(v),
        Err(e) => Err(e.view()),
    }
}

/// The view of an optional relative path.
pub open spec fn opt_view(r: Result<Option<String>, RelativePathError>) -> Result<Option<Seq<char>>, RelativePathErrorView> {
    match r {
        Ok(Some(s)) => Ok(Some(s@)),
        Ok(None) => Ok(None),
        Err(e) => Err(e.view()),
    }
}

fn has_parent_component(rel: &[char]) -> (r: bool)
    ensures
        r == split_on(rel@, '/').contains(".."@),
{
    let dots: [char; 2] = ['.', '.'];
    proof { reveal_strlit(".."); }
    assert(dots@ =~= ".."@);
    let pieces = split_chars(rel, '/');
    let ghost all = pieces@.map_values(|p: Vec<char>| p@);
    let mut i: usize = 0;
    while i < pieces.len()
        invariant
            i <= pieces.len(),
            all == pieces@.map_values(|p: Vec<char>| p@),
            all == split_on(rel@, '/'),
            dots@ == ".."@,
            forall|j: int| 0 <= j < i ==> all[j] != ".."@,
        decreases pieces.len() - i,
    {
        if seq_eq(pieces[i].as_slice(), &dots) {
            assert(all[i as int] == ".."@);
            assert(all.contains(".."@));
            return true;
        }
        i += 1;
    }
    assert(!all.contains(".."@)) by {
        if all.contains(".."@) {
            let j = choose|j: int| 0 <= j < all.len() && all[j] == ".."@;
            assert(all[j] != ".."@);
        }
    }
    false
}

/// Where `remote_path` lies relative to `remote_root` (see [`relative_to_root`]).
pub fn relative_remote_path_for_root(remote_root: &str, remote_path: &str) -> (r: Result<Option<String>, RelativePathError>)
    ensures
        opt_view(r) == relative_to_root(remote_root@, remote_path@),
{
    let root = normalize_remote_path(remote_root);
    let path = normalize_remote_path(remote_path);
    if str_eq(root.as_str(), path.as_str()) {
        return Err(RelativePathError::RemoteRoot);
    }
    let prefix = concat2(root.as_str(), "/");
    let p = chars_of(path.as_str());
    let pre = chars_of(prefix.as_str());
    let rel = match strip_prefix_chars(p.as_slice(), pre.as_slice()) {
        Some(rel) => rel,
        None => return Ok(None),
    };
    if rel.len() == 0 || has_parent_component(rel.as_slice()) {
        return Err(RelativePathError::InvalidRelative(string_of(rel.as_slice())));
    }
    Ok(Some(string_of(rel.as_slice())))
}

/// Where `path` lies relative to the first of `roots` that decides: the first
/// error or relative path met, trying the roots in order.
pub open spec fn relative_to_roots(roots: Seq<Seq<char>>, path: Seq<char>) -> Result<Option<Seq<char>>, RelativePathErrorView>
    decreases roots.len(),
{
    if roots.len() == 0 {
        Ok(None)
    } else {
        match relative_to_root(roots[0], path) {
            Ok(None) => relative_to_roots(roots.drop_first(), path),
            other => other,
        }
    }
}

/// The path of `path` relative to the root `root` or one of its `aliases`, or
/// why there is none.
pub open spec fn relative_with_aliases(root: Seq<char>, aliases: Seq<Seq<char>>, path: Seq<char>) -> Result<Seq<char>, RelativePathErrorView> {
    match relative_to_roots(seq![root] + aliases, path) {
        Ok(Some(rel)) => Ok(rel),
        Ok(None) => Err(RelativePathErrorView::Outside(normalized(root), normalized(path), aliases)),
        Err(e) => Err(e),
    }
}

proof fn lemma_relative_to_roots_skip(roots: Seq<Seq<char>>, path: Seq<char>, i: int)
    requires
        0 <= i < roots.len(),
        forall|j: int| 0 <= j < i ==> relative_to_root(#[trigger] roots[j], path) == Ok::<Option<Seq<char>>, RelativePathErrorView>(None),
    ensures
        relative_to_roots(roots, path) == relative_to_roots(roots.skip(i), path),
    decreases i,
{
    if i > 0 {
        assert(relative_to_root(roots[0], path) == Ok::<Option<Seq<char>>, RelativePathErrorView>(None));
        assert forall|j: int| 0 <= j < i - 1 implies relative_to_root(#[trigger] roots.drop_first()[j], path)
            == Ok::<Option<Seq<char>>, RelativePathErrorView>(None) by {
            assert(roots.drop_first()[j] == roots[j + 1]);
        }
        lemma_relative_to_roots_skip(roots.drop_first(), path, i - 1);
        assert(roots.drop_first().skip(i - 1) =~= roots.skip(i));
    } else {
        assert(roots.skip(0) =~= roots);
    }
}

proof fn lemma_relative_to_roots_none(roots: Seq<Seq<char>>, path: Seq<char>)
    requires
        forall|j: int| 0 <= j < roots.len() ==> relative_to_root(#[trigger] roots[j], path) == Ok::<Option<Seq<char>>, RelativePathErrorView>(None),
    ensures
        relative_to_roots(roots, path) == Ok::<Option<Seq<char>>, RelativePathErrorView>(None),
    decreases roots.len(),
{
    if roots.len() > 0 {
        assert forall|j: int| 0 <= j < roots.len() - 1 implies relative_to_root(#[trigger] roots.drop_first()[j], path)
            == Ok::<Option<Seq<char>>, RelativePathErrorView>(None) by {
            assert(roots.drop_first()[j] == roots[j + 1]);
        }
        lemma_relative_to_roots_none(roots.drop_first(), path);
    }
}

/// The path of `remote_path` below `remote_root` or one of its aliases (see
/// [`relative_with_aliases`]).
pub fn relative_remote_path_with_aliases(remote_root: &str, remote_root_aliases: &[String], remote_path: &str) -> (r: Result<String, RelativePathError>)
    ensures
        relative_view(match r {
            Ok(s) => Ok(s@),
            Err(e) => Err(e),
        }) == relative_with_aliases(remote_root@, strings_text(remote_root_aliases@), remote_path@),
{
    let ghost roots = seq![remote_root@] + strings_text(remote_root_aliases@);
    match relative_remote_path_for_root(remote_root, remote_path) {
        Err(e) => {
            return Err(e);
        },
        Ok(Some(rel)) => {
            return Ok(rel);
        },
        Ok(None) => {},
    }
    let mut i: usize = 0;
    while i < remote_root_aliases.len()
        invariant
            i <= remote_root_aliases.len(),
            roots == seq![remote_root@] + strings_text(remote_root_aliases@),
            forall|j: int| 0 <= j < i + 1 ==> relative_to_root(#[trigger] roots[j], remote_path@) == Ok::<
                Option<Seq<char>>,
                RelativePathErrorView,
            >(None),
        decreases remote_root_aliases.len() - i,
    {
        let alias = remote_root_aliases[i].as_str();
        assert(roots[i + 1] == alias@);
        match relative_remote_path_for_root(alias, remote_path) {
            Err(e) => {
                proof {
                    lemma_relative_to_roots_skip(roots, remote_path@, i + 1);
                }
                return Err(e);
            },
            Ok(Some(rel)) => {
                proof {
                    lemma_relative_to_roots_skip(roots, remote_path@, i + 1);
                }
                return Ok(rel);
            },
            Ok(None) => {},
        }
        i += 1;
    }
    proof {
        lemma_relative_to_roots_none(roots, remote_path@);
    }
    let mut aliases: Vec<String> = Vec::new();
    let mut k: usize = 0;
    while k < remote_root_aliases.len()
        invariant
            k <= remote_root_aliases.len(),
            strings_text(aliases@) == strings_text(remote_root_aliases@.take(k as int)),
        decreases remote_root_aliases.len() - k,
    {
        let ghost before = strings_text(aliases@);
        aliases.push(remote_root_aliases[k].clone());
        assert(strings_text(aliases@) =~= before.push(remote_root_aliases@[k as int]@));
        assert(strings_text(remote_root_aliases@.take(k + 1)) =~= strings_text(remote_root_aliases@.take(k as int)).push(
            remote_root_aliases@[k as int]@,
        ));
        k += 1;
    }
    assert(remote_root_aliases@.take(remote_root_aliases.len() as int) =~= remote_root_aliases@);
    Err(RelativePathError::Outside {
        root: normalize_remote_path(remote_root),
        path: normalize_remote_path(remote_path),
        aliases,
    })
}

/// A relative path found for a remote path, put after the root (or alias) it
/// was found under and a `/`, gives back the normalised remote path; it is not
/// empty and has no `..` component.
pub proof fn lemma_relative_path_rejoins(roots: Seq<Seq<char>>, path: Seq<char>)
    requires
        relative_to_roots(roots, path) is Ok,
        relative_to_roots(roots, path)->Ok_0 is Some,
    ensures
        exists|i: int| 0 <= i < roots.len() && normalized(#[trigger] roots[i]) + "/"@
            + relative_to_roots(roots, path)->Ok_0->Some_0 == normalized(path),
        relative_to_roots(roots, path)->Ok_0->Some_0.len() > 0,
        !split_on(relative_to_roots(roots, path)->Ok_0->Some_0, '/').contains(".."@),
    decreases roots.len(),
{
    let first = relative_to_root(roots[0], path);
    if first == Ok::<Option<Seq<char>>, RelativePathErrorView>(None) {
        lemma_relative_path_rejoins(roots.drop_first(), path);
        let i = choose|i: int| 0 <= i < roots.drop_first().len() && normalized(#[trigger] roots.drop_first()[i]) + "/"@
            + relative_to_roots(roots, path)->Ok_0->Some_0 == normalized(path);
        assert(roots.drop_first()[i] == roots[i + 1]);
    } else {
        let r = normalized(roots[0]);
        let p = normalized(path);
        let prefix = r + "/"@;
        let rel = p.skip(prefix.len() as int);
        assert(prefix + rel =~= p);
        assert(normalized(roots[0]) + "/"@ + rel == p);
    }
}

} // verus!
