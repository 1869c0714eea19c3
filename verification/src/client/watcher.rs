//! Turning what the file-system watcher reports into sync events.
use vstd::prelude::*;
use crate::client::config::{to_remote_path_spec, VaultConfig};
use crate::client::error::{ClientError, ClientResult};
use crate::paths::{all_named, components_spec, join_names, join_named_components, lemma_component_names_nonempty, lemma_join_names_ends_with_last, strip_components, strip_path_prefix, ComponentView};
use crate::text::concat_str;

verus! {

/// What happened to a watched file.
#[derive(Debug, Clone, Copy, PartialEq, Eq, Structural)]
pub enum FileEventKind {
    Upsert,
    Remove,
}

/// The kind of change the file-system watcher reports.
#[derive(Debug, Clone, Copy, PartialEq, Eq, Structural)]
pub enum WatchedChange {
    Create,
    Modify,
    Remove,
    /// Access and any other kind of notification.
    Other,
}

/// The sync event a watched change leads to: a created or modified file is
/// sent again, a removed one is removed, and other changes are ignored.
pub fn event_kind_for(change: WatchedChange) -> (r: Option<FileEventKind>)
    ensures
        (change == WatchedChange::Create || change == WatchedChange::Modify) ==> r == Some(FileEventKind::Upsert),
        change == WatchedChange::Remove ==> r == Some(FileEventKind::Remove),
        change == WatchedChange::Other ==> r is None,
{
    match change {
        WatchedChange::Create | WatchedChange::Modify => Some(FileEventKind::Upsert),
        WatchedChange::Remove => Some(FileEventKind::Remove),
        WatchedChange::Other => None,
    }
}

/// A change to a vault file, with the server path it maps to.
#[derive(Debug, Clone, PartialEq, Eq)]
pub struct FileEvent {
    pub kind: FileEventKind,
    pub local_path: String,
    pub remote_path: String,
}

/// The vault-relative path of a watched path: `Ok(None)` for paths outside
/// the root or for the root itself, an error message for a path that climbs
/// out with `..`.
pub open spec fn watched_relative_spec(root: Seq<char>, path: Seq<char>) -> Result<Option<Seq<char>>, Seq<char>> {
    match strip_components(components_spec(path), components_spec(root)) {
        None => Ok(None),
        Some(rest) => if rest.len() == 0 {
            Ok(None)
        } else if !all_named(rest) {
            Err("Watcher observed unsupported path component in "@ + path)
        } else if join_names(rest).len() == 0 {
            Ok(None)
        } else {
            Ok(Some(join_names(rest)))
        },
    }
}

/// Law: a path below the root whose remaining components are all names,
/// however many, is the vault file named by those names joined with `/`.
pub proof fn lemma_watched_named_path(root: Seq<char>, path: Seq<char>, rest: Seq<ComponentView>)
    requires
        strip_components(components_spec(path), components_spec(root)) == Some(rest),
        rest.len() > 0,
        all_named(rest),
    ensures
        watched_relative_spec(root, path) == Ok::<Option<Seq<char>>, Seq<char>>(Some(join_names(rest))),
        join_names(rest).len() > 0,
{
    let cp = components_spec(path);
    lemma_component_names_nonempty(path);
    assert(rest == cp.subrange(components_spec(root).len() as int, cp.len() as int));
    assert(rest.last() == cp[cp.len() - 1]);
    assert(rest[rest.len() - 1] is Normal);
    lemma_join_names_ends_with_last(rest);
}

pub open spec fn matches_watched(r: ClientResult<Option<String>>, s: Result<Option<Seq<char>>, Seq<char>>) -> bool {
    match s {
        Ok(None) => r matches Ok(None),
        Ok(Some(p)) => r matches Ok(Some(q)) && q@ == p,
        Err(m) => r matches Err(ClientError::InvalidPath(msg)) && msg@ == m,
    }
}

/// The vault-relative path of a path reported by the watcher, with `/`
/// between components.
pub fn to_relative_path(root: &str, path: &str) -> (r: ClientResult<Option<String>>)
    ensures
        matches_watched(r, watched_relative_spec(root@, path@)),
        forall|rest: Seq<ComponentView>|
            strip_components(components_spec(path@), components_spec(root@)) == Some(rest)
            && rest.len() > 0 && #[trigger] all_named(rest)
            ==> (r matches Ok(Some(q)) && q@ == join_names(rest)),
{
    proof {
        if let Some(rest) = strip_components(components_spec(path@), components_spec(root@)) {
            if rest.len() > 0 && all_named(rest) {
                lemma_watched_named_path(root@, path@, rest);
            }
        }
    }
    let rest = match strip_path_prefix(path, root) {
        None => {
            return Ok(None);
        },
        Some(rest) => rest,
    };
    if rest.len() == 0 {
        return Ok(None);
    }
    match join_named_components(&rest) {
        None => Err(ClientError::InvalidPath(concat_str("Watcher observed unsupported path component in ", path))),
        Some(joined) => {
            if joined.as_str().unicode_len() == 0 {
                Ok(None)
            } else {
                Ok(Some(joined))
            }
        },
    }
}

/// The sync event for a path reported by the watcher: none for paths outside
/// the vault, nor for a created or modified path that is not a file.
pub fn event_for_path(vault: &VaultConfig, root: &str, path: &str, kind: FileEventKind, is_file: bool) -> (r: ClientResult<Option<FileEvent>>)
    ensures
        match watched_relative_spec(root@, path@) {
            Err(m) => r matches Err(ClientError::InvalidPath(msg)) && msg@ == m,
            Ok(None) => r matches Ok(None),
            Ok(Some(rel)) => if kind == FileEventKind::Upsert && !is_file {
                r matches Ok(None)
            } else {
                r matches Ok(Some(e)) && e.kind == kind && e.local_path@ == path@
                    && e.remote_path@ == to_remote_path_spec(*vault, rel)
            },
        },
{
    let relative = match to_relative_path(root, path) {
        Err(e) => {
            return Err(e);
        },
        Ok(None) => {
            return Ok(None);
        },
        Ok(Some(rel)) => rel,
    };
    if kind == FileEventKind::Upsert && !is_file {
        return Ok(None);
    }
    let remote_path = vault.to_remote_path(relative.as_str());
    Ok(Some(FileEvent { kind, local_path: path.to_owned(), remote_path }))
}

} // verus!
