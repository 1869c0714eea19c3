//! Where uploaded content is kept, and which client paths are accepted.
use vstd::prelude::*;
use crate::paths::{body_components, components_spec, has_root, lemma_body_kinds, path_components, split_slash, starts_with_cur_dir, PathComponent};
use crate::server::error::{AppError, AppResult};
use crate::shared::types::{lemma_uuid_text_injective, uuid_text, uuid_text_spec};
use crate::text::{push_char, trim_is_empty, trim_spec, TrimSet};

verus! {

/// Whether a path has a component that leaves its directory or restarts at the root.
pub open spec fn has_traversal(p: Seq<char>) -> bool {
    exists|i: int| 0 <= i < components_spec(p).len() &&
        (#[trigger] components_spec(p)[i] is ParentDir || components_spec(p)[i] is RootDir)
}

/// The message of the reason a client path is refused, if it is.
pub open spec fn path_error_spec(p: Seq<char>) -> Option<Seq<char>> {
    if trim_spec(TrimSet::White, p).len() == 0 {
        Some("File path cannot be empty"@)
    } else if has_root(p) {
        Some("File path must be relative"@)
    } else if has_traversal(p) {
        Some("File path contains invalid traversal segments"@)
    } else {
        None
    }
}

/// Law: a client path is accepted exactly when it is not blank, does not
/// start with `/`, and each of its components is a name or `.`; so any
/// such path is accepted, whatever characters its names hold.
pub proof fn lemma_accepted_paths(p: Seq<char>)
    ensures
        path_error_spec(p) is None <==> (
            trim_spec(TrimSet::White, p).len() > 0
            && !(p.len() > 0 && p[0] == '/')
            && forall|i: int| 0 <= i < components_spec(p).len() ==>
                (#[trigger] components_spec(p)[i] is Normal || components_spec(p)[i] is CurDir)),
{
    let c = components_spec(p);
    lemma_body_kinds(split_slash(p));
    lemma_body_kinds(split_slash(p.drop_first()));
    if has_root(p) {
        assert(c[0] is RootDir);
    } else {
        if starts_with_cur_dir(p) {
            let b = body_components(split_slash(p.drop_first()));
            assert forall|i: int| 0 <= i < c.len() implies (#[trigger] c[i] is Normal || c[i] is CurDir || c[i] is ParentDir) by {
                if i > 0 {
                    assert(c[i] == b[i - 1]);
                }
            }
        }
        if !has_traversal(p) {
            assert forall|i: int| 0 <= i < c.len() implies (#[trigger] c[i] is Normal || c[i] is CurDir) by {
                assert(!(c[i] is ParentDir || c[i] is RootDir));
                if starts_with_cur_dir(p) && i > 0 {
                    assert(c[i] == body_components(split_slash(p.drop_first()))[i - 1]);
                }
            }
        }
        if has_traversal(p) {
            let i = choose|i: int| 0 <= i < c.len() && (#[trigger] c[i] is ParentDir || c[i] is RootDir);
            assert(!(c[i] is Normal || c[i] is CurDir));
        }
    }
}

/// Accepts a path only when it is not blank, is relative, and has no `..`
/// component: an accepted path names a place inside the vault.
pub fn validate_relative_file_path(path: &str) -> (r: AppResult<()>)
    ensures
        match path_error_spec(path@) {
            None => r is Ok,
            Some(m) => r matches Err(AppError::BadRequest(msg)) && msg@ == m,
        },
        r is Ok ==> forall|i: int| 0 <= i < components_spec(path@).len() ==>
            (#[trigger] components_spec(path@)[i] is Normal || components_spec(path@)[i] is CurDir),
        (trim_spec(TrimSet::White, path@).len() > 0
            && !(path@.len() > 0 && path@[0] == '/')
            && forall|i: int| 0 <= i < components_spec(path@).len() ==>
                (#[trigger] components_spec(path@)[i] is Normal || components_spec(path@)[i] is CurDir)) ==> r is Ok,
{
    proof { lemma_accepted_paths(path@); }
    if trim_is_empty(path) {
        return Err(AppError::BadRequest(String::from_str("File path cannot be empty")));
    }
    let n = path.unicode_len();
    if n > 0 && path.get_char(0) == '/' {
        return Err(AppError::BadRequest(String::from_str("File path must be relative")));
    }
    let comps = path_components(path);
    let ghost cv = components_spec(path@);
    let mut i: usize = 0;
    while i < comps.len()
        invariant
            i <= comps@.len(),
            cv == components_spec(path@),
            trim_spec(TrimSet::White, path@).len() > 0,
            !has_root(path@),
            cv.len() == comps@.len(),
            forall|k: int| 0 <= k < comps@.len() ==> #[trigger] cv[k] == comps@[k]@,
            forall|k: int| 0 <= k < i ==> !(#[trigger] cv[k] is ParentDir || cv[k] is RootDir),
        decreases comps@.len() - i,
    {
        match &comps[i] {
            PathComponent::ParentDir | PathComponent::RootDir => {
                assert(cv[i as int] is ParentDir || cv[i as int] is RootDir);
                assert(has_traversal(path@));
                return Err(AppError::BadRequest(String::from_str("File path contains invalid traversal segments")));
            },
            _ => {},
        }
        i += 1;
    }
    proof {
        lemma_body_kinds(split_slash(path@));
        lemma_body_kinds(split_slash(path@.drop_first()));
        assert forall|k: int| 0 <= k < cv.len() implies (#[trigger] cv[k] is Normal || cv[k] is CurDir) by {
            assert(!(cv[k] is ParentDir || cv[k] is RootDir));
        }
    }
    Ok(())
}

/// `PathBuf::join` of a relative name: a `/` is put between them unless the
/// directory is empty or already ends with one.
pub open spec fn join_path_spec(dir: Seq<char>, name: Seq<char>) -> Seq<char> {
    if dir.len() > 0 && dir.last() != '/' {
        dir.push('/') + name
    } else {
        dir + name
    }
}

/// The name under which a file's content is stored: `<uuid>.bin`.
pub open spec fn storage_name_spec(file_id: u128) -> Seq<char> {
    uuid_text_spec(file_id) + ".bin"@
}

/// Where the content of a file is stored: `<data_dir>/<uuid>.bin`.
pub fn file_storage_path(data_dir: &str, file_id: u128) -> (r: String)
    ensures
        r@ == join_path_spec(data_dir@, storage_name_spec(file_id)),
{
    let mut out = data_dir.to_owned();
    let n = data_dir.unicode_len();
    if n > 0 && data_dir.get_char(n - 1) != '/' {
        push_char(&mut out, '/');
    }
    let name = uuid_text(file_id);
    out.append(name.as_str());
    out.append(".bin");
    proof {
        if n > 0 && data_dir@.last() != '/' {
            assert(out@ =~= data_dir@.push('/') + (uuid_text_spec(file_id) + ".bin"@));
        } else {
            assert(out@ =~= data_dir@ + (uuid_text_spec(file_id) + ".bin"@));
        }
    }
    out
}

/// Law: different files are stored under different names.
pub proof fn lemma_storage_names_distinct(a: u128, b: u128)
    requires
        a != b,
    ensures
        storage_name_spec(a) != storage_name_spec(b),
{
    lemma_uuid_text_injective(a, b);
    assert(storage_name_spec(a).subrange(0, 36) =~= uuid_text_spec(a));
    assert(storage_name_spec(b).subrange(0, 36) =~= uuid_text_spec(b));
}

} // verus!
