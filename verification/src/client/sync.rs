//! Planning the first synchronisation of a vault: which remote files to
//! download, which local files to upload, and which disagree.
use vstd::prelude::*;
use crate::client::config::{from_remote_path_spec, lemma_remote_path_roundtrip, normalize_relative_path_spec, to_remote_path_spec, SyncConflictPolicy, VaultConfig};
use crate::client::error::{ClientError, ClientResult};
use crate::paths::{all_named, components_spec, join_names, join_named_components, strip_components, strip_path_prefix};
use crate::shared::types::FileMetadata;
use crate::text::{concat_str, str_eq};

verus! {

/// A file found in the local vault, with its SHA-256 checksum.
#[derive(Debug, Clone, PartialEq, Eq)]
pub struct LocalFileSnapshot {
    pub absolute_path: String,
    /// The path inside the vault, with `/` between components.
    pub relative_path: String,
    pub checksum: String,
}

impl FileMetadata {
    /// A copy of the metadata.
    pub fn duplicate(&self) -> (r: Self)
        ensures
            r == *self,
    {
        FileMetadata {
            id: self.id,
            path: self.path.clone(),
            size: self.size,
            checksum: self.checksum.clone(),
            last_modified: self.last_modified,
            version: self.version,
        }
    }
}

impl LocalFileSnapshot {
    /// A copy of the snapshot.
    pub fn duplicate(&self) -> (r: Self)
        ensures
            r == *self,
    {
        LocalFileSnapshot {
            absolute_path: self.absolute_path.clone(),
            relative_path: self.relative_path.clone(),
            checksum: self.checksum.clone(),
        }
    }
}

/// A remote file of the vault, with its path inside the vault.
#[derive(Debug, Clone, PartialEq)]
pub struct RemoteEntry {
    pub relative_path: String,
    pub file: FileMetadata,
}

/// The remote files of a vault by relative path; of two files with the same
/// relative path, the later one counts.
pub open spec fn remote_index_spec(v: VaultConfig, files: Seq<FileMetadata>) -> Map<Seq<char>, FileMetadata>
    decreases files.len(),
{
    if files.len() == 0 {
        Map::empty()
    } else {
        let prev = remote_index_spec(v, files.drop_last());
        match from_remote_path_spec(v, files.last().path@) {
            Some(rel) => prev.insert(rel, files.last()),
            None => prev,
        }
    }
}

/// Law: every remote file whose server path lies in the vault is indexed
/// under its path inside the vault, whatever its size or content, unless a
/// later file maps to the same path (the later one then counts).
pub proof fn lemma_remote_index_keeps_vault_files(v: VaultConfig, files: Seq<FileMetadata>, i: int, rel: Seq<char>)
    requires
        0 <= i < files.len(),
        from_remote_path_spec(v, files[i].path@) == Some(rel),
        forall|j: int| i < j < files.len() ==> from_remote_path_spec(v, #[trigger] files[j].path@) != Some(rel),
    ensures
        remote_index_spec(v, files).contains_key(rel),
        remote_index_spec(v, files)[rel] == files[i],
    decreases files.len(),
{
    if i < files.len() - 1 {
        let p = files.drop_last();
        assert forall|j: int| i < j < p.len() implies from_remote_path_spec(v, #[trigger] p[j].path@) != Some(rel) by {
            assert(p[j] == files[j]);
        }
        assert(p[i] == files[i]);
        lemma_remote_index_keeps_vault_files(v, p, i, rel);
        assert(from_remote_path_spec(v, files[files.len() - 1].path@) != Some(rel));
    }
}

/// Law: the index holds remote files only, each under the path inside the
/// vault that its own server path maps to.
pub proof fn lemma_remote_index_only_vault_files(v: VaultConfig, files: Seq<FileMetadata>, rel: Seq<char>)
    requires
        remote_index_spec(v, files).contains_key(rel),
    ensures
        exists|i: int| 0 <= i < files.len() && from_remote_path_spec(v, #[trigger] files[i].path@) == Some(rel)
            && remote_index_spec(v, files)[rel] == files[i],
    decreases files.len(),
{
    let p = files.drop_last();
    let last = files.len() - 1;
    if from_remote_path_spec(v, files[last].path@) == Some(rel) {
        assert(from_remote_path_spec(v, files[last].path@) == Some(rel) && remote_index_spec(v, files)[rel] == files[last]);
    } else {
        lemma_remote_index_only_vault_files(v, p, rel);
        let i = choose|i: int| 0 <= i < p.len() && from_remote_path_spec(v, #[trigger] p[i].path@) == Some(rel)
            && remote_index_spec(v, p)[rel] == p[i];
        assert(files[i] == p[i]);
    }
}

/// The local files by relative path; of two with the same path, the later one counts.
pub open spec fn local_index_spec(files: Seq<LocalFileSnapshot>) -> Map<Seq<char>, LocalFileSnapshot>
    decreases files.len(),
{
    if files.len() == 0 {
        Map::empty()
    } else {
        local_index_spec(files.drop_last()).insert(files.last().relative_path@, files.last())
    }
}

/// Law: every local file is indexed under its relative path unless a later
/// file has the same relative path; and the index holds local files only,
/// each under its own relative path.
pub proof fn lemma_local_index_keeps_files(files: Seq<LocalFileSnapshot>, i: int)
    requires
        0 <= i < files.len(),
        forall|j: int| i < j < files.len() ==> (#[trigger] files[j]).relative_path@ != files[i].relative_path@,
    ensures
        local_index_spec(files).contains_key(files[i].relative_path@),
        local_index_spec(files)[files[i].relative_path@] == files[i],
    decreases files.len(),
{
    if i < files.len() - 1 {
        let p = files.drop_last();
        assert forall|j: int| i < j < p.len() implies (#[trigger] p[j]).relative_path@ != p[i].relative_path@ by {
            assert(p[j] == files[j]);
        }
        assert(p[i] == files[i]);
        lemma_local_index_keeps_files(p, i);
        assert(files[files.len() - 1].relative_path@ != files[i].relative_path@);
    }
}

/// Law: the local index holds local files only, each under its own relative path.
pub proof fn lemma_local_index_only_files(files: Seq<LocalFileSnapshot>, rel: Seq<char>)
    requires
        local_index_spec(files).contains_key(rel),
    ensures
        exists|i: int| 0 <= i < files.len() && (#[trigger] files[i]).relative_path@ == rel
            && local_index_spec(files)[rel] == files[i],
    decreases files.len(),
{
    let p = files.drop_last();
    let last = files.len() - 1;
    if files[last].relative_path@ == rel {
        assert(files[last].relative_path@ == rel && local_index_spec(files)[rel] == files[last]);
    } else {
        lemma_local_index_only_files(p, rel);
        let i = choose|i: int| 0 <= i < p.len() && (#[trigger] p[i]).relative_path@ == rel
            && local_index_spec(p)[rel] == p[i];
        assert(files[i] == p[i]);
    }
}

/// The entries hold the map exactly, each relative path once.
pub open spec fn remote_entries_represent(entries: Seq<RemoteEntry>, m: Map<Seq<char>, FileMetadata>) -> bool {
    &&& forall|i: int, j: int| 0 <= i < j < entries.len() ==> #[trigger] entries[i].relative_path@ != #[trigger] entries[j].relative_path@
    &&& forall|i: int| 0 <= i < entries.len() ==> m.contains_key(#[trigger] entries[i].relative_path@)
        && m[entries[i].relative_path@] == entries[i].file
    &&& forall|k: Seq<char>| #[trigger] m.contains_key(k) ==> exists|i: int| 0 <= i < entries.len() && #[trigger] entries[i].relative_path@ == k
}

/// The snapshots hold the map exactly, each relative path once.
pub open spec fn local_entries_represent(entries: Seq<LocalFileSnapshot>, m: Map<Seq<char>, LocalFileSnapshot>) -> bool {
    &&& forall|i: int, j: int| 0 <= i < j < entries.len() ==> #[trigger] entries[i].relative_path@ != #[trigger] entries[j].relative_path@
    &&& forall|i: int| 0 <= i < entries.len() ==> m.contains_key(#[trigger] entries[i].relative_path@)
        && m[entries[i].relative_path@] == entries[i]
    &&& forall|k: Seq<char>| #[trigger] m.contains_key(k) ==> exists|i: int| 0 <= i < entries.len() && #[trigger] entries[i].relative_path@ == k
}

/// The entries hold the map exactly under the given key and value of an
/// entry, each key once.
pub open spec fn entries_represent<E, V>(
    entries: Seq<E>,
    key: spec_fn(E) -> Seq<char>,
    val: spec_fn(E) -> V,
    m: Map<Seq<char>, V>,
) -> bool {
    &&& forall|i: int, j: int| 0 <= i < j < entries.len() ==> #[trigger] key(entries[i]) != #[trigger] key(entries[j])
    &&& forall|i: int| 0 <= i < entries.len() ==> m.contains_key(#[trigger] key(entries[i]))
        && m[key(entries[i])] == val(entries[i])
    &&& forall|k: Seq<char>| #[trigger] m.contains_key(k) ==> exists|i: int| 0 <= i < entries.len() && #[trigger] key(entries[i]) == k
}

/// Replacing the entry of a key keeps the entries exact for the updated map.
proof fn lemma_represent_replace<E, V>(
    entries: Seq<E>,
    key: spec_fn(E) -> Seq<char>,
    val: spec_fn(E) -> V,
    m: Map<Seq<char>, V>,
    p: int,
    e: E,
)
    requires
        entries_represent(entries, key, val, m),
        0 <= p < entries.len(),
        key(entries[p]) == key(e),
    ensures
        entries_represent(entries.update(p, e), key, val, m.insert(key(e), val(e))),
{
    let new = entries.update(p, e);
    let m2 = m.insert(key(e), val(e));
    assert forall|k: Seq<char>| #[trigger] m2.contains_key(k) implies
        exists|j: int| 0 <= j < new.len() && #[trigger] key(new[j]) == k by {
        if k != key(e) {
            let j = choose|j: int| 0 <= j < entries.len() && #[trigger] key(entries[j]) == k;
            assert(new[j] == entries[j]);
        } else {
            assert(key(new[p]) == k);
        }
    }
    assert forall|a: int, b: int| 0 <= a < b < new.len() implies #[trigger] key(new[a]) != #[trigger] key(new[b]) by {
        if a != p && b != p {
            assert(new[a] == entries[a] && new[b] == entries[b]);
        } else if a == p {
            assert(new[b] == entries[b]);
        } else {
            assert(new[a] == entries[a]);
        }
    }
    assert forall|a: int| 0 <= a < new.len() implies m2.contains_key(#[trigger] key(new[a]))
        && m2[key(new[a])] == val(new[a]) by {
        if a != p {
            assert(new[a] == entries[a]);
            assert(key(entries[a]) != key(entries[p]));
        }
    }
}

/// Appending an entry with a new key keeps the entries exact for the updated map.
proof fn lemma_represent_push<E, V>(
    entries: Seq<E>,
    key: spec_fn(E) -> Seq<char>,
    val: spec_fn(E) -> V,
    m: Map<Seq<char>, V>,
    e: E,
)
    requires
        entries_represent(entries, key, val, m),
        forall|i: int| 0 <= i < entries.len() ==> #[trigger] key(entries[i]) != key(e),
    ensures
        entries_represent(entries.push(e), key, val, m.insert(key(e), val(e))),
{
    let new = entries.push(e);
    let m2 = m.insert(key(e), val(e));
    assert forall|k: Seq<char>| #[trigger] m2.contains_key(k) implies
        exists|j: int| 0 <= j < new.len() && #[trigger] key(new[j]) == k by {
        if k != key(e) {
            let j = choose|j: int| 0 <= j < entries.len() && #[trigger] key(entries[j]) == k;
            assert(new[j] == entries[j]);
        } else {
            assert(key(new[entries.len() as int]) == k);
        }
    }
    assert forall|a: int, b: int| 0 <= a < b < new.len() implies #[trigger] key(new[a]) != #[trigger] key(new[b]) by {
        assert(new[a] == entries[a]);
        if b < entries.len() {
            assert(new[b] == entries[b]);
        }
    }
    assert forall|a: int| 0 <= a < new.len() implies m2.contains_key(#[trigger] key(new[a]))
        && m2[key(new[a])] == val(new[a]) by {
        if a < entries.len() {
            assert(new[a] == entries[a]);
        }
    }
}

pub open spec fn remote_key() -> spec_fn(RemoteEntry) -> Seq<char> {
    |e: RemoteEntry| e.relative_path@
}

pub open spec fn remote_val() -> spec_fn(RemoteEntry) -> FileMetadata {
    |e: RemoteEntry| e.file
}

pub open spec fn local_key() -> spec_fn(LocalFileSnapshot) -> Seq<char> {
    |e: LocalFileSnapshot| e.relative_path@
}

pub open spec fn local_val() -> spec_fn(LocalFileSnapshot) -> LocalFileSnapshot {
    |e: LocalFileSnapshot| e
}

proof fn lemma_remote_represent_generic(entries: Seq<RemoteEntry>, m: Map<Seq<char>, FileMetadata>)
    ensures
        remote_entries_represent(entries, m) == entries_represent(entries, remote_key(), remote_val(), m),
{
    let key = remote_key();
    let r1 = remote_entries_represent(entries, m);
    let r2 = entries_represent(entries, key, remote_val(), m);
    if r1 {
        assert forall|k: Seq<char>| #[trigger] m.contains_key(k) implies
            exists|i: int| 0 <= i < entries.len() && #[trigger] key(entries[i]) == k by {
            let i = choose|i: int| 0 <= i < entries.len() && #[trigger] entries[i].relative_path@ == k;
            assert(key(entries[i]) == k);
        }
    }
    if r2 {
        assert forall|k: Seq<char>| #[trigger] m.contains_key(k) implies
            exists|i: int| 0 <= i < entries.len() && #[trigger] entries[i].relative_path@ == k by {
            let i = choose|i: int| 0 <= i < entries.len() && #[trigger] key(entries[i]) == k;
            assert(entries[i].relative_path@ == k);
        }
        assert forall|i: int, j: int| 0 <= i < j < entries.len() implies
            #[trigger] entries[i].relative_path@ != #[trigger] entries[j].relative_path@ by {
            assert(key(entries[i]) != key(entries[j]));
        }
        assert forall|i: int| 0 <= i < entries.len() implies m.contains_key(#[trigger] entries[i].relative_path@)
            && m[entries[i].relative_path@] == entries[i].file by {
            assert(m.contains_key(key(entries[i])));
        }
    }
}

proof fn lemma_local_represent_generic(entries: Seq<LocalFileSnapshot>, m: Map<Seq<char>, LocalFileSnapshot>)
    ensures
        local_entries_represent(entries, m) == entries_represent(entries, local_key(), local_val(), m),
{
    let key = local_key();
    let r1 = local_entries_represent(entries, m);
    let r2 = entries_represent(entries, key, local_val(), m);
    if r1 {
        assert forall|k: Seq<char>| #[trigger] m.contains_key(k) implies
            exists|i: int| 0 <= i < entries.len() && #[trigger] key(entries[i]) == k by {
            let i = choose|i: int| 0 <= i < entries.len() && #[trigger] entries[i].relative_path@ == k;
            assert(key(entries[i]) == k);
        }
    }
    if r2 {
        assert forall|k: Seq<char>| #[trigger] m.contains_key(k) implies
            exists|i: int| 0 <= i < entries.len() && #[trigger] entries[i].relative_path@ == k by {
            let i = choose|i: int| 0 <= i < entries.len() && #[trigger] key(entries[i]) == k;
            assert(entries[i].relative_path@ == k);
        }
        assert forall|i: int, j: int| 0 <= i < j < entries.len() implies
            #[trigger] entries[i].relative_path@ != #[trigger] entries[j].relative_path@ by {
            assert(key(entries[i]) != key(entries[j]));
        }
        assert forall|i: int| 0 <= i < entries.len() implies m.contains_key(#[trigger] entries[i].relative_path@)
            && m[entries[i].relative_path@] == entries[i] by {
            assert(m.contains_key(key(entries[i])));
        }
    }
}

/// The position of the entry with a relative path, if any.
fn find_remote_entry(entries: &Vec<RemoteEntry>, key: &str) -> (r: Option<usize>)
    ensures
        match r {
            Some(i) => i < entries@.len() && entries@[i as int].relative_path@ == key@,
            None => forall|i: int| 0 <= i < entries@.len() ==> #[trigger] entries@[i].relative_path@ != key@,
        },
{
    let mut i: usize = 0;
    while i < entries.len()
        invariant
            i <= entries@.len(),
            forall|k: int| 0 <= k < i ==> #[trigger] entries@[k].relative_path@ != key@,
        decreases entries@.len() - i,
    {
        if str_eq(entries[i].relative_path.as_str(), key) {
            return Some(i);
        }
        i += 1;
    }
    None
}

/// The position of the snapshot with a relative path, if any.
fn find_local_entry(entries: &Vec<LocalFileSnapshot>, key: &str) -> (r: Option<usize>)
    ensures
        match r {
            Some(i) => i < entries@.len() && entries@[i as int].relative_path@ == key@,
            None => forall|i: int| 0 <= i < entries@.len() ==> #[trigger] entries@[i].relative_path@ != key@,
        },
{
    let mut i: usize = 0;
    while i < entries.len()
        invariant
            i <= entries@.len(),
            forall|k: int| 0 <= k < i ==> #[trigger] entries@[k].relative_path@ != key@,
        decreases entries@.len() - i,
    {
        if str_eq(entries[i].relative_path.as_str(), key) {
            return Some(i);
        }
        i += 1;
    }
    None
}

/// The remote files that belong to a vault, by their path inside the vault
/// (a later file with the same path replaces an earlier one).
pub fn remote_index_for_vault(vault: &VaultConfig, remote_files: &Vec<FileMetadata>) -> (r: Vec<RemoteEntry>)
    ensures
        remote_entries_represent(r@, remote_index_spec(*vault, remote_files@)),
{
    let mut entries: Vec<RemoteEntry> = Vec::new();
    let mut i: usize = 0;
    assert(remote_files@.subrange(0, 0) =~= Seq::<FileMetadata>::empty());
    while i < remote_files.len()
        invariant
            i <= remote_files@.len(),
            remote_entries_represent(entries@, remote_index_spec(*vault, remote_files@.subrange(0, i as int))),
        decreases remote_files@.len() - i,
    {
        let ghost pre = remote_files@.subrange(0, i as int);
        let ghost next = remote_files@.subrange(0, i + 1);
        assert(next.drop_last() =~= pre);
        assert(next.last() == remote_files@[i as int]);
        let ghost old_entries = entries@;
        let ghost m = remote_index_spec(*vault, pre);
        let file = &remote_files[i];
        match vault.from_remote_path(file.path.as_str()) {
            Some(rel) => {
                let ghost m2 = m.insert(rel@, *file);
                let ghost e = RemoteEntry { relative_path: rel, file: *file };
                proof { lemma_remote_represent_generic(old_entries, m); }
                match find_remote_entry(&entries, rel.as_str()) {
                    Some(p) => {
                        entries.set(p, RemoteEntry { relative_path: rel, file: file.duplicate() });
                        proof {
                            lemma_represent_replace(old_entries, remote_key(), remote_val(), m, p as int, e);
                            assert(entries@ =~= old_entries.update(p as int, e));
                        }
                    },
                    None => {
                        entries.push(RemoteEntry { relative_path: rel, file: file.duplicate() });
                        proof {
                            assert forall|j: int| 0 <= j < old_entries.len() implies
                                #[trigger] remote_key()(old_entries[j]) != remote_key()(e) by {
                                assert(old_entries[j].relative_path@ != rel@);
                            }
                            lemma_represent_push(old_entries, remote_key(), remote_val(), m, e);
                            assert(entries@ =~= old_entries.push(e));
                        }
                    },
                }
                proof { lemma_remote_represent_generic(entries@, m2); }
            },
            None => {},
        }
        i += 1;
    }
    assert(remote_files@.subrange(0, remote_files@.len() as int) =~= remote_files@);
    entries
}

/// The local snapshots by relative path (a later snapshot with the same
/// path replaces an earlier one).
pub fn local_index(local_files: &Vec<LocalFileSnapshot>) -> (r: Vec<LocalFileSnapshot>)
    ensures
        local_entries_represent(r@, local_index_spec(local_files@)),
{
    let mut entries: Vec<LocalFileSnapshot> = Vec::new();
    let mut i: usize = 0;
    assert(local_files@.subrange(0, 0) =~= Seq::<LocalFileSnapshot>::empty());
    while i < local_files.len()
        invariant
            i <= local_files@.len(),
            local_entries_represent(entries@, local_index_spec(local_files@.subrange(0, i as int))),
        decreases local_files@.len() - i,
    {
        let ghost pre = local_files@.subrange(0, i as int);
        let ghost next = local_files@.subrange(0, i + 1);
        assert(next.drop_last() =~= pre);
        assert(next.last() == local_files@[i as int]);
        let ghost old_entries = entries@;
        let ghost m = local_index_spec(pre);
        let file = &local_files[i];
        let ghost m2 = m.insert(file.relative_path@, *file);
        proof { lemma_local_represent_generic(old_entries, m); }
        match find_local_entry(&entries, file.relative_path.as_str()) {
            Some(p) => {
                entries.set(p, file.duplicate());
                proof {
                    lemma_represent_replace(old_entries, local_key(), local_val(), m, p as int, *file);
                    assert(entries@ =~= old_entries.update(p as int, *file));
                }
            },
            None => {
                entries.push(file.duplicate());
                proof {
                    assert forall|j: int| 0 <= j < old_entries.len() implies
                        #[trigger] local_key()(old_entries[j]) != local_key()(*file) by {
                        assert(old_entries[j].relative_path@ != file.relative_path@);
                    }
                    lemma_represent_push(old_entries, local_key(), local_val(), m, *file);
                    assert(entries@ =~= old_entries.push(*file));
                }
            },
        }
        proof { lemma_local_represent_generic(entries@, m2); }
        i += 1;
    }
    assert(local_files@.subrange(0, local_files@.len() as int) =~= local_files@);
    entries
}

/// A remote file that is missing locally and is downloaded.
#[derive(Debug, Clone, PartialEq, Eq)]
pub struct Download {
    pub file_id: u128,
    pub relative_path: String,
    pub remote_path: String,
}

/// A file present on both sides with different checksums: it is left as it
/// is and reported.
#[derive(Debug, Clone, PartialEq, Eq)]
pub struct Conflict {
    pub relative_path: String,
    pub absolute_path: String,
    pub remote_path: String,
    pub local_checksum: String,
    pub remote_checksum: String,
}

/// A local file that is missing remotely and is uploaded.
#[derive(Debug, Clone, PartialEq, Eq)]
pub struct Upload {
    pub relative_path: String,
    pub absolute_path: String,
    pub remote_path: String,
}

/// What the first synchronisation of a vault does.
#[derive(Debug, Clone, PartialEq, Eq)]
pub struct SyncPlan {
    pub downloads: Vec<Download>,
    pub conflicts: Vec<Conflict>,
    pub uploads: Vec<Upload>,
}

/// Exactly the remote-only files are downloaded, each once.
pub open spec fn downloads_exact(ds: Seq<Download>, rm: Map<Seq<char>, FileMetadata>, lm: Map<Seq<char>, LocalFileSnapshot>) -> bool {
    &&& forall|i: int, j: int| 0 <= i < j < ds.len() ==> #[trigger] ds[i].relative_path@ != #[trigger] ds[j].relative_path@
    &&& forall|i: int| 0 <= i < ds.len() ==> {
        let k = #[trigger] ds[i].relative_path@;
        &&& rm.contains_key(k)
        &&& !lm.contains_key(k)
        &&& ds[i].file_id == rm[k].id
        &&& ds[i].remote_path@ == rm[k].path@
    }
    &&& forall|k: Seq<char>| #[trigger] rm.contains_key(k) && !lm.contains_key(k) ==>
        exists|i: int| 0 <= i < ds.len() && #[trigger] ds[i].relative_path@ == k
}

/// Exactly the files present on both sides with different checksums are reported, each once.
pub open spec fn conflicts_exact(cs: Seq<Conflict>, rm: Map<Seq<char>, FileMetadata>, lm: Map<Seq<char>, LocalFileSnapshot>) -> bool {
    &&& forall|i: int, j: int| 0 <= i < j < cs.len() ==> #[trigger] cs[i].relative_path@ != #[trigger] cs[j].relative_path@
    &&& forall|i: int| 0 <= i < cs.len() ==> {
        let k = #[trigger] cs[i].relative_path@;
        &&& rm.contains_key(k)
        &&& lm.contains_key(k)
        &&& lm[k].checksum@ != rm[k].checksum@
        &&& cs[i].absolute_path@ == lm[k].absolute_path@
        &&& cs[i].remote_path@ == rm[k].path@
        &&& cs[i].local_checksum@ == lm[k].checksum@
        &&& cs[i].remote_checksum@ == rm[k].checksum@
    }
    &&& forall|k: Seq<char>| #[trigger] rm.contains_key(k) && lm.contains_key(k) && lm[k].checksum@ != rm[k].checksum@ ==>
        exists|i: int| 0 <= i < cs.len() && #[trigger] cs[i].relative_path@ == k
}

/// Exactly the local-only files are uploaded, each once, under the vault's namespace.
pub open spec fn uploads_exact(v: VaultConfig, us: Seq<Upload>, rm: Map<Seq<char>, FileMetadata>, lm: Map<Seq<char>, LocalFileSnapshot>) -> bool {
    &&& forall|i: int, j: int| 0 <= i < j < us.len() ==> #[trigger] us[i].relative_path@ != #[trigger] us[j].relative_path@
    &&& forall|i: int| 0 <= i < us.len() ==> {
        let k = #[trigger] us[i].relative_path@;
        &&& lm.contains_key(k)
        &&& !rm.contains_key(k)
        &&& us[i].absolute_path@ == lm[k].absolute_path@
        &&& us[i].remote_path@ == to_remote_path_spec(v, k)
    }
    &&& forall|k: Seq<char>| #[trigger] lm.contains_key(k) && !rm.contains_key(k) ==>
        exists|i: int| 0 <= i < us.len() && #[trigger] us[i].relative_path@ == k
}

/// Plans the first synchronisation of a vault: remote files missing locally
/// are downloaded, local files missing remotely are uploaded, and files on
/// both sides whose checksums differ are left alone and reported.
pub fn plan_vault_sync(
    vault: &VaultConfig,
    conflict_policy: &SyncConflictPolicy,
    remote_files: &Vec<FileMetadata>,
    local_files: &Vec<LocalFileSnapshot>,
) -> (r: SyncPlan)
    ensures
        downloads_exact(r.downloads@, remote_index_spec(*vault, remote_files@), local_index_spec(local_files@)),
        conflicts_exact(r.conflicts@, remote_index_spec(*vault, remote_files@), local_index_spec(local_files@)),
        uploads_exact(*vault, r.uploads@, remote_index_spec(*vault, remote_files@), local_index_spec(local_files@)),
{
    let remote = remote_index_for_vault(vault, remote_files);
    let local = local_index(local_files);
    let ghost rm = remote_index_spec(*vault, remote_files@);
    let ghost lm = local_index_spec(local_files@);
    let mut downloads: Vec<Download> = Vec::new();
    let mut conflicts: Vec<Conflict> = Vec::new();
    let mut i: usize = 0;
    while i < remote.len()
        invariant
            i <= remote@.len(),
            remote_entries_represent(remote@, rm),
            local_entries_represent(local@, lm),
            forall|a: int, b: int| 0 <= a < b < downloads@.len() ==> #[trigger] downloads@[a].relative_path@ != #[trigger] downloads@[b].relative_path@,
            forall|a: int| 0 <= a < downloads@.len() ==> {
                let k = #[trigger] downloads@[a].relative_path@;
                &&& rm.contains_key(k)
                &&& !lm.contains_key(k)
                &&& downloads@[a].file_id == rm[k].id
                &&& downloads@[a].remote_path@ == rm[k].path@
                &&& exists|e: int| 0 <= e < i && #[trigger] remote@[e].relative_path@ == k
            },
            forall|e: int| 0 <= e < i && !lm.contains_key(#[trigger] remote@[e].relative_path@) ==>
                exists|a: int| 0 <= a < downloads@.len() && #[trigger] downloads@[a].relative_path@ == remote@[e].relative_path@,
            forall|a: int, b: int| 0 <= a < b < conflicts@.len() ==> #[trigger] conflicts@[a].relative_path@ != #[trigger] conflicts@[b].relative_path@,
            forall|a: int| 0 <= a < conflicts@.len() ==> {
                let k = #[trigger] conflicts@[a].relative_path@;
                &&& rm.contains_key(k)
                &&& lm.contains_key(k)
                &&& lm[k].checksum@ != rm[k].checksum@
                &&& conflicts@[a].absolute_path@ == lm[k].absolute_path@
                &&& conflicts@[a].remote_path@ == rm[k].path@
                &&& conflicts@[a].local_checksum@ == lm[k].checksum@
                &&& conflicts@[a].remote_checksum@ == rm[k].checksum@
                &&& exists|e: int| 0 <= e < i && #[trigger] remote@[e].relative_path@ == k
            },
            forall|e: int| 0 <= e < i && lm.contains_key(#[trigger] remote@[e].relative_path@)
                && lm[remote@[e].relative_path@].checksum@ != rm[remote@[e].relative_path@].checksum@ ==>
                exists|a: int| 0 <= a < conflicts@.len() && #[trigger] conflicts@[a].relative_path@ == remote@[e].relative_path@,
        decreases remote@.len() - i,
    {
        let entry = &remote[i];
        let ghost k = entry.relative_path@;
        let ghost old_d = downloads@;
        let ghost old_c = conflicts@;
        assert(rm.contains_key(k) && rm[k] == entry.file);
        match find_local_entry(&local, entry.relative_path.as_str()) {
            None => {
                assert(!lm.contains_key(k)) by {
                    if lm.contains_key(k) {
                        let j = choose|j: int| 0 <= j < local@.len() && #[trigger] local@[j].relative_path@ == k;
                    }
                }
                downloads.push(Download {
                    file_id: entry.file.id,
                    relative_path: entry.relative_path.clone(),
                    remote_path: entry.file.path.clone(),
                });
                assert forall|a: int| 0 <= a < old_d.len() implies #[trigger] old_d[a].relative_path@ != k by {
                    let e = choose|e: int| 0 <= e < i && #[trigger] remote@[e].relative_path@ == old_d[a].relative_path@;
                    assert(remote@[e].relative_path@ != remote@[i as int].relative_path@);
                }
                assert forall|a: int, b: int| 0 <= a < b < downloads@.len() implies
                    #[trigger] downloads@[a].relative_path@ != #[trigger] downloads@[b].relative_path@ by {
                    assert(downloads@[a] == old_d[a]);
                    if b < old_d.len() {
                        assert(downloads@[b] == old_d[b]);
                    }
                }
                assert forall|a: int| 0 <= a < downloads@.len() implies
                    (exists|e: int| 0 <= e < i + 1 && #[trigger] remote@[e].relative_path@ == #[trigger] downloads@[a].relative_path@) by {
                    if a < old_d.len() {
                        assert(downloads@[a] == old_d[a]);
                    } else {
                        assert(remote@[i as int].relative_path@ == downloads@[a].relative_path@);
                    }
                }
                assert forall|e: int| 0 <= e < i + 1 && !lm.contains_key(#[trigger] remote@[e].relative_path@) implies
                    exists|a: int| 0 <= a < downloads@.len() && #[trigger] downloads@[a].relative_path@ == remote@[e].relative_path@ by {
                    if e < i {
                        let a = choose|a: int| 0 <= a < old_d.len() && #[trigger] old_d[a].relative_path@ == remote@[e].relative_path@;
                        assert(downloads@[a] == old_d[a]);
                    } else {
                        assert(downloads@[old_d.len() as int].relative_path@ == remote@[e].relative_path@);
                    }
                }
            },
            Some(p) => {
                let local_file = &local[p];
                assert(lm.contains_key(k) && lm[k] == local_file);
                if !str_eq(local_file.checksum.as_str(), entry.file.checksum.as_str()) {
                    match conflict_policy {
                        SyncConflictPolicy::SkipAndLogConflict => {
                            conflicts.push(Conflict {
                                relative_path: entry.relative_path.clone(),
                                absolute_path: local_file.absolute_path.clone(),
                                remote_path: entry.file.path.clone(),
                                local_checksum: local_file.checksum.clone(),
                                remote_checksum: entry.file.checksum.clone(),
                            });
                        },
                    }
                    assert forall|a: int| 0 <= a < old_c.len() implies #[trigger] old_c[a].relative_path@ != k by {
                        let e = choose|e: int| 0 <= e < i && #[trigger] remote@[e].relative_path@ == old_c[a].relative_path@;
                        assert(remote@[e].relative_path@ != remote@[i as int].relative_path@);
                    }
                    assert forall|a: int, b: int| 0 <= a < b < conflicts@.len() implies
                        #[trigger] conflicts@[a].relative_path@ != #[trigger] conflicts@[b].relative_path@ by {
                        assert(conflicts@[a] == old_c[a]);
                        if b < old_c.len() {
                            assert(conflicts@[b] == old_c[b]);
                        }
                    }
                    assert forall|a: int| 0 <= a < conflicts@.len() implies
                        (exists|e: int| 0 <= e < i + 1 && #[trigger] remote@[e].relative_path@ == #[trigger] conflicts@[a].relative_path@) by {
                        if a < old_c.len() {
                            assert(conflicts@[a] == old_c[a]);
                        } else {
                            assert(remote@[i as int].relative_path@ == conflicts@[a].relative_path@);
                        }
                    }
                    assert forall|e: int| 0 <= e < i + 1 && lm.contains_key(#[trigger] remote@[e].relative_path@)
                        && lm[remote@[e].relative_path@].checksum@ != rm[remote@[e].relative_path@].checksum@ implies
                        exists|a: int| 0 <= a < conflicts@.len() && #[trigger] conflicts@[a].relative_path@ == remote@[e].relative_path@ by {
                        if e < i {
                            let a = choose|a: int| 0 <= a < old_c.len() && #[trigger] old_c[a].relative_path@ == remote@[e].relative_path@;
                            assert(conflicts@[a] == old_c[a]);
                        } else {
                            assert(conflicts@[old_c.len() as int].relative_path@ == remote@[e].relative_path@);
                        }
                    }
                }
            },
        }
        i += 1;
    }
    proof {
        assert forall|k: Seq<char>| #[trigger] rm.contains_key(k) && !lm.contains_key(k) implies
            exists|a: int| 0 <= a < downloads@.len() && #[trigger] downloads@[a].relative_path@ == k by {
            let e = choose|e: int| 0 <= e < remote@.len() && #[trigger] remote@[e].relative_path@ == k;
        }
        assert forall|k: Seq<char>| #[trigger] rm.contains_key(k) && lm.contains_key(k) && lm[k].checksum@ != rm[k].checksum@ implies
            exists|a: int| 0 <= a < conflicts@.len() && #[trigger] conflicts@[a].relative_path@ == k by {
            let e = choose|e: int| 0 <= e < remote@.len() && #[trigger] remote@[e].relative_path@ == k;
        }
    }
    let mut uploads: Vec<Upload> = Vec::new();
    let mut j: usize = 0;
    while j < local.len()
        invariant
            j <= local@.len(),
            remote_entries_represent(remote@, rm),
            local_entries_represent(local@, lm),
            forall|a: int, b: int| 0 <= a < b < uploads@.len() ==> #[trigger] uploads@[a].relative_path@ != #[trigger] uploads@[b].relative_path@,
            forall|a: int| 0 <= a < uploads@.len() ==> {
                let k = #[trigger] uploads@[a].relative_path@;
                &&& lm.contains_key(k)
                &&& !rm.contains_key(k)
                &&& uploads@[a].absolute_path@ == lm[k].absolute_path@
                &&& uploads@[a].remote_path@ == to_remote_path_spec(*vault, k)
                &&& exists|e: int| 0 <= e < j && #[trigger] local@[e].relative_path@ == k
            },
            forall|e: int| 0 <= e < j && !rm.contains_key(#[trigger] local@[e].relative_path@) ==>
                exists|a: int| 0 <= a < uploads@.len() && #[trigger] uploads@[a].relative_path@ == local@[e].relative_path@,
        decreases local@.len() - j,
    {
        let file = &local[j];
        let ghost k = file.relative_path@;
        let ghost old_u = uploads@;
        assert(lm.contains_key(k) && lm[k] == file);
        match find_remote_entry(&remote, file.relative_path.as_str()) {
            Some(_) => {},
            None => {
                assert(!rm.contains_key(k)) by {
                    if rm.contains_key(k) {
                        let e = choose|e: int| 0 <= e < remote@.len() && #[trigger] remote@[e].relative_path@ == k;
                    }
                }
                let remote_path = vault.to_remote_path(file.relative_path.as_str());
                uploads.push(Upload {
                    relative_path: file.relative_path.clone(),
                    absolute_path: file.absolute_path.clone(),
                    remote_path,
                });
                assert forall|a: int| 0 <= a < old_u.len() implies #[trigger] old_u[a].relative_path@ != k by {
                    let e = choose|e: int| 0 <= e < j && #[trigger] local@[e].relative_path@ == old_u[a].relative_path@;
                    assert(local@[e].relative_path@ != local@[j as int].relative_path@);
                }
                assert forall|a: int, b: int| 0 <= a < b < uploads@.len() implies
                    #[trigger] uploads@[a].relative_path@ != #[trigger] uploads@[b].relative_path@ by {
                    assert(uploads@[a] == old_u[a]);
                    if b < old_u.len() {
                        assert(uploads@[b] == old_u[b]);
                    }
                }
                assert forall|a: int| 0 <= a < uploads@.len() implies
                    (exists|e: int| 0 <= e < j + 1 && #[trigger] local@[e].relative_path@ == #[trigger] uploads@[a].relative_path@) by {
                    if a < old_u.len() {
                        assert(uploads@[a] == old_u[a]);
                    } else {
                        assert(local@[j as int].relative_path@ == uploads@[a].relative_path@);
                    }
                }
                assert forall|e: int| 0 <= e < j + 1 && !rm.contains_key(#[trigger] local@[e].relative_path@) implies
                    exists|a: int| 0 <= a < uploads@.len() && #[trigger] uploads@[a].relative_path@ == local@[e].relative_path@ by {
                    if e < j {
                        let a = choose|a: int| 0 <= a < old_u.len() && #[trigger] old_u[a].relative_path@ == local@[e].relative_path@;
                        assert(uploads@[a] == old_u[a]);
                    } else {
                        assert(uploads@[old_u.len() as int].relative_path@ == local@[e].relative_path@);
                    }
                }
            },
        }
        j += 1;
    }
    proof {
        assert forall|k: Seq<char>| #[trigger] lm.contains_key(k) && !rm.contains_key(k) implies
            exists|a: int| 0 <= a < uploads@.len() && #[trigger] uploads@[a].relative_path@ == k by {
            let e = choose|e: int| 0 <= e < local@.len() && #[trigger] local@[e].relative_path@ == k;
        }
    }
    SyncPlan { downloads, conflicts, uploads }
}

/// Law: the plan of a first synchronisation never overwrites anything. A
/// file present on both sides is neither downloaded nor uploaded (a
/// conflicting local file is kept), and one whose checksums agree is not
/// reported either.
pub proof fn lemma_plan_keeps_files_on_both_sides(
    v: VaultConfig,
    plan: SyncPlan,
    rm: Map<Seq<char>, FileMetadata>,
    lm: Map<Seq<char>, LocalFileSnapshot>,
    k: Seq<char>,
)
    requires
        downloads_exact(plan.downloads@, rm, lm),
        conflicts_exact(plan.conflicts@, rm, lm),
        uploads_exact(v, plan.uploads@, rm, lm),
        rm.contains_key(k),
        lm.contains_key(k),
    ensures
        forall|i: int| 0 <= i < plan.downloads@.len() ==> #[trigger] plan.downloads@[i].relative_path@ != k,
        forall|i: int| 0 <= i < plan.uploads@.len() ==> #[trigger] plan.uploads@[i].relative_path@ != k,
        lm[k].checksum@ == rm[k].checksum@ ==>
            forall|i: int| 0 <= i < plan.conflicts@.len() ==> #[trigger] plan.conflicts@[i].relative_path@ != k,
        lm[k].checksum@ != rm[k].checksum@ ==>
            exists|i: int| 0 <= i < plan.conflicts@.len() && #[trigger] plan.conflicts@[i].relative_path@ == k,
{
}

/// Law: every planned upload lands where the next synchronisation finds it
/// again: its server path maps back into the vault at its relative path
/// (with back-slashes read as forward slashes).
pub proof fn lemma_uploads_map_back(
    v: VaultConfig,
    us: Seq<Upload>,
    rm: Map<Seq<char>, FileMetadata>,
    lm: Map<Seq<char>, LocalFileSnapshot>,
    i: int,
)
    requires
        uploads_exact(v, us, rm, lm),
        0 <= i < us.len(),
    ensures
        from_remote_path_spec(v, us[i].remote_path@) == Some(normalize_relative_path_spec(us[i].relative_path@)),
{
    lemma_remote_path_roundtrip(v, us[i].relative_path@);
}

/// The message for a path outside the vault's root.
pub open spec fn outside_root_message(absolute: Seq<char>, root: Seq<char>) -> Seq<char> {
    "Path '"@ + absolute + "' is outside vault root '"@ + root + "'"@
}

/// The path of a file inside the vault, with `/` between components. A path
/// outside the root, or one that climbs out with `..`, is an invalid path.
pub fn relative_path_string(root: &str, absolute_path: &str) -> (r: ClientResult<String>)
    ensures
        match strip_components(components_spec(absolute_path@), components_spec(root@)) {
            None => r matches Err(ClientError::InvalidPath(m)) && m@ == outside_root_message(absolute_path@, root@),
            Some(rest) => if all_named(rest) {
                r matches Ok(s) && s@ == join_names(rest)
            } else {
                r matches Err(ClientError::InvalidPath(m)) && m@ == "Relative path contains unsupported component: "@ + absolute_path@
            },
        },
{
    match strip_path_prefix(absolute_path, root) {
        None => {
            let a = concat_str("Path '", absolute_path);
            let b = concat_str(a.as_str(), "' is outside vault root '");
            let c = concat_str(b.as_str(), root);
            let d = concat_str(c.as_str(), "'");
            Err(ClientError::InvalidPath(d))
        },
        Some(rest) => match join_named_components(&rest) {
            Some(joined) => Ok(joined),
            None => Err(ClientError::InvalidPath(concat_str("Relative path contains unsupported component: ", absolute_path))),
        },
    }
}

/// The id of the first remote file stored under a path, if any.
pub fn find_remote_file_id(files: &Vec<FileMetadata>, remote_path: &str) -> (r: Option<u128>)
    ensures
        match r {
            Some(id) => exists|i: int| 0 <= i < files@.len() && #[trigger] files@[i].path@ == remote_path@
                && files@[i].id == id && forall|k: int| 0 <= k < i ==> #[trigger] files@[k].path@ != remote_path@,
            None => forall|i: int| 0 <= i < files@.len() ==> #[trigger] files@[i].path@ != remote_path@,
        },
{
    let mut i: usize = 0;
    while i < files.len()
        invariant
            i <= files@.len(),
            forall|k: int| 0 <= k < i ==> #[trigger] files@[k].path@ != remote_path@,
        decreases files@.len() - i,
    {
        if str_eq(files[i].path.as_str(), remote_path) {
            return Some(files[i].id);
        }
        i += 1;
    }
    None
}

} // verus!
