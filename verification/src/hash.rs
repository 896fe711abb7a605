//! The per-watcher hash index: one entry per tracked file, holding the
//! content hash (decimal, 64-bit; the empty string is a tombstone for a
//! file known to be absent), the time it was stamped and the file size.

use vstd::prelude::*;
use vstd::map::*;

use crate::helpers::norm_path;
use crate::helpers::normalize_path;
use crate::smap::StrMap;
use crate::strings::dec_of;
use crate::strings::u64_to_dec;

verus! {

/// What the index records about one file.
#[derive(Clone, Debug)]
pub struct FileHashJSON {
    pub hash: String,
    pub timestamp: i128,
    pub size: u64,
}

/// Ghost mirror of `FileHashJSON`.
pub ghost struct FileHashV {
    pub hash: Seq<char>,
    pub timestamp: int,
    pub size: u64,
}

impl View for FileHashJSON {
    type V = FileHashV;

    open spec fn view(&self) -> FileHashV {
        FileHashV { hash: self.hash@, timestamp: self.timestamp as int, size: self.size }
    }
}

impl FileHashJSON {
    /// A field-by-field copy whose contents are known.
    pub fn duplicate(&self) -> (r: Self)
        ensures
            r@ == self@,
    {
        FileHashJSON { hash: self.hash.clone(), timestamp: self.timestamp, size: self.size }
    }

    /// Whether this entry is a tombstone: an empty hash records a file that
    /// is known to be gone.
    pub open spec fn spec_is_tombstone(self) -> bool {
        self.hash@.len() == 0
    }

    pub fn is_tombstone(&self) -> (r: bool)
        ensures
            r == self.spec_is_tombstone(),
    {
        self.hash.as_str().unicode_len() == 0
    }
}

/// The hash index of one watcher.
pub struct WatcherHashJSON {
    pub id: String,
    pub source_id: String,
    pub local_path: String,
    pub hashes: StrMap<FileHashJSON>,
}

impl WatcherHashJSON {
    pub open spec fn wf(self) -> bool {
        self.hashes.wf()
    }

    /// The index contents as a map from path to recorded entry.
    pub open spec fn hash_map(self) -> Map<Seq<char>, FileHashV> {
        view_map(self.hashes.as_map())
    }
}

/// The entry map seen through each entry's ghost mirror.
pub open spec fn view_map(m: Map<Seq<char>, FileHashJSON>) -> Map<Seq<char>, FileHashV> {
    Map::new(|k: Seq<char>| m.dom().contains(k), |k: Seq<char>| m[k]@)
}

pub proof fn lemma_view_map_insert(m: Map<Seq<char>, FileHashJSON>, k: Seq<char>, v: FileHashJSON)
    ensures
        view_map(m.insert(k, v)) == view_map(m).insert(k, v@),
{
    assert(view_map(m.insert(k, v)) =~= view_map(m).insert(k, v@));
}

pub proof fn lemma_view_map_remove(m: Map<Seq<char>, FileHashJSON>, k: Seq<char>)
    ensures
        view_map(m.remove(k)) == view_map(m).remove(k),
{
    assert(view_map(m.remove(k)) =~= view_map(m).remove(k));
}

/// The 64-bit content hash computed by the hashing routine, as a function
/// of the bytes alone.
pub uninterp spec fn seahash_of(bytes: Seq<u8>) -> u64;

/// Relies on seahash::hash: a 64-bit hash of the buffer with a fixed,
/// prechosen seed, so the result depends on the bytes alone.
#[verifier::external_body]
fn hash_bytes(data: &Vec<u8>) -> (r: u64)
    ensures
        r == seahash_of(data@),
{
    seahash::hash(data.as_slice())
}

/// The decimal string form of the content hash of `bytes`.
pub open spec fn hash_string_of(bytes: Seq<u8>) -> Seq<char> {
    dec_of(seahash_of(bytes) as nat)
}

/// The hash recorded for a file: its content hash in decimal, or the empty
/// string where there is no content to hash (a directory, or a read that
/// failed).
pub open spec fn spec_file_hash(content: Option<Seq<u8>>) -> Seq<char> {
    match content {
        Some(bytes) => hash_string_of(bytes),
        None => Seq::empty(),
    }
}

/// Hashes one file's bytes; `None` stands for a directory or an unreadable
/// file and yields the empty string.
pub fn get_file_hash(content: &Option<Vec<u8>>) -> (r: String)
    ensures
        r@ == spec_file_hash(match content {
            Some(b) => Some(b@),
            None => None,
        }),
{
    match content {
        Some(bytes) => u64_to_dec(hash_bytes(bytes)),
        None => String::new(),
    }
}

/// The index contents described by a disk listing: every listed file under
/// its normalized path, hashed, stamped `now`; a later duplicate wins.
pub open spec fn index_of_listing(files: Seq<(Seq<char>, Seq<u8>, u64)>, now: int) -> Map<
    Seq<char>,
    FileHashV,
>
    decreases files.len(),
{
    if files.len() == 0 {
        Map::empty()
    } else {
        index_of_listing(files.drop_last(), now).insert(
            norm_path(files.last().0),
            FileHashV { hash: hash_string_of(files.last().1), timestamp: now, size: files.last().2 },
        )
    }
}

/// Builds a fresh hash index from a listing of the regular files under the
/// watcher's base: each file's path (normalized) maps to the hash of the
/// bytes handed in, stamped with `now` and the given size.
pub fn build_hashes(
    hashes_id: &String,
    source_id: &String,
    local_path: &String,
    files: &Vec<(String, Vec<u8>, u64)>,
    now: i128,
) -> (r: WatcherHashJSON)
    ensures
        r.wf(),
        r.id@ == hashes_id@,
        r.source_id@ == source_id@,
        r.local_path@ == local_path@,
        r.hash_map() == index_of_listing(
            files@.map_values(|f: (String, Vec<u8>, u64)| (f.0@, f.1@, f.2)),
            now as int,
        ),
{
    let ghost fv = files@.map_values(|f: (String, Vec<u8>, u64)| (f.0@, f.1@, f.2));
    let mut hashes: StrMap<FileHashJSON> = StrMap::new();
    proof {
        assert(view_map(hashes.as_map()) =~= index_of_listing(fv.take(0), now as int));
    }
    let n = files.len();
    let mut i: usize = 0;
    while i < n
        invariant
            0 <= i <= n,
            n == files@.len(),
            fv == files@.map_values(|f: (String, Vec<u8>, u64)| (f.0@, f.1@, f.2)),
            hashes.wf(),
            view_map(hashes.as_map()) == index_of_listing(fv.take(i as int), now as int),
        decreases n - i,
    {
        let path = normalize_path(&files[i].0);
        let content_hash = u64_to_dec(hash_bytes(&files[i].1));
        let entry = FileHashJSON { hash: content_hash, timestamp: now, size: files[i].2 };
        let ghost m0 = hashes.as_map();
        hashes.insert(path, entry);
        proof {
            lemma_view_map_insert(m0, norm_path(fv[i as int].0), entry);
            assert(fv.take(i + 1).drop_last() =~= fv.take(i as int));
            assert(fv.take(i + 1).last() == fv[i as int]);
            assert(view_map(hashes.as_map()) =~= index_of_listing(fv.take(i + 1), now as int));
        }
        i += 1;
    }
    proof {
        assert(fv.take(n as int) =~= fv);
    }
    WatcherHashJSON {
        id: hashes_id.clone(),
        source_id: source_id.clone(),
        local_path: local_path.clone(),
        hashes,
    }
}

/// Law: a freshly built index matches the disk it was built from. Every
/// listed file's normalized path is present, and a path listed once (or
/// whose last listing it is) carries exactly the hash of the bytes handed
/// in, stamped `now`.
pub proof fn lemma_fresh_index_matches_disk(files: Seq<(Seq<char>, Seq<u8>, u64)>, now: int)
    ensures
        forall|i: int|
            0 <= i < files.len() ==> index_of_listing(files, now).contains_key(
                norm_path(#[trigger] files[i].0),
            ),
        forall|i: int|
            0 <= i < files.len() && (forall|j: int|
                i < j < files.len() ==> norm_path(#[trigger] files[j].0) != norm_path(files[i].0))
                ==> index_of_listing(files, now)[norm_path(#[trigger] files[i].0)] == (FileHashV {
                hash: hash_string_of(files[i].1),
                timestamp: now,
                size: files[i].2,
            }),
    decreases files.len(),
{
    if files.len() > 0 {
        lemma_fresh_index_matches_disk(files.drop_last(), now);
        assert forall|i: int| 0 <= i < files.len() implies index_of_listing(
            files,
            now,
        ).contains_key(norm_path(#[trigger] files[i].0)) by {
            if i < files.len() - 1 {
                assert(files.drop_last()[i] == files[i]);
            }
        }
        assert forall|i: int|
            0 <= i < files.len() && (forall|j: int|
                i < j < files.len() ==> norm_path(#[trigger] files[j].0) != norm_path(
                    files[i].0,
                )) implies index_of_listing(files, now)[norm_path(#[trigger] files[i].0)] == (
        FileHashV { hash: hash_string_of(files[i].1), timestamp: now, size: files[i].2 }) by {
            if i < files.len() - 1 {
                assert(files.drop_last()[i] == files[i]);
                assert(norm_path(files[files.len() - 1].0) != norm_path(files[i].0));
                assert(forall|j: int|
                    i < j < files.drop_last().len() ==> norm_path(
                        #[trigger] files.drop_last()[j].0,
                    ) != norm_path(files.drop_last()[i].0));
            }
        }
    }
}

} // verus!
