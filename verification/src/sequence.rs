//! Storage of pre-loaded playback sequences: the file names they are kept
//! under.
//!
//! A sequence is saved as (optionally zstd-compressed) CBOR, in
//! `<id>.cbor.zst` or `<id>.cbor` within the storage directory.

use vstd::prelude::*;

use vstd::string::{StrSliceExecFns, StringExecFns};

verus! {

/// `dir` joined with `name` as a path: `name` itself where it is absolute
/// (starts with `/`) or `dir` is empty, else `dir` and `name` with one `/`
/// between them.
pub open spec fn join_path(dir: Seq<char>, name: Seq<char>) -> Seq<char> {
    if dir.len() == 0 || (name.len() > 0 && name[0] == '/') {
        name
    } else if dir.last() == '/' {
        dir + name
    } else {
        dir + seq!['/'] + name
    }
}

/// The suffix of an uncompressed sequence file.
pub open spec fn cbor_suffix() -> Seq<char> {
    seq!['.', 'c', 'b', 'o', 'r']
}

/// The suffix of a compressed sequence file.
pub open spec fn cbor_zst_suffix() -> Seq<char> {
    seq!['.', 'c', 'b', 'o', 'r', '.', 'z', 's', 't']
}

/// `s` ends with `suffix`.
pub open spec fn ends_with(s: Seq<char>, suffix: Seq<char>) -> bool {
    s.len() >= suffix.len() && s.skip(s.len() - suffix.len()) == suffix
}

/// The sequence id and whether the file is compressed, for a file named
/// `name`: its name without `.cbor.zst`, or else without `.cbor`.
pub open spec fn sequence_file_id(name: Seq<char>) -> Option<(Seq<char>, bool)> {
    if ends_with(name, cbor_zst_suffix()) {
        Some((name.take(name.len() - 9), true))
    } else if ends_with(name, cbor_suffix()) {
        Some((name.take(name.len() - 5), false))
    } else {
        None
    }
}

/// Storage handler for sequence files on disk.
#[derive(Debug, Clone)]
pub struct SequenceStore {
    storage_dir: String,
}

/// `s` followed by `t`.
fn concat(s: &str, t: &str) -> (r: String)
    ensures
        r@ == s@ + t@,
{
    let mut r = String::from_str(s);
    r.append(t);
    r
}

/// `dir` joined with `name` as a path.
fn join(dir: &str, name: &str) -> (r: String)
    ensures
        r@ == join_path(dir@, name@),
{
    let n = dir.unicode_len();
    if n == 0 || (name.unicode_len() > 0 && name.get_char(0) == '/') {
        String::from_str(name)
    } else if dir.get_char(n - 1) == '/' {
        concat(dir, name)
    } else {
        let sep = "/";
        proof {
            reveal_strlit("/");
        }
        let mut r = concat(dir, sep);
        r.append(name);
        r
    }
}

/// Whether `s` ends with `suffix`.
fn str_ends_with(s: &str, suffix: &str) -> (b: bool)
    ensures
        b == ends_with(s@, suffix@),
{
    let n = s.unicode_len();
    let m = suffix.unicode_len();
    if n < m {
        return false;
    }
    let mut i: usize = 0;
    while i < m
        invariant
            i <= m == suffix@.len(),
            n == s@.len(),
            m <= n,
            forall|j: int| 0 <= j < i ==> s@[n - m + j] == suffix@[j],
        decreases m - i,
    {
        if s.get_char(n - m + i) != suffix.get_char(i) {
            assert(s@.skip(n - m)[i as int] != suffix@[i as int]);
            return false;
        }
        i = i + 1;
    }
    assert(s@.skip(n - m) =~= suffix@);
    true
}

impl SequenceStore {
    /// The storage directory.
    pub closed spec fn spec_dir(&self) -> Seq<char> {
        self.storage_dir@
    }

    /// A store of the sequence files within `storage_dir`.
    pub fn new(storage_dir: String) -> (s: Self)
        ensures
            s.spec_dir() == storage_dir@,
    {
        Self { storage_dir }
    }

    /// Path of the uncompressed file for sequence `id`.
    pub fn file_path(&self, id: &str) -> (p: String)
        ensures
            p@ == join_path(self.spec_dir(), id@ + cbor_suffix()),
    {
        let suffix = ".cbor";
        proof {
            reveal_strlit(".cbor");
        }
        let name = concat(id, suffix);
        join(self.storage_dir.as_str(), name.as_str())
    }

    /// Path of the compressed file for sequence `id`.
    pub fn file_path_zst(&self, id: &str) -> (p: String)
        ensures
            p@ == join_path(self.spec_dir(), id@ + cbor_zst_suffix()),
    {
        let suffix = ".cbor.zst";
        proof {
            reveal_strlit(".cbor.zst");
        }
        let name = concat(id, suffix);
        join(self.storage_dir.as_str(), name.as_str())
    }
}

/// The sequence id of a file named `name`, and whether it is compressed;
/// `None` if the name ends in neither `.cbor.zst` nor `.cbor`.
pub fn sequence_file_id_of(name: &str) -> (r: Option<(String, bool)>)
    ensures
        match sequence_file_id(name@) {
            Some((id, z)) => r matches Some((s, b)) && s@ == id && b == z,
            None => r is None,
        },
{
    let zst = ".cbor.zst";
    let plain = ".cbor";
    proof {
        reveal_strlit(".cbor.zst");
        reveal_strlit(".cbor");
        assert(zst@ =~= cbor_zst_suffix());
        assert(plain@ =~= cbor_suffix());
    }
    let n = name.unicode_len();
    if str_ends_with(name, zst) {
        let id = name.substring_char(0, n - 9);
        assert(id@ =~= name@.take(name@.len() - 9));
        Some((String::from_str(id), true))
    } else if str_ends_with(name, plain) {
        let id = name.substring_char(0, n - 5);
        assert(id@ =~= name@.take(name@.len() - 5));
        Some((String::from_str(id), false))
    } else {
        None
    }
}


/// Neither file of a sequence exists.
#[derive(Debug, Clone, Copy, PartialEq, Eq)]
pub struct SequenceNotFound;

/// The contents of the file a sequence is loaded from, and whether it is
/// compressed: the compressed file's if there is one, else the uncompressed
/// file's; `SequenceNotFound` if there is neither.
pub fn choose_sequence_file(zst: Option<Vec<u8>>, cbor: Option<Vec<u8>>) -> (r: Result<
    (Vec<u8>, bool),
    SequenceNotFound,
>)
    ensures
        match (zst, cbor) {
            (Some(z), _) => r matches Ok((v, true)) && v@ == z@,
            (None, Some(c)) => r matches Ok((v, false)) && v@ == c@,
            (None, None) => r == Err::<(Vec<u8>, bool), SequenceNotFound>(SequenceNotFound),
        },
{
    match zst {
        Some(z) => Ok((z, true)),
        None => match cbor {
            Some(c) => Ok((c, false)),
            None => Err(SequenceNotFound),
        },
    }
}

/// Whether `s` and `t` are the same string.
fn str_eq(s: &str, t: &str) -> (b: bool)
    ensures
        b == (s@ == t@),
{
    let n = s.unicode_len();
    if n != t.unicode_len() {
        return false;
    }
    let mut i: usize = 0;
    while i < n
        invariant
            i <= n == s@.len() == t@.len(),
            forall|j: int| 0 <= j < i ==> s@[j] == t@[j],
        decreases n - i,
    {
        if s.get_char(i) != t.get_char(i) {
            return false;
        }
        i = i + 1;
    }
    assert(s@ =~= t@);
    true
}

/// The ids of the entries of `entries`.
pub open spec fn entry_ids(entries: Seq<(int, Seq<char>, bool)>) -> Seq<Seq<char>> {
    entries.map_values(|e: (int, Seq<char>, bool)| e.1)
}

/// The sequences stored under the file names `names`, in order: for each
/// name that ends in `.cbor.zst` or `.cbor`, and whose sequence id no
/// earlier such name had, its index in `names`, the id, and whether the file
/// is compressed.
pub open spec fn listed_sequences(names: Seq<Seq<char>>) -> Seq<(int, Seq<char>, bool)>
    decreases names.len(),
{
    if names.len() == 0 {
        seq![]
    } else {
        let prev = listed_sequences(names.drop_last());
        match sequence_file_id(names.last()) {
            Some((id, z)) => if entry_ids(prev).contains(id) {
                prev
            } else {
                prev.push(((names.len() - 1) as int, id, z))
            },
            None => prev,
        }
    }
}

/// What an entry of `sequence_files` holds.
pub open spec fn entry_view(e: (usize, String, bool)) -> (int, Seq<char>, bool) {
    (e.0 as int, e.1@, e.2)
}

/// The names of `names`.
pub open spec fn names_view(names: Seq<String>) -> Seq<Seq<char>> {
    names.map_values(|s: String| s@)
}

/// The sequences stored under the file names `names` (see
/// `listed_sequences`): each sequence file once, the first one of its id.
pub fn sequence_files(names: &Vec<String>) -> (r: Vec<(usize, String, bool)>)
    ensures
        r@.map_values(|e: (usize, String, bool)| entry_view(e)) == listed_sequences(
            names_view(names@),
        ),
{
    let mut r: Vec<(usize, String, bool)> = Vec::new();
    let mut i: usize = 0;
    while i < names.len()
        invariant
            i <= names@.len(),
            r@.map_values(|e: (usize, String, bool)| entry_view(e)) == listed_sequences(
                names_view(names@.take(i as int)),
            ),
        decreases names@.len() - i,
    {
        let ghost prev = r@.map_values(|e: (usize, String, bool)| entry_view(e));
        proof {
            assert(names_view(names@.take(i + 1)).drop_last() =~= names_view(names@.take(i as int)));
            assert(names_view(names@.take(i + 1)).last() == names@[i as int]@);
        }
        match sequence_file_id_of(names[i].as_str()) {
            Some((id, z)) => {
                let mut seen = false;
                let mut j: usize = 0;
                while j < r.len()
                    invariant
                        j <= r@.len(),
                        prev == r@.map_values(|e: (usize, String, bool)| entry_view(e)),
                        seen == entry_ids(prev).take(j as int).contains(id@),
                    decreases r@.len() - j,
                {
                    let same = str_eq(r[j].1.as_str(), id.as_str());
                    proof {
                        broadcast use vstd::seq_lib::group_seq_properties;

                        assert(entry_ids(prev)[j as int] == r@[j as int].1@);
                        assert(entry_ids(prev).take(j + 1) =~= entry_ids(prev).take(j as int).push(
                            r@[j as int].1@,
                        ));
                    }
                    seen = seen || same;
                    j = j + 1;
                }
                assert(entry_ids(prev).take(j as int) =~= entry_ids(prev));
                if !seen {
                    r.push((i, id, z));
                    assert(r@.map_values(|e: (usize, String, bool)| entry_view(e)) =~= prev.push(
                        (i as int, id@, z),
                    ));
                }
            },
            None => {},
        }
        i = i + 1;
    }
    assert(names@.take(i as int) =~= names@);
    r
}

/// What `zstd::decode_all` gives for `bytes`: the decompressed data, or
/// `None` where it reports an error.
pub uninterp spec fn spec_zstd_decoded(bytes: Seq<u8>) -> Option<Seq<u8>>;

/// What `zstd::encode_all` gives for `bytes` at compression level `level`.
pub uninterp spec fn spec_zstd_encoded(bytes: Seq<u8>, level: i32) -> Seq<u8>;

/// `zstd::decode_all` on `bytes`: the claim is that its result depends on
/// the bytes alone, and that it is `None` exactly where that call reports an
/// error.
#[verifier::external_body]
pub fn zstd_decompress(bytes: &[u8]) -> (r: Option<Vec<u8>>)
    ensures
        (r is Some) == (spec_zstd_decoded(bytes@) is Some),
        r matches Some(v) ==> Some(v@) == spec_zstd_decoded(bytes@),
{
    zstd::decode_all(bytes).ok()
}

/// `zstd::encode_all` on `bytes` at `level`: the claim is that what it
/// returns depends on the bytes and the level alone, and, zstd being a
/// lossless compression format (zstd.h: "a fast lossless compression
/// algorithm"), that decompressing it gives `bytes` back. When it succeeds
/// is left unsaid: the call reports I/O errors of its encoder.
#[verifier::external_body]
pub fn zstd_compress(bytes: &[u8], level: i32) -> (r: Option<Vec<u8>>)
    ensures
        r matches Some(v) ==> v@ == spec_zstd_encoded(bytes@, level) && spec_zstd_decoded(v@)
            == Some(bytes@),
{
    zstd::encode_all(bytes, level).ok()
}

} // verus!
