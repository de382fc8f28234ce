//! Local storage: where a stored path lives under the storage directory, and
//! the checksum a chunk is verified against while it is written.
use vstd::prelude::*;
use crate::codec::sha256;
use crate::status::{TusError, TusErrorView};
use crate::text::{append_str, chars_of, concat_str, str_eq};

verus! {

/// `Path::join` on `/`-separated paths: an absolute `path` replaces `base`;
/// otherwise `path` is appended, with a `/` unless `base` is empty or already
/// ends with one.
pub open spec fn join_spec(base: Seq<char>, path: Seq<char>) -> Seq<char> {
    if path.len() > 0 && path[0] == '/' {
        path
    } else if base.len() == 0 || base.last() == '/' {
        base + path
    } else {
        base + "/"@ + path
    }
}

/// Joining keeps both parts: an absolute path stands alone; a relative one
/// follows the base, separated by exactly one added `/` unless the base is
/// empty or already ends with one.
pub proof fn lemma_join_keeps_parts(base: Seq<char>, path: Seq<char>)
    ensures
        path.len() > 0 && path[0] == '/' ==> join_spec(base, path) == path,
        !(path.len() > 0 && path[0] == '/') ==> {
            let j = join_spec(base, path);
            let sep: int = if base.len() == 0 || base.last() == '/' { 0 } else { 1 };
            &&& j.len() == base.len() + sep + path.len()
            &&& j.subrange(0, base.len() as int) == base
            &&& j.subrange(base.len() + sep, j.len() as int) == path
            &&& sep == 1 ==> j[base.len() as int] == '/'
        },
{
    reveal_strlit("/");
    if !(path.len() > 0 && path[0] == '/') {
        let j = join_spec(base, path);
        if base.len() == 0 || base.last() == '/' {
            assert(j.subrange(0, base.len() as int) =~= base);
            assert(j.subrange(base.len() as int, j.len() as int) =~= path);
        } else {
            assert(j.subrange(0, base.len() as int) =~= base);
            assert(j.subrange(base.len() as int + 1, j.len() as int) =~= path);
        }
    }
}

/// Joins a relative path onto a directory as `Path::join` does.
pub fn join_path(base: &str, path: &str) -> (r: String)
    ensures
        r@ == join_spec(base@, path@),
{
    let p = chars_of(path);
    if p.len() > 0 && p[0] == '/' {
        return path.to_owned();
    }
    let b = chars_of(base);
    if b.len() == 0 || b[b.len() - 1] == '/' {
        concat_str(base, path)
    } else {
        let mut out = base.to_owned();
        append_str(&mut out, "/");
        append_str(&mut out, path);
        out
    }
}

/// Storage of uploads as files under one directory.
#[derive(Debug, Clone)]
pub struct FilesystemStorage {
    base_dir: String,
}

impl FilesystemStorage {
    /// The directory uploads are stored under.
    pub closed spec fn base(&self) -> Seq<char> {
        self.base_dir@
    }

    /// Storage rooted at `base_dir`.
    pub fn new(base_dir: String) -> (s: FilesystemStorage)
        ensures
            s.base() == base_dir@,
    {
        FilesystemStorage { base_dir }
    }

    /// The directory uploads are stored under.
    pub fn base_dir(&self) -> (r: &str)
        ensures
            r@ == self.base(),
    {
        self.base_dir.as_str()
    }

    /// Where a stored path lives.
    pub fn full_path(&self, path: &str) -> (r: String)
        ensures
            r@ == join_spec(self.base(), path@),
    {
        join_path(self.base_dir.as_str(), path)
    }
}

// ---------------------------------------------------------------------------
// Checksums
// ---------------------------------------------------------------------------

/// A running SHA-1 hash (`sha1::Sha1`).  Its type is an alias of `digest`'s
/// generic buffering wrapper over a hash core and `typenum` sizes, types that
/// Verus does not take, so it is held here, opaque, and known only by the bytes
/// it has been fed.
#[verifier::external_body]
pub struct Sha1Hasher {
    inner: sha1::Sha1,
}

/// A running SHA-256 hash (`sha2::Sha256`), held as `Sha1Hasher` is.
#[verifier::external_body]
pub struct Sha256Hasher {
    inner: sha2::Sha256,
}

/// The bytes a SHA-1 hasher has been fed.
pub uninterp spec fn sha1_fed(h: Sha1Hasher) -> Seq<u8>;

/// The bytes a SHA-256 hasher has been fed.
pub uninterp spec fn sha256_fed(h: Sha256Hasher) -> Seq<u8>;

/// The SHA-1 digest of `data`.
pub uninterp spec fn sha1(data: Seq<u8>) -> Seq<u8>;

/// `Sha1::new()`: a hasher that has been fed nothing.
#[verifier::external_body]
fn sha1_new() -> (h: Sha1Hasher)
    ensures
        sha1_fed(h) == Seq::<u8>::empty(),
{
    Sha1Hasher { inner: <sha1::Sha1 as sha2::Digest>::new() }
}

/// `Sha256::new()`: a hasher that has been fed nothing.
#[verifier::external_body]
fn sha256_new() -> (h: Sha256Hasher)
    ensures
        sha256_fed(h) == Seq::<u8>::empty(),
{
    Sha256Hasher { inner: <sha2::Sha256 as sha2::Digest>::new() }
}

/// `Digest::update` on a SHA-1 hasher: feeds it `data`.
#[verifier::external_body]
fn sha1_update(h: &mut Sha1Hasher, data: &[u8])
    ensures
        sha1_fed(*final(h)) == sha1_fed(*old(h)) + data@,
{
    sha2::Digest::update(&mut h.inner, data)
}

/// `Digest::update` on a SHA-256 hasher: feeds it `data`.
#[verifier::external_body]
fn sha256_update(h: &mut Sha256Hasher, data: &[u8])
    ensures
        sha256_fed(*final(h)) == sha256_fed(*old(h)) + data@,
{
    sha2::Digest::update(&mut h.inner, data)
}

/// `Digest::finalize` of a SHA-1 hasher: the digest of all it was fed.
#[verifier::external_body]
fn sha1_finalize(h: Sha1Hasher) -> (r: Vec<u8>)
    ensures
        r@ == sha1(sha1_fed(h)),
{
    sha2::Digest::finalize(h.inner).to_vec()
}

/// `Digest::finalize` of a SHA-256 hasher: the digest of all it was fed.
#[verifier::external_body]
fn sha256_finalize(h: Sha256Hasher) -> (r: Vec<u8>)
    ensures
        r@ == sha256(sha256_fed(h)),
{
    sha2::Digest::finalize(h.inner).to_vec()
}

/// A checksum being computed over the bytes of a chunk as it is written.
pub enum ChecksumHasher {
    Sha1(Sha1Hasher),
    Sha256(Sha256Hasher),
}

/// The algorithms the checksum extension supports.
pub open spec fn supported_algorithm(alg: Seq<char>) -> bool {
    alg == "sha1"@ || alg == "sha256"@
}

impl ChecksumHasher {
    /// The bytes fed so far.
    pub open spec fn fed(&self) -> Seq<u8> {
        match *self {
            ChecksumHasher::Sha1(h) => sha1_fed(h),
            ChecksumHasher::Sha256(h) => sha256_fed(h),
        }
    }

    /// The digest of `data` under this hasher's algorithm.
    pub open spec fn digest_of(&self, data: Seq<u8>) -> Seq<u8> {
        match *self {
            ChecksumHasher::Sha1(_) => sha1(data),
            ChecksumHasher::Sha256(_) => sha256(data),
        }
    }

    /// A hasher for `sha1` or `sha256`; any other algorithm is refused.
    pub fn from_algorithm(alg: &str) -> (r: Result<ChecksumHasher, TusError>)
        ensures
            alg@ == "sha1"@ ==> (r matches Ok(h) && h is Sha1 && h.fed() == Seq::<u8>::empty()),
            alg@ == "sha256"@ ==> (r matches Ok(h) && h is Sha256 && h.fed() == Seq::<u8>::empty()),
            !supported_algorithm(alg@) ==> (r matches Err(e) && e@ == TusErrorView::UnsupportedChecksumAlgorithm(alg@)),
    {
        proof {
            reveal_strlit("sha1");
            reveal_strlit("sha256");
            assert("sha1"@.len() != "sha256"@.len());
        }
        if str_eq(alg, "sha1") {
            Ok(ChecksumHasher::Sha1(sha1_new()))
        } else if str_eq(alg, "sha256") {
            Ok(ChecksumHasher::Sha256(sha256_new()))
        } else {
            Err(TusError::UnsupportedChecksumAlgorithm(alg.to_owned()))
        }
    }

    /// Feeds the hasher a chunk.
    pub fn update(&mut self, data: &[u8])
        ensures
            final(self).fed() == old(self).fed() + data@,
            (*final(self) is Sha1) <==> (*old(self) is Sha1),
    {
        match self {
            ChecksumHasher::Sha1(h) => sha1_update(h, data),
            ChecksumHasher::Sha256(h) => sha256_update(h, data),
        }
    }

    /// The digest of everything fed.
    pub fn finalize(self) -> (r: Vec<u8>)
        ensures
            r@ == self.digest_of(self.fed()),
    {
        match self {
            ChecksumHasher::Sha1(h) => sha1_finalize(h),
            ChecksumHasher::Sha256(h) => sha256_finalize(h),
        }
    }

    /// Checks what was written against the checksum the client sent: a
    /// mismatch is refused (and the written bytes are rolled back).
    pub fn verify(self, expected: &[u8]) -> (r: Result<(), TusError>)
        ensures
            r is Ok <==> self.digest_of(self.fed()) == expected@,
            r matches Err(e) ==> e is ChecksumMismatch,
    {
        let computed = self.finalize();
        if crate::codec::ct_eq(computed.as_slice(), expected) {
            Ok(())
        } else {
            Err(TusError::ChecksumMismatch)
        }
    }
}

} // verus!
