//! The S3 storage backend's decisions: where a staged upload lives, how a
//! file is sent, how partial uploads are assembled, and how much staging room
//! is left.
use vstd::prelude::*;
use crate::filename::{part_suffix, staging_prefix, strip_staging};
use crate::storage::{join_path, join_spec};
use crate::text::{append_str, append_u64, chars_of, has_prefix, nat_text, starts_with};

verus! {

/// Parts of a multipart upload, but the last, must hold at least 5 MiB.
pub const S3_MIN_PART_BYTES: u64 = 5 * 1024 * 1024;

/// The bucket is required for the S3 backend.
pub fn require_bucket(bucket: Option<String>) -> (r: Result<String, String>)
    ensures
        match bucket {
            Some(b) => r == Ok::<String, String>(b),
            None => r matches Err(m) && m@ == "S3_BUCKET is required when STORAGE_BACKEND=s3"@,
        },
{
    match bucket {
        Some(b) => Ok(b),
        None => Err("S3_BUCKET is required when STORAGE_BACKEND=s3".to_owned()),
    }
}

/// Where uploads are staged: the configured directory, else `staging` under
/// the storage directory.
pub fn staging_dir(configured: Option<String>, storage_dir: &str) -> (r: String)
    ensures
        r@ == (match configured {
            Some(d) => d@,
            None => join_spec(storage_dir@, "staging"@),
        }),
{
    match configured {
        Some(d) => d,
        None => join_path(storage_dir, "staging"),
    }
}

/// The local file of a staging path `staging/{name}`.
pub fn staging_path(staging_dir: &str, rel: &str) -> (r: String)
    ensures
        r@ == join_spec(staging_dir@, strip_staging(rel@)),
{
    let name = crate::filename::staging_relative(rel);
    join_path(staging_dir, name.as_str())
}

/// A stored path that is still a local staging file.
pub fn is_staging_path(path: &str) -> (r: bool)
    ensures
        r == has_prefix(path@, staging_prefix()),
{
    let p = ['s', 't', 'a', 'g', 'i', 'n', 'g', '/'];
    assert(p@ =~= staging_prefix());
    starts_with(chars_of(path).as_slice(), p.as_slice())
}

/// The staging path a new S3 upload starts at: `staging/{id}.part`.
pub fn staging_part_path(upload_id: &str) -> (r: String)
    ensures
        r@ == staging_prefix() + upload_id@ + part_suffix(),
{
    let mut out = "staging/".to_owned();
    append_str(&mut out, upload_id);
    append_str(&mut out, ".part");
    proof {
        reveal_strlit("staging/");
        reveal_strlit(".part");
        assert("staging/"@ =~= staging_prefix());
        assert(".part"@ =~= part_suffix());
    }
    out
}

/// How a finished file goes to S3.
#[derive(Debug, Clone, Copy, PartialEq, Eq)]
pub enum UploadStrategy {
    /// One `PutObject`, for files up to the threshold.
    PutObject,
    /// A multipart upload, for larger files.
    Multipart,
}

/// Files up to the multipart threshold are sent in one request.
pub fn upload_strategy(file_size: u64, multipart_threshold: u64) -> (r: UploadStrategy)
    ensures
        r == (if file_size <= multipart_threshold {
            UploadStrategy::PutObject
        } else {
            UploadStrategy::Multipart
        }),
{
    if file_size <= multipart_threshold {
        UploadStrategy::PutObject
    } else {
        UploadStrategy::Multipart
    }
}

/// How partial uploads are assembled into a final one.
#[derive(Debug, Clone, Copy, PartialEq, Eq)]
pub enum ConcatStrategy {
    /// Copy the parts inside S3 (they are all stored there).
    ServerSide,
    /// Download the parts and concatenate them in staging.
    Download,
}

/// Server-side assembly needs every source already in S3.
pub fn concat_strategy(source_paths: &Vec<String>) -> (r: ConcatStrategy)
    ensures
        r == (if source_paths.len() > 0 && forall|i: int|
            0 <= i < source_paths.len() ==> !has_prefix(#[trigger] source_paths@[i]@, staging_prefix()) {
            ConcatStrategy::ServerSide
        } else {
            ConcatStrategy::Download
        }),
{
    if source_paths.len() == 0 {
        return ConcatStrategy::Download;
    }
    let mut i: usize = 0;
    while i < source_paths.len()
        invariant
            i <= source_paths.len(),
            forall|j: int| 0 <= j < i ==> !has_prefix(#[trigger] source_paths@[j]@, staging_prefix()),
        decreases source_paths.len() - i,
    {
        if is_staging_path(source_paths[i].as_str()) {
            return ConcatStrategy::Download;
        }
        i += 1;
    }
    ConcatStrategy::ServerSide
}

/// Every part but the last is at least 5 MiB, so S3 can copy them as parts.
pub open spec fn parts_copyable_spec(sizes: Seq<u64>) -> bool {
    forall|i: int| 0 <= i < sizes.len() - 1 ==> #[trigger] sizes[i] >= S3_MIN_PART_BYTES
}

/// Whether objects of these sizes can be assembled server-side (else they are
/// downloaded and concatenated).
pub fn parts_copyable(sizes: &Vec<u64>) -> (r: bool)
    requires
        sizes.len() > 0,
    ensures
        r == parts_copyable_spec(sizes@),
{
    let mut i: usize = 0;
    while i + 1 < sizes.len()
        invariant
            sizes.len() > 0,
            i <= sizes.len() - 1,
            forall|j: int| 0 <= j < i ==> #[trigger] sizes@[j] >= S3_MIN_PART_BYTES,
        decreases sizes.len() - i,
    {
        if sizes[i] < S3_MIN_PART_BYTES {
            return false;
        }
        i += 1;
    }
    true
}

/// The total size of the sources; `None` when it does not fit in a `u64`.
pub fn total_size(sizes: &Vec<u64>) -> (r: Option<u64>)
    ensures
        r matches Some(t) ==> t as int == sizes@.fold_left(0int, |acc: int, s: u64| acc + s),
        r is None ==> sizes@.fold_left(0int, |acc: int, s: u64| acc + s) > u64::MAX,
{
    let mut total: u64 = 0;
    let mut i: usize = 0;
    while i < sizes.len()
        invariant
            i <= sizes.len(),
            total as int == sizes@.take(i as int).fold_left(0int, |acc: int, s: u64| acc + s),
        decreases sizes.len() - i,
    {
        assert(sizes@.take(i + 1).drop_last() =~= sizes@.take(i as int));
        let ghost before = sizes@.take(i as int).fold_left(0int, |acc: int, s: u64| acc + s);
        if total > u64::MAX - sizes[i] {
            proof {
                lemma_fold_ge(sizes@, i + 1);
                assert(sizes@.take(i + 1).fold_left(0int, |acc: int, s: u64| acc + s) > u64::MAX);
            }
            return None;
        }
        total = total + sizes[i];
        i += 1;
    }
    assert(sizes@.take(sizes.len() as int) =~= sizes@);
    Some(total)
}

proof fn lemma_fold_ge(s: Seq<u64>, n: int)
    requires
        0 <= n <= s.len(),
    ensures
        s.fold_left(0int, |acc: int, x: u64| acc + x) >= s.take(n).fold_left(0int, |acc: int, x: u64| acc + x),
    decreases s.len() - n,
{
    if n < s.len() {
        lemma_fold_ge(s, n + 1);
        assert(s.take(n + 1).drop_last() =~= s.take(n));
    } else {
        assert(s.take(n) =~= s);
    }
}

/// The `copy_source` of an object: `{bucket}/{key}`.
pub fn copy_source(bucket: &str, key: &str) -> (r: String)
    ensures
        r@ == bucket@ + "/"@ + key@,
{
    let mut out = bucket.to_owned();
    append_str(&mut out, "/");
    append_str(&mut out, key);
    out
}

/// The `Range` of a read of `length` bytes from `offset`.
pub fn read_range(offset: u64, length: u64) -> (r: String)
    requires
        0 < offset + length <= u64::MAX,
    ensures
        r@ == "bytes="@ + nat_text(offset as nat) + "-"@ + nat_text((offset + length - 1) as nat),
{
    let end = offset + length - 1;
    let mut out = "bytes=".to_owned();
    append_u64(&mut out, offset);
    append_str(&mut out, "-");
    append_u64(&mut out, end);
    out
}

/// Free staging room from `statvfs` (available blocks and block size): their
/// product, saturating; unknown room counts as unlimited.
pub fn staging_free_bytes(stat: Option<(u64, u64)>) -> (r: u64)
    ensures
        match stat {
            Some((blocks, size)) => r as int == if blocks * size > u64::MAX {
                u64::MAX as int
            } else {
                blocks * size
            },
            None => r == u64::MAX,
        },
{
    match stat {
        Some((blocks, size)) => match blocks.checked_mul(size) {
            Some(p) => p,
            None => u64::MAX,
        },
        None => u64::MAX,
    }
}

} // verus!
