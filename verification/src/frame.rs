//! The wire format: version tags, the order of the fields of a blob, and how a blob is
//! taken apart again.

use crate::digest::blake3_digest;
use crate::digest::blake3_hash;
use crate::errors::Rejection;
use vstd::prelude::*;
use vstd::slice::slice_subrange;

verus! {

/// The version tag of the blobs that are written: the 16 bytes of the text
/// `atom-version:0x3`.
pub open spec fn version_tag() -> Seq<u8> {
    seq![
        0x61u8, 0x74, 0x6f, 0x6d, 0x2d, 0x76, 0x65, 0x72, 0x73, 0x69, 0x6f, 0x6e, 0x3a, 0x30,
        0x78, 0x33,
    ]
}

/// The version tag of the older blobs that are still read: the 16 bytes of
/// the text `atom-version:0x2`.
pub open spec fn legacy_tag() -> Seq<u8> {
    seq![
        0x61u8, 0x74, 0x6f, 0x6d, 0x2d, 0x76, 0x65, 0x72, 0x73, 0x69, 0x6f, 0x6e, 0x3a, 0x30,
        0x78, 0x32,
    ]
}

/// What every version tag starts with: the 12 bytes of the text `atom-version`.
pub open spec fn tag_prefix() -> Seq<u8> {
    seq![0x61u8, 0x74, 0x6f, 0x6d, 0x2d, 0x76, 0x65, 0x72, 0x73, 0x69, 0x6f, 0x6e]
}

/// The text whose hash keys the version tag: the 20 bytes of
/// `atom-crypte-password`.
pub open spec fn version_context() -> Seq<u8> {
    seq![
        0x61u8, 0x74, 0x6f, 0x6d, 0x2d, 0x63, 0x72, 0x79, 0x70, 0x74, 0x65, 0x2d, 0x70, 0x61,
        0x73, 0x73, 0x77, 0x6f, 0x72, 0x64,
    ]
}

/// The fixed key under which the version tag is encrypted.
pub open spec fn version_key() -> Seq<u8> {
    blake3_digest(version_context())@
}

/// The bytes of `atom-version:0x3`.
pub fn version_tag_bytes() -> (r: [u8; 16])
    ensures
        r@ == version_tag(),
{
    let tag: [u8; 16] = [
        0x61, 0x74, 0x6f, 0x6d, 0x2d, 0x76, 0x65, 0x72, 0x73, 0x69, 0x6f, 0x6e, 0x3a, 0x30, 0x78,
        0x33,
    ];
    assert(tag@ =~= version_tag());
    tag
}

/// The bytes of `atom-version:0x2`.
pub fn legacy_tag_bytes() -> (r: [u8; 16])
    ensures
        r@ == legacy_tag(),
{
    let tag: [u8; 16] = [
        0x61, 0x74, 0x6f, 0x6d, 0x2d, 0x76, 0x65, 0x72, 0x73, 0x69, 0x6f, 0x6e, 0x3a, 0x30, 0x78,
        0x32,
    ];
    assert(tag@ =~= legacy_tag());
    tag
}

/// The bytes of `atom-version`.
pub fn tag_prefix_bytes() -> (r: [u8; 12])
    ensures
        r@ == tag_prefix(),
{
    let prefix: [u8; 12] = [
        0x61, 0x74, 0x6f, 0x6d, 0x2d, 0x76, 0x65, 0x72, 0x73, 0x69, 0x6f, 0x6e,
    ];
    assert(prefix@ =~= tag_prefix());
    prefix
}

/// The fixed key under which the version tag is encrypted.
pub fn version_key_bytes() -> (r: [u8; 32])
    ensures
        r@ == version_key(),
{
    let context: [u8; 20] = [
        0x61, 0x74, 0x6f, 0x6d, 0x2d, 0x63, 0x72, 0x79, 0x70, 0x74, 0x65, 0x2d, 0x70, 0x61, 0x73,
        0x73, 0x77, 0x6f, 0x72, 0x64,
    ];
    assert(context@ =~= version_context());
    blake3_hash(context.as_slice())
}

/// Whether `data` begins with the bytes of `prefix`.
pub open spec fn starts_with(data: Seq<u8>, prefix: Seq<u8>) -> bool {
    data.len() >= prefix.len() && data.subrange(0, prefix.len() as int) == prefix
}

/// Whether `data` begins with the bytes of `prefix`.
pub fn has_prefix(data: &[u8], prefix: &[u8]) -> (r: bool)
    ensures
        r == starts_with(data@, prefix@),
{
    let count = prefix.len();
    if data.len() < count {
        return false;
    }
    let mut i: usize = 0;
    while i < count
        invariant
            i <= count,
            count == prefix@.len(),
            data@.len() >= count,
            forall|k: int| 0 <= k < i ==> data@[k] == prefix@[k],
        decreases count - i,
    {
        if data[i] != prefix[i] {
            assert(data@.subrange(0, count as int)[i as int] != prefix@[i as int]);
            return false;
        }
        i += 1;
    }
    assert(data@.subrange(0, count as int) =~= prefix@);
    true
}

/// The two layouts a blob can have.
#[derive(Debug, Clone, Copy)]
pub enum BlobVersion {
    /// Version `0x3`: a 64-byte SHA3-512 MAC, and a 32-byte suffix where the
    /// blob is wrapped.
    Current,
    /// Version `0x2`: a 32-byte keyed BLAKE3 MAC and no suffix.
    Legacy,
}

/// The version that two readings of the version tag show: `by_fixed` is the
/// tag decrypted under the fixed version key, `by_key` the tag decrypted under
/// the password key. The reading under the fixed key is preferred; the other
/// counts only to recognise version `0x2`. A tag with the right prefix and
/// another number is no version that can be decrypted; a tag without the
/// prefix in both readings is no tag at all.
pub open spec fn spec_detect_version(
    by_fixed: Seq<u8>,
    by_key: Seq<u8>,
) -> Result<BlobVersion, Rejection> {
    if starts_with(by_fixed, version_tag()) {
        Ok(BlobVersion::Current)
    } else if starts_with(by_fixed, legacy_tag()) || starts_with(by_key, legacy_tag()) {
        Ok(BlobVersion::Legacy)
    } else if starts_with(by_fixed, tag_prefix()) || starts_with(by_key, tag_prefix()) {
        Err(Rejection::FailedAuthentication)
    } else {
        Err(Rejection::UnknownAlgorithm)
    }
}

/// Decides the version of a blob from the two readings of its version tag.
pub fn detect_version(by_fixed: &[u8], by_key: &[u8]) -> (r: Result<BlobVersion, Rejection>)
    ensures
        r == spec_detect_version(by_fixed@, by_key@),
{
    let current = version_tag_bytes();
    let legacy = legacy_tag_bytes();
    let prefix = tag_prefix_bytes();
    if has_prefix(by_fixed, current.as_slice()) {
        Ok(BlobVersion::Current)
    } else if has_prefix(by_fixed, legacy.as_slice()) || has_prefix(by_key, legacy.as_slice()) {
        Ok(BlobVersion::Legacy)
    } else if has_prefix(by_fixed, prefix.as_slice()) || has_prefix(by_key, prefix.as_slice()) {
        Err(Rejection::FailedAuthentication)
    } else {
        Err(Rejection::UnknownAlgorithm)
    }
}

/// The blob: the nonce where the blob is wrapped, the encrypted version tag,
/// the body, the MAC, and where the blob is wrapped the suffix, which is the
/// salt where one is given and the nonce again otherwise.
pub open spec fn spec_assemble(
    nonce: Seq<u8>,
    salt: Option<Seq<u8>>,
    wrap_all: bool,
    sealed_tag: Seq<u8>,
    body: Seq<u8>,
    mac: Seq<u8>,
) -> Seq<u8> {
    if wrap_all {
        nonce + sealed_tag + body + mac + match salt {
            Some(s) => s,
            None => nonce,
        }
    } else {
        sealed_tag + body + mac
    }
}

/// Puts the fields of a blob together.
pub fn assemble(
    nonce: &[u8],
    salt: Option<&[u8]>,
    wrap_all: bool,
    sealed_tag: &[u8],
    body: &[u8],
    mac: &[u8],
) -> (r: Vec<u8>)
    ensures
        r@ == spec_assemble(
            nonce@,
            match salt {
                Some(s) => Some(s@),
                None => None,
            },
            wrap_all,
            sealed_tag@,
            body@,
            mac@,
        ),
{
    let mut out: Vec<u8> = Vec::new();
    if wrap_all {
        out.extend_from_slice(nonce);
    }
    out.extend_from_slice(sealed_tag);
    out.extend_from_slice(body);
    out.extend_from_slice(mac);
    if wrap_all {
        match salt {
            Some(s) => {
                out.extend_from_slice(s);
            },
            None => {
                out.extend_from_slice(nonce);
            },
        }
    }
    assert(out@ =~= spec_assemble(
        nonce@,
        match salt {
            Some(s) => Some(s@),
            None => None,
        },
        wrap_all,
        sealed_tag@,
        body@,
        mac@,
    ));
    out
}

/// The shortest blob that is looked at: a nonce and a version tag.
pub open spec fn min_blob_len() -> int {
    48
}

/// Where the encrypted version tag starts: after the 32-byte nonce in a
/// wrapped blob, at the front otherwise.
pub open spec fn tag_offset(wrapped: bool) -> int {
    if wrapped {
        32
    } else {
        0
    }
}

/// The encrypted version tag of a blob of at least 48 bytes.
pub open spec fn spec_sealed_tag(blob: Seq<u8>, wrapped: bool) -> Seq<u8> {
    blob.subrange(tag_offset(wrapped), tag_offset(wrapped) + 16)
}

/// What follows the version tag: body, MAC and suffix.
pub open spec fn spec_after_tag(blob: Seq<u8>, wrapped: bool) -> Seq<u8> {
    blob.subrange(tag_offset(wrapped) + 16, blob.len() as int)
}

/// How many bytes follow the body: the MAC of the version, and the 32-byte
/// suffix of a wrapped blob of the current version.
pub open spec fn trailer_len(version: BlobVersion, wrapped: bool) -> int {
    match version {
        BlobVersion::Legacy => 32,
        BlobVersion::Current => if wrapped {
            96
        } else {
            64
        },
    }
}

/// The length of the MAC of a version.
pub open spec fn mac_len(version: BlobVersion) -> int {
    match version {
        BlobVersion::Legacy => 32,
        BlobVersion::Current => 64,
    }
}

/// The body and the MAC in what follows the version tag, or `TooShort` where
/// the trailer does not fit.
pub open spec fn spec_split_trailer(
    rest: Seq<u8>,
    version: BlobVersion,
    wrapped: bool,
) -> Result<(Seq<u8>, Seq<u8>), Rejection> {
    let cut = rest.len() - trailer_len(version, wrapped);
    if cut < 0 {
        Err(Rejection::TooShort)
    } else {
        Ok((rest.subrange(0, cut), rest.subrange(cut, cut + mac_len(version))))
    }
}

/// The encrypted version tag and what follows it, for a blob of at least 48 bytes.
pub fn split_tag(blob: &[u8], wrapped: bool) -> (r: (&[u8], &[u8]))
    requires
        blob@.len() >= min_blob_len(),
    ensures
        r.0@ == spec_sealed_tag(blob@, wrapped),
        r.1@ == spec_after_tag(blob@, wrapped),
{
    let start: usize = if wrapped {
        32
    } else {
        0
    };
    (slice_subrange(blob, start, start + 16), slice_subrange(blob, start + 16, blob.len()))
}

/// The body and the MAC in what follows the version tag.
pub fn split_trailer(
    rest: &[u8],
    version: BlobVersion,
    wrapped: bool,
) -> (r: Result<(&[u8], &[u8]), Rejection>)
    ensures
        match r {
            Ok(parts) => spec_split_trailer(rest@, version, wrapped) == Ok::<
                (Seq<u8>, Seq<u8>),
                Rejection,
            >((parts.0@, parts.1@)),
            Err(why) => spec_split_trailer(rest@, version, wrapped) == Err::<
                (Seq<u8>, Seq<u8>),
                Rejection,
            >(why),
        },
{
    let (trailer, mac): (usize, usize) = match version {
        BlobVersion::Legacy => (32, 32),
        BlobVersion::Current => if wrapped {
            (96, 64)
        } else {
            (64, 64)
        },
    };
    if rest.len() < trailer {
        return Err(Rejection::TooShort);
    }
    let cut = rest.len() - trailer;
    Ok((slice_subrange(rest, 0, cut), slice_subrange(rest, cut, cut + mac)))
}

} // verus!
