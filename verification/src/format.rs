//! The container format: a fixed magic identifier, a two-byte little-endian
//! version tag, and a compressed body.
//!
//! The header makes every corrupted or incompatible container detectable
//! before any decode work: [`validate_header`] distinguishes a foreign or
//! corrupt file from one written by an incompatible build, exactly and for
//! every input.

use crate::error::StoreError;
use vstd::prelude::*;

verus! {

/// The single container format version this build reads and writes.
pub const FORMAT_VERSION: u16 = 3;

/// Lowest compression level the compression codec accepts.
pub const ZSTD_MIN: i32 = -7;

/// Highest compression level the compression codec accepts.
pub const ZSTD_MAX: i32 = 22;

/// The four magic bytes every container starts with: the ASCII letters
/// of `OGMA`.
pub open spec fn spec_magic() -> Seq<u8> {
    seq![79u8, 71u8, 77u8, 65u8]
}

/// The two-byte little-endian encoding of a version tag.
pub open spec fn spec_version_le(v: u16) -> Seq<u8> {
    seq![(v % 256) as u8, (v / 256) as u8]
}

/// The full six-byte header: magic identifier, then the version tag.
pub open spec fn spec_header() -> Seq<u8> {
    spec_magic() + spec_version_le(FORMAT_VERSION)
}

/// True when the bytes begin with the magic identifier and are long enough
/// to carry the whole header.
pub open spec fn header_ok(s: Seq<u8>) -> bool {
    s.len() >= 6 && s.subrange(0, 4) == spec_magic()
}

/// The version tag carried by a container, read little-endian.
pub open spec fn file_version(s: Seq<u8>) -> u16
    recommends
        s.len() >= 6,
{
    (s[4] + 256 * s[5]) as u16
}

/// Appends the six header bytes to `out`.
pub fn write_header(out: &mut Vec<u8>)
    ensures
        final(out)@ == old(out)@ + spec_header(),
{
    out.push(79);
    out.push(71);
    out.push(77);
    out.push(65);
    out.push((FORMAT_VERSION % 256) as u8);
    out.push((FORMAT_VERSION / 256) as u8);
    assert(out@ =~= old(out)@ + spec_header());
}

/// Checks the leading bytes of a container.
///
/// A container that is too short for a header, or whose first four bytes
/// differ from the magic identifier, is invalid; one whose version tag
/// differs from [`FORMAT_VERSION`] is incompatible, whatever the rest of
/// its bytes hold.
pub fn validate_header(bytes: &Vec<u8>) -> (r: Result<(), StoreError>)
    ensures
        match r {
            Ok(()) => header_ok(bytes@) && file_version(bytes@) == FORMAT_VERSION,
            Err(e) => match e {
                StoreError::InvalidFile => !header_ok(bytes@),
                StoreError::WrongVersion { expected, actual } => {
                    &&& header_ok(bytes@)
                    &&& expected == FORMAT_VERSION
                    &&& actual == file_version(bytes@)
                    &&& actual != FORMAT_VERSION
                },
                _ => false,
            },
        },
{
    if bytes.len() < 6 {
        return Err(StoreError::InvalidFile);
    }
    if !(bytes[0] == 79 && bytes[1] == 71 && bytes[2] == 77 && bytes[3] == 65) {
        assert(bytes@.subrange(0, 4) != spec_magic()) by {
            assert(bytes@.subrange(0, 4)[0] == bytes@[0]);
            assert(bytes@.subrange(0, 4)[1] == bytes@[1]);
            assert(bytes@.subrange(0, 4)[2] == bytes@[2]);
            assert(bytes@.subrange(0, 4)[3] == bytes@[3]);
        }
        return Err(StoreError::InvalidFile);
    }
    assert(bytes@.subrange(0, 4) =~= spec_magic());
    let lo: u16 = bytes[4] as u16;
    let hi: u16 = bytes[5] as u16;
    let version: u16 = lo + 256 * hi;
    if version != FORMAT_VERSION {
        Err(StoreError::WrongVersion { expected: FORMAT_VERSION, actual: version })
    } else {
        Ok(())
    }
}

/// Every container that starts with the six bytes of [`spec_header`]
/// passes the header check as the current version: what
/// [`crate::store::Store::save`] produces, [`validate_header`] accepts.
pub proof fn lemma_container_header_valid(bytes: Seq<u8>)
    requires
        bytes.len() >= 6,
        bytes.subrange(0, 6) == spec_header(),
    ensures
        header_ok(bytes),
        file_version(bytes) == FORMAT_VERSION,
{
    assert(bytes.subrange(0, 4) =~= spec_header().subrange(0, 4));
    assert(bytes.subrange(0, 4) =~= spec_magic());
    assert(bytes[4] == spec_header()[4] && bytes[5] == spec_header()[5]) by {
        assert(bytes.subrange(0, 6)[4] == bytes[4]);
        assert(bytes.subrange(0, 6)[5] == bytes[5]);
    }
}

/// What the compression codec produces from a byte stream at a given level.
/// The result is a function of the bytes and the level alone.
pub uninterp spec fn zstd_compressed(data: Seq<u8>, level: int) -> Seq<u8>;

/// Relies on `zstd::stream::encode_all`: compresses the bytes at the given
/// level; the output is determined by the input bytes and the level.
#[verifier::external_body]
pub(crate) fn zstd_compress(data: &[u8], level: i32) -> (r: Result<Vec<u8>, std::io::Error>)
    requires
        ZSTD_MIN <= level <= ZSTD_MAX,
    ensures
        r matches Ok(v) ==> v@ == zstd_compressed(data@, level as int),
{
    zstd::stream::encode_all(data, level)
}

/// True of exactly the byte streams the compression codec can produce at
/// some valid level.
pub open spec fn is_zstd_stream(s: Seq<u8>) -> bool {
    exists|d: Seq<u8>, l: int| ZSTD_MIN <= l <= ZSTD_MAX && s == zstd_compressed(d, l)
}

/// Relies on `zstd::stream::decode_all`: decompression inverts compression,
/// so a stream produced at any valid level decodes back to exactly the
/// bytes that were compressed.
#[verifier::external_body]
pub(crate) fn zstd_decompress(data: &[u8]) -> (r: Result<Vec<u8>, std::io::Error>)
    ensures
        is_zstd_stream(data@) ==> (r matches Ok(v) && forall|d: Seq<u8>, l: int|
            ZSTD_MIN <= l <= ZSTD_MAX && data@ == zstd_compressed(d, l) ==> v@ == d),
{
    zstd::stream::decode_all(data)
}

} // verus!
