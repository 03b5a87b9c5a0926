//! Extraction of the first signer's first certificate from the APK
//! Signature Scheme v2 block of an APK, by walking the ZIP end of central
//! directory record and the APK Signing Block by hand.
use vstd::prelude::*;
use crate::props::{comment_version_code, version_code_of};

verus! {

/// Signature of the ZIP end of central directory record.
pub const EOCD_MAGIC: u32 = 0x06054B50;

/// Id of the APK Signature Scheme v2 record inside the signing block.
pub const SIGNATURE_SCHEME_V2_MAGIC: u32 = 0x7109871A;

/// Largest trailing comment a ZIP archive can carry.
pub const MAX_COMMENT_LEN: u64 = 0xffff;

/// Why no certificate could be extracted.
#[derive(Clone, Copy, Debug, PartialEq, Eq, Structural)]
pub enum CertError {
    /// No end of central directory record within the comment search range.
    InvalidApkFormat,
    /// The sixteen bytes before the central directory are not the block magic.
    InvalidSigningBlockMagic,
    /// The two size fields of the signing block disagree.
    InvalidSigningBlockSize,
    /// The id-value pair sequence ended without a v2 record.
    CannotFindCertificate,
    /// A fixed-width read ran past the end of the data.
    UnexpectedEof,
    /// A seek pointed before the start or past the end of the data.
    InvalidSeek,
}

/// Little-endian 16-bit value at `p`.
pub open spec fn le16(b: Seq<u8>, p: int) -> nat {
    b[p] as nat + 256 * (b[p + 1] as nat)
}

/// Little-endian 32-bit value at `p`.
pub open spec fn le32(b: Seq<u8>, p: int) -> nat {
    le16(b, p) + 0x10000 * le16(b, p + 2)
}

/// Little-endian 64-bit value at `p`.
pub open spec fn le64(b: Seq<u8>, p: int) -> nat {
    le32(b, p) + 0x1_0000_0000 * le32(b, p + 4)
}

/// The magic that closes the APK Signing Block: ASCII "APK Sig Block 42".
pub open spec fn signing_block_magic() -> Seq<u8> {
    seq![
        0x41u8, 0x50u8, 0x4bu8, 0x20u8, 0x53u8, 0x69u8, 0x67u8, 0x20u8,
        0x42u8, 0x6cu8, 0x6fu8, 0x63u8, 0x6bu8, 0x20u8, 0x34u8, 0x32u8,
    ]
}

/// Search for the end of central directory record, trying trailing comment
/// lengths from `i` upwards. A comment of length `i` is accepted when the
/// 16-bit comment length field `i + 2` bytes before the end holds `i` and the
/// record 22 bytes before that field's end starts with the EOCD magic.
/// Yields the position of the record.
#[verifier::opaque]
pub open spec fn eocd_search(b: Seq<u8>, i: nat) -> Result<int, CertError>
    decreases 0x10000 - i,
{
    let len = b.len() as int;
    if len < i + 2 {
        Err(CertError::InvalidSeek)
    } else if le16(b, len - 2 - i) == i && len < i + 22 {
        Err(CertError::InvalidSeek)
    } else if le16(b, len - 2 - i) == i && le32(b, len - 22 - i) == EOCD_MAGIC {
        Ok(len - 22 - i)
    } else if i >= 0xffff {
        Err(CertError::InvalidApkFormat)
    } else {
        eocd_search(b, i + 1)
    }
}

/// A found end of central directory record lies wholly inside the data.
proof fn lemma_eocd_in_bounds(b: Seq<u8>, i: nat)
    ensures
        eocd_search(b, i) is Ok ==> 0 <= eocd_search(b, i)->Ok_0 && eocd_search(b, i)->Ok_0 + 22
            <= b.len() && le16(b, eocd_search(b, i)->Ok_0 + 20) == b.len() - eocd_search(b, i)->Ok_0
            - 22,
    decreases 0x10000 - i,
{
    reveal(eocd_search);
    if i < 0xffff {
        lemma_eocd_in_bounds(b, i + 1);
    }
}

/// The certificate of a v2 record whose signer sequence starts at `q`:
/// skip the sequence, signer and signed-data lengths, skip the digests,
/// skip the certificate sequence length, then take one length-prefixed
/// certificate.
pub open spec fn v2_certificate(b: Seq<u8>, q: int) -> Result<Seq<u8>, CertError> {
    let len = b.len() as int;
    if q + 12 > len {
        Err(CertError::InvalidSeek)
    } else if q + 16 > len {
        Err(CertError::UnexpectedEof)
    } else {
        let r = q + 16 + le32(b, q + 12);
        if r + 4 > len {
            Err(CertError::InvalidSeek)
        } else if r + 8 > len {
            Err(CertError::UnexpectedEof)
        } else {
            let n = le32(b, r + 4);
            if r + 8 + n > len {
                Err(CertError::UnexpectedEof)
            } else {
                Ok(b.subrange(r + 8, r + 8 + n))
            }
        }
    }
}

/// Walk the id-value pairs from `p`: a pair length equal to the block size
/// ends the sequence; a pair with the v2 id holds the certificate; any other
/// pair is skipped.
pub open spec fn find_v2(b: Seq<u8>, p: int, size: nat) -> Result<Seq<u8>, CertError>
    decreases b.len() - p,
{
    let len = b.len() as int;
    if p + 8 > len {
        Err(CertError::UnexpectedEof)
    } else if le64(b, p) == size {
        Err(CertError::CannotFindCertificate)
    } else if p + 12 > len {
        Err(CertError::UnexpectedEof)
    } else if le32(b, p + 8) == SIGNATURE_SCHEME_V2_MAGIC {
        v2_certificate(b, p + 12)
    } else if p + 8 + le64(b, p) > len {
        Err(CertError::InvalidSeek)
    } else {
        find_v2(b, p + 8 + le64(b, p), size)
    }
}

/// The signing block whose size field and magic occupy the 24 bytes at `s`,
/// just before the central directory. Its leading size field must repeat the
/// trailing one; the pairs follow it.
pub open spec fn signing_block(b: Seq<u8>, s: int) -> Result<Seq<u8>, CertError> {
    let len = b.len() as int;
    if s > len {
        Err(CertError::InvalidSeek)
    } else if s + 24 > len {
        Err(CertError::UnexpectedEof)
    } else if b.subrange(s + 8, s + 24) != signing_block_magic() {
        Err(CertError::InvalidSigningBlockMagic)
    } else {
        let size = le64(b, s);
        let t = s + 16 - size;
        if t < 0 {
            Err(CertError::InvalidSeek)
        } else if le64(b, t) != size {
            Err(CertError::InvalidSigningBlockSize)
        } else {
            find_v2(b, t + 8, size)
        }
    }
}

/// The first certificate of the first v2 signer of the APK `b`, or why
/// there is none.
pub open spec fn certificate_of(b: Seq<u8>) -> Result<Seq<u8>, CertError> {
    match eocd_search(b, 0) {
        Err(e) => Err(e),
        Ok(e) => {
            let cd = le32(b, e + 16);
            if cd < 24 {
                Err(CertError::InvalidSeek)
            } else {
                signing_block(b, cd - 24)
            }
        },
    }
}

/// The four little-endian bytes of `n`.
pub open spec fn enc32(n: u32) -> Seq<u8> {
    seq![(n & 0xff) as u8, ((n >> 8) & 0xff) as u8, ((n >> 16) & 0xff) as u8, ((n >> 24) & 0xff) as u8]
}

/// The eight little-endian bytes of `n`.
pub open spec fn enc64(n: u64) -> Seq<u8> {
    enc32((n & 0xffff_ffff) as u32) + enc32((n >> 32) as u32)
}

/// The two little-endian bytes of `n`.
pub open spec fn enc16(n: u16) -> Seq<u8> {
    seq![(n & 0xff) as u8, ((n >> 8) & 0xff) as u8]
}

/// The variable parts of a constructed APK: its ZIP entries, one leading
/// id-value pair that is not a v2 record, the digests and the certificate
/// of the v2 record, the central directory, and the archive comment.
pub struct ApkParts {
    pub entries: Seq<u8>,
    pub other_id: u32,
    pub other: Seq<u8>,
    pub digests: Seq<u8>,
    pub cert: Seq<u8>,
    pub central_dir: Seq<u8>,
    pub comment: Seq<u8>,
}

/// Offset of the v2 pair in [`signed_apk`].
pub open spec fn v2_pair_offset(p: ApkParts) -> int {
    (p.entries.len() + 20 + p.other.len()) as int
}

/// Offset of the trailing block size field in [`signed_apk`].
pub open spec fn trailing_size_offset(p: ApkParts) -> int {
    v2_pair_offset(p) + 36 + p.digests.len() + p.cert.len()
}

/// The signing block size of [`signed_apk`]: its pairs, trailing size and
/// magic.
pub open spec fn block_size_of(p: ApkParts) -> int {
    (72 + p.other.len() + p.digests.len() + p.cert.len()) as int
}

/// Offset of the central directory in [`signed_apk`].
pub open spec fn central_dir_offset(p: ApkParts) -> int {
    trailing_size_offset(p) + 24
}

/// Offset of the end of central directory record in [`signed_apk`].
pub open spec fn eocd_offset(p: ApkParts) -> int {
    central_dir_offset(p) + p.central_dir.len()
}

/// Byte `i` of [`signed_apk`].
#[verifier::opaque]
pub open spec fn signed_apk_byte(p: ApkParts, i: int) -> u8 {
    let z = p.entries.len() as int;
    let o = p.other.len() as int;
    let g = p.digests.len() as int;
    let n = p.cert.len() as int;
    let a = v2_pair_offset(p);
    let t = trailing_size_offset(p);
    let l = central_dir_offset(p);
    let e = eocd_offset(p);
    let size = block_size_of(p) as u64;
    if i < z {
        p.entries[i]
    } else if i < z + 8 {
        enc64(size)[i - z]
    } else if i < z + 16 {
        enc64((4 + o) as u64)[i - z - 8]
    } else if i < z + 20 {
        enc32(p.other_id)[i - z - 16]
    } else if i < a {
        p.other[i - z - 20]
    } else if i < a + 8 {
        enc64((28 + g + n) as u64)[i - a]
    } else if i < a + 12 {
        enc32(SIGNATURE_SCHEME_V2_MAGIC)[i - a - 8]
    } else if i < a + 24 {
        0
    } else if i < a + 28 {
        enc32(g as u32)[i - a - 24]
    } else if i < a + 28 + g {
        p.digests[i - a - 28]
    } else if i < a + 32 + g {
        0
    } else if i < a + 36 + g {
        enc32(n as u32)[i - a - 32 - g]
    } else if i < t {
        p.cert[i - a - 36 - g]
    } else if i < t + 8 {
        enc64(size)[i - t]
    } else if i < l {
        signing_block_magic()[i - t - 8]
    } else if i < e {
        p.central_dir[i - l]
    } else if i < e + 4 {
        enc32(EOCD_MAGIC)[i - e]
    } else if i < e + 16 {
        0
    } else if i < e + 20 {
        enc32(l as u32)[i - e - 16]
    } else if i < e + 22 {
        enc16(p.comment.len() as u16)[i - e - 20]
    } else {
        p.comment[i - e - 22]
    }
}

/// An APK built from `p`: the ZIP entries; the signing block with its
/// size, the leading pair, the v2 pair (signer sequence, signer and signed
/// data lengths, the digests with their length, the certificate sequence
/// length, the certificate with its length), the size again and the magic;
/// the central directory; and the end of central directory record with the
/// central directory offset and the comment.
#[verifier::opaque]
pub open spec fn signed_apk(p: ApkParts) -> Seq<u8> {
    Seq::new((eocd_offset(p) + 22 + p.comment.len()) as nat, |i: int| signed_apk_byte(p, i))
}

/// The EOCD magic appears nowhere after the record's start in `b`.
pub open spec fn magic_only_at(b: Seq<u8>, e: int) -> bool {
    forall|j: int| e < j && j + 4 <= b.len() ==> #[trigger] le32(b, j) != EOCD_MAGIC
}

proof fn lemma_le32_enc(n: u32)
    ensures
        le32(enc32(n), 0) == n,
{
    let b0 = (n & 0xff) as u8;
    let b1 = ((n >> 8) & 0xff) as u8;
    let b2 = ((n >> 16) & 0xff) as u8;
    let b3 = ((n >> 24) & 0xff) as u8;
    assert(b0 as int + 256 * (b1 as int) + 0x10000 * (b2 as int + 256 * (b3 as int)) == n as int)
        by (bit_vector)
        requires
            b0 == (n & 0xff) as u8,
            b1 == ((n >> 8) & 0xff) as u8,
            b2 == ((n >> 16) & 0xff) as u8,
            b3 == ((n >> 24) & 0xff) as u8,
    ;
}

proof fn lemma_le32_at(b: Seq<u8>, p: int, n: u32)
    requires
        0 <= p,
        p + 4 <= b.len(),
        b.subrange(p, p + 4) == enc32(n),
    ensures
        le32(b, p) == n,
{
    lemma_le32_enc(n);
    let e = b.subrange(p, p + 4);
    assert(e[0] == b[p] && e[1] == b[p + 1] && e[2] == b[p + 2] && e[3] == b[p + 3]);
}

proof fn lemma_le16_at(b: Seq<u8>, p: int, n: u16)
    requires
        0 <= p,
        p + 2 <= b.len(),
        b.subrange(p, p + 2) == enc16(n),
    ensures
        le16(b, p) == n,
{
    let e = b.subrange(p, p + 2);
    assert(e[0] == b[p] && e[1] == b[p + 1]);
    let b0 = (n & 0xff) as u8;
    let b1 = ((n >> 8) & 0xff) as u8;
    assert(b0 as int + 256 * (b1 as int) == n as int) by (bit_vector)
        requires
            b0 == (n & 0xff) as u8,
            b1 == ((n >> 8) & 0xff) as u8,
    ;
}

proof fn lemma_le64_at(b: Seq<u8>, p: int, n: u64)
    requires
        0 <= p,
        p + 8 <= b.len(),
        b.subrange(p, p + 8) == enc64(n),
    ensures
        le64(b, p) == n,
{
    let lo = (n & 0xffff_ffff) as u32;
    let hi = (n >> 32) as u32;
    assert(b.subrange(p, p + 4) =~= enc32(lo)) by {
        assert(b.subrange(p, p + 4) =~= b.subrange(p, p + 8).subrange(0, 4));
    }
    assert(b.subrange(p + 4, p + 8) =~= enc32(hi)) by {
        assert(b.subrange(p + 4, p + 8) =~= b.subrange(p, p + 8).subrange(4, 8));
    }
    lemma_le32_at(b, p, lo);
    lemma_le32_at(b, p + 4, hi);
    assert(lo as int + 0x1_0000_0000 * (hi as int) == n as int) by (bit_vector)
        requires
            lo == (n & 0xffff_ffff) as u32,
            hi == (n >> 32) as u32,
    ;
}

proof fn lemma_signed_apk_len(p: ApkParts)
    ensures
        signed_apk(p).len() == eocd_offset(p) + 22 + p.comment.len(),
{
    reveal(signed_apk);
}

proof fn lemma_piece(p: ApkParts, from: int, to: int, piece: Seq<u8>)
    requires
        0 <= from <= to <= eocd_offset(p) + 22 + p.comment.len(),
        piece.len() == to - from,
        forall|i: int| 0 <= i < to - from ==> signed_apk_byte(p, from + i) == #[trigger] piece[i],
    ensures
        signed_apk(p).subrange(from, to) == piece,
{
    reveal(signed_apk);
    let b = signed_apk(p);
    assert forall|i: int| 0 <= i < to - from implies b.subrange(from, to)[i] == piece[i] by {
        assert(b[from + i] == signed_apk_byte(p, from + i));
    }
    assert(b.subrange(from, to) =~= piece);
}

/// The fields of [`signed_apk`], as the extraction reads them.
#[verifier::rlimit(50)]
proof fn lemma_signed_apk_fields(p: ApkParts)
    requires
        eocd_offset(p) + 22 + p.comment.len() <= 0xffff_ffff,
        p.comment.len() <= 0xffff,
    ensures
        ({
            let b = signed_apk(p);
            let z = p.entries.len() as int;
            let o = p.other.len() as int;
            let g = p.digests.len() as int;
            let n = p.cert.len() as int;
            let a = v2_pair_offset(p);
            let t = trailing_size_offset(p);
            let e = eocd_offset(p);
            &&& b.len() == e + 22 + p.comment.len()
            &&& le64(b, z) == block_size_of(p)
            &&& le64(b, z + 8) == 4 + o
            &&& le32(b, z + 16) == p.other_id
            &&& le64(b, a) == 28 + g + n
            &&& le32(b, a + 8) == SIGNATURE_SCHEME_V2_MAGIC
            &&& le32(b, a + 24) == g
            &&& le32(b, a + 32 + g) == n
            &&& b.subrange(a + 36 + g, t) == p.cert
            &&& le64(b, t) == block_size_of(p)
            &&& b.subrange(t + 8, t + 24) == signing_block_magic()
            &&& le32(b, e) == EOCD_MAGIC
            &&& le32(b, e + 16) == central_dir_offset(p)
            &&& le16(b, e + 20) == p.comment.len()
        }),
{
    lemma_signed_apk_len(p);
    let b = signed_apk(p);
    let z = p.entries.len() as int;
    let o = p.other.len() as int;
    let g = p.digests.len() as int;
    let n = p.cert.len() as int;
    let a = v2_pair_offset(p);
    let t = trailing_size_offset(p);
    let l = central_dir_offset(p);
    let e = eocd_offset(p);
    let size = block_size_of(p) as u64;
    assert forall|i: int| 0 <= i < 8 implies signed_apk_byte(p, z + i) == #[trigger] (enc64(size))[i] by {
        reveal(signed_apk_byte);
    }
    lemma_piece(p, z, z + 8, enc64(size));
    lemma_le64_at(b, z, size);
    assert forall|i: int| 0 <= i < 8 implies signed_apk_byte(p, z + 8 + i) == #[trigger] (enc64((4 + o) as u64))[i] by {
        reveal(signed_apk_byte);
    }
    lemma_piece(p, z + 8, z + 16, enc64((4 + o) as u64));
    lemma_le64_at(b, z + 8, (4 + o) as u64);
    assert forall|i: int| 0 <= i < 4 implies signed_apk_byte(p, z + 16 + i) == #[trigger] (enc32(p.other_id))[i] by {
        reveal(signed_apk_byte);
    }
    lemma_piece(p, z + 16, z + 20, enc32(p.other_id));
    lemma_le32_at(b, z + 16, p.other_id);
    assert forall|i: int| 0 <= i < 8 implies signed_apk_byte(p, a + i) == #[trigger] (enc64((28 + g + n) as u64))[i] by {
        reveal(signed_apk_byte);
    }
    lemma_piece(p, a, a + 8, enc64((28 + g + n) as u64));
    lemma_le64_at(b, a, (28 + g + n) as u64);
    assert forall|i: int| 0 <= i < 4 implies signed_apk_byte(p, a + 8 + i) == #[trigger] (enc32(SIGNATURE_SCHEME_V2_MAGIC))[i] by {
        reveal(signed_apk_byte);
    }
    lemma_piece(p, a + 8, a + 12, enc32(SIGNATURE_SCHEME_V2_MAGIC));
    lemma_le32_at(b, a + 8, SIGNATURE_SCHEME_V2_MAGIC);
    assert forall|i: int| 0 <= i < 4 implies signed_apk_byte(p, a + 24 + i) == #[trigger] (enc32(g as u32))[i] by {
        reveal(signed_apk_byte);
    }
    lemma_piece(p, a + 24, a + 28, enc32(g as u32));
    lemma_le32_at(b, a + 24, g as u32);
    assert forall|i: int| 0 <= i < 4 implies signed_apk_byte(p, a + 32 + g + i) == #[trigger] (enc32(n as u32))[i] by {
        reveal(signed_apk_byte);
    }
    lemma_piece(p, a + 32 + g, a + 36 + g, enc32(n as u32));
    lemma_le32_at(b, a + 32 + g, n as u32);
    assert forall|i: int| 0 <= i < n implies signed_apk_byte(p, a + 36 + g + i) == #[trigger] (p.cert)[i] by {
        reveal(signed_apk_byte);
    }
    lemma_piece(p, a + 36 + g, t, p.cert);
    assert forall|i: int| 0 <= i < 8 implies signed_apk_byte(p, t + i) == #[trigger] (enc64(size))[i] by {
        reveal(signed_apk_byte);
    }
    lemma_piece(p, t, t + 8, enc64(size));
    lemma_le64_at(b, t, size);
    assert forall|i: int| 0 <= i < 16 implies signed_apk_byte(p, t + 8 + i) == #[trigger] (signing_block_magic())[i] by {
        reveal(signed_apk_byte);
    }
    lemma_piece(p, t + 8, t + 24, signing_block_magic());
    assert forall|i: int| 0 <= i < 4 implies signed_apk_byte(p, e + i) == #[trigger] (enc32(EOCD_MAGIC))[i] by {
        reveal(signed_apk_byte);
    }
    lemma_piece(p, e, e + 4, enc32(EOCD_MAGIC));
    lemma_le32_at(b, e, EOCD_MAGIC);
    assert forall|i: int| 0 <= i < 4 implies signed_apk_byte(p, e + 16 + i) == #[trigger] (enc32(l as u32))[i] by {
        reveal(signed_apk_byte);
    }
    lemma_piece(p, e + 16, e + 20, enc32(l as u32));
    lemma_le32_at(b, e + 16, l as u32);
    assert forall|i: int| 0 <= i < 2 implies signed_apk_byte(p, e + 20 + i) == #[trigger] (enc16(p.comment.len() as u16))[i] by {
        reveal(signed_apk_byte);
    }
    lemma_piece(p, e + 20, e + 22, enc16(p.comment.len() as u16));
    lemma_le16_at(b, e + 20, p.comment.len() as u16);
}

/// The search for the end of central directory record, from comment length
/// `i` up to the true one, finds the record at `e` when the magic does not
/// recur after it.
proof fn lemma_eocd_found(b: Seq<u8>, e: int, i: nat)
    requires
        0 <= e,
        e + 22 <= b.len(),
        b.len() - e - 22 <= 0xffff,
        i <= b.len() - e - 22,
        le16(b, e + 20) == b.len() - e - 22,
        le32(b, e) == EOCD_MAGIC,
        magic_only_at(b, e),
    ensures
        eocd_search(b, i) == Ok::<int, CertError>(e),
    decreases b.len() - e - 22 - i,
{
    reveal(eocd_search);
    let len = b.len() as int;
    if i < len - e - 22 {
        assert(le32(b, len - 22 - i) != EOCD_MAGIC);
        lemma_eocd_found(b, e, i + 1);
    }
}

/// Certificate round trip: the certificate placed in the first v2 signer of
/// a constructed APK, after ZIP entries, a leading pair of another id and
/// the digests, and before a central directory and an archive comment, is
/// exactly what extraction yields.
pub proof fn lemma_certificate_round_trip(p: ApkParts)
    requires
        p.other_id != SIGNATURE_SCHEME_V2_MAGIC,
        p.comment.len() <= 0xffff,
        eocd_offset(p) + 22 + p.comment.len() <= 0xffff_ffff,
        magic_only_at(signed_apk(p), eocd_offset(p)),
    ensures
        certificate_of(signed_apk(p)) == Ok::<Seq<u8>, CertError>(p.cert),
{
    let b = signed_apk(p);
    let z = p.entries.len() as int;
    let a = v2_pair_offset(p);
    let size = block_size_of(p);
    lemma_signed_apk_fields(p);
    lemma_eocd_found(b, eocd_offset(p), 0);
    assert(find_v2(b, z + 8, size as nat) == find_v2(b, a, size as nat));
    assert(find_v2(b, a, size as nat) == v2_certificate(b, a + 12));
    assert(signing_block(b, trailing_size_offset(p)) == find_v2(b, z + 8, size as nat));
}

/// Comment length `i` locates a valid end of central directory record in `b`.
pub open spec fn eocd_matches(b: Seq<u8>, i: int) -> bool {
    let e = b.len() - 22 - i;
    e >= 0 && le16(b, e + 20) == i && le32(b, e) == EOCD_MAGIC
}

proof fn lemma_eocd_absent(b: Seq<u8>, i: nat)
    requires
        b.len() >= MAX_COMMENT_LEN + 22,
        i <= MAX_COMMENT_LEN,
        forall|j: int| 0 <= j <= MAX_COMMENT_LEN ==> !#[trigger] eocd_matches(b, j),
    ensures
        eocd_search(b, i) == Err::<int, CertError>(CertError::InvalidApkFormat),
    decreases MAX_COMMENT_LEN - i,
{
    reveal(eocd_search);
    assert(!eocd_matches(b, i as int));
    if i < MAX_COMMENT_LEN {
        lemma_eocd_absent(b, i + 1);
    }
}

/// The search for the end of central directory record is bounded: in data
/// of at least 65535 + 22 bytes where no comment length from 0 to 65535
/// locates a valid record, extraction fails with an invalid APK format.
pub proof fn lemma_eocd_search_bound(b: Seq<u8>)
    requires
        b.len() >= MAX_COMMENT_LEN + 22,
        forall|j: int| 0 <= j <= MAX_COMMENT_LEN ==> !#[trigger] eocd_matches(b, j),
    ensures
        certificate_of(b) == Err::<Seq<u8>, CertError>(CertError::InvalidApkFormat),
{
    lemma_eocd_absent(b, 0);
}

/// The bytes of an extraction result.
pub open spec fn result_view(r: Result<Vec<u8>, CertError>) -> Result<Seq<u8>, CertError> {
    match r {
        Ok(v) => Ok(v@),
        Err(e) => Err(e),
    }
}

/// A position within APK bytes, moved by bounds-checked seeks and reads.
struct ApkCursor {
    data: Vec<u8>,
    pos: usize,
}

impl ApkCursor {
    spec fn wf(&self) -> bool {
        self.pos <= self.data@.len()
    }

    spec fn bytes(&self) -> Seq<u8> {
        self.data@
    }

    fn seek_to(&mut self, target: u64) -> (r: Result<(), CertError>)
        requires
            old(self).wf(),
        ensures
            final(self).wf(),
            final(self).bytes() == old(self).bytes(),
            target <= old(self).bytes().len() ==> r is Ok && final(self).pos == target,
            target > old(self).bytes().len() ==> r == Err::<(), CertError>(CertError::InvalidSeek),
    {
        if target > self.data.len() as u64 {
            Err(CertError::InvalidSeek)
        } else {
            self.pos = target as usize;
            Ok(())
        }
    }

    fn seek_from_end(&mut self, back: u64) -> (r: Result<(), CertError>)
        requires
            old(self).wf(),
        ensures
            final(self).wf(),
            final(self).bytes() == old(self).bytes(),
            back <= old(self).bytes().len() ==> r is Ok && final(self).pos == old(self).bytes().len() - back,
            back > old(self).bytes().len() ==> r == Err::<(), CertError>(CertError::InvalidSeek),
    {
        if back > self.data.len() as u64 {
            Err(CertError::InvalidSeek)
        } else {
            self.pos = self.data.len() - back as usize;
            Ok(())
        }
    }

    fn skip(&mut self, n: u64) -> (r: Result<(), CertError>)
        requires
            old(self).wf(),
        ensures
            final(self).wf(),
            final(self).bytes() == old(self).bytes(),
            old(self).pos + n <= old(self).bytes().len() ==> r is Ok && final(self).pos == old(self).pos + n,
            old(self).pos + n > old(self).bytes().len() ==> r == Err::<(), CertError>(CertError::InvalidSeek),
    {
        if n > (self.data.len() - self.pos) as u64 {
            Err(CertError::InvalidSeek)
        } else {
            self.pos = self.pos + n as usize;
            Ok(())
        }
    }

    fn rewind(&mut self, n: u64) -> (r: Result<(), CertError>)
        requires
            old(self).wf(),
        ensures
            final(self).wf(),
            final(self).bytes() == old(self).bytes(),
            n <= old(self).pos ==> r is Ok && final(self).pos == old(self).pos - n,
            n > old(self).pos ==> r == Err::<(), CertError>(CertError::InvalidSeek),
    {
        if n > self.pos as u64 {
            Err(CertError::InvalidSeek)
        } else {
            self.pos = self.pos - n as usize;
            Ok(())
        }
    }

    fn read_u16(&mut self) -> (r: Result<u64, CertError>)
        requires
            old(self).wf(),
        ensures
            final(self).wf(),
            final(self).bytes() == old(self).bytes(),
            old(self).pos + 2 <= old(self).bytes().len() ==> r is Ok && r->Ok_0 as nat == le16(
                old(self).bytes(),
                old(self).pos as int,
            ) && final(self).pos == old(self).pos + 2,
            old(self).pos + 2 > old(self).bytes().len() ==> r == Err::<u64, CertError>(CertError::UnexpectedEof),
    {
        if self.data.len() - self.pos < 2 {
            return Err(CertError::UnexpectedEof);
        }
        let p = self.pos;
        let v = self.data[p] as u64 + 256 * (self.data[p + 1] as u64);
        self.pos = p + 2;
        Ok(v)
    }

    fn read_u32(&mut self) -> (r: Result<u64, CertError>)
        requires
            old(self).wf(),
        ensures
            final(self).wf(),
            final(self).bytes() == old(self).bytes(),
            old(self).pos + 4 <= old(self).bytes().len() ==> r is Ok && r->Ok_0 as nat == le32(
                old(self).bytes(),
                old(self).pos as int,
            ) && final(self).pos == old(self).pos + 4,
            old(self).pos + 4 > old(self).bytes().len() ==> r == Err::<u64, CertError>(CertError::UnexpectedEof),
    {
        if self.data.len() - self.pos < 4 {
            return Err(CertError::UnexpectedEof);
        }
        let lo = match self.read_u16() {
            Ok(v) => v,
            Err(e) => return Err(e),
        };
        let hi = match self.read_u16() {
            Ok(v) => v,
            Err(e) => return Err(e),
        };
        Ok(lo + 0x10000 * hi)
    }

    fn read_u64(&mut self) -> (r: Result<u64, CertError>)
        requires
            old(self).wf(),
        ensures
            final(self).wf(),
            final(self).bytes() == old(self).bytes(),
            old(self).pos + 8 <= old(self).bytes().len() ==> r is Ok && r->Ok_0 as nat == le64(
                old(self).bytes(),
                old(self).pos as int,
            ) && final(self).pos == old(self).pos + 8,
            old(self).pos + 8 > old(self).bytes().len() ==> r == Err::<u64, CertError>(CertError::UnexpectedEof),
    {
        if self.data.len() - self.pos < 8 {
            return Err(CertError::UnexpectedEof);
        }
        let lo = match self.read_u32() {
            Ok(v) => v,
            Err(e) => return Err(e),
        };
        let hi = match self.read_u32() {
            Ok(v) => v,
            Err(e) => return Err(e),
        };
        Ok(lo + 0x1_0000_0000 * hi)
    }

    fn read_bytes(&mut self, n: u64) -> (r: Result<Vec<u8>, CertError>)
        requires
            old(self).wf(),
        ensures
            final(self).wf(),
            final(self).bytes() == old(self).bytes(),
            old(self).pos + n <= old(self).bytes().len() ==> r is Ok && r->Ok_0@ == old(
                self,
            ).bytes().subrange(old(self).pos as int, old(self).pos + n) && final(self).pos
                == old(self).pos + n,
            old(self).pos + n > old(self).bytes().len() ==> r == Err::<Vec<u8>, CertError>(
                CertError::UnexpectedEof,
            ),
    {
        if n > (self.data.len() - self.pos) as u64 {
            return Err(CertError::UnexpectedEof);
        }
        let start = self.pos;
        let end = start + n as usize;
        let mut out: Vec<u8> = Vec::new();
        let mut k: usize = start;
        while k < end
            invariant
                start <= k <= end,
                end <= self.data@.len(),
                out@ == self.data@.subrange(start as int, k as int),
            decreases end - k,
        {
            out.push(self.data[k]);
            k = k + 1;
        }
        self.pos = end;
        Ok(out)
    }
    fn read_magic_matches(&mut self) -> (r: Result<bool, CertError>)
        requires
            old(self).wf(),
        ensures
            final(self).wf(),
            final(self).bytes() == old(self).bytes(),
            old(self).pos + 16 <= old(self).bytes().len() ==> r is Ok && (r->Ok_0 <==> old(
                self,
            ).bytes().subrange(old(self).pos as int, old(self).pos + 16)
                == signing_block_magic()) && final(self).pos == old(self).pos + 16,
            old(self).pos + 16 > old(self).bytes().len() ==> r == Err::<bool, CertError>(
                CertError::UnexpectedEof,
            ),
    {
        let magic = match self.read_bytes(16) {
            Ok(m) => m,
            Err(e) => return Err(e),
        };
        let expected: Vec<u8> = vec![
            0x41u8, 0x50u8, 0x4bu8, 0x20u8, 0x53u8, 0x69u8, 0x67u8, 0x20u8,
            0x42u8, 0x6cu8, 0x6fu8, 0x63u8, 0x6bu8, 0x20u8, 0x34u8, 0x32u8,
        ];
        assert(expected@ =~= signing_block_magic());
        let mut k: usize = 0;
        while k < 16
            invariant
                self.wf(),
                self.bytes() == old(self).bytes(),
                self.pos == old(self).pos + 16,
                magic@ == old(self).bytes().subrange(old(self).pos as int, old(self).pos + 16),
                magic@.len() == 16,
                expected@ == signing_block_magic(),
                k <= 16,
                forall|j: int| 0 <= j < k ==> magic@[j] == expected@[j],
            decreases 16 - k,
        {
            if magic[k] != expected[k] {
                assert(magic@[k as int] != signing_block_magic()[k as int]);
                return Ok(false);
            }
            k = k + 1;
        }
        assert(magic@ =~= signing_block_magic());
        Ok(true)
    }
}

impl ApkCursor {
    /// Find the end of central directory record; on success the cursor
    /// stands just after its magic.
    fn find_eocd(&mut self) -> (r: Result<(), CertError>)
        requires
            old(self).wf(),
        ensures
            final(self).wf(),
            final(self).bytes() == old(self).bytes(),
            match eocd_search(old(self).bytes(), 0) {
                Ok(e) => r is Ok && final(self).pos == e + 4,
                Err(e) => r == Err::<(), CertError>(e),
            },
    {
        let ghost b = self.bytes();
        let mut i: u64 = 0;
        loop
            invariant
                self.wf(),
                self.bytes() == b,
                b == old(self).bytes(),
                i <= MAX_COMMENT_LEN,
                eocd_search(b, 0) == eocd_search(b, i as nat),
            decreases MAX_COMMENT_LEN - i,
        {
            proof {
                reveal(eocd_search);
            }
            match self.seek_from_end(2 + i) {
                Ok(()) => {},
                Err(e) => return Err(e),
            }
            let comment_len = match self.read_u16() {
                Ok(v) => v,
                Err(e) => return Err(e),
            };
            if comment_len == i {
                match self.rewind(22) {
                    Ok(()) => {},
                    Err(e) => return Err(e),
                }
                let magic = match self.read_u32() {
                    Ok(v) => v,
                    Err(e) => return Err(e),
                };
                if magic == EOCD_MAGIC as u64 {
                    return Ok(());
                }
            }
            if i == MAX_COMMENT_LEN {
                return Err(CertError::InvalidApkFormat);
            }
            i = i + 1;
        }
    }

    /// Walk the id-value pairs from the cursor to the v2 record and read
    /// its certificate.
    fn scan_pairs(&mut self, size: u64) -> (r: Result<Vec<u8>, CertError>)
        requires
            old(self).wf(),
        ensures
            result_view(r) == find_v2(old(self).bytes(), old(self).pos as int, size as nat),
    {
        let ghost b = self.bytes();
        let ghost p0 = self.pos as int;
        loop
            invariant
                self.wf(),
                self.bytes() == b,
                b == old(self).bytes(),
                p0 == old(self).pos,
                find_v2(b, p0, size as nat) == find_v2(b, self.pos as int, size as nat),
            decreases b.len() - self.pos,
        {
            let ghost p = self.pos as int;
            let pair_len = match self.read_u64() {
                Ok(v) => v,
                Err(e) => return Err(e),
            };
            if pair_len == size {
                return Err(CertError::CannotFindCertificate);
            }
            let id = match self.read_u32() {
                Ok(v) => v,
                Err(e) => return Err(e),
            };
            if id == SIGNATURE_SCHEME_V2_MAGIC as u64 {
                return self.read_v2_certificate();
            }
            match self.rewind(4) {
                Ok(()) => {},
                Err(e) => return Err(e),
            }
            match self.skip(pair_len) {
                Ok(()) => {},
                Err(e) => return Err(e),
            }
            assert(self.pos == p + 8 + le64(b, p));
        }
    }

    /// Check the signing block whose trailing size field stands at the
    /// cursor, then walk its pairs.
    fn read_signing_block(&mut self) -> (r: Result<Vec<u8>, CertError>)
        requires
            old(self).wf(),
        ensures
            result_view(r) == signing_block(old(self).bytes(), old(self).pos as int),
    {
        let block_size = match self.read_u64() {
            Ok(v) => v,
            Err(e) => return Err(e),
        };
        let magic_ok = match self.read_magic_matches() {
            Ok(m) => m,
            Err(e) => return Err(e),
        };
        if !magic_ok {
            return Err(CertError::InvalidSigningBlockMagic);
        }
        match self.rewind(8) {
            Ok(()) => {},
            Err(e) => return Err(e),
        }
        match self.rewind(block_size) {
            Ok(()) => {},
            Err(e) => return Err(e),
        }
        let leading_size = match self.read_u64() {
            Ok(v) => v,
            Err(e) => return Err(e),
        };
        if leading_size != block_size {
            return Err(CertError::InvalidSigningBlockSize);
        }
        self.scan_pairs(block_size)
    }

    fn read_v2_certificate(&mut self) -> (r: Result<Vec<u8>, CertError>)
        requires
            old(self).wf(),
        ensures
            result_view(r) == v2_certificate(old(self).bytes(), old(self).pos as int),
    {
        match self.skip(12) {
            Ok(()) => {},
            Err(e) => return Err(e),
        }
        let digests_len = match self.read_u32() {
            Ok(v) => v,
            Err(e) => return Err(e),
        };
        match self.skip(digests_len) {
            Ok(()) => {},
            Err(e) => return Err(e),
        }
        match self.skip(4) {
            Ok(()) => {},
            Err(e) => return Err(e),
        }
        let cert_len = match self.read_u32() {
            Ok(v) => v,
            Err(e) => return Err(e),
        };
        self.read_bytes(cert_len)
    }
}

/// Extract the first certificate of the first signer of the APK Signature
/// Scheme v2 block of the APK held in `apk`.
pub fn extract_certificate(apk: Vec<u8>) -> (r: Result<Vec<u8>, CertError>)
    ensures
        result_view(r) == certificate_of(apk@),
{
    let mut cur = ApkCursor { data: apk, pos: 0 };
    let ghost b = cur.bytes();
    match cur.find_eocd() {
        Ok(()) => {},
        Err(e) => return Err(e),
    }
    proof {
        lemma_eocd_in_bounds(b, 0);
    }
    match cur.skip(12) {
        Ok(()) => {},
        Err(e) => return Err(e),
    }
    let central_dir_off = match cur.read_u32() {
        Ok(v) => v,
        Err(e) => return Err(e),
    };
    if central_dir_off < 24 {
        return Err(CertError::InvalidSeek);
    }
    match cur.seek_to(central_dir_off - 24) {
        Ok(()) => {},
        Err(e) => return Err(e),
    }
    cur.read_signing_block()
}

/// The trailing comment of the APK `b`: the bytes after its end of central
/// directory record.
pub open spec fn archive_comment(b: Seq<u8>) -> Option<Seq<u8>> {
    match eocd_search(b, 0) {
        Ok(e) => Some(b.subrange(e + 22, b.len() as int)),
        Err(_) => None,
    }
}

/// The version code that the archive comment of the APK held in `apk`
/// carries as its `versionCode` property; none when the APK has no end of
/// central directory record or the comment no such property.
pub fn apk_version_code(apk: Vec<u8>) -> (r: Option<i32>)
    ensures
        match archive_comment(apk@) {
            Some(c) => r == version_code_of(c),
            None => r is None,
        },
{
    let mut cur = ApkCursor { data: apk, pos: 0 };
    let ghost b = cur.bytes();
    match cur.find_eocd() {
        Ok(()) => {},
        Err(_) => return None,
    }
    proof {
        lemma_eocd_in_bounds(b, 0);
    }
    match cur.skip(16) {
        Ok(()) => {},
        Err(_) => return None,
    }
    let comment_len = match cur.read_u16() {
        Ok(v) => v,
        Err(_) => return None,
    };
    match cur.read_bytes(comment_len) {
        Ok(comment) => comment_version_code(&comment),
        Err(_) => None,
    }
}

/// The certificate of the APK held in `apk`, empty when it has none. The
/// certificate does not depend on `version`; the version code that the
/// archive comment carries is read by [`apk_version_code`].
pub fn read_certificate(apk: Vec<u8>, version: i32) -> (r: Vec<u8>)
    ensures
        certificate_of(apk@) is Ok ==> r@ == certificate_of(apk@)->Ok_0,
        certificate_of(apk@) is Err ==> r@.len() == 0,
{
    match extract_certificate(apk) {
        Ok(c) => c,
        Err(_) => Vec::new(),
    }
}

} // verus!
