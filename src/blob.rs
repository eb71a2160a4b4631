//! Blob framing: a batch's bytes behind an 8-byte little-endian length, cut
//! into fixed-size zero-padded segments, each with its commitment, versioned
//! hash and proof.
use vstd::prelude::*;
use vstd::utf8::encode_utf8;
use vstd::string::StringExecFns;
use crate::crypto::{sha256, sha256_of, to_array32};
use crate::error::Error;
use crate::types::{append_bytes, le_bytes, le_bytes_u64};

verus! {

/// Bytes in one blob segment.
pub const BLOB_SIZE: usize = 131_072;

/// Most segments one transaction carries.
pub const MAX_BLOBS_PER_TX: usize = 6;

/// Bytes in one field element.
pub const FIELD_ELEMENT_SIZE: usize = 32;

/// Field elements in one blob.
pub const FIELD_ELEMENTS_PER_BLOB: usize = 4096;

/// Longest payload that fits: six segments less the 8-byte length prefix.
pub const MAX_PAYLOAD: usize = 786_424;

/// One segment of a blob transaction.
#[derive(Debug, Clone)]
pub struct BlobTx {
    /// Commitment to the segment (48 bytes).
    pub commitment: Vec<u8>,
    /// Versioned hash of the commitment.
    pub versioned_hash: [u8; 32],
    /// The segment, zero-padded to `BLOB_SIZE` bytes.
    pub blob_data: Vec<u8>,
    /// Proof for the commitment (48 bytes).
    pub proof: Vec<u8>,
}

/// Splits payloads into blob segments and joins them again.
pub struct BlobEncoder;

/// `n` zero bytes.
pub open spec fn zeros(n: nat) -> Seq<u8> {
    Seq::new(n, |i: int| 0u8)
}

/// `256^n`.
pub open spec fn pow256(n: nat) -> nat
    decreases n,
{
    if n == 0 {
        1
    } else {
        256 * pow256((n - 1) as nat)
    }
}

/// The number that bytes `s` write little-endian.
pub open spec fn le_value(s: Seq<u8>) -> nat
    decreases s.len(),
{
    if s.len() == 0 {
        0
    } else {
        s[0] as nat + 256 * le_value(s.drop_first())
    }
}

/// The framed payload: its length as 8 little-endian bytes, then the payload.
pub open spec fn frame(data: Seq<u8>) -> Seq<u8> {
    le_bytes(data.len(), 8) + data
}

/// Segments needed for `len` bytes.
pub open spec fn segment_count(len: nat) -> nat {
    ((len + BLOB_SIZE - 1) / BLOB_SIZE as int) as nat
}

/// Segment `i` of `f`, zero-padded to `BLOB_SIZE` bytes.
pub open spec fn padded_segment(f: Seq<u8>, i: int) -> Seq<u8> {
    let end = if (i + 1) * BLOB_SIZE <= f.len() { (i + 1) * BLOB_SIZE } else { f.len() as int };
    f.subrange(i * BLOB_SIZE, end) + zeros((BLOB_SIZE - (end - i * BLOB_SIZE)) as nat)
}

/// The segment data of the encoding of `data`.
pub open spec fn encoded_segments(data: Seq<u8>) -> Seq<Seq<u8>> {
    let f = frame(data);
    Seq::new(segment_count(f.len()), |i: int| padded_segment(f, i))
}

/// The payload framed in `c`, if `c` holds a length prefix and at least that many bytes after it.
pub open spec fn unframe(c: Seq<u8>) -> Option<Seq<u8>> {
    if c.len() >= 8 && le_value(c.take(8)) <= c.len() - 8 {
        Some(c.subrange(8, 8 + le_value(c.take(8)) as int))
    } else {
        None
    }
}

/// The bytes of all segments, in order.
pub open spec fn joined(blobs: Seq<BlobTx>) -> Seq<u8> {
    blobs.map_values(|b: BlobTx| b.blob_data@).flatten()
}

/// Commitment to a segment: SHA-256 of `"COMMITMENT:"` and the segment, padded to 48 bytes.
pub open spec fn commitment_spec(blob: Seq<u8>) -> Seq<u8> {
    sha256_of(encode_utf8("COMMITMENT:"@) + blob) + zeros(16)
}

/// Versioned hash of a commitment: version byte `0x01`, then bytes 1 to 31 of its SHA-256.
pub open spec fn versioned_hash_spec(commitment: Seq<u8>) -> Seq<u8> {
    seq![1u8] + sha256_of(commitment).subrange(1, 32)
}

/// Proof for a segment: SHA-256 of `"PROOF:"`, the segment and its commitment, padded to 48 bytes.
pub open spec fn proof_spec(blob: Seq<u8>, commitment: Seq<u8>) -> Seq<u8> {
    sha256_of(encode_utf8("PROOF:"@) + blob + commitment) + zeros(16)
}

/// `t` is the blob transaction of segment data `blob`.
pub open spec fn blob_tx_of(t: BlobTx, blob: Seq<u8>) -> bool {
    &&& t.blob_data@ == blob
    &&& t.commitment@ == commitment_spec(blob)
    &&& t.versioned_hash@ == versioned_hash_spec(t.commitment@)
    &&& t.proof@ == proof_spec(blob, t.commitment@)
}

proof fn lemma_le_value_of_bytes(x: nat, n: nat)
    requires
        x < pow256(n),
    ensures
        le_value(le_bytes(x, n)) == x,
        le_bytes(x, n).len() == n,
    decreases n,
{
    if n > 0 {
        lemma_le_value_of_bytes(x / 256, (n - 1) as nat);
        let s = le_bytes(x, n);
        assert(s.drop_first() =~= le_bytes(x / 256, (n - 1) as nat));
    }
}

proof fn lemma_le_bytes_len(x: nat, n: nat)
    ensures
        le_bytes(x, n).len() == n,
    decreases n,
{
    if n > 0 {
        lemma_le_bytes_len(x / 256, (n - 1) as nat);
    }
}

proof fn lemma_le_value_bound(s: Seq<u8>)
    ensures
        le_value(s) < pow256(s.len()),
    decreases s.len(),
{
    if s.len() > 0 {
        lemma_le_value_bound(s.drop_first());
    }
}

proof fn lemma_segments_join(f: Seq<u8>, k: nat)
    requires
        f.len() > 0,
        k <= segment_count(f.len()),
    ensures
        k < segment_count(f.len()) ==> Seq::new(k, |i: int| padded_segment(f, i)).flatten() == f.take(
            k * BLOB_SIZE,
        ),
        k == segment_count(f.len()) ==> Seq::new(k, |i: int| padded_segment(f, i)).flatten() == f
            + zeros((k * BLOB_SIZE - f.len()) as nat),
    decreases k,
{
    let g = |i: int| padded_segment(f, i);
    if k == 0 {
        assert(Seq::new(0, g).flatten() =~= f.take(0));
    } else {
        let j = (k - 1) as nat;
        lemma_segments_join(f, j);
        assert(Seq::new(k, g) =~= Seq::new(j, g).push(g(j as int)));
        Seq::new(j, g).lemma_flatten_push(g(j as int));
        if k < segment_count(f.len()) {
            assert(f.take(j * BLOB_SIZE) + padded_segment(f, j as int) =~= f.take(k * BLOB_SIZE));
        } else {
            assert(f.take(j * BLOB_SIZE) + padded_segment(f, j as int) =~= f + zeros(
                (k * BLOB_SIZE - f.len()) as nat,
            ));
        }
    }
}

/// Blob round trip: joining the segments of the encoding of a payload that
/// fits and removing the frame gives back exactly that payload.
pub proof fn lemma_blob_round_trip(data: Seq<u8>)
    requires
        data.len() <= MAX_PAYLOAD,
    ensures
        unframe(encoded_segments(data).flatten()) == Some(data),
        encoded_segments(data).len() <= MAX_BLOBS_PER_TX,
{
    let f = frame(data);
    lemma_pow256_8();
    lemma_le_value_of_bytes(data.len(), 8);
    lemma_segments_join(f, segment_count(f.len()));
    let c = encoded_segments(data).flatten();
    assert(c.take(8) =~= le_bytes(data.len(), 8));
    assert(c.subrange(8, 8 + data.len() as int) =~= data);
}

/// `v[start..end]` as a new vector.
fn copy_range(v: &Vec<u8>, start: usize, end: usize) -> (r: Vec<u8>)
    requires
        start <= end <= v@.len(),
    ensures
        r@ == v@.subrange(start as int, end as int),
{
    let mut r: Vec<u8> = Vec::new();
    let mut i = start;
    while i < end
        invariant
            start <= i <= end <= v@.len(),
            r@ == v@.subrange(start as int, i as int),
        decreases end - i,
    {
        r.push(v[i]);
        i = i + 1;
        assert(v@.subrange(start as int, i as int) =~= v@.subrange(start as int, i - 1).push(v@[i - 1]));
    }
    r
}

/// Pads `v` with zeros up to `len` bytes.
fn pad_to(v: &mut Vec<u8>, len: usize)
    requires
        old(v)@.len() <= len,
    ensures
        final(v)@ == old(v)@ + zeros((len - old(v)@.len()) as nat),
{
    let ghost start = v@;
    while v.len() < len
        invariant
            start.len() <= v@.len() <= len,
            v@ == start + zeros((v@.len() - start.len()) as nat),
        decreases len - v@.len(),
    {
        v.push(0u8);
        assert(v@ =~= start + zeros((v@.len() - start.len()) as nat));
    }
}

/// The 8 bytes at the front of `b` read little-endian.
fn read_le_u64(b: &Vec<u8>) -> (r: u64)
    requires
        b@.len() >= 8,
    ensures
        r == le_value(b@.take(8)),
{
    let mut acc: u64 = 0;
    let mut i: usize = 8;
    assert(b@.subrange(8, 8).len() == 0);
    proof {
        lemma_pow256_8();
    }
    while i > 0
        invariant
            i <= 8,
            b@.len() >= 8,
            acc == le_value(b@.subrange(i as int, 8)),
            acc < pow256((8 - i) as nat),
            pow256(8) == 0x1_0000_0000_0000_0000,
        decreases i,
    {
        i = i - 1;
        assert(b@.subrange(i as int, 8).drop_first() =~= b@.subrange(i + 1, 8));
        proof {
            lemma_le_value_bound(b@.subrange(i as int, 8));
            assert(pow256((8 - i) as nat) <= pow256(8)) by {
                lemma_pow256_mono((8 - i) as nat, 8);
            }
        }
        acc = b[i] as u64 + 256 * acc;
    }
    assert(b@.subrange(0, 8) =~= b@.take(8));
    acc
}

proof fn lemma_pow256_8()
    ensures
        pow256(8) == 0x1_0000_0000_0000_0000,
{
    reveal_with_fuel(pow256, 9);
}

proof fn lemma_pow256_mono(a: nat, b: nat)
    requires
        a <= b,
    ensures
        pow256(a) <= pow256(b),
    decreases b - a,
{
    if a < b {
        lemma_pow256_mono(a, (b - 1) as nat);
    }
}

impl BlobEncoder {
    /// Frames `data` and cuts the frame into zero-padded segments, each with
    /// its commitment, versioned hash and proof. A `BatchTooLarge` error when
    /// the frame needs more than `MAX_BLOBS_PER_TX` segments, that is when
    /// `data` is longer than `MAX_PAYLOAD` bytes.
    pub fn encode_bytes(data: &Vec<u8>) -> (r: Result<Vec<BlobTx>, Error>)
        ensures
            r.is_ok() == (data@.len() <= MAX_PAYLOAD),
            r matches Err(e) ==> e is BatchTooLarge,
            r matches Ok(v) ==> {
                &&& v@.len() == encoded_segments(data@).len()
                &&& joined(v@) == encoded_segments(data@).flatten()
                &&& forall|i: int|
                    0 <= i < v@.len() ==> blob_tx_of(#[trigger] v@[i], encoded_segments(data@)[i])
            },
    {
        if data.len() > MAX_PAYLOAD {
            return Err(Error::BatchTooLarge(String::from_str("Batch requires more than 6 blobs")));
        }
        let mut framed = le_bytes_u64(data.len() as u64, 8);
        proof {
            lemma_le_bytes_len(data@.len(), 8);
        }
        append_bytes(&mut framed, data.as_slice());
        let ghost f = framed@;
        assert(f == frame(data@));
        let total = framed.len();
        let num_blobs = (total + BLOB_SIZE - 1) / BLOB_SIZE;
        let mut blobs: Vec<BlobTx> = Vec::new();
        let mut i: usize = 0;
        while i < num_blobs
            invariant
                framed@ == f,
                f == frame(data@),
                total == f.len(),
                total <= MAX_PAYLOAD + 8,
                num_blobs == segment_count(f.len()),
                i <= num_blobs,
                blobs@.len() == i,
                forall|k: int| 0 <= k < i ==> blob_tx_of(#[trigger] blobs@[k], padded_segment(f, k)),
            decreases num_blobs - i,
        {
            let start = i * BLOB_SIZE;
            let end = if (i + 1) * BLOB_SIZE <= total { (i + 1) * BLOB_SIZE } else { total };
            let chunk = copy_range(&framed, start, end);
            let t = Self::create_blob_tx(&chunk);
            blobs.push(t);
            i = i + 1;
        }
        assert(blobs@.map_values(|b: BlobTx| b.blob_data@) =~= encoded_segments(data@));
        Ok(blobs)
    }

    /// The blob transaction of one segment of at most `BLOB_SIZE` bytes.
    pub fn create_blob_tx(data: &Vec<u8>) -> (t: BlobTx)
        requires
            data@.len() <= BLOB_SIZE,
        ensures
            blob_tx_of(t, data@ + zeros((BLOB_SIZE - data@.len()) as nat)),
    {
        let mut blob_data = copy_range(data, 0, data.len());
        assert(data@.subrange(0, data@.len() as int) =~= data@);
        pad_to(&mut blob_data, BLOB_SIZE);
        let commitment = Self::generate_commitment(&blob_data);
        let versioned_hash = Self::generate_versioned_hash(&commitment);
        let proof = Self::generate_proof(&blob_data, &commitment);
        BlobTx { commitment, versioned_hash, blob_data, proof }
    }

    fn generate_commitment(data: &Vec<u8>) -> (c: Vec<u8>)
        ensures
            c@ == commitment_spec(data@),
    {
        let mut input: Vec<u8> = Vec::new();
        append_bytes(&mut input, "COMMITMENT:".as_bytes());
        append_bytes(&mut input, data.as_slice());
        let mut c = sha256(input.as_slice());
        pad_to(&mut c, 48);
        c
    }

    fn generate_versioned_hash(commitment: &Vec<u8>) -> (h: [u8; 32])
        ensures
            h@ == versioned_hash_spec(commitment@),
    {
        let digest = sha256(commitment.as_slice());
        let mut v: Vec<u8> = vec![1u8];
        let rest = copy_range(&digest, 1, 32);
        let mut rest = rest;
        v.append(&mut rest);
        let h = to_array32(&v);
        assert(v@.subrange(0, 32) =~= v@);
        h
    }

    fn generate_proof(data: &Vec<u8>, commitment: &Vec<u8>) -> (p: Vec<u8>)
        ensures
            p@ == proof_spec(data@, commitment@),
    {
        let mut input: Vec<u8> = Vec::new();
        append_bytes(&mut input, "PROOF:".as_bytes());
        append_bytes(&mut input, data.as_slice());
        append_bytes(&mut input, commitment.as_slice());
        let mut p = sha256(input.as_slice());
        pad_to(&mut p, 48);
        p
    }

    /// Joins the segments and removes the frame: the payload when the joined
    /// bytes start with a length no greater than what follows it; a
    /// `Serialization` error otherwise.
    pub fn decode_bytes(blobs: &Vec<BlobTx>) -> (r: Result<Vec<u8>, Error>)
        ensures
            r.is_ok() == unframe(joined(blobs@)).is_some(),
            r matches Ok(v) ==> unframe(joined(blobs@)) == Some(v@),
            r matches Err(e) ==> e is Serialization,
    {
        let mut combined: Vec<u8> = Vec::new();
        let mut i: usize = 0;
        while i < blobs.len()
            invariant
                i <= blobs@.len(),
                combined@ == joined(blobs@.take(i as int)),
            decreases blobs@.len() - i,
        {
            let ghost m = blobs@.take(i as int).map_values(|b: BlobTx| b.blob_data@);
            append_bytes(&mut combined, blobs[i].blob_data.as_slice());
            proof {
                assert(blobs@.take(i + 1).map_values(|b: BlobTx| b.blob_data@) =~= m.push(
                    blobs@[i as int].blob_data@,
                ));
                m.lemma_flatten_push(blobs@[i as int].blob_data@);
            }
            i = i + 1;
        }
        assert(blobs@.take(blobs@.len() as int) =~= blobs@);
        if combined.len() < 8 {
            return Err(Error::Serialization(String::from_str("Blob data too short")));
        }
        let len = read_le_u64(&combined);
        if len > (combined.len() - 8) as u64 {
            return Err(Error::Serialization(String::from_str("Blob length prefix out of range")));
        }
        let end = 8 + len as usize;
        Ok(copy_range(&combined, 8, end))
    }
}

} // verus!
