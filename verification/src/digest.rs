//! Content fingerprints for change detection.
//!
//! An authority set is fingerprinted by hashing the ordered concatenation of
//! its fixed-width keys; a computed schedule by hashing the ascending slot
//! numbers' little-endian encodings. The digest itself comes from an outside
//! implementation of SHA-256 and is only named here; what this module proves
//! is that the *encoding* fed to it is injective, so equal fingerprints can
//! only arise from equal content or a digest collision.

use sha2::Digest;
use vstd::bytes::spec_u64_to_le_bytes;
use vstd::bytes::u64_to_le_bytes;
use vstd::prelude::*;

verus! {

/// The SHA-256 digest of a byte sequence; a function of the input alone.
pub uninterp spec fn sha256_of(bytes: Seq<u8>) -> Seq<u8>;

/// Relies on sha2::Sha256 (SHA-256 of FIPS 180-4): the 32-byte digest of the
/// input, a function of the input bytes alone.
#[verifier::external_body]
fn sha256(data: &Vec<u8>) -> (r: Vec<u8>)
    ensures
        r@ == sha256_of(data@),
        r@.len() == 32,
{
    sha2::Sha256::digest(data.as_slice()).to_vec()
}

/// Ordered concatenation of the authority keys' bytes.
pub open spec fn concat_keys(auths: Seq<Vec<u8>>) -> Seq<u8>
    decreases auths.len(),
{
    if auths.len() == 0 {
        Seq::empty()
    } else {
        concat_keys(auths.drop_last()) + auths.last()@
    }
}

/// The change-detection fingerprint of an ordered authority set.
pub open spec fn fingerprint_of(auths: Seq<Vec<u8>>) -> Seq<u8> {
    sha256_of(concat_keys(auths))
}

/// Digest over the ordered concatenation of the authority keys.
pub fn hash_authorities(auths: &Vec<Vec<u8>>) -> (r: Vec<u8>)
    ensures
        r@ == fingerprint_of(auths@),
        r@.len() == 32,
{
    let mut buf: Vec<u8> = Vec::new();
    let mut i: usize = 0;
    while i < auths.len()
        invariant
            i <= auths.len(),
            buf@ == concat_keys(auths@.take(i as int)),
        decreases auths.len() - i,
    {
        let key = &auths[i];
        let mut j: usize = 0;
        while j < key.len()
            invariant
                j <= key.len(),
                key == &auths[i as int],
                i < auths.len(),
                buf@ == concat_keys(auths@.take(i as int)) + key@.take(j as int),
            decreases key.len() - j,
        {
            buf.push(key[j]);
            assert(key@.take(j + 1) =~= key@.take(j as int).push(key@[j as int]));
            j = j + 1;
        }
        proof {
            assert(auths@.take(i + 1).drop_last() =~= auths@.take(i as int));
            assert(key@.take(key@.len() as int) =~= key@);
            assert(buf@ =~= concat_keys(auths@.take(i + 1)));
        }
        i = i + 1;
    }
    proof {
        assert(auths@.take(auths@.len() as int) =~= auths@);
    }
    sha256(&buf)
}

/// Little-endian encodings of the slot numbers, concatenated in order.
pub open spec fn concat_slot_bytes(slots: Seq<u64>) -> Seq<u8>
    decreases slots.len(),
{
    if slots.len() == 0 {
        Seq::empty()
    } else {
        concat_slot_bytes(slots.drop_last()) + spec_u64_to_le_bytes(slots.last())
    }
}

/// The fingerprint of a computed schedule: the digest of the slots'
/// encodings in the order given.
pub open spec fn schedule_fingerprint_of(slots: Seq<u64>) -> Seq<u8> {
    sha256_of(concat_slot_bytes(slots))
}

/// Digest over the slot numbers' little-endian encodings, used to detect a
/// changed own-schedule even within one epoch.
pub fn schedule_hash(slots: &Vec<u64>) -> (r: Vec<u8>)
    ensures
        r@ == schedule_fingerprint_of(slots@),
        r@.len() == 32,
{
    let mut buf: Vec<u8> = Vec::new();
    let mut i: usize = 0;
    while i < slots.len()
        invariant
            i <= slots.len(),
            buf@ == concat_slot_bytes(slots@.take(i as int)),
        decreases slots.len() - i,
    {
        let enc = u64_to_le_bytes(slots[i]);
        let mut j: usize = 0;
        while j < enc.len()
            invariant
                j <= enc.len(),
                enc@ == spec_u64_to_le_bytes(slots@[i as int]),
                i < slots.len(),
                buf@ == concat_slot_bytes(slots@.take(i as int)) + enc@.take(j as int),
            decreases enc.len() - j,
        {
            buf.push(enc[j]);
            assert(enc@.take(j + 1) =~= enc@.take(j as int).push(enc@[j as int]));
            j = j + 1;
        }
        proof {
            assert(slots@.take(i + 1).drop_last() =~= slots@.take(i as int));
            assert(enc@.take(enc@.len() as int) =~= enc@);
            assert(buf@ =~= concat_slot_bytes(slots@.take(i + 1)));
        }
        i = i + 1;
    }
    proof {
        assert(slots@.take(slots@.len() as int) =~= slots@);
    }
    sha256(&buf)
}

/// Equal ordered authority sets have equal fingerprints: the fingerprint is
/// a function of the keys' bytes, in order, and of nothing else.
pub proof fn lemma_fingerprint_deterministic(a: Seq<Vec<u8>>, b: Seq<Vec<u8>>)
    requires
        a.len() == b.len(),
        forall|i: int| 0 <= i < a.len() ==> a[i]@ == b[i]@,
    ensures
        fingerprint_of(a) == fingerprint_of(b),
{
    lemma_concat_keys_congruent(a, b);
}

proof fn lemma_concat_keys_congruent(a: Seq<Vec<u8>>, b: Seq<Vec<u8>>)
    requires
        a.len() == b.len(),
        forall|i: int| 0 <= i < a.len() ==> a[i]@ == b[i]@,
    ensures
        concat_keys(a) == concat_keys(b),
    decreases a.len(),
{
    if a.len() > 0 {
        lemma_concat_keys_congruent(a.drop_last(), b.drop_last());
    }
}

proof fn lemma_concat_keys_len(a: Seq<Vec<u8>>, w: nat)
    requires
        forall|i: int| 0 <= i < a.len() ==> a[i]@.len() == w,
    ensures
        concat_keys(a).len() == a.len() * w,
    decreases a.len(),
{
    if a.len() == 0 {
    } else {
        lemma_concat_keys_len(a.drop_last(), w);
        assert(a.len() * w == (a.len() - 1) * w + w) by (nonlinear_arith);
    }
}

/// Fingerprints differ on different content, short of a digest collision:
/// the concatenation of fixed-width keys determines the key sequence, so
/// two authority sets with the same key width whose keys differ anywhere
/// (in a value or in order) feed *different* inputs to the digest.
pub proof fn lemma_concat_keys_injective(a: Seq<Vec<u8>>, b: Seq<Vec<u8>>, w: nat)
    requires
        w > 0,
        forall|i: int| 0 <= i < a.len() ==> a[i]@.len() == w,
        forall|i: int| 0 <= i < b.len() ==> b[i]@.len() == w,
        concat_keys(a) == concat_keys(b),
    ensures
        a.len() == b.len(),
        forall|i: int| 0 <= i < a.len() ==> a[i]@ == b[i]@,
    decreases a.len(),
{
    lemma_concat_keys_len(a, w);
    lemma_concat_keys_len(b, w);
    assert(a.len() == b.len()) by (nonlinear_arith)
        requires
            w > 0,
            a.len() * w == b.len() * w,
    ;
    if a.len() > 0 {
        let ca = concat_keys(a);
        lemma_concat_keys_len(a.drop_last(), w);
        lemma_concat_keys_len(b.drop_last(), w);
        assert(a.drop_last().len() * w == b.drop_last().len() * w);
        assert(a.last()@ =~= ca.subrange(ca.len() - w, ca.len() as int));
        assert(b.last()@ =~= concat_keys(b).subrange(ca.len() - w, ca.len() as int));
        assert(concat_keys(a.drop_last()) =~= ca.subrange(0, ca.len() - w));
        assert(concat_keys(b.drop_last()) =~= concat_keys(b).subrange(0, ca.len() - w));
        lemma_concat_keys_injective(a.drop_last(), b.drop_last(), w);
        assert forall|i: int| 0 <= i < a.len() implies a[i]@ == b[i]@ by {
            if i < a.len() - 1 {
                assert(a.drop_last()[i]@ == b.drop_last()[i]@);
            }
        }
    }
}

/// The slot-encoding concatenation is injective as well: equal schedule
/// digest inputs come only from equal slot lists.
pub proof fn lemma_concat_slot_bytes_injective(a: Seq<u64>, b: Seq<u64>)
    requires
        concat_slot_bytes(a) == concat_slot_bytes(b),
    ensures
        a == b,
    decreases a.len(),
{
    lemma_concat_slot_bytes_len(a);
    lemma_concat_slot_bytes_len(b);
    assert(a.len() == b.len()) by (nonlinear_arith)
        requires
            a.len() * 8 == b.len() * 8,
    ;
    if a.len() > 0 {
        let ca = concat_slot_bytes(a);
        lemma_concat_slot_bytes_len(a.drop_last());
        lemma_concat_slot_bytes_len(b.drop_last());
        assert(spec_u64_to_le_bytes(a.last()) =~= ca.subrange(ca.len() - 8, ca.len() as int));
        assert(spec_u64_to_le_bytes(b.last()) =~= concat_slot_bytes(b).subrange(
            ca.len() - 8,
            ca.len() as int,
        ));
        assert(a.last() == b.last()) by {
            vstd::bytes::lemma_auto_spec_u64_to_from_le_bytes();
        }
        assert(concat_slot_bytes(a.drop_last()) =~= ca.subrange(0, ca.len() - 8));
        assert(concat_slot_bytes(b.drop_last()) =~= concat_slot_bytes(b).subrange(
            0,
            ca.len() - 8,
        ));
        lemma_concat_slot_bytes_injective(a.drop_last(), b.drop_last());
        assert(a =~= a.drop_last().push(a.last()));
        assert(b =~= b.drop_last().push(b.last()));
    }
}

proof fn lemma_concat_slot_bytes_len(a: Seq<u64>)
    ensures
        concat_slot_bytes(a).len() == a.len() * 8,
    decreases a.len(),
{
    if a.len() > 0 {
        lemma_concat_slot_bytes_len(a.drop_last());
        vstd::bytes::lemma_auto_spec_u64_to_from_le_bytes();
        assert(a.len() * 8 == (a.len() - 1) * 8 + 8) by (nonlinear_arith);
    }
}

/// A nibble's lowercase hex character.
pub open spec fn hex_digit(n: u8) -> char
    recommends
        n < 16,
{
    if n < 10 {
        ((n + 48) as u8) as char
    } else {
        ((n + 87) as u8) as char
    }
}

/// Lowercase hex encoding: two characters for each byte, in order.
pub open spec fn hex_of(bytes: Seq<u8>) -> Seq<char>
    decreases bytes.len(),
{
    if bytes.len() == 0 {
        Seq::empty()
    } else {
        hex_of(bytes.drop_last()) + seq![
            hex_digit(bytes.last() / 16),
            hex_digit(bytes.last() % 16),
        ]
    }
}

/// Relies on hex::encode: lowercase hex, exactly two digits per input byte,
/// in input order.
#[verifier::external_body]
fn hex_encode(b: &Vec<u8>) -> (r: String)
    ensures
        r@ == hex_of(b@),
{
    hex::encode(b.as_slice())
}

/// A `0x`-prefixed lowercase hex rendering of a digest or key.
pub fn hex32(bytes: &Vec<u8>) -> (r: String)
    ensures
        r@ == "0x"@ + hex_of(bytes@),
{
    let mut s = String::new();
    s.append("0x");
    let tail = hex_encode(bytes);
    s.append(tail.as_str());
    proof {
        assert(s@ =~= "0x"@ + hex_of(bytes@));
    }
    s
}

/// Whether a byte is an ASCII hex digit (either case).
pub open spec fn is_hex_digit_byte(b: u8) -> bool {
    (48 <= b <= 57) || (97 <= b <= 102) || (65 <= b <= 70)
}

/// The nibble value of an ASCII hex digit.
pub open spec fn hex_val(b: u8) -> u8
    recommends
        is_hex_digit_byte(b),
{
    if 48 <= b <= 57 {
        (b - 48) as u8
    } else if 97 <= b <= 102 {
        (b - 87) as u8
    } else {
        (b - 55) as u8
    }
}

/// The bytes read from an even-length sequence of ASCII hex digits,
/// two digits to a byte.
pub open spec fn hex_decode_spec(s: Seq<u8>) -> Seq<u8>
    recommends
        s.len() % 2 == 0,
    decreases s.len(),
{
    if s.len() < 2 {
        Seq::empty()
    } else {
        hex_decode_spec(s.drop_last().drop_last()).push(
            (hex_val(s[s.len() - 2]) * 16 + hex_val(s.last())) as u8,
        )
    }
}

/// Relies on hex::decode: succeeds exactly on even-length all-hex-digit
/// input (either case), returning one byte for each digit pair.
#[verifier::external_body]
pub(crate) fn hex_decode(s: &Vec<u8>) -> (r: Option<Vec<u8>>)
    ensures
        r is Some <==> (s@.len() % 2 == 0 && forall|i: int|
            0 <= i < s@.len() ==> is_hex_digit_byte(s@[i])),
        r matches Some(v) ==> v@ == hex_decode_spec(s@),
{
    hex::decode(s.as_slice()).ok()
}

} // verus!
