//! Resolution of the operator's validator identity from a keystore listing.
//!
//! A keystore entry holds one key per file, named by the hex of a 4-byte
//! role tag followed by the 32-byte public key. The resolver normalizes each
//! filename (lowercases it and strips a `0x` prefix), keeps those matching
//! the consensus role's pattern, and accepts only a single distinct key: it
//! never guesses between candidates.

use crate::digest::hex_decode;
use crate::digest::hex_decode_spec;
use crate::digest::is_hex_digit_byte;
use vstd::prelude::*;

verus! {

/// Why no identity could be resolved.
#[derive(Clone, Copy, PartialEq, Eq, Structural, Debug)]
pub enum IdentityError {
    /// No keystore entry matches the consensus role's pattern.
    NoKeyFound,
    /// Two or more distinct keys match; the resolver never guesses.
    AmbiguousIdentity,
}

/// Why a key string could not be parsed.
#[derive(Clone, Copy, PartialEq, Eq, Structural, Debug)]
pub enum PubkeyError {
    /// Not an even-length string of hex digits.
    NotHex,
    /// Valid hex, but not exactly 32 bytes.
    WrongLength,
}

/// ASCII lowercase of one byte.
pub open spec fn lower_byte(b: u8) -> u8 {
    if 65 <= b <= 90 {
        (b + 32) as u8
    } else {
        b
    }
}

/// ASCII lowercase of a byte string.
pub open spec fn lower_bytes(s: Seq<u8>) -> Seq<u8> {
    Seq::new(s.len(), |i: int| lower_byte(s[i]))
}

/// One leading `0x` removed, if present.
pub open spec fn strip_0x(s: Seq<u8>) -> Seq<u8> {
    if s.len() >= 2 && s[0] == 48 && s[1] == 120 {
        s.skip(2)
    } else {
        s
    }
}

/// A keystore filename, normalized: lowercased, `0x` prefix stripped.
pub open spec fn normalized_name(s: Seq<u8>) -> Seq<u8> {
    strip_0x(lower_bytes(s))
}

/// The hex of the consensus role's 4-byte key-type tag.
pub open spec fn aura_tag() -> Seq<u8> {
    seq![54u8, 49u8, 55u8, 53u8, 55u8, 50u8, 54u8, 49u8]
}

/// Whether a filename, normalized, is the consensus role's tag followed by
/// exactly 64 hex characters (a 32-byte key).
pub open spec fn is_keystore_match(s: Seq<u8>) -> bool {
    let n = normalized_name(s);
    n.len() == 72 && n.take(8) == aura_tag() && (forall|i: int|
        8 <= i < 72 ==> is_hex_digit_byte(#[trigger] n[i]))
}

/// The matched filename's key part: 64 lowercase hex characters.
pub open spec fn key_hex_of(s: Seq<u8>) -> Seq<u8> {
    normalized_name(s).skip(8)
}

/// Normalize a filename: ASCII-lowercase it and strip one `0x` prefix.
fn normalize_name(name: &Vec<u8>) -> (r: Vec<u8>)
    ensures
        r@ == normalized_name(name@),
{
    let mut low: Vec<u8> = Vec::new();
    let mut i: usize = 0;
    while i < name.len()
        invariant
            i <= name.len(),
            low@.len() == i,
            forall|k: int| 0 <= k < i ==> low@[k] == lower_byte(name@[k]),
        decreases name.len() - i,
    {
        let b = name[i];
        if 65 <= b && b <= 90 {
            low.push(b + 32);
        } else {
            low.push(b);
        }
        i = i + 1;
    }
    proof {
        assert(low@ =~= lower_bytes(name@));
    }
    if low.len() >= 2 && low[0] == 48 && low[1] == 120 {
        let mut out: Vec<u8> = Vec::new();
        let mut j: usize = 2;
        while j < low.len()
            invariant
                2 <= j <= low.len(),
                out@.len() == j - 2,
                forall|k: int| 0 <= k < j - 2 ==> out@[k] == low@[k + 2],
            decreases low.len() - j,
        {
            out.push(low[j]);
            j = j + 1;
        }
        proof {
            assert(out@ =~= lower_bytes(name@).skip(2));
        }
        out
    } else {
        low
    }
}

/// The key part of a matching filename, or nothing for a filename that does
/// not match the pattern.
fn keystore_match(name: &Vec<u8>) -> (r: Option<Vec<u8>>)
    ensures
        r is Some <==> is_keystore_match(name@),
        r matches Some(k) ==> k@ == key_hex_of(name@),
{
    let n = normalize_name(name);
    if n.len() != 72 {
        return None;
    }
    let tag_ok = n[0] == 54 && n[1] == 49 && n[2] == 55 && n[3] == 53 && n[4] == 55 && n[5] == 50
        && n[6] == 54 && n[7] == 49;
    proof {
        if tag_ok {
            assert(n@.take(8) =~= aura_tag());
        } else {
            assert(n@.take(8) != aura_tag()) by {
                if n@.take(8) =~= aura_tag() {
                    assert(n@[0] == 54 && n@[1] == 49 && n@[2] == 55 && n@[3] == 53 && n@[4] == 55
                        && n@[5] == 50 && n@[6] == 54 && n@[7] == 49) by {
                        assert(forall|k: int| 0 <= k < 8 ==> n@.take(8)[k] == n@[k]);
                    }
                }
            }
        }
    }
    if !tag_ok {
        return None;
    }
    let mut i: usize = 8;
    while i < 72
        invariant
            8 <= i <= 72,
            n@.len() == 72,
            n@ == normalized_name(name@),
            forall|k: int| 8 <= k < i ==> is_hex_digit_byte(#[trigger] n@[k]),
        decreases 72 - i,
    {
        let b = n[i];
        let is_hex = (48 <= b && b <= 57) || (97 <= b && b <= 102) || (65 <= b && b <= 70);
        if !is_hex {
            proof {
                assert(normalized_name(name@)[i as int] == n@[i as int]);
                assert(!is_hex_digit_byte(normalized_name(name@)[i as int]));
            }
            return None;
        }
        i = i + 1;
    }
    let mut key: Vec<u8> = Vec::new();
    let mut j: usize = 8;
    while j < 72
        invariant
            8 <= j <= 72,
            n@.len() == 72,
            key@.len() == j - 8,
            forall|k: int| 0 <= k < j - 8 ==> key@[k] == n@[k + 8],
        decreases 72 - j,
    {
        key.push(n[j]);
        j = j + 1;
    }
    proof {
        assert(key@ =~= key_hex_of(name@));
    }
    Some(key)
}

/// Resolve the identity from a keystore's filenames. All filenames whose
/// normalized form matches the role pattern are collected and deduplicated
/// by their key; exactly one distinct key must remain. Zero matches and two
/// or more distinct matches both fail: the resolver never guesses.
#[verifier::rlimit(50)]
pub fn detect_aura_pubkey_from_keystore(names: &Vec<Vec<u8>>) -> (r: Result<
    Vec<u8>,
    IdentityError,
>)
    ensures
        r matches Ok(k) ==> ((exists|i: int|
            0 <= i < names@.len() && is_keystore_match(#[trigger] names@[i]@) && key_hex_of(
                names@[i]@,
            ) == k@) && k@.len() == 64),
        (r == Err::<Vec<u8>, IdentityError>(IdentityError::NoKeyFound)) <==> (forall|i: int|
            0 <= i < names@.len() ==> !is_keystore_match(#[trigger] names@[i]@)),
        (r == Err::<Vec<u8>, IdentityError>(IdentityError::AmbiguousIdentity)) <==> (exists|
            i: int,
            j: int,
        |
            0 <= i < names@.len() && 0 <= j < names@.len() && is_keystore_match(
                #[trigger] names@[i]@,
            ) && is_keystore_match(#[trigger] names@[j]@) && key_hex_of(names@[i]@) != key_hex_of(
                names@[j]@,
            )),
{
    let mut found: Vec<Vec<u8>> = Vec::new();
    let ghost mut wit: Seq<int> = Seq::empty();
    let ghost mut keyidx: Map<int, int> = Map::empty();
    let mut idx: usize = 0;
    while idx < names.len()
        invariant
            idx <= names.len(),
            wit.len() == found@.len(),
            forall|k: int|
                0 <= k < found@.len() ==> 0 <= #[trigger] wit[k] < idx && is_keystore_match(
                    names@[wit[k]]@,
                ) && key_hex_of(names@[wit[k]]@) == found@[k]@,
            forall|i: int|
                0 <= i < idx && is_keystore_match(#[trigger] names@[i]@) ==> (
                keyidx.contains_key(i) && 0 <= keyidx[i] < found@.len() && found@[keyidx[i]]@
                    == key_hex_of(names@[i]@)),
            forall|k1: int, k2: int|
                0 <= k1 < found@.len() && 0 <= k2 < found@.len() && k1 != k2
                    ==> #[trigger] found@[k1]@ != #[trigger] found@[k2]@,
            forall|k: int| 0 <= k < found@.len() ==> (#[trigger] found@[k]@).len() == 64,
        decreases names.len() - idx,
    {
        match keystore_match(&names[idx]) {
            Some(key) => {
                let mut dup = false;
                let mut dup_at: usize = 0;
                let mut k: usize = 0;
                while k < found.len()
                    invariant
                        k <= found.len(),
                        dup ==> dup_at < found@.len() && found@[dup_at as int]@ == key@,
                        !dup ==> forall|m: int| 0 <= m < k ==> #[trigger] found@[m]@ != key@,
                    decreases found.len() - k,
                {
                    if crate::schedule::bytes_eq(&found[k], &key) {
                        dup = true;
                        dup_at = k;
                    }
                    k = k + 1;
                }
                proof {
                    assert(key@ == key_hex_of(names@[idx as int]@));
                    assert(key@.len() == 64) by {
                        assert(normalized_name(names@[idx as int]@).len() == 72);
                    }
                }
                if !dup {
                    proof {
                        wit = wit.push(idx as int);
                        keyidx = keyidx.insert(idx as int, found@.len() as int);
                    }
                    found.push(key);
                } else {
                    proof {
                        keyidx = keyidx.insert(idx as int, dup_at as int);
                    }
                }
            },
            None => (),
        }
        idx = idx + 1;
    }
    if found.len() == 0 {
        Err(IdentityError::NoKeyFound)
    } else if found.len() == 1 {
        let ghost found0 = found@;
        let key = match found.pop() {
            Some(k) => k,
            None => Vec::new(),
        };
        proof {
            assert(key@ == found0[0]@);
            assert(is_keystore_match(names@[wit[0]]@) && key_hex_of(names@[wit[0]]@) == key@);
            assert forall|i: int, j: int|
                0 <= i < names@.len() && 0 <= j < names@.len() && is_keystore_match(
                    #[trigger] names@[i]@,
                ) && is_keystore_match(#[trigger] names@[j]@) implies key_hex_of(names@[i]@)
                == key_hex_of(names@[j]@) by {
                assert(keyidx[i] == 0 && keyidx[j] == 0);
            }
        }
        Ok(key)
    } else {
        proof {
            assert(found@[0]@ != found@[1]@);
            assert(is_keystore_match(names@[wit[0]]@) && key_hex_of(names@[wit[0]]@)
                == found@[0]@);
            assert(is_keystore_match(names@[wit[1]]@) && key_hex_of(names@[wit[1]]@)
                == found@[1]@);
        }
        Err(IdentityError::AmbiguousIdentity)
    }
}

/// Every leading `0x` removed: the prefix is stripped as often as it
/// occurs.
pub open spec fn strip_0x_all(s: Seq<u8>) -> Seq<u8>
    decreases s.len(),
{
    if s.len() >= 2 && s[0] == 48 && s[1] == 120 {
        strip_0x_all(s.skip(2))
    } else {
        s
    }
}

/// Decoded hex is half as long as its input.
proof fn lemma_hex_decode_spec_len(s: Seq<u8>)
    requires
        s.len() % 2 == 0,
    ensures
        hex_decode_spec(s).len() == s.len() / 2,
    decreases s.len(),
{
    if s.len() >= 2 {
        lemma_hex_decode_spec_len(s.drop_last().drop_last());
    }
}

/// Parse a `0x`-prefixed or bare hex string as a 32-byte public key:
/// succeeds exactly on 64 hex digits (either case) after prefix stripping.
pub fn parse_pubkey_hex(s: &Vec<u8>) -> (r: Result<Vec<u8>, PubkeyError>)
    ensures
        ({
            let t = strip_0x_all(s@);
            &&& (r matches Ok(v) ==> v@ == hex_decode_spec(t) && v@.len() == 32)
            &&& (r is Ok <==> t.len() == 64 && (forall|i: int|
                0 <= i < t.len() ==> is_hex_digit_byte(#[trigger] t[i])))
            &&& ((r == Err::<Vec<u8>, PubkeyError>(PubkeyError::NotHex)) <==> !(t.len() % 2 == 0
                && (forall|i: int| 0 <= i < t.len() ==> is_hex_digit_byte(#[trigger] t[i]))))
            &&& ((r == Err::<Vec<u8>, PubkeyError>(PubkeyError::WrongLength)) <==> (t.len() % 2
                == 0 && (forall|i: int| 0 <= i < t.len() ==> is_hex_digit_byte(#[trigger] t[i]))
                && t.len() != 64))
        }),
{
    let mut start: usize = 0;
    proof {
        assert(s@.skip(0) =~= s@);
    }
    while s.len() - start >= 2 && s[start] == 48 && s[start + 1] == 120
        invariant
            start <= s.len(),
            strip_0x_all(s@) == strip_0x_all(s@.skip(start as int)),
        decreases s.len() - start,
    {
        proof {
            assert(s@.skip(start as int).skip(2) =~= s@.skip(start + 2));
        }
        start = start + 2;
    }
    let mut t: Vec<u8> = Vec::new();
    let mut i: usize = start;
    while i < s.len()
        invariant
            start <= i <= s.len(),
            t@.len() == i - start,
            forall|k: int| 0 <= k < i - start ==> t@[k] == s@[k + start],
        decreases s.len() - i,
    {
        t.push(s[i]);
        i = i + 1;
    }
    proof {
        assert(t@ =~= s@.skip(start as int));
        assert(strip_0x_all(s@.skip(start as int)) == s@.skip(start as int));
    }
    match hex_decode(&t) {
        Some(bytes) => {
            proof {
                if t@.len() % 2 == 0 {
                    lemma_hex_decode_spec_len(t@);
                }
            }
            if bytes.len() == 32 {
                Ok(bytes)
            } else {
                Err(PubkeyError::WrongLength)
            }
        },
        None => Err(PubkeyError::NotHex),
    }
}

} // verus!
