//! Deterministic slot assignment for a round-robin (Aura-style) authority set.
//!
//! Slot `s` belongs to the authority at index `s mod n` of the ordered
//! authority list of length `n`. Out of a window of consecutive slots, the
//! slots assigned to one identity form a deterministic ascending list.

use vstd::arithmetic::div_mod::lemma_add_mod_noop_right;
use vstd::arithmetic::div_mod::lemma_fundamental_div_mod;
use vstd::arithmetic::div_mod::lemma_mod_add_multiples_vanish;
use vstd::arithmetic::div_mod::lemma_mod_division_less_than_divisor;
use vstd::arithmetic::div_mod::lemma_small_mod;
use vstd::prelude::*;

verus! {

/// Round-robin assignment: the index of the authority that owns `slot`
/// among `n` authorities.
pub open spec fn assigned_index(slot: u64, n: int) -> int
    recommends
        n > 0,
{
    (slot as int) % n
}

/// The slots of `[start_slot, start_slot + count)` owned by `author`,
/// in ascending order. Empty when the authority list is empty.
pub open spec fn own_slots_spec(
    auths: Seq<Vec<u8>>,
    author: Seq<u8>,
    start_slot: u64,
    count: int,
) -> Seq<u64>
    decreases count,
{
    if count <= 0 || auths.len() == 0 {
        Seq::empty()
    } else {
        let slot = (start_slot + count - 1) as u64;
        let rest = own_slots_spec(auths, author, start_slot, count - 1);
        if auths[assigned_index(slot, auths.len() as int)]@ == author {
            rest.push(slot)
        } else {
            rest
        }
    }
}

/// Byte-wise equality of two keys.
pub fn bytes_eq(a: &Vec<u8>, b: &Vec<u8>) -> (r: bool)
    ensures
        r == (a@ == b@),
{
    if a.len() != b.len() {
        assert(a@ != b@);
        return false;
    }
    let n = a.len();
    let mut i: usize = 0;
    while i < n
        invariant
            n == a.len() == b.len(),
            i <= n,
            forall|k: int| 0 <= k < i ==> a@[k] == b@[k],
        decreases n - i,
    {
        if a[i] != b[i] {
            return false;
        }
        i = i + 1;
    }
    proof {
        assert(a@ =~= b@);
    }
    true
}

/// Which slots of the window `[start_slot, start_slot + slots_to_scan)` are
/// assigned to `author_bytes` by round-robin over `auths`.
///
/// The result is exactly `own_slots_spec`, so equal inputs always give equal
/// output lists.
pub fn compute_my_slots(
    auths: &Vec<Vec<u8>>,
    author_bytes: &Vec<u8>,
    start_slot: u64,
    slots_to_scan: u64,
) -> (out: Vec<u64>)
    requires
        start_slot + slots_to_scan <= u64::MAX + 1,
    ensures
        out@ == own_slots_spec(auths@, author_bytes@, start_slot, slots_to_scan as int),
{
    let mut out: Vec<u64> = Vec::new();
    if auths.len() == 0 {
        assert(out@ =~= own_slots_spec(auths@, author_bytes@, start_slot, slots_to_scan as int));
        return out;
    }
    let n = auths.len();
    let mut i: u64 = 0;
    while i < slots_to_scan
        invariant
            n == auths.len(),
            n > 0,
            i <= slots_to_scan,
            start_slot + slots_to_scan <= u64::MAX + 1,
            out@ == own_slots_spec(auths@, author_bytes@, start_slot, i as int),
        decreases slots_to_scan - i,
    {
        let slot = start_slot + i;
        let idx: usize = (slot % (n as u64)) as usize;
        proof {
            lemma_mod_division_less_than_divisor(slot as int, n as int);
        }
        assert(idx as int == assigned_index(slot, n as int));
        if bytes_eq(&auths[idx], author_bytes) {
            out.push(slot);
        }
        i = i + 1;
    }
    out
}

/// Whether `author_bytes` occurs in the authority list.
pub fn author_in_authorities(author_bytes: &Vec<u8>, auths: &Vec<Vec<u8>>) -> (r: bool)
    ensures
        r == exists|i: int| 0 <= i < auths@.len() && auths@[i]@ == author_bytes@,
{
    let mut i: usize = 0;
    while i < auths.len()
        invariant
            i <= auths.len(),
            forall|k: int| 0 <= k < i ==> auths@[k]@ != author_bytes@,
        decreases auths.len() - i,
    {
        if bytes_eq(&auths[i], author_bytes) {
            return true;
        }
        i = i + 1;
    }
    false
}

/// First slot of an epoch: `epoch * epoch_size`.
pub fn epoch_start_slot(epoch: u64, epoch_size: u64) -> (r: u64)
    requires
        epoch * epoch_size <= u64::MAX,
    ensures
        r == epoch * epoch_size,
{
    epoch * epoch_size
}

/// Last slot of an epoch window of `epoch_size` slots beginning at
/// `start_slot` (the window's start when `epoch_size` is zero).
pub fn epoch_end_slot(start_slot: u64, epoch_size: u64) -> (r: u64)
    requires
        epoch_size > 0 ==> start_slot + epoch_size - 1 <= u64::MAX,
    ensures
        epoch_size > 0 ==> r == start_slot + epoch_size - 1,
        epoch_size == 0 ==> r == start_slot,
{
    if epoch_size == 0 {
        start_slot
    } else {
        start_slot + (epoch_size - 1)
    }
}

/// Wall-clock projection of `slot`, by linear extrapolation from a reference
/// slot observed at `reference_time_ms`. Slots before the reference slot
/// project into the past without error.
pub fn project_time(
    slot: u64,
    reference_slot: u64,
    reference_time_ms: u64,
    slot_duration_ms: u64,
) -> (r: i64)
    requires
        slot <= i64::MAX,
        reference_slot <= i64::MAX,
        reference_time_ms <= i64::MAX,
        slot_duration_ms <= i64::MAX,
        i64::MIN <= (slot - reference_slot) * slot_duration_ms <= i64::MAX,
        i64::MIN <= reference_time_ms + (slot - reference_slot) * slot_duration_ms <= i64::MAX,
    ensures
        r == reference_time_ms + (slot - reference_slot) * slot_duration_ms,
{
    (reference_time_ms as i64) + ((slot as i64) - (reference_slot as i64)) * (slot_duration_ms
        as i64)
}

/// The number of `j` in `[0, len)` with `j % n == m`.
pub open spec fn residue_count(m: int, n: int, len: int) -> int
    recommends
        n > 0,
    decreases len,
{
    if len <= 0 {
        0
    } else {
        residue_count(m, n, len - 1) + if (len - 1) % n == m {
            1int
        } else {
            0int
        }
    }
}

/// Exact round-robin share: among `len` consecutive offsets, residue `m`
/// occurs `len / n` times, plus once more when `m < len % n`.
pub proof fn lemma_residue_count_exact(m: int, n: int, len: int)
    requires
        n > 0,
        0 <= m < n,
        len >= 0,
    ensures
        residue_count(m, n, len) == len / n + if m < len % n {
            1int
        } else {
            0int
        },
    decreases len,
{
    if len == 0 {
        assert(0int / n == 0 && 0int % n == 0) by (nonlinear_arith)
            requires
                n > 0,
        ;
    } else {
        lemma_residue_count_exact(m, n, len - 1);
        let p = len - 1;
        lemma_fundamental_div_mod(p, n);
        lemma_mod_division_less_than_divisor(p, n);
        if p % n == n - 1 {
            assert(len / n == p / n + 1 && len % n == 0) by (nonlinear_arith)
                requires
                    n > 0,
                    p == n * (p / n) + p % n,
                    p % n == n - 1,
                    len == p + 1,
            ;
        } else {
            assert(len / n == p / n && len % n == p % n + 1) by (nonlinear_arith)
                requires
                    n > 0,
                    p == n * (p / n) + p % n,
                    0 <= p % n < n - 1,
                    len == p + 1,
            ;
        }
    }
}

/// The number of slots in `[start_slot, start_slot + len)` assigned to
/// authority index `k`.
pub open spec fn window_count(start_slot: u64, len: int, n: int, k: int) -> int
    recommends
        n > 0,
        start_slot + len <= u64::MAX + 1,
    decreases len,
{
    if len <= 0 {
        0
    } else {
        window_count(start_slot, len - 1, n, k) + if assigned_index(
            (start_slot + len - 1) as u64,
            n,
        ) == k {
            1int
        } else {
            0int
        }
    }
}

/// Adding the same shift to two residues below `n` keeps them apart
/// modulo `n`.
proof fn lemma_mod_shift_injective(a: int, b: int, r: int, n: int)
    requires
        n > 0,
        0 <= a < n,
        0 <= b < n,
        0 <= r < n,
        (r + a) % n == (r + b) % n,
    ensures
        a == b,
{
    if a != b {
        lemma_fundamental_div_mod(r + a, n);
        lemma_fundamental_div_mod(r + b, n);
        lemma_mod_division_less_than_divisor(r + a, n);
        lemma_mod_division_less_than_divisor(r + b, n);
        let qa = (r + a) / n;
        let qb = (r + b) / n;
        assert(0 <= qa <= 1 && 0 <= qb <= 1) by (nonlinear_arith)
            requires
                n > 0,
                0 <= a < n,
                0 <= b < n,
                0 <= r < n,
                r + a == n * qa + (r + a) % n,
                r + b == n * qb + (r + b) % n,
                0 <= (r + a) % n < n,
                0 <= (r + b) % n < n,
        ;
        assert(false) by (nonlinear_arith)
            requires
                n > 0,
                0 <= a < n,
                0 <= b < n,
                a != b,
                -1 <= qa - qb <= 1,
                r + a == n * qa + (r + a) % n,
                r + b == n * qb + (r + b) % n,
                (r + a) % n == (r + b) % n,
        ;
    }
}

/// The rotation that maps an authority index to its residue of window
/// offsets: offset `j` hits index `k` exactly when `j % n` is `k` rotated
/// back by the window's first slot.
pub open spec fn rotated_residue(start_slot: u64, n: int, k: int) -> int
    recommends
        n > 0,
{
    (k + n - (start_slot as int) % n) % n
}

/// Offset `j` of the window is assigned to authority `k` exactly when
/// `j % n == rotated_residue(start_slot, n, k)`.
proof fn lemma_slot_residue(start_slot: u64, j: int, n: int, k: int)
    requires
        n > 0,
        0 <= k < n,
        j >= 0,
        start_slot + j <= u64::MAX,
    ensures
        (assigned_index((start_slot + j) as u64, n) == k) <==> (j % n == rotated_residue(
            start_slot,
            n,
            k,
        )),
{
    let s = start_slot as int;
    let r = s % n;
    let m = rotated_residue(start_slot, n, k);
    lemma_mod_division_less_than_divisor(s, n);
    lemma_mod_division_less_than_divisor(j, n);
    lemma_mod_division_less_than_divisor(k + n - r, n);
    // (s + j) % n == (r + j % n) % n
    assert((s + j) % n == (r + j % n) % n) by {
        lemma_add_mod_noop_right(s, j, n);
        lemma_add_mod_noop_right(r, j, n);
        assert((s + j) % n == (s + j % n) % n);
        assert((r + j % n) % n == (r + j) % n) by {
            lemma_add_mod_noop_right(j % n, s, n);
            lemma_add_mod_noop_right(j % n, r, n);
            assert((j % n + s) % n == (j % n + r) % n);
        }
        lemma_add_mod_noop_right(j, s, n);
        lemma_add_mod_noop_right(j, r, n);
    }
    // (r + m) % n == k
    assert((r + m) % n == k) by {
        lemma_add_mod_noop_right(r, k + n - r, n);
        assert((r + m) % n == (r + (k + n - r)) % n);
        assert((k + n) % n == k) by {
            lemma_mod_add_multiples_vanish(k, n);
            lemma_small_mod(k as nat, n as nat);
        }
    }
    if j % n == m {
        assert((s + j) % n == (r + m) % n);
    }
    if assigned_index((start_slot + j) as u64, n) == k {
        assert((r + j % n) % n == k);
        lemma_mod_shift_injective(j % n, m, r, n);
    }
}

/// The count of window slots assigned to `k` equals the count of offsets
/// whose residue is `k`'s rotation.
proof fn lemma_window_count_as_residue(start_slot: u64, len: int, n: int, k: int)
    requires
        n > 0,
        0 <= k < n,
        len >= 0,
        start_slot + len <= u64::MAX + 1,
    ensures
        window_count(start_slot, len, n, k) == residue_count(
            rotated_residue(start_slot, n, k),
            n,
            len,
        ),
    decreases len,
{
    if len > 0 {
        lemma_window_count_as_residue(start_slot, len - 1, n, k);
        lemma_slot_residue(start_slot, len - 1, n, k);
    }
}

/// Round-robin coverage: with `n > 0` authorities, the authority at index
/// `k` owns either `floor(len / n)` or `ceil(len / n)` of the window's
/// `len` slots; when `n` divides `len`, exactly `len / n`.
pub proof fn lemma_round_robin_share(start_slot: u64, len: int, n: int, k: int)
    requires
        n > 0,
        0 <= k < n,
        len >= 0,
        start_slot + len <= u64::MAX + 1,
    ensures
        len / n <= window_count(start_slot, len, n, k) <= len / n + 1,
        len % n == 0 ==> window_count(start_slot, len, n, k) == len / n,
        len % n > 0 ==> (window_count(start_slot, len, n, k) == len / n + 1 <==> rotated_residue(
            start_slot,
            n,
            k,
        ) < len % n),
{
    let m = rotated_residue(start_slot, n, k);
    lemma_mod_division_less_than_divisor(k + n - (start_slot as int) % n, n);
    lemma_mod_division_less_than_divisor(start_slot as int, n);
    lemma_mod_division_less_than_divisor(len, n);
    lemma_window_count_as_residue(start_slot, len, n, k);
    lemma_residue_count_exact(m, n, len);
}

/// The assignments partition the window: every slot has exactly one
/// assigned authority index, and summing the per-index counts over all
/// indices recovers the window's length.
pub proof fn lemma_assignment_partitions(start_slot: u64, len: int, n: int)
    requires
        n > 0,
        len >= 0,
        start_slot + len <= u64::MAX + 1,
    ensures
        forall|j: int|
            0 <= j < len ==> 0 <= #[trigger] assigned_index((start_slot + j) as u64, n) < n,
        window_count_sum(start_slot, len, n, n) == len,
{
    assert forall|j: int|
        0 <= j < len implies 0 <= #[trigger] assigned_index((start_slot + j) as u64, n) < n by {
        lemma_mod_division_less_than_divisor((start_slot + j) as u64 as int, n);
    }
    lemma_window_count_sum(start_slot, len, n);
}

/// Sum of `window_count` over authority indices `0 .. bound`.
pub open spec fn window_count_sum(start_slot: u64, len: int, n: int, bound: int) -> int
    decreases bound,
{
    if bound <= 0 {
        0
    } else {
        window_count_sum(start_slot, len, n, bound - 1) + window_count(start_slot, len, n, bound
            - 1)
    }
}

proof fn lemma_window_count_sum(start_slot: u64, len: int, n: int)
    requires
        n > 0,
        len >= 0,
        start_slot + len <= u64::MAX + 1,
    ensures
        window_count_sum(start_slot, len, n, n) == len,
    decreases len,
{
    if len == 0 {
        lemma_window_count_sum_empty(start_slot, n, n);
    } else {
        lemma_window_count_sum(start_slot, len - 1, n);
        let hit = assigned_index((start_slot + len - 1) as u64, n);
        lemma_mod_division_less_than_divisor((start_slot + len - 1) as u64 as int, n);
        lemma_window_count_sum_step(start_slot, len, n, n, hit);
    }
}

proof fn lemma_window_count_sum_empty(start_slot: u64, n: int, bound: int)
    ensures
        window_count_sum(start_slot, 0, n, bound) == 0,
    decreases bound,
{
    if bound > 0 {
        lemma_window_count_sum_empty(start_slot, n, bound - 1);
    }
}

/// Extending the window by one slot raises the partial sums by one once
/// the assigned index is below the bound.
proof fn lemma_window_count_sum_step(start_slot: u64, len: int, n: int, bound: int, hit: int)
    requires
        n > 0,
        len > 0,
        start_slot + len <= u64::MAX + 1,
        hit == assigned_index((start_slot + len - 1) as u64, n),
        0 <= hit < n,
        0 <= bound <= n,
    ensures
        window_count_sum(start_slot, len, n, bound) == window_count_sum(start_slot, len - 1, n,
            bound) + if hit < bound {
            1int
        } else {
            0int
        },
    decreases bound,
{
    if bound > 0 {
        lemma_window_count_sum_step(start_slot, len, n, bound - 1, hit);
    }
}

/// Every listed slot lies inside the window it was computed for.
pub proof fn lemma_own_slots_bounds(
    auths: Seq<Vec<u8>>,
    author: Seq<u8>,
    start_slot: u64,
    count: int,
)
    requires
        0 <= count,
        start_slot + count <= u64::MAX + 1,
    ensures
        forall|i: int|
            0 <= i < own_slots_spec(auths, author, start_slot, count).len() ==> start_slot
                <= #[trigger] own_slots_spec(auths, author, start_slot, count)[i] < start_slot
                + count,
    decreases count,
{
    if count > 0 && auths.len() > 0 {
        lemma_own_slots_bounds(auths, author, start_slot, count - 1);
        let rest = own_slots_spec(auths, author, start_slot, count - 1);
        let cur = own_slots_spec(auths, author, start_slot, count);
        assert forall|i: int| 0 <= i < cur.len() implies start_slot <= #[trigger] cur[i]
            < start_slot + count by {
            if i < rest.len() {
                assert(cur[i] == rest[i]);
            }
        }
    }
}

/// The computed schedule is strictly ascending: slots are listed in the
/// order they will occur, without repetition.
pub proof fn lemma_own_slots_ascending(
    auths: Seq<Vec<u8>>,
    author: Seq<u8>,
    start_slot: u64,
    count: int,
)
    requires
        0 <= count,
        start_slot + count <= u64::MAX + 1,
    ensures
        forall|i: int, j: int|
            0 <= i < j < own_slots_spec(auths, author, start_slot, count).len() ==> #[trigger] own_slots_spec(
                auths,
                author,
                start_slot,
                count,
            )[i] < #[trigger] own_slots_spec(auths, author, start_slot, count)[j],
    decreases count,
{
    if count > 0 && auths.len() > 0 {
        lemma_own_slots_ascending(auths, author, start_slot, count - 1);
        lemma_own_slots_bounds(auths, author, start_slot, count - 1);
        let rest = own_slots_spec(auths, author, start_slot, count - 1);
        let cur = own_slots_spec(auths, author, start_slot, count);
        assert forall|i: int, j: int| 0 <= i < j < cur.len() implies #[trigger] cur[i]
            < #[trigger] cur[j] by {
            if j < rest.len() {
                assert(cur[i] == rest[i] && cur[j] == rest[j]);
            } else if cur.len() > rest.len() {
                assert(cur[j] == (start_slot + count - 1) as u64);
                assert(cur[i] == rest[i]);
                assert(rest[i] < start_slot + count - 1);
            }
        }
    }
}

/// `own_slots_spec` is a function of its arguments alone: equal authority
/// lists (element-wise), identities and windows give equal slot lists.
pub proof fn lemma_own_slots_deterministic(
    auths_a: Seq<Vec<u8>>,
    auths_b: Seq<Vec<u8>>,
    author: Seq<u8>,
    start_slot: u64,
    count: int,
)
    requires
        auths_a.len() == auths_b.len(),
        forall|i: int| 0 <= i < auths_a.len() ==> auths_a[i]@ == auths_b[i]@,
    ensures
        own_slots_spec(auths_a, author, start_slot, count) == own_slots_spec(
            auths_b,
            author,
            start_slot,
            count,
        ),
    decreases count,
{
    if count > 0 && auths_a.len() > 0 {
        lemma_own_slots_deterministic(auths_a, auths_b, author, start_slot, count - 1);
    }
}

/// Membership in the computed schedule: a slot is listed exactly when it
/// lies in the window and round-robin assigns it to the author.
pub proof fn lemma_own_slots_membership(
    auths: Seq<Vec<u8>>,
    author: Seq<u8>,
    start_slot: u64,
    count: int,
    slot: u64,
)
    requires
        auths.len() > 0,
        0 <= count,
        start_slot + count <= u64::MAX + 1,
    ensures
        own_slots_spec(auths, author, start_slot, count).contains(slot) <==> (start_slot <= slot
            < start_slot + count && auths[assigned_index(slot, auths.len() as int)]@ == author),
    decreases count,
{
    if count > 0 {
        lemma_own_slots_membership(auths, author, start_slot, count - 1, slot);
        let s = (start_slot + count - 1) as u64;
        let rest = own_slots_spec(auths, author, start_slot, count - 1);
        if auths[assigned_index(s, auths.len() as int)]@ == author {
            assert forall|x: u64| #[trigger]
                rest.push(s).contains(x) implies (rest.contains(x) || x == s) by {
                let i = choose|i: int| 0 <= i < rest.push(s).len() && rest.push(s)[i] == x;
                if i < rest.len() {
                    assert(rest[i] == x);
                }
            }
            assert forall|x: u64| rest.contains(x) || x == s implies #[trigger]
                rest.push(s).contains(x) by {
                if rest.contains(x) {
                    let i = choose|i: int| 0 <= i < rest.len() && rest[i] == x;
                    assert(rest.push(s)[i] == x);
                } else {
                    assert(rest.push(s)[rest.len() as int] == x);
                }
            }
        }
    }
}

} // verus!
