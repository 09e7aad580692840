//! Alignment arithmetic and the bookkeeping side of a virtual-memory
//! reservation.
//!
//! A reservation is a contiguous range of address space of fixed size. The
//! hosting program obtains it from the operating system; this module tracks
//! its extent and computes, fully verified, the page-aligned spans that
//! protection changes (commit and uncommit) must cover.

use vstd::arithmetic::div_mod::lemma_add_mod_noop;
use vstd::arithmetic::div_mod::lemma_basic_div;
use vstd::arithmetic::div_mod::lemma_fundamental_div_mod;
use vstd::arithmetic::div_mod::lemma_hoist_over_denominator;
use vstd::arithmetic::div_mod::lemma_mod_division_less_than_divisor;
use vstd::arithmetic::div_mod::lemma_mod_multiples_basic;
use vstd::arithmetic::div_mod::lemma_mod_self_0;
use vstd::arithmetic::div_mod::lemma_small_mod;
use vstd::arithmetic::div_mod::lemma_sub_mod_noop;
use vstd::arithmetic::mul::lemma_mul_is_commutative;
use vstd::arithmetic::mul::lemma_mul_is_distributive_add_other_way;
use vstd::prelude::*;

verus! {

/// The least multiple of `m` that is at least `v`, for `m > 0`:
/// `v + (m - v % m) % m`.
pub open spec fn round_up(v: int, m: int) -> int
    recommends
        m > 0,
{
    v + (m - v % m) % m
}

/// The greatest multiple of `m` that is at most `v`, for `m > 0`.
pub open spec fn round_down(v: int, m: int) -> int
    recommends
        m > 0,
{
    v - v % m
}

/// Law: for every `v >= 0` and `m > 0`, `round_up(v, m)` is at least `v`,
/// is a multiple of `m`, and lies less than `m` above `v`.
pub proof fn lemma_round_up_properties(v: int, m: int)
    requires
        0 <= v,
        0 < m,
    ensures
        round_up(v, m) >= v,
        round_up(v, m) % m == 0,
        round_up(v, m) - v < m,
{
    lemma_mod_division_less_than_divisor(v, m);
    let r = v % m;
    if r == 0 {
        lemma_mod_self_0(m);
    } else {
        lemma_small_mod((m - r) as nat, m as nat);
        lemma_add_mod_noop(v, m - r, m);
        lemma_mod_self_0(m);
        lemma_small_mod(0nat, m as nat);
    }
}

/// Law: no multiple of `m` at least `v` is smaller than `round_up(v, m)`.
pub proof fn lemma_round_up_least(v: int, m: int, w: int)
    requires
        0 <= v,
        0 < m,
        w % m == 0,
        v <= w,
    ensures
        round_up(v, m) <= w,
{
    lemma_round_up_properties(v, m);
    let r = round_up(v, m);
    if w < r {
        lemma_sub_mod_noop(r, w, m);
        lemma_small_mod(0nat, m as nat);
        lemma_small_mod((r - w) as nat, m as nat);
        assert(false);
    }
}

/// Law: `round_up` is monotone in its first argument.
pub proof fn lemma_round_up_monotonic(v1: int, v2: int, m: int)
    requires
        0 <= v1 <= v2,
        0 < m,
    ensures
        round_up(v1, m) <= round_up(v2, m),
{
    lemma_round_up_properties(v2, m);
    lemma_round_up_least(v1, m, round_up(v2, m));
}

/// Law: `round_up(v, m)` is the ceiling of `v / m` times `m`.
pub proof fn lemma_round_up_as_ceil(v: int, m: int)
    requires
        0 <= v,
        0 < m,
    ensures
        round_up(v, m) == ((v + m - 1) / m) * m,
{
    lemma_round_up_form(v, m);
    lemma_mod_division_less_than_divisor(v, m);
    lemma_fundamental_div_mod(v, m);
    let q = v / m;
    let r = v % m;
    lemma_hoist_over_denominator(r + m - 1, q, m as nat);
    lemma_mul_is_commutative(m, q);
    if r == 0 {
        lemma_basic_div(m - 1, m);
        assert((v + m - 1) / m == q);
    } else {
        lemma_hoist_over_denominator(r - 1, 1, m as nat);
        lemma_basic_div(r - 1, m);
        assert((r + m - 1) / m == 1);
        assert((v + m - 1) / m == q + 1);
        lemma_mul_is_distributive_add_other_way(m, q, 1);
    }
}

/// Law: for `m > 0`, `round_up(v, m)` is `v` itself when `v` is a multiple
/// of `m`, and `v` plus the distance to the next multiple otherwise.
pub proof fn lemma_round_up_form(v: int, m: int)
    requires
        0 <= v,
        0 < m,
    ensures
        round_up(v, m) == if v % m == 0 {
            v
        } else {
            v + (m - v % m)
        },
{
    lemma_mod_division_less_than_divisor(v, m);
    if v % m == 0 {
        lemma_mod_self_0(m);
        lemma_small_mod(0nat, m as nat);
    } else {
        lemma_small_mod((m - v % m) as nat, m as nat);
    }
}

/// Rounds `value` up to the next multiple of `to`.
///
/// The caller must leave room for the rounding: the result never exceeds
/// `value + to - 1`.
pub fn align_to(value: usize, to: usize) -> (r: usize)
    requires
        1 <= to,
        value + to - 1 <= usize::MAX,
    ensures
        r == round_up(value as int, to as int),
        r >= value,
        r as int % to as int == 0,
        r - value < to,
{
    proof {
        lemma_round_up_properties(value as int, to as int);
        lemma_round_up_form(value as int, to as int);
    }
    let rem = value % to;
    if rem == 0 {
        value
    } else {
        value + (to - rem)
    }
}

/// Rounds `v` up to the next multiple of `m`, for a result already known to
/// be representable.
pub(crate) fn round_up_exec(v: usize, m: usize) -> (r: usize)
    requires
        1 <= m,
        round_up(v as int, m as int) <= usize::MAX,
    ensures
        r == round_up(v as int, m as int),
{
    proof {
        lemma_round_up_properties(v as int, m as int);
        lemma_round_up_form(v as int, m as int);
    }
    let rem = v % m;
    if rem == 0 {
        v
    } else {
        v + (m - rem)
    }
}

/// `round_up(v, m)` if it fits in a `usize`, `None` otherwise.
pub(crate) fn round_up_checked(v: usize, m: usize) -> (r: Option<usize>)
    requires
        1 <= m,
    ensures
        r is Some <==> round_up(v as int, m as int) <= usize::MAX,
        r matches Some(x) ==> x == round_up(v as int, m as int),
{
    proof {
        lemma_round_up_form(v as int, m as int);
    }
    let rem = v % m;
    if rem == 0 {
        Some(v)
    } else {
        v.checked_add(m - rem)
    }
}

/// The bookkeeping of one contiguous reservation of virtual address space.
///
/// The range itself is obtained and released by the hosting program; this
/// type records its fixed total size and computes the page-aligned spans
/// that protection changes over sub-ranges must cover. A sub-range is
/// acceptable only when it lies inside `[0, size)`.
pub struct VirtualMemory {
    size: usize,
}

impl VirtualMemory {
    /// Total size of the reservation, in bytes.
    pub closed spec fn spec_size(&self) -> usize {
        self.size
    }

    /// Records a reservation of `size` bytes.
    pub fn new(size: usize) -> (r: Self)
        ensures
            r.spec_size() == size,
    {
        VirtualMemory { size }
    }

    /// Total size of the reservation, in bytes.
    pub fn size(&self) -> (r: usize)
        ensures
            r == self.spec_size(),
    {
        self.size
    }

    /// The page-aligned span that a protection change (commit or uncommit)
    /// over `[offset, offset + len)` must cover: `offset` rounded down and
    /// the end rounded up to multiples of `page_size`.
    ///
    /// Returns `None` when the requested range leaves the reservation, or
    /// when the rounded end is not representable.
    pub fn protect_span(&self, offset: usize, len: usize, page_size: usize) -> (r: Option<
        (usize, usize),
    >)
        requires
            1 <= page_size,
        ensures
            r is Some <==> (offset + len <= self.spec_size() && round_up(
                offset + len,
                page_size as int,
            ) <= usize::MAX),
            r matches Some(span) ==> {
                &&& span.0 == round_down(offset as int, page_size as int)
                &&& span.0 + span.1 == round_up(offset + len, page_size as int)
                &&& span.0 <= offset
                &&& offset + len <= span.0 + span.1
                &&& span.0 as int % page_size as int == 0
                &&& span.1 as int % page_size as int == 0
            },
    {
        let end = match offset.checked_add(len) {
            Some(e) => e,
            None => {
                return None;
            },
        };
        if end > self.size {
            return None;
        }
        let rounded_end = match round_up_checked(end, page_size) {
            Some(x) => x,
            None => {
                return None;
            },
        };
        proof {
            let p = page_size as int;
            lemma_mod_division_less_than_divisor(offset as int, p);
            lemma_fundamental_div_mod(offset as int, p);
            lemma_mod_multiples_basic(offset as int / p, p);
            lemma_round_up_properties(end as int, p);
            lemma_sub_mod_noop(rounded_end as int, round_down(offset as int, p), p);
            lemma_small_mod(0nat, p as nat);
        }
        let start = offset - offset % page_size;
        Some((start, rounded_end - start))
    }
}

/// Total bytes of physical memory, from the page count and the page size the
/// platform reports.
pub fn total_phys_ram(phys_pages: usize, page_size: usize) -> (r: usize)
    requires
        phys_pages * page_size <= usize::MAX,
    ensures
        r == phys_pages * page_size,
{
    phys_pages * page_size
}

} // verus!
