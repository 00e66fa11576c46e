//! How much room a value needs behind its header, and on which addresses it may lie.

use vstd::layout::layout_for_type_is_valid;
use vstd::prelude::*;

verus! {

/// The least multiple of `align` that is at least `n`.
pub open spec fn round_up(n: int, align: int) -> int {
    if n % align == 0 {
        n
    } else {
        n + align - n % align
    }
}

/// The larger of two alignments.
pub open spec fn larger(a: nat, b: nat) -> nat {
    if a <= b {
        b
    } else {
        a
    }
}

/// The number of bytes of a `T` behind an `H`: the header, padded to where a `T`
/// may lie, then the value, padded to where the next header may lie.
pub open spec fn bytes_behind<H, T>() -> nat {
    let start = round_up(vstd::layout::size_of::<H>() as int, vstd::layout::align_of::<T>() as int);
    round_up(start + vstd::layout::size_of::<T>(), align_behind::<H, T>() as int) as nat
}

/// The alignment of a `T` behind an `H`.
pub open spec fn align_behind<H, T>() -> nat {
    larger(vstd::layout::align_of::<H>(), vstd::layout::align_of::<T>())
}

/// `round_up` gives the least multiple that is not below its argument.
pub proof fn lemma_round_up(n: int, align: int)
    requires
        0 <= n,
        0 < align,
    ensures
        round_up(n, align) % align == 0,
        n <= round_up(n, align) < n + align,
        forall|m: int| n <= m && #[trigger] (m % align) == 0 ==> round_up(n, align) <= m,
{
    vstd::arithmetic::div_mod::lemma_mod_bound(n, align);
    vstd::arithmetic::div_mod::lemma_fundamental_div_mod(n, align);
    let q = n / align;
    if n % align != 0 {
        vstd::arithmetic::div_mod::lemma_mod_multiples_basic(q + 1, align);
        assert(round_up(n, align) == (q + 1) * align) by (nonlinear_arith)
            requires
                round_up(n, align) == n + align - n % align,
                n == align * q + n % align,
        ;
        assert forall|m: int| n <= m && #[trigger] (m % align) == 0 implies round_up(n, align)
            <= m by {
            vstd::arithmetic::div_mod::lemma_fundamental_div_mod(m, align);
            let k = m / align;
            assert(k >= q + 1) by (nonlinear_arith)
                requires
                    m == align * k,
                    n <= m,
                    n == align * q + n % align,
                    n % align > 0,
                    align > 0,
            ;
            assert((q + 1) * align <= m) by (nonlinear_arith)
                requires
                    m == align * k,
                    k >= q + 1,
                    align > 0,
            ;
        }
    }
}

/// The multiple of `align` next above another one is what every number between
/// the two is rounded up to.
pub proof fn lemma_round_up_between(n: int, align: int, below: int)
    requires
        0 < align,
        0 <= below < n <= below + align,
        below % align == 0,
    ensures
        round_up(n, align) == below + align,
{
    lemma_round_up(n, align);
    lemma_mod_add(below, align);
    if round_up(n, align) < below + align {
        vstd::arithmetic::div_mod::lemma_fundamental_div_mod(below, align);
        vstd::arithmetic::div_mod::lemma_fundamental_div_mod(round_up(n, align), align);
        let i = below / align;
        let j = round_up(n, align) / align;
        assert(false) by (nonlinear_arith)
            requires
                align * i < align * j,
                align * j < align * i + align,
                align > 0,
        ;
    }
}

/// Stepping from a multiple of `align` to the next one, or back.
pub proof fn lemma_mod_add(n: int, align: int)
    requires
        0 < align,
        n % align == 0,
    ensures
        (n + align) % align == 0,
        (n - align) % align == 0,
{
    vstd::arithmetic::div_mod::lemma_mod_multiples_vanish(1, n, align);
    vstd::arithmetic::div_mod::lemma_mod_multiples_vanish(-1, n, align);
}

/// The first multiple of `align` from `n` on is what `n` is rounded up to.
proof fn lemma_round_up_is(n: int, align: int, m: int)
    requires
        0 <= n,
        0 < align,
        n <= m < n + align,
        m % align == 0,
    ensures
        round_up(n, align) == m,
{
    lemma_round_up(n, align);
    vstd::arithmetic::div_mod::lemma_fundamental_div_mod(m, align);
    vstd::arithmetic::div_mod::lemma_fundamental_div_mod(round_up(n, align), align);
    let i = m / align;
    let j = round_up(n, align) / align;
    assert(i == j) by (nonlinear_arith)
        requires
            align * j <= align * i,
            align * i < align * j + align,
            align > 0,
    ;
}

/// A multiple of a multiple of `a` is a multiple of `a`.
proof fn lemma_multiple_of_multiple(n: int, w: int, a: int)
    requires
        0 < a,
        0 < w,
        w % a == 0,
        n % w == 0,
    ensures
        n % a == 0,
{
    vstd::arithmetic::div_mod::lemma_fundamental_div_mod(n, w);
    vstd::arithmetic::div_mod::lemma_fundamental_div_mod(w, a);
    let i = n / w;
    let j = w / a;
    assert(n == (i * j) * a) by (nonlinear_arith)
        requires
            n == w * i,
            w == a * j,
    ;
    vstd::arithmetic::div_mod::lemma_mod_multiples_basic(i * j, a);
}

/// The alignment of a `T` behind an `H` is that of one of the two types, and
/// suits both: it is a multiple of either.
pub proof fn lemma_alignment_suits_header_and_value<H, T>()
    requires
        vstd::arithmetic::power2::is_pow2(vstd::layout::align_of::<H>() as int),
        vstd::arithmetic::power2::is_pow2(vstd::layout::align_of::<T>() as int),
    ensures
        align_behind::<H, T>() as int % vstd::layout::align_of::<H>() as int == 0,
        align_behind::<H, T>() as int % vstd::layout::align_of::<T>() as int == 0,
        align_behind::<H, T>() == vstd::layout::align_of::<H>() || align_behind::<H, T>()
            == vstd::layout::align_of::<T>(),
{
    let h = vstd::layout::align_of::<H>() as int;
    let t = vstd::layout::align_of::<T>() as int;
    lemma_pow2_divides(h, h);
    lemma_pow2_divides(t, t);
    if h <= t {
        lemma_pow2_divides(h, t);
    } else {
        lemma_pow2_divides(t, h);
    }
}

/// A `T` behind an `H` starts at the first multiple of its alignment from the end
/// of the header on. The bytes of both hold header and value, end where the next
/// header and the next value may start, and are the fewest that do.
pub proof fn lemma_bytes_hold_header_and_value<H, T>(start: int, bytes: int)
    requires
        vstd::arithmetic::power2::is_pow2(vstd::layout::align_of::<H>() as int),
        vstd::arithmetic::power2::is_pow2(vstd::layout::align_of::<T>() as int),
        vstd::layout::size_of::<H>() <= start < vstd::layout::size_of::<H>()
            + vstd::layout::align_of::<T>(),
        start % vstd::layout::align_of::<T>() as int == 0,
    ensures
        start + vstd::layout::size_of::<T>() <= bytes_behind::<H, T>(),
        bytes_behind::<H, T>() < start + vstd::layout::size_of::<T>() + vstd::layout::align_of::<H>()
            || bytes_behind::<H, T>() < start + vstd::layout::size_of::<T>()
            + vstd::layout::align_of::<T>(),
        bytes_behind::<H, T>() as int % vstd::layout::align_of::<H>() as int == 0,
        bytes_behind::<H, T>() as int % vstd::layout::align_of::<T>() as int == 0,
        ({
            &&& start + vstd::layout::size_of::<T>() <= bytes
            &&& bytes % vstd::layout::align_of::<H>() as int == 0
            &&& bytes % vstd::layout::align_of::<T>() as int == 0
        }) ==> bytes_behind::<H, T>() <= bytes,
{
    let h = vstd::layout::align_of::<H>() as int;
    let t = vstd::layout::align_of::<T>() as int;
    let w = align_behind::<H, T>() as int;
    let end = start + vstd::layout::size_of::<T>();
    lemma_alignment_suits_header_and_value::<H, T>();
    lemma_pow2_divides(h, h);
    lemma_pow2_divides(t, t);
    lemma_round_up_is(vstd::layout::size_of::<H>() as int, t, start);
    lemma_round_up(end, w);
    lemma_multiple_of_multiple(round_up(end, w), w, h);
    lemma_multiple_of_multiple(round_up(end, w), w, t);
}

/// Behind a header on a multiple of the alignment of both, the value lies on a
/// multiple of its own.
pub proof fn lemma_value_is_aligned<H, T>(ptr: int, start: int)
    requires
        vstd::arithmetic::power2::is_pow2(vstd::layout::align_of::<H>() as int),
        vstd::arithmetic::power2::is_pow2(vstd::layout::align_of::<T>() as int),
        ptr % align_behind::<H, T>() as int == 0,
        start % vstd::layout::align_of::<T>() as int == 0,
    ensures
        ptr % vstd::layout::align_of::<H>() as int == 0,
        ptr % vstd::layout::align_of::<T>() as int == 0,
        (ptr + start) % vstd::layout::align_of::<T>() as int == 0,
{
    let h = vstd::layout::align_of::<H>() as int;
    let t = vstd::layout::align_of::<T>() as int;
    lemma_alignment_suits_header_and_value::<H, T>();
    lemma_pow2_divides(h, h);
    lemma_pow2_divides(t, t);
    lemma_multiple_of_multiple(ptr, align_behind::<H, T>() as int, h);
    lemma_multiple_of_multiple(ptr, align_behind::<H, T>() as int, t);
    vstd::arithmetic::div_mod::lemma_small_mod(0, t as nat);
    vstd::arithmetic::div_mod::lemma_add_mod_noop(ptr, start, t);
}

/// A power of two divides every power of two that is not below it.
proof fn lemma_pow2_divides(p: int, q: int)
    requires
        vstd::arithmetic::power2::is_pow2(p),
        vstd::arithmetic::power2::is_pow2(q),
        p <= q,
    ensures
        0 < p,
        q % p == 0,
    decreases p,
{
    reveal(vstd::arithmetic::power2::is_pow2);
    if p != 1 {
        lemma_pow2_divides(p / 2, q / 2);
        vstd::arithmetic::div_mod::lemma_fundamental_div_mod(q / 2, p / 2);
        let k = (q / 2) / (p / 2);
        assert(q == k * p) by (nonlinear_arith)
            requires
                q / 2 == (p / 2) * k,
                q % 2 == 0,
                p % 2 == 0,
        ;
        vstd::arithmetic::div_mod::lemma_mod_multiples_basic(k, p);
    }
}

/// Half of the address space is a power of two.
proof fn lemma_half_is_pow2()
    ensures
        vstd::arithmetic::power2::is_pow2(isize::MAX + 1),
        usize::MAX + 1 == 2 * (isize::MAX + 1),
{
    reveal(vstd::arithmetic::power2::is_pow2);
    reveal_with_fuel(vstd::arithmetic::power2::is_pow2, 65);
    assert(usize::BITS == 32 || usize::BITS == 64);
}

/// A valid alignment divides half of the address space, and a valid size leaves
/// room for one step of its alignment in that half.
proof fn lemma_valid_layout(size: usize, align: usize)
    requires
        vstd::layout::valid_layout(size, align),
    ensures
        0 < align <= isize::MAX + 1,
        (isize::MAX + 1) % (align as int) == 0,
        size <= isize::MAX + 1 - align,
{
    let half = isize::MAX + 1;
    lemma_half_is_pow2();
    if align > half {
        lemma_pow2_divides(half, align as int);
        vstd::arithmetic::div_mod::lemma_small_mod((align - half) as nat, half as nat);
        vstd::arithmetic::div_mod::lemma_mod_multiples_vanish(1, align - half, half);
    }
    lemma_pow2_divides(align as int, half);
    vstd::arithmetic::div_mod::lemma_small_mod((align - 1) as nat, align as nat);
    vstd::arithmetic::div_mod::lemma_fundamental_div_mod(half, align as int);
    let k = half / align as int;
    assert(half - 1 == align * (k - 1) + (align - 1)) by (nonlinear_arith)
        requires
            half == align * k,
    ;
    vstd::arithmetic::div_mod::lemma_mod_multiples_vanish(k - 1, align - 1, align as int);
}

/// No step of laying a value out behind a header leaves the address space.
proof fn lemma_layout_fits(h: usize, ha: usize, s: usize, sa: usize)
    requires
        vstd::layout::valid_layout(h, ha),
        vstd::layout::valid_layout(s, sa),
        h as int % ha as int == 0,
    ensures
        round_up(h as int, sa as int) <= usize::MAX,
        round_up(h as int, sa as int) + s <= usize::MAX,
        round_up(round_up(h as int, sa as int) + s, larger(ha as nat, sa as nat) as int)
            <= usize::MAX,
{
    let half = isize::MAX + 1;
    lemma_half_is_pow2();
    lemma_valid_layout(h, ha);
    lemma_valid_layout(s, sa);
    lemma_round_up(h as int, sa as int);
    let w = larger(ha as nat, sa as nat) as int;
    let end = round_up(h as int, sa as int) + s;
    if sa < ha {
        lemma_pow2_divides(sa as int, ha as int);
        vstd::arithmetic::div_mod::lemma_fundamental_div_mod(h as int, ha as int);
        vstd::arithmetic::div_mod::lemma_fundamental_div_mod(ha as int, sa as int);
        let i = h as int / ha as int;
        let j = ha as int / sa as int;
        assert(h as int == (i * j) * sa) by (nonlinear_arith)
            requires
                h as int == ha * i,
                ha as int == sa * j,
        ;
        vstd::arithmetic::div_mod::lemma_mod_multiples_basic(i * j, sa as int);
    }
    lemma_round_up(end, w);
    vstd::arithmetic::div_mod::lemma_fundamental_div_mod(half, w);
    let k = half / w;
    assert(2 * half - w == (2 * k - 1) * w) by (nonlinear_arith)
        requires
            half == w * k,
    ;
    vstd::arithmetic::div_mod::lemma_mod_multiples_basic(2 * k - 1, w);
}

/// Rounds `n` up to a multiple of `align`, if the result is a `usize`.
pub fn checked_round_up(n: usize, align: usize) -> (rounded: Option<usize>)
    requires
        0 < align,
    ensures
        rounded is Some <==> round_up(n as int, align as int) <= usize::MAX,
        rounded matches Some(r) ==> r == round_up(n as int, align as int),
        rounded matches Some(r) ==> n <= r < n + align && r as int % align as int == 0,
        rounded is None ==> forall|m: int|
            n <= m <= usize::MAX ==> #[trigger] (m % align as int) != 0,
{
    proof {
        lemma_round_up(n as int, align as int);
    }
    let over: usize = n % align;
    if over == 0 {
        Some(n)
    } else {
        n.checked_add(align - over)
    }
}

/// The number of bytes and the alignment of a `T` behind an `H`.
pub fn layout_behind<H, T>() -> (layout: (usize, usize))
    ensures
        layout.0 == bytes_behind::<H, T>(),
        layout.1 == align_behind::<H, T>(),
        0 < vstd::layout::align_of::<H>(),
        0 < vstd::layout::align_of::<T>(),
        layout.0 as int % layout.1 as int == 0,
        vstd::arithmetic::power2::is_pow2(vstd::layout::align_of::<H>() as int),
        vstd::arithmetic::power2::is_pow2(vstd::layout::align_of::<T>() as int),
        layout.1 as int % vstd::layout::align_of::<H>() as int == 0,
        layout.1 as int % vstd::layout::align_of::<T>() as int == 0,
        layout.1 == vstd::layout::align_of::<H>() || layout.1 == vstd::layout::align_of::<T>(),
        vstd::layout::size_of::<H>() + vstd::layout::size_of::<T>() <= layout.0,
        layout.0 as int % vstd::layout::align_of::<H>() as int == 0,
        layout.0 as int % vstd::layout::align_of::<T>() as int == 0,
        forall|start: int|
            vstd::layout::size_of::<H>() <= start < vstd::layout::size_of::<H>()
                + vstd::layout::align_of::<T>() && #[trigger] (start
                % vstd::layout::align_of::<T>() as int) == 0 ==> {
                &&& start + vstd::layout::size_of::<T>() <= layout.0
                &&& layout.0 < start + vstd::layout::size_of::<T>() + vstd::layout::align_of::<H>()
                    || layout.0 < start + vstd::layout::size_of::<T>() + vstd::layout::align_of::<T>()
            },
{
    layout_for_type_is_valid::<H>();
    layout_for_type_is_valid::<T>();
    let h: usize = core::mem::size_of::<H>();
    let ha: usize = core::mem::align_of::<H>();
    let s: usize = core::mem::size_of::<T>();
    let sa: usize = core::mem::align_of::<T>();
    proof {
        lemma_alignment_suits_header_and_value::<H, T>();
        lemma_round_up(h as int, sa as int);
        let first = round_up(h as int, sa as int);
        lemma_bytes_hold_header_and_value::<H, T>(first, 0);
        assert forall|start: int|
            h <= start < h + sa && #[trigger] (start % sa as int) == 0 implies start == first by {
            lemma_round_up_is(h as int, sa as int, start);
        }
        lemma_layout_fits(h, ha, s, sa);
        lemma_round_up(h as int, sa as int);
        lemma_round_up(
            round_up(h as int, sa as int) + s,
            larger(ha as nat, sa as nat) as int,
        );
    }
    let align: usize = if ha <= sa {
        sa
    } else {
        ha
    };
    let start: usize = checked_round_up(h, sa).unwrap();
    (checked_round_up(start + s, align).unwrap(), align)
}

} // verus!
