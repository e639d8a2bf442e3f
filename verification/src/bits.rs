//! Integers of 128 bits as sets of bit positions.

use vstd::prelude::*;

verus! {

/// Whether bit `i` of `x` is set. Positions from 128 upwards are never set.
pub open spec fn has_bit(x: u128, i: nat) -> bool {
    i < 128 && (x >> (i as u128)) & 1 == 1
}

/// The positions of the bits that are set in `x`.
pub open spec fn bit_set(x: u128) -> Set<nat> {
    Set::new(|i: nat| has_bit(x, i))
}

proof fn lemma_bit_of_zero(i: nat)
    ensures
        !has_bit(0, i),
{
    if i < 128 {
        let k: u128 = i as u128;
        assert((0u128 >> k) & 1 == 0) by (bit_vector);
    }
}

proof fn lemma_bit_of_single(j: nat, i: nat)
    requires
        j < 128,
    ensures
        has_bit(1u128 << (j as u128), i) <==> i == j,
{
    if i < 128 {
        let k: u128 = i as u128;
        let m: u128 = j as u128;
        assert((((1u128 << m) >> k) & 1 == 1) <==> k == m) by (bit_vector)
            requires
                k < 128,
                m < 128,
        ;
    }
}

proof fn lemma_bit_of_or(a: u128, b: u128, i: nat)
    ensures
        has_bit(a | b, i) <==> has_bit(a, i) || has_bit(b, i),
{
    if i < 128 {
        let k: u128 = i as u128;
        assert((((a | b) >> k) & 1 == 1) <==> (((a >> k) & 1 == 1) || ((b >> k) & 1 == 1)))
            by (bit_vector);
    }
}

proof fn lemma_bit_of_and(a: u128, b: u128, i: nat)
    ensures
        has_bit(a & b, i) <==> has_bit(a, i) && has_bit(b, i),
{
    if i < 128 {
        let k: u128 = i as u128;
        assert((((a & b) >> k) & 1 == 1) <==> (((a >> k) & 1 == 1) && ((b >> k) & 1 == 1)))
            by (bit_vector);
    }
}

proof fn lemma_bit_of_xor(a: u128, b: u128, i: nat)
    ensures
        has_bit(a ^ b, i) <==> (has_bit(a, i) != has_bit(b, i)),
{
    if i < 128 {
        let k: u128 = i as u128;
        assert((((a ^ b) >> k) & 1 == 1) <==> (((a >> k) & 1 == 1) != ((b >> k) & 1 == 1)))
            by (bit_vector);
    }
}

proof fn lemma_bit_of_and_not(a: u128, b: u128, i: nat)
    ensures
        has_bit(a & !b, i) <==> has_bit(a, i) && !has_bit(b, i),
{
    if i < 128 {
        let k: u128 = i as u128;
        assert((((a & !b) >> k) & 1 == 1) <==> (((a >> k) & 1 == 1) && !((b >> k) & 1 == 1)))
            by (bit_vector);
    }
}

/// An integer whose `n` lowest bits are clear vanishes when it is shifted left
/// until bit `n - 1` is the highest.
proof fn lemma_low_bits_clear(x: u128, n: nat)
    requires
        1 <= n <= 128,
        forall|i: nat| i < n ==> !has_bit(x, i),
    ensures
        x << ((128 - n) as u128) == 0,
    decreases n,
{
    let s: u128 = (128 - n) as u128;
    let k: u128 = (n - 1) as u128;
    assert(!has_bit(x, (n - 1) as nat));
    if n == 1 {
        assert(x << s == 0) by (bit_vector)
            requires
                s == 127,
                k == 0,
                (x >> k) & 1 != 1,
        ;
    } else {
        lemma_low_bits_clear(x, (n - 1) as nat);
        let t: u128 = (128 - (n - 1)) as u128;
        assert(x << s == 0) by (bit_vector)
            requires
                k < 128,
                s + k == 127,
                t == s + 1,
                x << t == 0,
                (x >> k) & 1 != 1,
        ;
    }
}

/// An integer without any set bit is zero.
proof fn lemma_no_bits_is_zero(x: u128)
    requires
        forall|i: nat| !has_bit(x, i),
    ensures
        x == 0,
{
    lemma_low_bits_clear(x, 128);
    assert(x == 0) by (bit_vector)
        requires
            x << 0u128 == 0,
    ;
}

/// Two integers with the same bits are the same integer.
proof fn lemma_bits_determine(a: u128, b: u128)
    requires
        forall|i: nat| has_bit(a, i) == has_bit(b, i),
    ensures
        a == b,
{
    let x = a ^ b;
    assert forall|i: nat| !has_bit(x, i) by {
        lemma_bit_of_xor(a, b, i);
    }
    lemma_no_bits_is_zero(x);
    assert(a == b) by (bit_vector)
        requires
            a ^ b == 0,
    ;
}

/// No bit of zero is set.
pub proof fn lemma_bit_set_of_zero()
    ensures
        bit_set(0) == Set::<nat>::empty(),
{
    assert forall|i: nat| !has_bit(0, i) by {
        lemma_bit_of_zero(i);
    }
    assert(bit_set(0) =~= Set::<nat>::empty());
}

/// Shifting one to position `j` sets bit `j` and no other.
pub proof fn lemma_bit_set_of_single(j: nat)
    requires
        j < 128,
    ensures
        bit_set(1u128 << (j as u128)) == Set::<nat>::empty().insert(j),
{
    let single = 1u128 << (j as u128);
    assert forall|i: nat| #[trigger] has_bit(single, i) <==> i == j by {
        lemma_bit_of_single(j, i);
    }
    assert(bit_set(single) =~= Set::<nat>::empty().insert(j));
}

/// Bitwise or is union.
pub proof fn lemma_bit_set_of_or(a: u128, b: u128)
    ensures
        bit_set(a | b) == bit_set(a).union(bit_set(b)),
{
    assert forall|i: nat| #[trigger] has_bit(a | b, i) <==> has_bit(a, i) || has_bit(b, i) by {
        lemma_bit_of_or(a, b, i);
    }
    assert(bit_set(a | b) =~= bit_set(a).union(bit_set(b)));
}

/// Bitwise and is intersection.
pub proof fn lemma_bit_set_of_and(a: u128, b: u128)
    ensures
        bit_set(a & b) == bit_set(a).intersect(bit_set(b)),
{
    assert forall|i: nat| #[trigger] has_bit(a & b, i) <==> has_bit(a, i) && has_bit(b, i) by {
        lemma_bit_of_and(a, b, i);
    }
    assert(bit_set(a & b) =~= bit_set(a).intersect(bit_set(b)));
}

/// Bitwise and with a negation is difference.
pub proof fn lemma_bit_set_of_and_not(a: u128, b: u128)
    ensures
        bit_set(a & !b) == bit_set(a).difference(bit_set(b)),
{
    assert forall|i: nat| #[trigger] has_bit(a & !b, i) <==> has_bit(a, i) && !has_bit(b, i) by {
        lemma_bit_of_and_not(a, b, i);
    }
    assert(bit_set(a & !b) =~= bit_set(a).difference(bit_set(b)));
}

/// Bitwise exclusive or is symmetric difference.
pub proof fn lemma_bit_set_of_xor(a: u128, b: u128)
    ensures
        bit_set(a ^ b) == bit_set(a).difference(bit_set(b)).union(
            bit_set(b).difference(bit_set(a)),
        ),
{
    assert forall|i: nat| #[trigger] has_bit(a ^ b, i) <==> (has_bit(a, i) != has_bit(b, i)) by {
        lemma_bit_of_xor(a, b, i);
    }
    assert(bit_set(a ^ b) =~= bit_set(a).difference(bit_set(b)).union(
        bit_set(b).difference(bit_set(a)),
    ));
}

/// Or-ing in a one shifted to position `j` sets bit `j` and leaves the others.
pub proof fn lemma_bit_inserted(x: u128, j: nat)
    requires
        j < 128,
    ensures
        bit_set(x | (1u128 << (j as u128))) == bit_set(x).insert(j),
{
    lemma_bit_set_of_or(x, 1u128 << (j as u128));
    lemma_bit_set_of_single(j);
    assert(bit_set(x).union(Set::<nat>::empty().insert(j)) =~= bit_set(x).insert(j));
}

/// And-ing with the negation of a one shifted to position `j` clears bit `j` and
/// leaves the others.
pub proof fn lemma_bit_removed(x: u128, j: nat)
    requires
        j < 128,
    ensures
        bit_set(x & !(1u128 << (j as u128))) == bit_set(x).remove(j),
{
    lemma_bit_set_of_and_not(x, 1u128 << (j as u128));
    lemma_bit_set_of_single(j);
    assert(bit_set(x).difference(Set::<nat>::empty().insert(j)) =~= bit_set(x).remove(j));
}

/// An integer is determined by the positions of its set bits.
pub proof fn lemma_bit_set_determines(a: u128, b: u128)
    requires
        bit_set(a) == bit_set(b),
    ensures
        a == b,
{
    assert forall|i: nat| has_bit(a, i) == has_bit(b, i) by {
        assert(bit_set(a).contains(i) == has_bit(a, i));
        assert(bit_set(b).contains(i) == has_bit(b, i));
    }
    lemma_bits_determine(a, b);
}

/// Zero is the one integer without a set bit.
pub proof fn lemma_zero_iff_no_bits(x: u128)
    ensures
        x == 0 <==> bit_set(x) == Set::<nat>::empty(),
{
    lemma_bit_set_of_zero();
    if bit_set(x) == Set::<nat>::empty() {
        lemma_bit_set_determines(x, 0);
    }
}

/// The positions below `n` of the bits that are set in `x`.
pub open spec fn bits_below(x: u128, n: nat) -> Set<nat> {
    Set::new(|i: nat| i < n && has_bit(x, i))
}

/// There are at most `n` set bits below position `n`.
pub proof fn lemma_bits_below_finite(x: u128, n: nat)
    ensures
        bits_below(x, n).finite(),
        bits_below(x, n).len() <= n,
    decreases n,
{
    if n == 0 {
        assert(bits_below(x, 0) =~= Set::<nat>::empty());
    } else {
        let m = (n - 1) as nat;
        lemma_bits_below_finite(x, m);
        if has_bit(x, m) {
            assert(bits_below(x, n) =~= bits_below(x, m).insert(m));
        } else {
            assert(bits_below(x, n) =~= bits_below(x, m));
        }
    }
}

/// An integer has finitely many set bits: at most 128.
pub proof fn lemma_bit_set_finite(x: u128)
    ensures
        bit_set(x).finite(),
        bit_set(x).len() <= 128,
{
    lemma_bits_below_finite(x, 128);
    assert(bit_set(x) =~= bits_below(x, 128));
}

/// The integer in which the `n` lowest bits are set and no other.
pub open spec fn low_mask(n: nat) -> u128 {
    if n >= 128 {
        u128::MAX
    } else {
        !(u128::MAX << (n as u128))
    }
}

/// And-ing with the `n` lowest bits keeps the bits below position `n` and clears the
/// others.
pub proof fn lemma_bit_set_of_low_part(x: u128, n: nat)
    ensures
        bit_set(x & low_mask(n)) == bits_below(x, n),
        x & low_mask(n) <= low_mask(n),
{
    let mask = low_mask(n);
    let low = x & mask;
    assert(low <= mask) by (bit_vector)
        requires
            low == x & mask,
    ;
    assert forall|i: nat| #[trigger] has_bit(low, i) <==> i < n && has_bit(x, i) by {
        if i < 128 {
            let k: u128 = i as u128;
            if n >= 128 {
                assert(((low >> k) & 1 == 1) <==> ((x >> k) & 1 == 1)) by (bit_vector)
                    requires
                        low == x & mask,
                        mask == 0xffff_ffff_ffff_ffff_ffff_ffff_ffff_ffffu128,
                ;
            } else {
                let w: u128 = n as u128;
                assert(((low >> k) & 1 == 1) <==> (k < w && (x >> k) & 1 == 1)) by (bit_vector)
                    requires
                        low == x & mask,
                        mask == !(0xffff_ffff_ffff_ffff_ffff_ffff_ffff_ffffu128 << w),
                        w < 128,
                        k < 128,
                ;
            }
        }
    }
    assert(bit_set(low) =~= bits_below(x, n));
}

/// An integer whose set bits all lie below position `n` is its own low part.
pub proof fn lemma_low_part_of_small(x: u128, n: nat)
    requires
        forall|i: nat| bit_set(x).contains(i) ==> i < n,
    ensures
        x & low_mask(n) == x,
        x <= low_mask(n),
{
    lemma_bit_set_of_low_part(x, n);
    assert(bits_below(x, n) =~= bit_set(x));
    lemma_bit_set_determines(x & low_mask(n), x);
}

/// Tests one bit.
pub fn test_bit(x: u128, position: u8) -> (r: bool)
    requires
        position < 128,
    ensures
        r == has_bit(x, position as nat),
{
    (x >> (position as u128)) & 1 == 1
}

/// Counts the set bits.
pub fn count_bits(x: u128) -> (r: usize)
    ensures
        r == bit_set(x).len(),
{
    let mut count: usize = 0;
    let mut position: u8 = 0;
    proof {
        lemma_bits_below_finite(x, 0);
        assert(bits_below(x, 0) =~= Set::<nat>::empty());
    }
    while position < 128
        invariant
            position <= 128,
            count <= position,
            bits_below(x, position as nat).finite(),
            count == bits_below(x, position as nat).len(),
        decreases 128 - position,
    {
        let set = test_bit(x, position);
        proof {
            let below = bits_below(x, position as nat);
            let next = bits_below(x, (position + 1) as nat);
            if set {
                assert(next =~= below.insert(position as nat));
            } else {
                assert(next =~= below);
            }
        }
        if set {
            count = count + 1;
        }
        position = position + 1;
    }
    proof {
        assert(bit_set(x) =~= bits_below(x, 128));
    }
    count
}

} // verus!
