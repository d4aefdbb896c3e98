//! Bitboard operations: a `u64` read as a set of squares, bit `i` standing
//! for square `i`.

use vstd::prelude::*;

verus! {

/// Whether square `idx` is a member of `bb`.
pub open spec fn is_set(bb: u64, idx: u64) -> bool {
    (bb >> idx) & 1 == 1
}

/// The number of members of `bb` among the squares below `k`.
pub open spec fn members_below(bb: u64, k: nat) -> nat
    decreases k,
{
    if k == 0 {
        0
    } else {
        members_below(bb, (k - 1) as nat) + if is_set(bb, (k - 1) as u64) {
            1nat
        } else {
            0nat
        }
    }
}

/// The number of members of `bb`, counted member by member from the
/// lowest square up; `lemma_population_counts_members` says that it is the
/// number of the 64 squares that are members.
pub open spec fn population(bb: u64) -> nat
    decreases bb,
{
    if bb == 0 {
        0
    } else {
        (bb % 2) as nat + population(bb / 2)
    }
}

/// The index of the lowest member of a non-empty `bb`; 0 for the empty set.
pub open spec fn lowest(bb: u64) -> nat
    decreases bb,
{
    if bb == 0 || bb % 2 == 1 {
        0
    } else {
        1 + lowest(bb / 2)
    }
}

/// A bitboard has at most 64 members.
pub proof fn lemma_population_bound(bb: u64)
    ensures
        population(bb) <= 64,
{
    lemma_population_below(bb, 64);
}

/// A bitboard with no member from `width` up has at most `width` members.
proof fn lemma_population_below(bb: u64, width: u64)
    requires
        width <= 64,
        width < 64 ==> bb >> width == 0,
    ensures
        population(bb) <= width,
    decreases width,
{
    if bb != 0 {
        let w = (width - 1) as u64;
        assert(width > 0 && (bb / 2) >> w == 0) by (bit_vector)
            requires
                bb != 0,
                width <= 64,
                w == (width - 1) as u64,
                width < 64 ==> bb >> width == 0,
        ;
        lemma_population_below(bb / 2, w);
    }
}

/// The members from square `k` up, and those below it, are all the
/// members.
proof fn lemma_population_split(bb: u64, k: u64)
    requires
        k <= 63,
    ensures
        population(bb >> k) + members_below(bb, k as nat) == population(bb),
    decreases k,
{
    if k == 0 {
        assert(bb >> 0u64 == bb) by (bit_vector);
    } else {
        let below = (k - 1) as u64;
        lemma_population_split(bb, below);
        let rest = bb >> below;
        assert(rest / 2 == bb >> k && (rest % 2 == 1 <==> (bb >> below) & 1 == 1) && (rest % 2 == 0
            || rest % 2 == 1)) by (bit_vector)
            requires
                0 < k <= 63,
                below == k - 1,
                rest == bb >> below,
        ;
        assert(population(0) == 0);
    }
}

/// The population of a bitboard is the number of the 64 squares that are
/// its members.
pub proof fn lemma_population_counts_members(bb: u64)
    ensures
        population(bb) == members_below(bb, 64),
{
    lemma_population_split(bb, 63);
    let top = bb >> 63u64;
    assert((top == 0 || top == 1) && (top == 1 <==> (bb >> 63u64) & 1 == 1)) by (bit_vector)
        requires
            top == bb >> 63u64,
    ;
    assert(population(1) == 1) by {
        assert(population(0) == 0);
        assert(1u64 / 2 == 0 && 1u64 % 2 == 1);
    }
}

/// `bb` without its lowest member (0 for the empty set).
pub open spec fn drop_lowest(bb: u64) -> u64 {
    bb & ((bb - 1) as u64)
}

/// The bitboard of the squares below the lowest member of a non-empty `bb`.
pub open spec fn below_lowest(bb: u64) -> u64 {
    ((bb & !((bb - 1) as u64)) - 1) as u64
}

/// How dropping the lowest member, and the squares below it, go with
/// halving: the steps of the inductions on a bitboard.
proof fn lemma_halves(bb: u64)
    by (bit_vector)
    requires
        bb != 0,
    ensures
        bb % 2 == 1 ==> drop_lowest(bb) % 2 == 0 && drop_lowest(bb) / 2 == bb / 2,
        bb % 2 == 1 ==> drop_lowest(bb) == bb & !1u64 && below_lowest(bb) == 0,
        bb % 2 == 0 ==> drop_lowest(bb) % 2 == 0 && drop_lowest(bb) / 2 == drop_lowest(bb / 2),
        bb % 2 == 0 ==> below_lowest(bb) % 2 == 1 && below_lowest(bb) / 2 == below_lowest(bb / 2),
        bb & !((bb - 1) as u64) >= 1,
        drop_lowest(bb) < bb,
        bb / 2 != 0 || bb % 2 == 1,
{
}

/// Dropping the lowest member leaves one member fewer.
pub proof fn lemma_population_drop_lowest(bb: u64)
    requires
        bb != 0,
    ensures
        population(drop_lowest(bb)) + 1 == population(bb),
    decreases bb,
{
    lemma_halves(bb);
    if bb % 2 == 0 {
        lemma_population_drop_lowest(bb / 2);
    }
}

/// On a non-empty bitboard `lowest` is a member and no member lies below
/// it; it is the member that `drop_lowest` drops, and as many squares lie
/// below it as `below_lowest` has members.
pub proof fn lemma_lowest(bb: u64)
    requires
        bb != 0,
    ensures
        lowest(bb) < 64,
        is_set(bb, lowest(bb) as u64),
        forall|j: u64| j < lowest(bb) ==> !#[trigger] is_set(bb, j),
        drop_lowest(bb) == bb & !(1u64 << lowest(bb) as u64),
        population(below_lowest(bb)) == lowest(bb),
{
    lemma_lowest_below(bb, 64);
}

/// `lemma_lowest`, for a bitboard with no member from `width` up.
proof fn lemma_lowest_below(bb: u64, width: u64)
    requires
        bb != 0,
        width <= 64,
        width < 64 ==> bb >> width == 0,
    ensures
        lowest(bb) < width,
        is_set(bb, lowest(bb) as u64),
        forall|j: u64| j < lowest(bb) ==> !#[trigger] is_set(bb, j),
        drop_lowest(bb) == bb & !(1u64 << lowest(bb) as u64),
        population(below_lowest(bb)) == lowest(bb),
    decreases width,
{
    lemma_halves(bb);
    let w = (width - 1) as u64;
    assert(width > 0 && (bb / 2) >> w == 0) by (bit_vector)
        requires
            bb != 0,
            width <= 64,
            w == (width - 1) as u64,
            width < 64 ==> bb >> width == 0,
    ;
    if bb % 2 == 1 {
        assert((bb >> 0u64) & 1 == 1 && 1u64 << 0u64 == 1) by (bit_vector)
            requires
                bb % 2 == 1,
        ;
    } else {
        let h = bb / 2;
        lemma_lowest_below(h, w);
        let k = lowest(h) as u64;
        let k1 = (k + 1) as u64;
        assert(((bb >> k1) & 1 == 1) && drop_lowest(bb) == bb & !(1u64 << k1)) by (bit_vector)
            requires
                bb % 2 == 0,
                h == bb / 2,
                k < 63,
                k1 == k + 1,
                (h >> k) & 1 == 1,
                drop_lowest(h) == h & !(1u64 << k),
        ;
        assert forall|j: u64| j < lowest(bb) implies !#[trigger] is_set(bb, j) by {
            let i = if j == 0 { 0 } else { (j - 1) as u64 };
            assert(j > 0 ==> !is_set(h, i));
            assert((bb >> j) & 1 == (if j == 0 { 0 } else { (h >> i) & 1 })) by (bit_vector)
                requires
                    bb % 2 == 0,
                    h == bb / 2,
                    j < 64,
                    i == (if j == 0 { 0u64 } else { (j - 1) as u64 }),
            ;
        }
    }
}

/// Two bitboards with the same members are the same bitboard.
pub proof fn lemma_same_members(a: u64, b: u64)
    requires
        forall|j: u64| j < 64 ==> (#[trigger] is_set(a, j) <==> is_set(b, j)),
    ensures
        a == b,
{
    lemma_same_from(a, b, 0);
    assert(a >> 0u64 == a && b >> 0u64 == b) by (bit_vector);
}

/// Two bitboards with the same members agree from square `k` up.
proof fn lemma_same_from(a: u64, b: u64, k: u64)
    requires
        k < 64,
        forall|j: u64| j < 64 ==> (#[trigger] is_set(a, j) <==> is_set(b, j)),
    ensures
        a >> k == b >> k,
    decreases 64 - k,
{
    assert(is_set(a, k) <==> is_set(b, k));
    if k == 63 {
        assert(a >> 63u64 == b >> 63u64) by (bit_vector)
            requires
                (a >> 63u64) & 1 == 1 <==> (b >> 63u64) & 1 == 1,
        ;
    } else {
        let above = (k + 1) as u64;
        lemma_same_from(a, b, above);
        assert(a >> k == b >> k) by (bit_vector)
            requires
                k < 63,
                above == k + 1,
                a >> above == b >> above,
                (a >> k) & 1 == 1 <==> (b >> k) & 1 == 1,
        ;
    }
}

/// Gets the bit at the given position.
#[inline]
pub fn get(bb: u64, idx: u8) -> (r: bool)
    requires
        idx < 64,
    ensures
        r == is_set(bb, idx as u64),
{
    (bb >> idx as u64) & 1 == 1
}

/// Sets the bit at the given position; every other bit is kept, and a bit
/// that is set stays so.
#[inline]
pub fn set(bb: &mut u64, idx: u8)
    requires
        idx < 64,
    ensures
        *final(bb) == *old(bb) | (1u64 << idx),
        forall|j: u64|
            j < 64 ==> (#[trigger] is_set(*final(bb), j) <==> j == idx || is_set(*old(bb), j)),
        is_set(*old(bb), idx as u64) ==> *final(bb) == *old(bb),
{
    let ghost before = *bb;
    *bb |= 1u64 << idx as u64;
    proof {
        let after = *bb;
        let i = idx as u64;
        assert((before >> i) & 1 == 1 ==> before | (1u64 << i) == before) by (bit_vector)
            requires
                i < 64,
        ;
        assert forall|j: u64| j < 64 implies (#[trigger] is_set(after, j) <==> j == i || is_set(
            before,
            j,
        )) by {
            assert(((before | (1u64 << i)) >> j) & 1 == 1 <==> j == i || (before >> j) & 1 == 1)
                by (bit_vector)
                requires
                    i < 64,
                    j < 64,
            ;
        }
    }
}

/// Clears the bit at the given position; every other bit is kept, and a
/// bit that is clear stays so.
#[inline]
pub fn clear(bb: &mut u64, idx: u8)
    requires
        idx < 64,
    ensures
        *final(bb) == *old(bb) & !(1u64 << idx),
        forall|j: u64|
            j < 64 ==> (#[trigger] is_set(*final(bb), j) <==> j != idx && is_set(*old(bb), j)),
        !is_set(*old(bb), idx as u64) ==> *final(bb) == *old(bb),
{
    let ghost before = *bb;
    *bb &= !(1u64 << idx as u64);
    proof {
        let after = *bb;
        let i = idx as u64;
        assert((before >> i) & 1 != 1 ==> before & !(1u64 << i) == before) by (bit_vector)
            requires
                i < 64,
        ;
        assert forall|j: u64| j < 64 implies (#[trigger] is_set(after, j) <==> j != i && is_set(
            before,
            j,
        )) by {
            assert(((before & !(1u64 << i)) >> j) & 1 == 1 <==> j != i && (before >> j) & 1 == 1)
                by (bit_vector)
                requires
                    i < 64,
                    j < 64,
            ;
        }
    }
}

/// Clears the least significant set bit; an empty bitboard stays empty.
#[inline]
pub fn clear_last(bb: &mut u64)
    ensures
        *final(bb) == drop_lowest(*old(bb)),
        *old(bb) == 0 ==> *final(bb) == 0,
        *old(bb) != 0 ==> population(*final(bb)) + 1 == population(*old(bb)),
        *old(bb) != 0 ==> forall|j: u64|
            j < 64 ==> (#[trigger] is_set(*final(bb), j) <==> is_set(*old(bb), j) && j != lowest(
                *old(bb),
            )),
{
    let ghost before = *bb;
    if *bb != 0 {
        *bb &= *bb - 1;
        proof {
            lemma_lowest(before);
            lemma_population_drop_lowest(before);
            let k = lowest(before) as u64;
            let after = *bb;
            assert forall|j: u64| j < 64 implies (#[trigger] is_set(after, j) <==> is_set(before, j)
                && j != k) by {
                assert(((before & !(1u64 << k)) >> j) & 1 == 1 <==> j != k && (before >> j) & 1
                    == 1) by (bit_vector)
                    requires
                        k < 64,
                        j < 64,
                ;
            }
        }
    } else {
        assert(drop_lowest(0) == 0) by (bit_vector);
    }
}

/// Counts the number of bits set to 1.
#[inline]
pub fn count(bb: u64) -> (n: u8)
    ensures
        n == population(bb),
        n == members_below(bb, 64),
        n <= 64,
{
    let mut n: u8 = 0;
    let mut rest = bb;
    proof {
        lemma_population_bound(bb);
        lemma_population_counts_members(bb);
    }
    while rest != 0
        invariant
            n + population(rest) == population(bb),
            population(bb) <= 64,
        decreases rest,
    {
        proof {
            lemma_population_drop_lowest(rest);
            lemma_halves(rest);
        }
        n += 1;
        rest &= rest - 1;
    }
    n
}

/// Gets the index of the least significant set bit, and 0 for an empty
/// bitboard: the caller tells the two apart by testing for emptiness.
#[inline]
pub fn scan(bb: u64) -> (idx: u8)
    ensures
        idx == lowest(bb),
        bb == 0 ==> idx == 0,
        bb != 0 ==> idx < 64 && is_set(bb, idx as u64) && forall|j: u64|
            j < idx ==> !#[trigger] is_set(bb, j),
{
    if bb == 0 {
        0
    } else {
        proof {
            lemma_lowest(bb);
            lemma_halves(bb);
        }
        count((bb & !(bb - 1)) - 1)
    }
}

} // verus!
