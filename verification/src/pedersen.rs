//! The Pedersen hash: bits are consumed three at a time, each chunk
//! encoded as a windowed scalar, 63 chunks to a segment, one fixed
//! generator per segment; the hash is the sum of the per-segment
//! multiples.

use vstd::prelude::*;
use crate::curve::{
    PointBytes, ScalarBytes, fs_add, fs_neg, pt_add, pt_mul, scalar_add, scalar_neg, point_add,
    point_mul,
};
use crate::params::{SaplingParams, spec_ped_gen, PEDERSEN_SEGMENTS};

verus! {

/// The 32-byte encoding of the scalar zero.
pub open spec fn fs_zero_bytes() -> Seq<u8> {
    Seq::<u8>::new(32, |i: int| 0u8)
}

/// The 32-byte encoding of the scalar one.
pub open spec fn fs_one_bytes() -> Seq<u8> {
    seq![1u8] + Seq::<u8>::new(31, |i: int| 0u8)
}

/// A chunk's contribution at window scalar `cur`:
/// `(1 + a + 2 b) * cur`, negated when `c` holds.
pub open spec fn spec_chunk_term(cur: Seq<u8>, a: bool, b: bool, c: bool) -> Seq<u8> {
    let t1 = if a {
        fs_add(cur, cur)
    } else {
        cur
    };
    let cur2 = fs_add(cur, cur);
    let t2 = if b {
        fs_add(t1, cur2)
    } else {
        t1
    };
    if c {
        fs_neg(t2)
    } else {
        t2
    }
}

/// The window scalar of the next chunk: `16 * cur`.
pub open spec fn spec_next_cur(cur: Seq<u8>) -> Seq<u8> {
    let c2 = fs_add(cur, cur);
    let c4 = fs_add(c2, c2);
    let c8 = fs_add(c4, c4);
    fs_add(c8, c8)
}

/// A bit of a chunk, absent bits reading as false.
pub open spec fn chunk_bit(bits: Seq<bool>, k: int) -> bool {
    if 0 <= k < bits.len() {
        bits[k]
    } else {
        false
    }
}

/// The scalar a segment's bits accumulate, starting from `acc` with
/// window scalar `cur`.
pub open spec fn spec_segment_acc(bits: Seq<bool>, acc: Seq<u8>, cur: Seq<u8>) -> Seq<u8>
    decreases bits.len(),
{
    if bits.len() == 0 {
        acc
    } else {
        let term = spec_chunk_term(cur, chunk_bit(bits, 0), chunk_bit(bits, 1), chunk_bit(bits, 2));
        let rest = if bits.len() <= 3 {
            Seq::<bool>::empty()
        } else {
            bits.skip(3)
        };
        spec_segment_acc(rest, fs_add(acc, term), spec_next_cur(cur))
    }
}

/// The hash of `bits` continued from segment `seg`, folded onto `acc`
/// in segment order.
pub open spec fn spec_pedersen_from(bits: Seq<bool>, seg: int, acc: Option<Seq<u8>>) -> Option<
    Seq<u8>,
>
    decreases bits.len(),
{
    if bits.len() == 0 {
        acc
    } else {
        let here = if bits.len() <= 189 {
            bits
        } else {
            bits.take(189)
        };
        let rest = if bits.len() <= 189 {
            Seq::<bool>::empty()
        } else {
            bits.skip(189)
        };
        let s = spec_segment_acc(here, fs_zero_bytes(), fs_one_bytes());
        let p = pt_mul(spec_ped_gen(seg).unwrap(), s);
        let acc2 = match acc {
            Option::None => Option::Some(p),
            Option::Some(q) => Option::Some(pt_add(q, p)),
        };
        spec_pedersen_from(rest, seg + 1, acc2)
    }
}

/// The Pedersen hash of a non-empty bit string.
pub open spec fn spec_pedersen(bits: Seq<bool>) -> Seq<u8> {
    spec_pedersen_from(bits, 0, Option::None).unwrap()
}

/// The scalar one chunk of up to three bits accumulates.
fn chunk_step(bits: &Vec<bool>, j: usize, end: usize, acc: &ScalarBytes, cur: &ScalarBytes) -> (r:
    ScalarBytes)
    requires
        j < end,
        end <= bits@.len(),
    ensures
        r@ == fs_add(
            acc@,
            spec_chunk_term(
                cur@,
                chunk_bit(bits@.subrange(j as int, end as int), 0),
                chunk_bit(bits@.subrange(j as int, end as int), 1),
                chunk_bit(bits@.subrange(j as int, end as int), 2),
            ),
        ),
{
    let a = bits[j];
    let b = if end - j > 1 {
        bits[j + 1]
    } else {
        false
    };
    let c = if end - j > 2 {
        bits[j + 2]
    } else {
        false
    };
    let t1 = if a {
        scalar_add(cur, cur)
    } else {
        cur.clone()
    };
    let cur2 = scalar_add(cur, cur);
    let t2 = if b {
        scalar_add(&t1, &cur2)
    } else {
        t1
    };
    let term = if c {
        scalar_neg(&t2)
    } else {
        t2
    };
    scalar_add(acc, &term)
}

/// The scalar a whole segment of bits accumulates.
fn segment_scalar(bits: &Vec<bool>, start: usize, end: usize) -> (r: ScalarBytes)
    requires
        start < end,
        end <= bits@.len(),
        end - start <= 189,
    ensures
        r@ == spec_segment_acc(
            bits@.subrange(start as int, end as int),
            fs_zero_bytes(),
            fs_one_bytes(),
        ),
{
    let mut acc = ScalarBytes::zero();
    let mut cur = ScalarBytes::one();
    let mut j = start;
    while j < end
        invariant
            start <= j <= end,
            end <= bits@.len(),
            spec_segment_acc(bits@.subrange(start as int, end as int), fs_zero_bytes(), fs_one_bytes())
                == spec_segment_acc(bits@.subrange(j as int, end as int), acc@, cur@),
        decreases end - j,
    {
        let ghost pre = bits@.subrange(j as int, end as int);
        acc = chunk_step(bits, j, end, &acc, &cur);
        let c2 = scalar_add(&cur, &cur);
        let c4 = scalar_add(&c2, &c2);
        let c8 = scalar_add(&c4, &c4);
        cur = scalar_add(&c8, &c8);
        let next = if end - j <= 3 {
            end
        } else {
            j + 3
        };
        proof {
            if pre.len() <= 3 {
                assert(bits@.subrange(next as int, end as int) =~= Seq::<bool>::empty());
            } else {
                assert(pre.skip(3) =~= bits@.subrange(next as int, end as int));
            }
        }
        j = next;
    }
    proof {
        assert(bits@.subrange(end as int, end as int) =~= Seq::<bool>::empty());
    }
    acc
}

/// The Pedersen hash of a non-empty bit string: at most four segments,
/// which covers the note contents, the longest input hashed here.
pub fn pedersen_hash(params: &SaplingParams, bits: &Vec<bool>) -> (r: PointBytes)
    requires
        0 < bits@.len() <= 189 * PEDERSEN_SEGMENTS,
    ensures
        r@ == spec_pedersen(bits@),
{
    let n = bits.len();
    let mut seg: usize = 0;
    let mut pos: usize = 0;
    let mut result: Option<PointBytes> = None;
    proof {
        assert(bits@.skip(0) =~= bits@);
    }
    while pos < n
        invariant
            n == bits@.len(),
            0 < n <= 189 * PEDERSEN_SEGMENTS,
            pos <= n,
            pos < n ==> pos == 189 * (seg as int),
            pos < n ==> seg < PEDERSEN_SEGMENTS,
            match result {
                Option::None => pos == 0,
                Option::Some(p) => pos > 0,
            },
            spec_pedersen_from(bits@, 0, Option::None) == spec_pedersen_from(
                bits@.skip(pos as int),
                seg as int,
                match result {
                    Option::None => Option::None,
                    Option::Some(p) => Option::Some(p@),
                },
            ),
        decreases n - pos,
    {
        let end = if n - pos <= 189 {
            n
        } else {
            pos + 189
        };
        let s = segment_scalar(bits, pos, end);
        let p = point_mul(params.ped_gen(seg), &s);
        let ghost rem = bits@.skip(pos as int);
        proof {
            if rem.len() <= 189 {
                assert(rem =~= bits@.subrange(pos as int, end as int));
                assert(bits@.skip(end as int) =~= Seq::<bool>::empty());
            } else {
                assert(rem.take(189) =~= bits@.subrange(pos as int, end as int));
                assert(rem.skip(189) =~= bits@.skip(end as int));
            }
        }
        result = match result {
            Option::None => Some(p),
            Option::Some(q) => Some(point_add(&q, &p)),
        };
        seg = seg + 1;
        pos = end;
    }
    proof {
        assert(bits@.skip(n as int) =~= Seq::<bool>::empty());
    }
    match result {
        Option::Some(p) => p,
        Option::None => vstd::pervasive::unreached(),
    }
}

} // verus!
