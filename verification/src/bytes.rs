//! Byte-string arithmetic: the little-endian integer a byte string denotes,
//! little-endian encodings of machine integers, and bit expansion in the
//! order the Sapling hashes consume bits.

use vstd::prelude::*;

verus! {

/// 256 to the power `n`.
pub open spec fn pow256(n: nat) -> nat
    decreases n,
{
    if n == 0 {
        1
    } else {
        256 * pow256((n - 1) as nat)
    }
}

/// The integer a byte string denotes when read little-endian.
pub open spec fn le_nat(s: Seq<u8>) -> nat
    decreases s.len(),
{
    if s.len() == 0 {
        0
    } else {
        le_nat(s.drop_last()) + (s.last() as nat) * pow256((s.len() - 1) as nat)
    }
}

/// A byte string of length `n` denotes an integer below `256^n`.
pub proof fn lemma_le_nat_bound(s: Seq<u8>)
    ensures
        le_nat(s) < pow256(s.len()),
    decreases s.len(),
{
    if s.len() == 0 {
    } else {
        lemma_le_nat_bound(s.drop_last());
        assert(s.last() * pow256((s.len() - 1) as nat) <= 255 * pow256((s.len() - 1) as nat))
            by (nonlinear_arith)
            requires s.last() <= 255,
        ;
    }
}

/// The 8-byte little-endian encoding of a `u64`.
pub open spec fn u64_le(v: u64) -> Seq<u8> {
    seq![
        (v & 0xff) as u8,
        ((v >> 8) & 0xff) as u8,
        ((v >> 16) & 0xff) as u8,
        ((v >> 24) & 0xff) as u8,
        ((v >> 32) & 0xff) as u8,
        ((v >> 40) & 0xff) as u8,
        ((v >> 48) & 0xff) as u8,
        ((v >> 56) & 0xff) as u8,
    ]
}

/// The 4-byte little-endian encoding of a `u32`.
pub open spec fn u32_le(v: u32) -> Seq<u8> {
    seq![
        (v & 0xff) as u8,
        ((v >> 8) & 0xff) as u8,
        ((v >> 16) & 0xff) as u8,
        ((v >> 24) & 0xff) as u8,
    ]
}

/// Appends the 8-byte little-endian encoding of `v` to `out`.
pub fn push_u64_le(out: &mut Vec<u8>, v: u64)
    ensures
        final(out)@ == old(out)@ + u64_le(v),
{
    out.push((v & 0xff) as u8);
    out.push(((v >> 8) & 0xff) as u8);
    out.push(((v >> 16) & 0xff) as u8);
    out.push(((v >> 24) & 0xff) as u8);
    out.push(((v >> 32) & 0xff) as u8);
    out.push(((v >> 40) & 0xff) as u8);
    out.push(((v >> 48) & 0xff) as u8);
    out.push(((v >> 56) & 0xff) as u8);
    assert(out@ =~= old(out)@ + u64_le(v));
}

/// Appends the 4-byte little-endian encoding of `v` to `out`.
pub fn push_u32_le(out: &mut Vec<u8>, v: u32)
    ensures
        final(out)@ == old(out)@ + u32_le(v),
{
    out.push((v & 0xff) as u8);
    out.push(((v >> 8) & 0xff) as u8);
    out.push(((v >> 16) & 0xff) as u8);
    out.push(((v >> 24) & 0xff) as u8);
    assert(out@ =~= old(out)@ + u32_le(v));
}

/// Bit `k` of a byte string: bit `k % 8` (least significant first) of
/// byte `k / 8`, the order in which the Sapling hashes consume bits.
pub open spec fn bit_of(s: Seq<u8>, k: int) -> bool {
    (s[k / 8] >> ((k % 8) as u8)) & 1 != 0
}

/// All bits of a byte string, byte by byte, least significant bit first.
pub open spec fn bits_of_bytes(s: Seq<u8>) -> Seq<bool> {
    Seq::new(8 * s.len(), |k: int| bit_of(s, k))
}

/// Appends the bits of `v`, least significant bit of each byte first, to `out`.
pub fn push_bits(out: &mut Vec<bool>, v: &Vec<u8>)
    ensures
        final(out)@ == old(out)@ + bits_of_bytes(v@),
{
    let n = v.len();
    let mut i: usize = 0;
    while i < n
        invariant
            n == v@.len(),
            i <= n,
            out@ == old(out)@ + bits_of_bytes(v@).take(8 * (i as int)),
        decreases n - i,
    {
        let b = v[i];
        let mut j: usize = 0;
        while j < 8
            invariant
                n == v@.len(),
                i < n,
                j <= 8,
                b == v@[i as int],
                out@ == old(out)@ + bits_of_bytes(v@).take(8 * (i as int) + j),
            decreases 8 - j,
        {
            out.push((b >> (j as u8)) & 1 != 0);
            proof {
                let k = 8 * (i as int) + j;
                assert(k / 8 == i && k % 8 == j);
                assert(bits_of_bytes(v@)[k] == ((b >> ((j as int) as u8)) & 1 != 0));
                assert(out@ =~= old(out)@ + bits_of_bytes(v@).take(k + 1));
            }
            j = j + 1;
        }
        i = i + 1;
    }
    proof {
        assert(bits_of_bytes(v@).take(8 * (n as int)) =~= bits_of_bytes(v@));
    }
}

/// Whether two byte strings hold the same bytes.
pub fn bytes_eq(a: &Vec<u8>, b: &Vec<u8>) -> (r: bool)
    ensures
        r == (a@ == b@),
{
    if a.len() != b.len() {
        proof {
            assert(a@ != b@);
        }
        return false;
    }
    let n = a.len();
    let mut i: usize = 0;
    while i < n
        invariant
            n == a@.len() == b@.len(),
            i <= n,
            forall|j: int| 0 <= j < i ==> a@[j] == b@[j],
        decreases n - i,
    {
        if a[i] != b[i] {
            return false;
        }
        i = i + 1;
    }
    proof {
        assert(a@ =~= b@);
    }
    true
}

/// Copies `v` into a fresh vector.
pub fn copy_bytes(v: &Vec<u8>) -> (r: Vec<u8>)
    ensures
        r@ == v@,
{
    let mut r: Vec<u8> = Vec::new();
    let n = v.len();
    let mut i: usize = 0;
    while i < n
        invariant
            n == v@.len(),
            i <= n,
            r@ == v@.take(i as int),
        decreases n - i,
    {
        r.push(v[i]);
        proof {
            assert(v@.take(i + 1) =~= v@.take(i as int).push(v@[i as int]));
        }
        i = i + 1;
    }
    proof {
        assert(v@.take(n as int) =~= v@);
    }
    r
}

/// A copy of `v[start..end]`.
pub fn sub_bytes(v: &Vec<u8>, start: usize, end: usize) -> (r: Vec<u8>)
    requires
        start <= end <= v@.len(),
    ensures
        r@ == v@.subrange(start as int, end as int),
{
    let mut r: Vec<u8> = Vec::new();
    let mut i = start;
    while i < end
        invariant
            start <= i <= end <= v@.len(),
            r@ == v@.subrange(start as int, i as int),
        decreases end - i,
    {
        r.push(v[i]);
        proof {
            assert(v@.subrange(start as int, i + 1) =~= v@.subrange(start as int, i as int).push(
                v@[i as int],
            ));
        }
        i = i + 1;
    }
    r
}

/// Appends a copy of `v` to `out`.
pub fn append_bytes(out: &mut Vec<u8>, v: &Vec<u8>)
    ensures
        final(out)@ == old(out)@ + v@,
{
    let n = v.len();
    let mut i: usize = 0;
    while i < n
        invariant
            n == v@.len(),
            i <= n,
            out@ == old(out)@ + v@.take(i as int),
        decreases n - i,
    {
        out.push(v[i]);
        proof {
            assert(old(out)@ + v@.take(i + 1) =~= (old(out)@ + v@.take(i as int)).push(
                v@[i as int],
            ));
        }
        i = i + 1;
    }
    proof {
        assert(v@.take(n as int) =~= v@);
    }
}

/// The lowercase hex digit of a nibble.
pub open spec fn spec_hex_digit(n: u8) -> char {
    if n == 0 {
        '0'
    } else if n == 1 {
        '1'
    } else if n == 2 {
        '2'
    } else if n == 3 {
        '3'
    } else if n == 4 {
        '4'
    } else if n == 5 {
        '5'
    } else if n == 6 {
        '6'
    } else if n == 7 {
        '7'
    } else if n == 8 {
        '8'
    } else if n == 9 {
        '9'
    } else if n == 10 {
        'a'
    } else if n == 11 {
        'b'
    } else if n == 12 {
        'c'
    } else if n == 13 {
        'd'
    } else if n == 14 {
        'e'
    } else {
        'f'
    }
}

/// The lowercase hex rendering of a byte string, two digits a byte.
pub open spec fn spec_hex(s: Seq<u8>) -> Seq<char>
    decreases s.len(),
{
    if s.len() == 0 {
        Seq::empty()
    } else {
        spec_hex(s.drop_last()).push(spec_hex_digit(s.last() >> 4)).push(
            spec_hex_digit(s.last() & 0x0f),
        )
    }
}

/// One hex digit as a string slice.
pub(crate) fn hex_digit_str(n: u8) -> (r: &'static str)
    requires
        n < 16,
    ensures
        r@ == seq![spec_hex_digit(n)],
{
    proof {
        reveal_strlit("0");
        reveal_strlit("1");
        reveal_strlit("2");
        reveal_strlit("3");
        reveal_strlit("4");
        reveal_strlit("5");
        reveal_strlit("6");
        reveal_strlit("7");
        reveal_strlit("8");
        reveal_strlit("9");
        reveal_strlit("a");
        reveal_strlit("b");
        reveal_strlit("c");
        reveal_strlit("d");
        reveal_strlit("e");
        reveal_strlit("f");
    }
    if n == 0 {
        "0"
    } else if n == 1 {
        "1"
    } else if n == 2 {
        "2"
    } else if n == 3 {
        "3"
    } else if n == 4 {
        "4"
    } else if n == 5 {
        "5"
    } else if n == 6 {
        "6"
    } else if n == 7 {
        "7"
    } else if n == 8 {
        "8"
    } else if n == 9 {
        "9"
    } else if n == 10 {
        "a"
    } else if n == 11 {
        "b"
    } else if n == 12 {
        "c"
    } else if n == 13 {
        "d"
    } else if n == 14 {
        "e"
    } else {
        "f"
    }
}

/// Renders a byte string in lowercase hex.
pub fn hex_string(v: &Vec<u8>) -> (r: String)
    ensures
        r@ == spec_hex(v@),
{
    let mut r = String::from_str("");
    proof {
        reveal_strlit("");
        assert(r@ =~= Seq::<char>::empty());
    }
    let n = v.len();
    let mut i: usize = 0;
    while i < n
        invariant
            n == v@.len(),
            i <= n,
            r@ == spec_hex(v@.take(i as int)),
        decreases n - i,
    {
        let b = v[i];
        proof {
            assert(b >> 4 < 16 && b & 0x0f < 16) by (bit_vector);
        }
        r.append(hex_digit_str(b >> 4));
        r.append(hex_digit_str(b & 0x0f));
        proof {
            assert(v@.take(i + 1).drop_last() =~= v@.take(i as int));
            assert(v@.take(i + 1).last() == v@[i as int]);
            assert(r@ =~= spec_hex(v@.take(i + 1)));
        }
        i = i + 1;
    }
    proof {
        assert(v@.take(n as int) =~= v@);
    }
    r
}

/// A vector of `n` zero bytes.
pub fn zero_bytes(n: usize) -> (r: Vec<u8>)
    ensures
        r@ == Seq::<u8>::new(n as nat, |i: int| 0u8),
{
    let mut r: Vec<u8> = Vec::new();
    let mut i: usize = 0;
    while i < n
        invariant
            i <= n,
            r@ == Seq::<u8>::new(i as nat, |j: int| 0u8),
        decreases n - i,
    {
        r.push(0u8);
        proof {
            assert(r@ =~= Seq::<u8>::new((i + 1) as nat, |j: int| 0u8));
        }
        i = i + 1;
    }
    r
}

} // verus!
