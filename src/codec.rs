use vstd::prelude::*;

verus! {

/// 256 raised to `width`: the number of values that `width` bytes can hold.
pub open spec fn pow256(width: nat) -> nat
    decreases width,
{
    if width == 0 {
        1
    } else {
        256 * pow256((width - 1) as nat)
    }
}

/// The register widths that the protocol uses: 1, 2, 4 or 8 bytes.
pub open spec fn valid_width(width: nat) -> bool {
    width == 1 || width == 2 || width == 4 || width == 8
}

/// The value of `bytes` read as an unsigned big-endian number.
pub open spec fn be_value(bytes: Seq<u8>) -> nat
    decreases bytes.len(),
{
    if bytes.len() == 0 {
        0
    } else {
        be_value(bytes.drop_last()) * 256 + bytes.last() as nat
    }
}

/// The `width` lowest bytes of `v`, most significant first.
pub open spec fn be_bytes(v: nat, width: nat) -> Seq<u8>
    decreases width,
{
    if width == 0 {
        Seq::empty()
    } else {
        be_bytes(v / 256, (width - 1) as nat).push((v % 256) as u8)
    }
}

/// Whether `v` fits a signed two's complement number of `width` bytes.
pub open spec fn fits_signed(v: int, width: nat) -> bool {
    -(pow256(width) / 2) <= v < pow256(width) / 2
}

/// The unsigned number whose two's complement bytes of `width` stand for `v`.
pub open spec fn twos_complement(v: int, width: nat) -> nat {
    if v < 0 {
        (v + pow256(width)) as nat
    } else {
        v as nat
    }
}

/// The value of `bytes` read as a signed two's complement big-endian number.
pub open spec fn be_signed_value(bytes: Seq<u8>) -> int {
    let u = be_value(bytes);
    let p = pow256(bytes.len());
    if u >= p / 2 {
        u - p
    } else {
        u as int
    }
}

proof fn lemma_pow256_monotonic(a: nat, b: nat)
    requires
        a <= b,
    ensures
        pow256(a) <= pow256(b),
        pow256(a) >= 1,
    decreases b,
{
    if b > a {
        lemma_pow256_monotonic(a, (b - 1) as nat);
    } else if a > 0 {
        lemma_pow256_monotonic((a - 1) as nat, (a - 1) as nat);
    }
}

proof fn lemma_pow256_values()
    ensures
        pow256(1) == 0x100,
        pow256(2) == 0x1_0000,
        pow256(4) == 0x1_0000_0000,
        pow256(7) == 0x100_0000_0000_0000,
        pow256(8) == 0x1_0000_0000_0000_0000,
{
    reveal_with_fuel(pow256, 9);
}

/// A big-endian number of `n` bytes is below 256 to the `n`.
pub proof fn lemma_be_value_bound(bytes: Seq<u8>)
    ensures
        be_value(bytes) < pow256(bytes.len()),
    decreases bytes.len(),
{
    if bytes.len() > 0 {
        let rest = bytes.drop_last();
        lemma_be_value_bound(rest);
        let a = be_value(rest);
        let p = pow256(rest.len());
        let b = bytes.last() as nat;
        assert(a * 256 + b < 256 * p) by (nonlinear_arith)
            requires
                a < p,
                b < 256,
        ;
    }
}

/// The big-endian bytes of a number at a width have that many bytes.
pub proof fn lemma_be_bytes_len(v: nat, width: nat)
    ensures
        be_bytes(v, width).len() == width,
    decreases width,
{
    if width > 0 {
        lemma_be_bytes_len(v / 256, (width - 1) as nat);
    }
}

/// Encoding a number that fits into `width` bytes and decoding the bytes
/// gives the number back.
pub proof fn lemma_be_round_trip(v: nat, width: nat)
    requires
        v < pow256(width),
    ensures
        be_bytes(v, width).len() == width,
        be_value(be_bytes(v, width)) == v,
    decreases width,
{
    if width > 0 {
        let w1 = (width - 1) as nat;
        let p = pow256(w1);
        assert(v / 256 < p) by (nonlinear_arith)
            requires
                v < 256 * p,
        ;
        lemma_be_round_trip(v / 256, w1);
        let s = be_bytes(v, width);
        assert(s.drop_last() =~= be_bytes(v / 256, w1));
    }
}

/// Decoding bytes and encoding the number at the same width gives the bytes
/// back.
pub proof fn lemma_be_bytes_of_value(bytes: Seq<u8>)
    ensures
        be_bytes(be_value(bytes), bytes.len()) =~= bytes,
    decreases bytes.len(),
{
    if bytes.len() > 0 {
        let rest = bytes.drop_last();
        lemma_be_bytes_of_value(rest);
        let a = be_value(rest);
        let b = bytes.last() as nat;
        assert((a * 256 + b) / 256 == a && (a * 256 + b) % 256 == b) by (nonlinear_arith)
            requires
                b < 256,
        ;
        assert(bytes =~= rest.push(bytes.last()));
    }
}

/// Encoding a signed number that fits into `width` bytes in two's
/// complement and decoding the bytes as signed gives the number back.
pub proof fn lemma_be_signed_round_trip(v: int, width: nat)
    requires
        width >= 1,
        fits_signed(v, width),
    ensures
        be_bytes(twos_complement(v, width), width).len() == width,
        be_signed_value(be_bytes(twos_complement(v, width), width)) == v,
{
    let u = twos_complement(v, width);
    lemma_pow256_monotonic(1, width);
    lemma_be_round_trip(u, width);
}

/// The `width` bytes, most significant first, of a number that fits them.
pub fn encode_be(value: u64, width: usize) -> (r: Vec<u8>)
    requires
        valid_width(width as nat),
        value < pow256(width as nat),
    ensures
        r@ == be_bytes(value as nat, width as nat),
        r@.len() == width,
        be_value(r@) == value,
{
    proof {
        lemma_be_round_trip(value as nat, width as nat);
    }
    encode_digits(value, width)
}

fn encode_digits(value: u64, width: usize) -> (r: Vec<u8>)
    ensures
        r@ == be_bytes(value as nat, width as nat),
    decreases width,
{
    if width == 0 {
        Vec::new()
    } else {
        let mut r = encode_digits(value / 256, width - 1);
        r.push((value % 256) as u8);
        r
    }
}

/// The unsigned big-endian number that `bytes` hold.
pub fn decode_be(bytes: &[u8]) -> (r: u64)
    requires
        bytes@.len() <= 8,
    ensures
        r == be_value(bytes@),
{
    let mut acc: u64 = 0;
    let mut i: usize = 0;
    while i < bytes.len()
        invariant
            i <= bytes@.len() <= 8,
            acc == be_value(bytes@.subrange(0, i as int)),
        decreases bytes@.len() - i,
    {
        let prefix = Ghost(bytes@.subrange(0, i as int));
        proof {
            lemma_be_value_bound(prefix@);
            lemma_pow256_monotonic(i as nat, 7);
            lemma_pow256_values();
            assert(acc * 256 + 255 < 0x1_0000_0000_0000_0000) by (nonlinear_arith)
                requires
                    acc < 0x100_0000_0000_0000,
            ;
        }
        acc = acc * 256 + bytes[i] as u64;
        i = i + 1;
        proof {
            assert(bytes@.subrange(0, i as int).drop_last() =~= prefix@);
        }
    }
    assert(bytes@.subrange(0, i as int) =~= bytes@);
    acc
}

/// 256 raised to `width`, for the widths up to eight.
fn byte_range(width: usize) -> (r: u128)
    requires
        width <= 8,
    ensures
        r == pow256(width as nat),
        r <= 0x1_0000_0000_0000_0000,
    decreases width,
{
    proof {
        lemma_pow256_monotonic(width as nat, 8);
        lemma_pow256_values();
    }
    if width == 0 {
        1
    } else {
        let p = byte_range(width - 1);
        proof {
            lemma_pow256_monotonic((width - 1) as nat, 7);
        }
        256 * p
    }
}

/// The `width` two's complement bytes, most significant first, of a signed
/// number that fits them.
pub fn encode_be_signed(value: i64, width: usize) -> (r: Vec<u8>)
    requires
        valid_width(width as nat),
        fits_signed(value as int, width as nat),
    ensures
        r@ == be_bytes(twos_complement(value as int, width as nat), width as nat),
        r@.len() == width,
        be_signed_value(r@) == value,
{
    let p = byte_range(width);
    let u: u64 = if value < 0 {
        (value as i128 + p as i128) as u64
    } else {
        value as u64
    };
    proof {
        lemma_be_signed_round_trip(value as int, width as nat);
    }
    encode_digits(u, width)
}

/// The signed two's complement big-endian number that `bytes` hold.
pub fn decode_be_signed(bytes: &[u8]) -> (r: i64)
    requires
        1 <= bytes@.len() <= 8,
    ensures
        r == be_signed_value(bytes@),
{
    let u = decode_be(bytes);
    let p = byte_range(bytes.len());
    proof {
        lemma_be_value_bound(bytes@);
        lemma_pow256_monotonic(1, bytes@.len());
    }
    if u as u128 >= p / 2 {
        (u as i128 - p as i128) as i64
    } else {
        u as i64
    }
}

} // verus!
