//! Numbers as bytes, the lowest byte first.

use vstd::prelude::*;

verus! {

/// The `width` lowest bytes of a number, the lowest first.
pub open spec fn le_bytes(value: nat, width: nat) -> Seq<u8>
    decreases width,
{
    if width == 0 {
        Seq::empty()
    } else {
        seq![(value % 256) as u8] + le_bytes(value / 256, (width - 1) as nat)
    }
}

/// The number whose bytes are given, the lowest first.
pub open spec fn le_value(bytes: Seq<u8>) -> nat
    decreases bytes.len(),
{
    if bytes.len() == 0 {
        0
    } else {
        bytes[0] as nat + 256 * le_value(bytes.skip(1))
    }
}

/// How many numbers `width` bytes can hold.
pub open spec fn le_limit(width: nat) -> nat
    decreases width,
{
    if width == 0 {
        1
    } else {
        256 * le_limit((width - 1) as nat)
    }
}

/// A number is written with as many bytes as asked for.
pub proof fn lemma_le_bytes_len(value: nat, width: nat)
    ensures
        le_bytes(value, width).len() == width,
    decreases width,
{
    if width > 0 {
        lemma_le_bytes_len(value / 256, (width - 1) as nat);
    }
}

/// Reading back the bytes of a number gives the number, where they can hold it.
pub proof fn law_le_read_back(value: nat, width: nat)
    requires
        value < le_limit(width),
    ensures
        le_value(le_bytes(value, width)) == value,
    decreases width,
{
    if width > 0 {
        law_le_read_back(value / 256, (width - 1) as nat);
        assert(le_bytes(value, width).skip(1) =~= le_bytes(value / 256, (width - 1) as nat));
    }
}

/// What `width` bytes cannot hold of a number is left out of them.
pub proof fn lemma_le_bytes_low(value: nat, width: nat)
    ensures
        le_limit(width) > 0,
        le_bytes(value % le_limit(width), width) == le_bytes(value, width),
    decreases width,
{
    if width > 0 {
        let rest = le_limit((width - 1) as nat);
        lemma_le_bytes_low(value / 256, (width - 1) as nat);
        vstd::arithmetic::div_mod::lemma_mod_breakdown(value as int, 256, rest as int);
        let low = value % (256 * rest);
        assert(low == 256 * ((value / 256) % rest) + value % 256);
        assert(low % 256 == value % 256);
        assert(low / 256 == (value / 256) % rest);
    }
}

/// How many numbers the widths in use can hold.
pub proof fn lemma_le_limits()
    ensures
        le_limit(2) == 0x1_0000,
        le_limit(4) == 0x1_0000_0000,
        le_limit(8) == 0x1_0000_0000_0000_0000,
{
    reveal_with_fuel(le_limit, 9);
}

/// Appends the `width` lowest bytes of a number, the lowest first.
pub fn put(out: &mut Vec<u8>, value: u64, width: usize)
    ensures
        final(out)@ == old(out)@ + le_bytes(value as nat, width as nat),
{
    let mut rest: u64 = value;
    let mut left: usize = width;
    while left > 0
        invariant
            out@ + le_bytes(rest as nat, left as nat) == old(out)@ + le_bytes(
                value as nat,
                width as nat,
            ),
        decreases left,
    {
        let ghost before = out@;
        out.push((rest % 256) as u8);
        proof {
            let tail = le_bytes((rest / 256) as nat, (left - 1) as nat);
            assert(before + (seq![(rest % 256) as u8] + tail) =~= out@ + tail);
        }
        rest = rest / 256;
        left -= 1;
    }
    assert(out@ + Seq::<u8>::empty() =~= out@);
}

/// The bytes of a number, the lowest first.
pub fn eight_bytes(value: u64) -> (r: Vec<u8>)
    ensures
        r@ == le_bytes(value as nat, 8),
{
    let mut out: Vec<u8> = Vec::new();
    put(&mut out, value, 8);
    assert(out@ =~= le_bytes(value as nat, 8));
    out
}

/// Bytes hold no number that their width is too small for.
pub proof fn lemma_le_value_bound(bytes: Seq<u8>)
    ensures
        le_value(bytes) < le_limit(bytes.len()),
    decreases bytes.len(),
{
    if bytes.len() > 0 {
        lemma_le_value_bound(bytes.skip(1));
    }
}

proof fn lemma_le_limit_grows(a: nat, b: nat)
    requires
        a <= b,
    ensures
        le_limit(a) <= le_limit(b),
    decreases b - a,
{
    if a < b {
        lemma_le_limit_grows(a, (b - 1) as nat);
    }
}

/// The number that `width` bytes from position `at` on stand for.
pub fn get(bytes: &[u8], at: usize, width: usize) -> (r: u64)
    requires
        at + width <= bytes@.len(),
        width <= 8,
    ensures
        r == le_value(bytes@.subrange(at as int, at + width)),
        r < le_limit(width as nat),
{
    let mut value: u64 = 0;
    let mut left: usize = width;
    assert(bytes@.subrange(at + left, at + width).len() == 0);
    while left > 0
        invariant
            left <= width <= 8,
            at + width <= bytes@.len(),
            value == le_value(bytes@.subrange(at + left, at + width)),
        decreases left,
    {
        let ghost tail = bytes@.subrange(at + left, at + width);
        let ghost now = bytes@.subrange(at + left - 1, at + width);
        proof {
            assert(now.skip(1) =~= tail);
            lemma_le_value_bound(now);
            lemma_le_limit_grows(now.len(), 8);
            lemma_le_limits();
        }
        assert(at + left <= bytes.len());
        let low: u8 = bytes[at + left - 1];
        assert(le_value(now) == low as nat + 256 * le_value(tail));
        value = value * 256 + low as u64;
        left -= 1;
    }
    proof {
        lemma_le_value_bound(bytes@.subrange(at as int, at + width));
    }
    value
}

/// Numbers are kept with their lowest byte first: it counts once, and what follows it counts two
/// hundred and fifty-six times.
pub proof fn law_lowest_byte_comes_first(low: u8, rest: Seq<u8>, value: nat, width: nat)
    requires
        width > 0,
    ensures
        le_value(seq![low] + rest) == low + 256 * le_value(rest),
        le_value(Seq::empty()) == 0,
        le_bytes(value, width).len() == width,
        le_bytes(value, width)[0] == value % 256,
        le_bytes(value, width).skip(1) == le_bytes(value / 256, (width - 1) as nat),
{
    assert((seq![low] + rest).skip(1) =~= rest);
    lemma_le_bytes_len(value, width);
    assert(le_bytes(value, width).skip(1) =~= le_bytes(value / 256, (width - 1) as nat));
}

} // verus!
