//! Base-128 variable-length integers, least significant group first.
//!
//! Both the record envelope and the multihash framing of a name use this encoding.

use vstd::prelude::*;

verus! {

/// The shortest encoding of `v`: seven bits per byte, low groups first, the top bit of every byte
/// but the last set.
pub open spec fn varint(v: nat) -> Seq<u8>
    decreases v,
{
    if v < 128 {
        seq![v as u8]
    } else {
        seq![(128 + v % 128) as u8] + varint(v / 128)
    }
}

/// One more than the largest value that may still follow once `i` bytes of a varint were read.
pub open spec fn varint_limit(i: int) -> int
    decreases 10 - i,
{
    if i >= 9 {
        2
    } else {
        128 * varint_limit(i + 1)
    }
}

/// Reads the rest of a varint from the front of `s`, `i` of its bytes having been read before.
/// Gives the value of that rest and the number of bytes it takes. A varint has at most ten bytes,
/// and the tenth may only be 0 or 1. Encodings longer than necessary are read too.
pub open spec fn varint_tail(s: Seq<u8>, i: int) -> Option<(nat, nat)>
    decreases 10 - i,
{
    if i < 0 || i >= 10 || s.len() == 0 {
        None
    } else if s[0] < 128 {
        if i == 9 && s[0] >= 2 {
            None
        } else {
            Some((s[0] as nat, 1nat))
        }
    } else {
        match varint_tail(s.skip(1), i + 1) {
            Some((v, n)) => Some((((s[0] - 128) + 128 * v) as nat, n + 1)),
            None => None,
        }
    }
}

/// Reads one varint from the front of `s`: its value and its length in bytes.
pub open spec fn parse_varint(s: Seq<u8>) -> Option<(nat, nat)> {
    varint_tail(s, 0)
}

/// A varint that was read is below its limit, takes at least one byte and lies within the input.
pub proof fn lemma_varint_tail_bounds(s: Seq<u8>, i: int)
    requires
        0 <= i,
    ensures
        match varint_tail(s, i) {
            Some((v, n)) => v < varint_limit(i) && 1 <= n <= 10 - i && n <= s.len(),
            None => true,
        },
    decreases 10 - i,
{
    if i < 10 && s.len() > 0 && s[0] >= 128 {
        lemma_varint_tail_bounds(s.skip(1), i + 1);
    }
    if i < 9 {
        lemma_varint_limit_grows(i + 1);
    }
}

/// Every limit is at least 2.
pub proof fn lemma_varint_limit_grows(i: int)
    ensures
        varint_limit(i) >= 2,
    decreases 10 - i,
{
    if i < 9 {
        lemma_varint_limit_grows(i + 1);
    }
}

/// Before the first byte the limit is 2^64: every varint that is read fits in 64 bits.
pub proof fn lemma_varint_limit_zero()
    ensures
        varint_limit(0) == 0x1_0000_0000_0000_0000,
{
    reveal_with_fuel(varint_limit, 11);
}

/// A varint that was read fits in 64 bits and ends within the input.
pub proof fn lemma_parse_varint_bounds(s: Seq<u8>)
    ensures
        match parse_varint(s) {
            Some((v, n)) => v <= u64::MAX && 1 <= n <= 10 && n <= s.len(),
            None => true,
        },
{
    lemma_varint_tail_bounds(s, 0);
    lemma_varint_limit_zero();
}

/// The shortest encoding of a value below the limit reads back as that value, whatever follows.
pub proof fn lemma_varint_tail_of_encoding(v: nat, rest: Seq<u8>, i: int)
    requires
        0 <= i <= 9,
        v < varint_limit(i),
    ensures
        varint_tail(varint(v) + rest, i) == Some((v, varint(v).len())),
    decreases v,
{
    let s = varint(v) + rest;
    if v < 128 {
        assert(s[0] == v as u8);
    } else {
        assert(s[0] == (128 + v % 128) as u8);
        assert(s.skip(1) =~= varint(v / 128) + rest);
        if i == 9 {
            assert(false);
        }
        lemma_varint_tail_of_encoding(v / 128, rest, i + 1);
        assert(varint(v).len() == 1 + varint(v / 128).len());
    }
}

/// Reading what `varint` wrote gives the value back, whatever follows it.
pub proof fn lemma_parse_varint_of_encoding(v: nat, rest: Seq<u8>)
    requires
        v <= u64::MAX,
    ensures
        parse_varint(varint(v) + rest) == Some((v, varint(v).len())),
        1 <= varint(v).len() <= 10,
{
    lemma_varint_limit_zero();
    lemma_varint_tail_of_encoding(v, rest, 0);
    lemma_varint_tail_bounds(varint(v) + rest, 0);
}

/// Appends the shortest encoding of `v` to `out`.
pub fn write_varint(v: u64, out: &mut Vec<u8>)
    ensures
        final(out)@ == old(out)@ + varint(v as nat),
{
    let mut rest: u64 = v;
    while rest >= 128
        invariant
            out@ + varint(rest as nat) == old(out)@ + varint(v as nat),
        decreases rest,
    {
        let low: u8 = (128 + rest % 128) as u8;
        proof {
            assert(out@.push(low) + varint((rest / 128) as nat) =~= out@ + varint(rest as nat));
        }
        out.push(low);
        rest = rest / 128;
    }
    proof {
        assert(out@.push(rest as u8) =~= out@ + varint(rest as nat));
    }
    out.push(rest as u8);
}

/// Reads the rest of a varint at `pos`, `i` of its bytes having been read before.
fn read_varint_tail(s: &[u8], pos: usize, i: u8) -> (r: Option<(u64, usize)>)
    requires
        pos <= s@.len(),
        i <= 10,
    ensures
        match varint_tail(s@.skip(pos as int), i as int) {
            Some((v, n)) => r matches Some((value, end)) && value == v && end == pos + n && end
                <= s@.len(),
            None => r is None,
        },
    decreases 10 - i,
{
    if i >= 10 || pos >= s.len() {
        return None;
    }
    let b: u8 = s[pos];
    proof {
        assert(s@.skip(pos as int)[0] == b);
        assert(s@.skip(pos as int).skip(1) =~= s@.skip(pos + 1));
        lemma_varint_tail_bounds(s@.skip(pos as int), i as int);
        lemma_varint_tail_bounds(s@.skip(pos + 1), i + 1);
        lemma_varint_limit_zero();
        if i < 9 {
            lemma_varint_limit_below(i + 1);
        }
    }
    if b < 128 {
        if i == 9 && b >= 2 {
            None
        } else {
            Some((b as u64, pos + 1))
        }
    } else {
        match read_varint_tail(s, pos + 1, i + 1) {
            Some((v, end)) => Some(((b - 128) as u64 + 128 * v, end)),
            None => None,
        }
    }
}

/// Limits shrink with every byte read: 128 times a later limit never exceeds 2^64.
pub proof fn lemma_varint_limit_below(i: int)
    requires
        1 <= i <= 9,
    ensures
        128 * varint_limit(i) <= 0x1_0000_0000_0000_0000,
    decreases i,
{
    lemma_varint_limit_zero();
    if i > 1 {
        lemma_varint_limit_below(i - 1);
        lemma_varint_limit_grows(i);
    }
}

/// Reads one varint at `pos`: its value and the position after it.
pub fn read_varint(s: &[u8], pos: usize) -> (r: Option<(u64, usize)>)
    requires
        pos <= s@.len(),
    ensures
        match parse_varint(s@.skip(pos as int)) {
            Some((v, n)) => r matches Some((value, end)) && value == v && end == pos + n && pos
                < end <= s@.len(),
            None => r is None,
        },
{
    proof {
        lemma_parse_varint_bounds(s@.skip(pos as int));
    }
    read_varint_tail(s, pos, 0)
}

} // verus!
