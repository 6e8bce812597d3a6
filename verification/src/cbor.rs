//! The framing of CBOR data items: heads, byte and text strings, unsigned integers, and the
//! extent of any well-formed item.
//!
//! A head is one byte, three bits of major type and five of additional information, followed by
//! 0, 1, 2, 4 or 8 bytes of argument in network order. Additional information 31 opens an item
//! of indefinite length, or, with major type 7, closes one.

use crate::bytes::append_bytes;
use vstd::prelude::*;

verus! {

/// The byte that closes an item of indefinite length.
pub const BREAK: u8 = 0xff;

/// How deep arrays, maps and tags may nest in an item.
pub const MAX_DEPTH: u32 = 128;

/// Two bytes of `s` at `i` as a number, most significant first.
pub open spec fn be2(s: Seq<u8>, i: int) -> nat {
    (s[i] * 0x100 + s[i + 1]) as nat
}

/// Four bytes of `s` at `i` as a number, most significant first.
pub open spec fn be4(s: Seq<u8>, i: int) -> nat {
    be2(s, i) * 0x1_0000 + be2(s, i + 2)
}

/// Eight bytes of `s` at `i` as a number, most significant first.
pub open spec fn be8(s: Seq<u8>, i: int) -> nat {
    be4(s, i) * 0x1_0000_0000 + be4(s, i + 4)
}

/// Byte `k` of `n`, counted from the least significant.
pub open spec fn byte_of(n: nat, k: nat) -> u8 {
    if k == 0 {
        (n % 0x100) as u8
    } else if k == 1 {
        (n / 0x100 % 0x100) as u8
    } else if k == 2 {
        (n / 0x1_0000 % 0x100) as u8
    } else if k == 3 {
        (n / 0x100_0000 % 0x100) as u8
    } else if k == 4 {
        (n / 0x1_0000_0000 % 0x100) as u8
    } else if k == 5 {
        (n / 0x100_0000_0000 % 0x100) as u8
    } else if k == 6 {
        (n / 0x1_0000_0000_0000 % 0x100) as u8
    } else {
        (n / 0x100_0000_0000_0000 % 0x100) as u8
    }
}

/// The first byte of a head.
pub open spec fn initial_byte(major: nat, info: nat) -> u8 {
    (major * 32 + info) as u8
}

/// The shortest head of major type `major` with argument `n`.
pub open spec fn head(major: nat, n: nat) -> Seq<u8> {
    if n < 24 {
        seq![initial_byte(major, n)]
    } else if n < 0x100 {
        seq![initial_byte(major, 24), byte_of(n, 0)]
    } else if n < 0x1_0000 {
        seq![initial_byte(major, 25), byte_of(n, 1), byte_of(n, 0)]
    } else if n < 0x1_0000_0000 {
        seq![initial_byte(major, 26), byte_of(n, 3), byte_of(n, 2), byte_of(n, 1), byte_of(n, 0)]
    } else {
        seq![
            initial_byte(major, 27),
            byte_of(n, 7),
            byte_of(n, 6),
            byte_of(n, 5),
            byte_of(n, 4),
            byte_of(n, 3),
            byte_of(n, 2),
            byte_of(n, 1),
            byte_of(n, 0),
        ]
    }
}

/// A byte string as an item of definite length.
pub open spec fn byte_string(b: Seq<u8>) -> Seq<u8> {
    head(2, b.len()) + b
}

/// A text string, given by its UTF-8 bytes, as an item of definite length.
pub open spec fn text_string(b: Seq<u8>) -> Seq<u8> {
    head(3, b.len()) + b
}

/// An unsigned integer as an item, in its shortest form.
pub open spec fn unsigned(n: nat) -> Seq<u8> {
    head(0, n)
}

/// A head as it was read: major type, additional information, argument, and its length.
pub struct Head {
    pub major: nat,
    pub info: nat,
    pub arg: nat,
    pub len: nat,
}

/// Reads a head from the front of `s`. Additional information 28 to 30 is not a head. With 31
/// the argument is 0. An argument need not be in its shortest form.
pub open spec fn parse_head(s: Seq<u8>) -> Option<Head> {
    if s.len() == 0 {
        None
    } else {
        let major = (s[0] / 32) as nat;
        let info = (s[0] % 32) as nat;
        if info < 24 {
            Some(Head { major, info, arg: info, len: 1 })
        } else if info == 24 {
            if s.len() < 2 {
                None
            } else {
                Some(Head { major, info, arg: s[1] as nat, len: 2 })
            }
        } else if info == 25 {
            if s.len() < 3 {
                None
            } else {
                Some(Head { major, info, arg: be2(s, 1), len: 3 })
            }
        } else if info == 26 {
            if s.len() < 5 {
                None
            } else {
                Some(Head { major, info, arg: be4(s, 1), len: 5 })
            }
        } else if info == 27 {
            if s.len() < 9 {
                None
            } else {
                Some(Head { major, info, arg: be8(s, 1), len: 9 })
            }
        } else if info == 31 {
            Some(Head { major, info, arg: 0, len: 1 })
        } else {
            None
        }
    }
}

/// Reads a string of major type `major` and definite length from the front of `s`: its
/// content and the length of the whole item.
pub open spec fn parse_string(s: Seq<u8>, major: nat) -> Option<(Seq<u8>, nat)> {
    match parse_head(s) {
        Some(h) => if h.major == major && h.info != 31 && h.len + h.arg <= s.len() {
            Some((s.subrange(h.len as int, (h.len + h.arg) as int), h.len + h.arg))
        } else {
            None
        },
        None => None,
    }
}

/// Reads an unsigned integer from the front of `s`: its value and the length of the item.
pub open spec fn parse_unsigned(s: Seq<u8>) -> Option<(nat, nat)> {
    match parse_head(s) {
        Some(h) => if h.major == 0 && h.info != 31 {
            Some((h.arg, h.len))
        } else {
            None
        },
        None => None,
    }
}

/// The length of the well-formed item at the front of `s`, in which arrays, maps and tags
/// nest at most `depth` deep.
pub open spec fn item_len(s: Seq<u8>, depth: nat) -> Option<nat>
    decreases depth, s.len(), 0nat,
{
    match parse_head(s) {
        None => None,
        Some(h) => if h.major == 0 || h.major == 1 {
            if h.info == 31 {
                None
            } else {
                Some(h.len)
            }
        } else if h.major == 2 || h.major == 3 {
            if h.info == 31 {
                match chunks_len(s.skip(1), h.major) {
                    Some(n) => Some(1 + n),
                    None => None,
                }
            } else if h.len + h.arg <= s.len() {
                Some(h.len + h.arg)
            } else {
                None
            }
        } else if h.major == 4 || h.major == 5 {
            if depth == 0 || h.len > s.len() {
                None
            } else {
                match sequence_len(
                    s.skip(h.len as int),
                    if h.info == 31 {
                        None
                    } else {
                        Some(h.arg)
                    },
                    h.major == 5,
                    (depth - 1) as nat,
                ) {
                    Some(n) => Some(h.len + n),
                    None => None,
                }
            }
        } else if h.major == 6 {
            if h.info == 31 || depth == 0 || h.len > s.len() {
                None
            } else {
                match item_len(s.skip(h.len as int), (depth - 1) as nat) {
                    Some(n) => Some(h.len + n),
                    None => None,
                }
            }
        } else {
            if h.info == 31 {
                None
            } else {
                Some(h.len)
            }
        },
    }
}

/// The length of the chunks of an indefinite string of major type `major` at the front of
/// `s`, the closing byte included. Every chunk is a string of that type and of definite length.
#[verifier::opaque]
pub open spec fn chunks_len(s: Seq<u8>, major: nat) -> Option<nat>
    decreases s.len(),
{
    if s.len() == 0 {
        None
    } else if s[0] == BREAK {
        Some(1nat)
    } else {
        match parse_string(s, major) {
            Some((_, n)) => if n == 0 || n > s.len() {
                None
            } else {
                match chunks_len(s.skip(n as int), major) {
                    Some(r) => Some(n + r),
                    None => None,
                }
            },
            None => None,
        }
    }
}

/// One fewer member left, where a count is given.
pub open spec fn one_fewer(remaining: Option<nat>) -> Option<nat> {
    match remaining {
        Some(k) => Some((k - 1) as nat),
        None => None,
    }
}

/// The length of the members of an array or a map at the front of `s`: `remaining` of them
/// where that is given, else as many as stand before the closing byte, which is counted in.
/// A member of a map is a key and a value.
#[verifier::opaque]
pub open spec fn sequence_len(
    s: Seq<u8>,
    remaining: Option<nat>,
    pairs: bool,
    depth: nat,
) -> Option<nat>
    decreases depth, s.len(), 2nat,
{
    if remaining == Some(0nat) {
        Some(0nat)
    } else if remaining is None && s.len() > 0 && s[0] == BREAK {
        Some(1nat)
    } else {
        match member_len(s, pairs, depth) {
            Some(n) => if n == 0 || n > s.len() {
                None
            } else {
                match sequence_len(s.skip(n as int), one_fewer(remaining), pairs, depth) {
                    Some(r) => Some(n + r),
                    None => None,
                }
            },
            None => None,
        }
    }
}

/// The length of one member at the front of `s`: one item, or two for a member of a map.
pub open spec fn member_len(s: Seq<u8>, pairs: bool, depth: nat) -> Option<nat>
    decreases depth, s.len(), 1nat,
{
    match item_len(s, depth) {
        Some(n) => if !pairs {
            Some(n)
        } else if n == 0 || n > s.len() {
            None
        } else {
            match item_len(s.skip(n as int), depth) {
                Some(m) => Some(n + m),
                None => None,
            }
        },
        None => None,
    }
}

/// The chunks at the front of `s` are the closing byte, or a string and the chunks after it.
pub proof fn lemma_chunks_step(s: Seq<u8>, major: nat)
    ensures
        chunks_len(s, major) == if s.len() == 0 {
            None
        } else if s[0] == BREAK {
            Some(1nat)
        } else {
            match parse_string(s, major) {
                Some((_, n)) => if n == 0 || n > s.len() {
                    None
                } else {
                    match chunks_len(s.skip(n as int), major) {
                        Some(r) => Some(n + r),
                        None => None,
                    }
                },
                None => None,
            }
        },
{
    reveal(chunks_len);
}

/// The members at the front of `s` are none, or the closing byte, or a member and the
/// members after it.
pub proof fn lemma_sequence_step(s: Seq<u8>, remaining: Option<nat>, pairs: bool, depth: nat)
    ensures
        sequence_len(s, remaining, pairs, depth) == if remaining == Some(0nat) {
            Some(0nat)
        } else if remaining is None && s.len() > 0 && s[0] == BREAK {
            Some(1nat)
        } else {
            match member_len(s, pairs, depth) {
                Some(n) => if n == 0 || n > s.len() {
                    None
                } else {
                    match sequence_len(s.skip(n as int), one_fewer(remaining), pairs, depth) {
                        Some(r) => Some(n + r),
                        None => None,
                    }
                },
                None => None,
            }
        },
{
    reveal(sequence_len);
}

/// Appends the shortest head of major type `major` with argument `n` to `out`.
pub fn write_head(major: u8, n: u64, out: &mut Vec<u8>)
    requires
        major <= 7,
    ensures
        final(out)@ == old(out)@ + head(major as nat, n as nat),
{
    let first: u8 = major * 32;
    if n < 24 {
        out.push(first + n as u8);
    } else if n < 0x100 {
        out.push(first + 24);
        out.push((n % 0x100) as u8);
    } else if n < 0x1_0000 {
        out.push(first + 25);
        out.push((n / 0x100 % 0x100) as u8);
        out.push((n % 0x100) as u8);
    } else if n < 0x1_0000_0000 {
        out.push(first + 26);
        out.push((n / 0x100_0000 % 0x100) as u8);
        out.push((n / 0x1_0000 % 0x100) as u8);
        out.push((n / 0x100 % 0x100) as u8);
        out.push((n % 0x100) as u8);
    } else {
        out.push(first + 27);
        out.push((n / 0x100_0000_0000_0000 % 0x100) as u8);
        out.push((n / 0x1_0000_0000_0000 % 0x100) as u8);
        out.push((n / 0x100_0000_0000 % 0x100) as u8);
        out.push((n / 0x1_0000_0000 % 0x100) as u8);
        out.push((n / 0x100_0000 % 0x100) as u8);
        out.push((n / 0x1_0000 % 0x100) as u8);
        out.push((n / 0x100 % 0x100) as u8);
        out.push((n % 0x100) as u8);
    }
    assert(out@ =~= old(out)@ + head(major as nat, n as nat));
}

/// Appends `b` as a byte string of definite length to `out`.
pub fn write_byte_string(b: &[u8], out: &mut Vec<u8>)
    ensures
        final(out)@ == old(out)@ + byte_string(b@),
{
    write_head(2, b.len() as u64, out);
    append_bytes(out, b);
    assert(out@ =~= old(out)@ + byte_string(b@));
}

/// Appends the text whose UTF-8 bytes are `b` as a text string of definite length to `out`.
pub fn write_text_string(b: &[u8], out: &mut Vec<u8>)
    ensures
        final(out)@ == old(out)@ + text_string(b@),
{
    write_head(3, b.len() as u64, out);
    append_bytes(out, b);
    assert(out@ =~= old(out)@ + text_string(b@));
}

/// Appends `n` as an unsigned integer in its shortest form to `out`.
pub fn write_unsigned(n: u64, out: &mut Vec<u8>)
    ensures
        final(out)@ == old(out)@ + unsigned(n as nat),
{
    write_head(0, n, out);
}

/// A head as it was read from a slice: major type, additional information, argument, and the
/// position after it.
pub struct HeadAt {
    pub major: u8,
    pub info: u8,
    pub arg: u64,
    pub end: usize,
}

/// Reads a head at `pos`.
pub fn read_head(s: &[u8], pos: usize) -> (r: Option<HeadAt>)
    requires
        pos <= s@.len(),
    ensures
        match parse_head(s@.skip(pos as int)) {
            Some(h) => r matches Some(at) && at.major == h.major && at.info == h.info && at.arg
                == h.arg && at.end == pos + h.len && at.end <= s@.len() && at.major <= 7
                && h.len >= 1,
            None => r is None,
        },
{
    let left: usize = s.len() - pos;
    if left == 0 {
        return None;
    }
    let first: u8 = s[pos];
    let major: u8 = first / 32;
    let info: u8 = first % 32;
    if info < 24 {
        Some(HeadAt { major, info, arg: info as u64, end: pos + 1 })
    } else if info == 24 {
        if left < 2 {
            None
        } else {
            Some(HeadAt { major, info, arg: s[pos + 1] as u64, end: pos + 2 })
        }
    } else if info == 25 {
        if left < 3 {
            None
        } else {
            let arg: u64 = s[pos + 1] as u64 * 0x100 + s[pos + 2] as u64;
            Some(HeadAt { major, info, arg, end: pos + 3 })
        }
    } else if info == 26 {
        if left < 5 {
            None
        } else {
            let high: u64 = s[pos + 1] as u64 * 0x100 + s[pos + 2] as u64;
            let low: u64 = s[pos + 3] as u64 * 0x100 + s[pos + 4] as u64;
            Some(HeadAt { major, info, arg: high * 0x1_0000 + low, end: pos + 5 })
        }
    } else if info == 27 {
        if left < 9 {
            None
        } else {
            let a: u64 = s[pos + 1] as u64 * 0x100 + s[pos + 2] as u64;
            let b: u64 = s[pos + 3] as u64 * 0x100 + s[pos + 4] as u64;
            let c: u64 = s[pos + 5] as u64 * 0x100 + s[pos + 6] as u64;
            let d: u64 = s[pos + 7] as u64 * 0x100 + s[pos + 8] as u64;
            let high: u64 = a * 0x1_0000 + b;
            let low: u64 = c * 0x1_0000 + d;
            Some(HeadAt { major, info, arg: high * 0x1_0000_0000 + low, end: pos + 9 })
        }
    } else if info == 31 {
        Some(HeadAt { major, info, arg: 0, end: pos + 1 })
    } else {
        None
    }
}

/// Reads a string of major type `major` and definite length at `pos`: where its content
/// starts and where it ends.
pub fn read_string(s: &[u8], pos: usize, major: u8) -> (r: Option<(usize, usize)>)
    requires
        pos <= s@.len(),
    ensures
        match parse_string(s@.skip(pos as int), major as nat) {
            Some((b, n)) => r matches Some((start, end)) && pos < start <= end && end == pos + n
                && end <= s@.len() && b == s@.subrange(start as int, end as int),
            None => r is None,
        },
{
    match read_head(s, pos) {
        Some(at) => {
            if at.major != major || at.info == 31 || at.arg > (s.len() - at.end) as u64 {
                None
            } else {
                let end: usize = at.end + at.arg as usize;
                proof {
                    assert(s@.skip(pos as int).subrange(at.end - pos, end - pos) =~= s@.subrange(
                        at.end as int,
                        end as int,
                    ));
                }
                Some((at.end, end))
            }
        },
        None => None,
    }
}

/// Reads an unsigned integer at `pos`: its value and the position after it.
pub fn read_unsigned(s: &[u8], pos: usize) -> (r: Option<(u64, usize)>)
    requires
        pos <= s@.len(),
    ensures
        match parse_unsigned(s@.skip(pos as int)) {
            Some((v, n)) => r matches Some((value, end)) && value == v && end == pos + n && pos
                < end <= s@.len(),
            None => r is None,
        },
{
    match read_head(s, pos) {
        Some(at) => {
            if at.major != 0 || at.info == 31 {
                None
            } else {
                Some((at.arg, at.end))
            }
        },
        None => None,
    }
}

/// Reads over the chunks of an indefinite string at `start`: the position after the closing
/// byte.
fn skip_chunks(s: &[u8], start: usize, major: u8) -> (r: Option<usize>)
    requires
        start <= s@.len(),
    ensures
        match chunks_len(s@.skip(start as int), major as nat) {
            Some(n) => r matches Some(end) && end == start + n && start < end <= s@.len(),
            None => r is None,
        },
{
    let mut pos: usize = start;
    loop
        invariant
            start <= pos <= s@.len(),
            match chunks_len(s@.skip(pos as int), major as nat) {
                Some(n) => chunks_len(s@.skip(start as int), major as nat) == Some(
                    (pos - start + n) as nat,
                ),
                None => chunks_len(s@.skip(start as int), major as nat) is None,
            },
        decreases s@.len() - pos,
    {
        proof {
            lemma_chunks_step(s@.skip(pos as int), major as nat);
        }
        if pos >= s.len() {
            return None;
        }
        if s[pos] == BREAK {
            return Some(pos + 1);
        }
        let end = match read_string(s, pos, major) {
            Some((_, end)) => end,
            None => {
                return None;
            },
        };
        proof {
            assert(s@.skip(pos as int).skip(end - pos) =~= s@.skip(end as int));
        }
        pos = end;
    }
}

/// Reads over the item at `pos`: the position after it.
pub fn skip_item(s: &[u8], pos: usize, depth: u32) -> (r: Option<usize>)
    requires
        pos <= s@.len(),
    ensures
        match item_len(s@.skip(pos as int), depth as nat) {
            Some(n) => r matches Some(end) && end == pos + n && pos < end <= s@.len(),
            None => r is None,
        },
    decreases depth, 0nat,
{
    proof {
        reveal(chunks_len);
        reveal(sequence_len);
    }
    let at = match read_head(s, pos) {
        Some(at) => at,
        None => {
            return None;
        },
    };
    proof {
        assert(s@.skip(pos as int).skip(at.end - pos) =~= s@.skip(at.end as int));
    }
    if at.major == 0 || at.major == 1 || at.major == 7 {
        if at.info == 31 {
            None
        } else {
            Some(at.end)
        }
    } else if at.major == 2 || at.major == 3 {
        if at.info == 31 {
            skip_chunks(s, at.end, at.major)
        } else if at.arg > (s.len() - at.end) as u64 {
            None
        } else {
            Some(at.end + at.arg as usize)
        }
    } else if at.major == 4 || at.major == 5 {
        if depth == 0 {
            None
        } else {
            let remaining: Option<u64> = if at.info == 31 {
                None
            } else {
                Some(at.arg)
            };
            skip_sequence(s, at.end, remaining, at.major == 5, depth - 1)
        }
    } else {
        if at.info == 31 || depth == 0 {
            None
        } else {
            skip_item(s, at.end, depth - 1)
        }
    }
}

/// The number that an optional integer holds.
pub open spec fn count_of(remaining: Option<u64>) -> Option<nat> {
    match remaining {
        Some(k) => Some(k as nat),
        None => None,
    }
}

/// Reads over one member at `pos`: the position after it.
fn skip_member(s: &[u8], pos: usize, pairs: bool, depth: u32) -> (r: Option<usize>)
    requires
        pos <= s@.len(),
    ensures
        match member_len(s@.skip(pos as int), pairs, depth as nat) {
            Some(n) => r matches Some(end) && end == pos + n && pos < end <= s@.len(),
            None => r is None,
        },
    decreases depth, 1nat,
{
    let first = match skip_item(s, pos, depth) {
        Some(end) => end,
        None => {
            return None;
        },
    };
    proof {
        assert(s@.skip(pos as int).skip(first - pos) =~= s@.skip(first as int));
    }
    if pairs {
        skip_item(s, first, depth)
    } else {
        Some(first)
    }
}

/// Reads over the members of an array or a map at `start`: the position after the last of
/// them, or after the closing byte where no count is given.
fn skip_sequence(s: &[u8], start: usize, remaining: Option<u64>, pairs: bool, depth: u32) -> (r:
    Option<usize>)
    requires
        start <= s@.len(),
    ensures
        match sequence_len(s@.skip(start as int), count_of(remaining), pairs, depth as nat) {
            Some(n) => r matches Some(end) && end == start + n && end <= s@.len(),
            None => r is None,
        },
    decreases depth, 2nat,
{
    let ghost whole = sequence_len(s@.skip(start as int), count_of(remaining), pairs, depth as nat);
    let mut pos: usize = start;
    let mut left: Option<u64> = remaining;
    loop
        invariant
            start <= pos <= s@.len(),
            whole == sequence_len(s@.skip(start as int), count_of(remaining), pairs, depth as nat),
            whole == match sequence_len(s@.skip(pos as int), count_of(left), pairs, depth as nat) {
                Some(n) => Some((pos - start + n) as nat),
                None => None,
            },
        decreases s@.len() - pos,
    {
        let ghost rest = s@.skip(pos as int);
        proof {
            lemma_sequence_step(rest, count_of(left), pairs, depth as nat);
        }
        match left {
            Some(k) => {
                if k == 0 {
                    return Some(pos);
                }
            },
            None => {
                if pos < s.len() && s[pos] == BREAK {
                    return Some(pos + 1);
                }
            },
        }
        let end = match skip_member(s, pos, pairs, depth) {
            Some(end) => end,
            None => {
                return None;
            },
        };
        proof {
            assert(rest.skip(end - pos) =~= s@.skip(end as int));
        }
        left =
        match left {
            Some(k) => Some((k - 1) as u64),
            None => None,
        };
        pos = end;
    }
}

/// The additional information of the shortest head with argument `n`.
pub open spec fn shortest_info(n: nat) -> nat {
    if n < 24 {
        n
    } else if n < 0x100 {
        24
    } else if n < 0x1_0000 {
        25
    } else if n < 0x1_0000_0000 {
        26
    } else {
        27
    }
}

/// The bytes of a number put together again give the number.
proof fn lemma_bytes_recompose(n: nat)
    requires
        n <= u64::MAX,
    ensures
        n < 0x1_0000 ==> byte_of(n, 1) * 0x100 + byte_of(n, 0) == n,
        n < 0x1_0000_0000 ==> (byte_of(n, 3) * 0x100 + byte_of(n, 2)) * 0x1_0000 + (byte_of(n, 1)
            * 0x100 + byte_of(n, 0)) == n,
        ((byte_of(n, 7) * 0x100 + byte_of(n, 6)) * 0x1_0000 + (byte_of(n, 5) * 0x100 + byte_of(
            n,
            4,
        ))) * 0x1_0000_0000 + ((byte_of(n, 3) * 0x100 + byte_of(n, 2)) * 0x1_0000 + (byte_of(n, 1)
            * 0x100 + byte_of(n, 0))) == n,
{
    let q1 = n / 0x100;
    let q2 = n / 0x1_0000;
    let q3 = n / 0x100_0000;
    let q4 = n / 0x1_0000_0000;
    let q5 = n / 0x100_0000_0000;
    let q6 = n / 0x1_0000_0000_0000;
    let q7 = n / 0x100_0000_0000_0000;
    assert(q2 == q1 / 0x100);
    assert(q3 == q2 / 0x100);
    assert(q4 == q3 / 0x100);
    assert(q5 == q4 / 0x100);
    assert(q6 == q5 / 0x100);
    assert(q7 == q6 / 0x100);
    assert(n == q1 * 0x100 + n % 0x100);
    assert(q1 == q2 * 0x100 + q1 % 0x100);
    assert(q2 == q3 * 0x100 + q2 % 0x100);
    assert(q3 == q4 * 0x100 + q3 % 0x100);
    assert(q4 == q5 * 0x100 + q4 % 0x100);
    assert(q5 == q6 * 0x100 + q5 % 0x100);
    assert(q6 == q7 * 0x100 + q6 % 0x100);
    assert(q7 < 0x100);
}

/// The first byte of a head holds its major type and its additional information.
proof fn lemma_initial_byte(major: nat, info: nat)
    requires
        major <= 7,
        info < 32,
    ensures
        initial_byte(major, info) / 32 == major,
        initial_byte(major, info) % 32 == info,
{
    vstd::arithmetic::div_mod::lemma_fundamental_div_mod_converse(
        (major * 32 + info) as int,
        32,
        major as int,
        info as int,
    );
}

/// Reading the shortest head gives its major type and argument back, whatever follows.
pub proof fn lemma_parse_head_of_head(major: nat, n: nat, rest: Seq<u8>)
    requires
        major <= 7,
        n <= u64::MAX,
    ensures
        parse_head(head(major, n) + rest) == Some(
            Head { major, info: shortest_info(n), arg: n, len: head(major, n).len() },
        ),
        1 <= head(major, n).len() <= 9,
{
    let h = head(major, n);
    let s = h + rest;
    let info = shortest_info(n);
    lemma_initial_byte(major, info);
    lemma_bytes_recompose(n);
    assert(s[0] == h[0]);
    if n < 24 {
    } else if n < 0x100 {
        assert(s[1] == h[1]);
    } else if n < 0x1_0000 {
        assert(s[1] == h[1]);
        assert(s[2] == h[2]);
    } else if n < 0x1_0000_0000 {
        assert(s[1] == h[1]);
        assert(s[2] == h[2]);
        assert(s[3] == h[3]);
        assert(s[4] == h[4]);
    } else {
        assert(s[1] == h[1]);
        assert(s[2] == h[2]);
        assert(s[3] == h[3]);
        assert(s[4] == h[4]);
        assert(s[5] == h[5]);
        assert(s[6] == h[6]);
        assert(s[7] == h[7]);
        assert(s[8] == h[8]);
    }
}

/// Reading a string that was written in definite form gives its content back, whatever
/// follows.
pub proof fn lemma_parse_string_of_encoding(major: nat, b: Seq<u8>, rest: Seq<u8>)
    requires
        major <= 7,
        b.len() <= u64::MAX,
    ensures
        parse_string(head(major, b.len()) + b + rest, major) == Some(
            (b, head(major, b.len()).len() + b.len()),
        ),
{
    let h = head(major, b.len());
    let s = h + b + rest;
    assert(s =~= h + (b + rest));
    lemma_parse_head_of_head(major, b.len(), b + rest);
    assert(s.subrange(h.len() as int, (h.len() + b.len()) as int) =~= b);
}

/// Reading an unsigned integer that was written in its shortest form gives it back,
/// whatever follows.
pub proof fn lemma_parse_unsigned_of_encoding(n: nat, rest: Seq<u8>)
    requires
        n <= u64::MAX,
    ensures
        parse_unsigned(unsigned(n) + rest) == Some((n, unsigned(n).len())),
        1 <= unsigned(n).len() <= 9,
{
    lemma_parse_head_of_head(0, n, rest);
}

} // verus!
