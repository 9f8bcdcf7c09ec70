//! Base-128 numbers: seven bits to a byte, least significant first, the high
//! bit of a byte saying that another byte follows.

use vstd::prelude::*;

verus! {

/// The bytes of `v`.
pub open spec fn varint(v: nat) -> Seq<u8>
    decreases v,
{
    if v < 128 {
        seq![v as u8]
    } else {
        seq![(v % 128 + 128) as u8] + varint(v / 128)
    }
}

/// What a number may at most be, one more, when `taken` of its bytes have been
/// read and it is to fit 64 bits.
pub open spec fn room(taken: nat) -> nat {
    if taken == 0 {
        0x1_0000_0000_0000_0000
    } else if taken == 1 {
        0x200_0000_0000_0000
    } else if taken == 2 {
        0x4_0000_0000_0000
    } else if taken == 3 {
        0x800_0000_0000
    } else if taken == 4 {
        0x10_0000_0000
    } else if taken == 5 {
        0x2000_0000
    } else if taken == 6 {
        0x40_0000
    } else if taken == 7 {
        0x8000
    } else if taken == 8 {
        0x100
    } else if taken == 9 {
        2
    } else {
        0
    }
}

/// The number that `bytes` starts with and how many bytes it takes, when
/// `taken` bytes of it have been read already; `None` where `bytes` ends
/// before the number does or the number does not fit 64 bits.
pub open spec fn parse_varint_from(bytes: Seq<u8>, taken: nat) -> Option<(nat, nat)>
    decreases bytes.len(),
{
    if bytes.len() == 0 || taken >= 10 {
        None
    } else if bytes[0] < 128 {
        if bytes[0] < room(taken) {
            Some((bytes[0] as nat, 1))
        } else {
            None
        }
    } else {
        match parse_varint_from(bytes.skip(1), taken + 1) {
            Some((high, n)) => Some(((bytes[0] - 128 + 128 * high) as nat, n + 1)),
            None => None,
        }
    }
}

/// The number that `bytes` starts with and how many bytes it takes.
pub open spec fn parse_varint(bytes: Seq<u8>) -> Option<(nat, nat)> {
    parse_varint_from(bytes, 0)
}

/// A parsed number fits the room that was left for it, and takes at least one
/// byte and no more than there are.
pub proof fn lemma_parse_varint_bounds(bytes: Seq<u8>, taken: nat)
    ensures
        parse_varint_from(bytes, taken) matches Some((v, n)) ==> v < room(taken) && 1 <= n
            <= bytes.len() && n + taken <= 10,
    decreases bytes.len(),
{
    if bytes.len() == 0 || taken >= 10 {
    } else if bytes[0] < 128 {
    } else {
        lemma_parse_varint_bounds(bytes.skip(1), taken + 1);
    }
}

/// The bytes of a number, whatever follows them, parse as that number.
pub proof fn lemma_varint_round_trip(v: nat, rest: Seq<u8>, taken: nat)
    requires
        v < room(taken),
    ensures
        parse_varint_from(varint(v) + rest, taken) == Some((v, varint(v).len())),
        1 <= varint(v).len() <= 10 - taken,
    decreases v,
{
    let bytes = varint(v) + rest;
    if v < 128 {
        assert(bytes[0] == v as u8);
    } else {
        assert(taken < 9);
        assert(v / 128 < room(taken + 1));
        lemma_varint_round_trip(v / 128, rest, taken + 1);
        assert(bytes[0] == (v % 128 + 128) as u8);
        assert(bytes.skip(1) =~= varint(v / 128) + rest);
    }
}

/// Adds the bytes of `v` at the end of `buf`.
pub fn put_varint(buf: &mut Vec<u8>, v: u64)
    ensures
        final(buf)@ == old(buf)@ + varint(v as nat),
{
    let mut left = v;
    let ghost mut done: Seq<u8> = Seq::empty();
    while left >= 128
        invariant
            buf@ == old(buf)@ + done,
            done + varint(left as nat) == varint(v as nat),
        decreases left,
    {
        let byte = (left % 128 + 128) as u8;
        buf.push(byte);
        proof {
            assert((done.push(byte)) + varint((left / 128) as nat) =~= done + varint(left as nat));
            done = done.push(byte);
            assert(buf@ =~= old(buf)@ + done);
        }
        left = left / 128;
    }
    buf.push(left as u8);
    proof {
        assert(buf@ =~= old(buf)@ + (done + varint(left as nat)));
    }
}

/// Reads the number that starts at `pos` of `bytes` and returns it with the
/// position behind it; `None` where no number starts there.
#[verifier::rlimit(50)]
pub fn read_varint(bytes: &[u8], pos: usize) -> (r: Option<(u64, usize)>)
    ensures
        pos <= bytes@.len() ==> match parse_varint(bytes@.skip(pos as int)) {
            Some((v, n)) => r == Some((v as u64, (pos + n) as usize)) && v <= u64::MAX && pos + n
                <= bytes@.len(),
            None => r is None,
        },
        pos > bytes@.len() ==> r is None,
{
    if pos > bytes.len() {
        return None;
    }
    let ghost start = bytes@.skip(pos as int);
    let mut value: u64 = 0;
    let mut scale: u64 = 1;
    let mut at = pos;
    let mut taken: usize = 0;
    loop
        invariant
            pos <= at <= bytes@.len(),
            at == pos + taken,
            taken <= 10,
            start == bytes@.skip(pos as int),
            taken < 10 ==> scale * room(taken as nat) == 0x1_0000_0000_0000_0000,
            value < scale || taken == 0,
            taken == 0 ==> value == 0 && scale == 1,
            match parse_varint_from(bytes@.skip(at as int), taken as nat) {
                Some((high, n)) => parse_varint(start) == Some(
                    ((value + scale * high) as nat, (taken + n) as nat),
                ),
                None => parse_varint(start) is None,
            },
        decreases 11 - taken,
    {
        if at >= bytes.len() || taken >= 10 {
            return None;
        }
        let byte = bytes[at];
        let ghost tail = bytes@.skip(at as int);
        proof {
            assert(tail[0] == byte);
            assert(tail.skip(1) =~= bytes@.skip(at + 1));
            lemma_parse_varint_bounds(tail, taken as nat);
            lemma_parse_varint_bounds(tail.skip(1), (taken + 1) as nat);
        }
        if byte < 128 {
            if taken == 9 && byte > 1 {
                return None;
            }
            proof {
                assert(byte < room(taken as nat));
                assert(scale * byte < 0x1_0000_0000_0000_0000) by (nonlinear_arith)
                    requires
                        scale * room(taken as nat) == 0x1_0000_0000_0000_0000,
                        byte < room(taken as nat),
                        scale >= 0,
                ;
            }
            let low = scale * (byte as u64);
            proof {
                assert(value + low < 0x1_0000_0000_0000_0000) by (nonlinear_arith)
                    requires
                        scale * room(taken as nat) == 0x1_0000_0000_0000_0000,
                        low == scale * byte,
                        byte < room(taken as nat),
                        value < scale || value == 0,
                        scale >= 1,
                ;
            }
            return Some((value + low, at + 1));
        }
        if taken == 9 {
            return None;
        }
        proof {
            assert(room(taken as nat) == 128 * room((taken + 1) as nat));
            assert(scale * 128 * room((taken + 1) as nat) == 0x1_0000_0000_0000_0000)
                by (nonlinear_arith)
                requires
                    scale * room(taken as nat) == 0x1_0000_0000_0000_0000,
                    room(taken as nat) == 128 * room((taken + 1) as nat),
            ;
            assert(room((taken + 1) as nat) >= 2);
            assert(scale * 128 <= 0x8000_0000_0000_0000) by (nonlinear_arith)
                requires
                    scale * 128 * room((taken + 1) as nat) == 0x1_0000_0000_0000_0000,
                    room((taken + 1) as nat) >= 2,
                    scale >= 0,
            ;
        }
        let digit = (byte - 128) as u64;
        proof {
            assert(scale * digit < scale * 128) by (nonlinear_arith)
                requires
                    digit < 128,
                    scale >= 1,
            ;
        }
        let ghost old_value = value;
        let ghost old_scale = scale;
        value = value + scale * digit;
        scale = scale * 128;
        proof {
            assert(value < scale) by (nonlinear_arith)
                requires
                    value == old_value + old_scale * digit,
                    scale == old_scale * 128,
                    old_value < old_scale || old_value == 0,
                    digit <= 127,
                    old_scale >= 1,
            ;
            match parse_varint_from(tail.skip(1), (taken + 1) as nat) {
                Some((high, n)) => {
                    assert(parse_varint_from(tail, taken as nat) == Some(
                        ((byte - 128 + 128 * high) as nat, (n + 1) as nat),
                    ));
                    assert(old_value + old_scale * (byte - 128 + 128 * high) == value + scale
                        * high) by (nonlinear_arith)
                        requires
                            value == old_value + old_scale * digit,
                            scale == old_scale * 128,
                            digit == byte - 128,
                    ;
                },
                None => {},
            }
        }
        at = at + 1;
        taken = taken + 1;
    }
}

} // verus!
