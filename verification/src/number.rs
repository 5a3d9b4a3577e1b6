//! Unsigned integers of any size, held as big-endian bytes.

use vstd::prelude::*;

verus! {

/// The number that big-endian bytes stand for; leading zero bytes do not count.
pub open spec fn be_value(bytes: Seq<u8>) -> nat
    decreases bytes.len(),
{
    if bytes.len() == 0 {
        0
    } else {
        be_value(bytes.drop_last()) * 256 + bytes.last() as nat
    }
}

/// How many bytes remain once the leading zero bytes are taken off.
pub open spec fn significant_len(bytes: Seq<u8>) -> nat
    decreases bytes.len(),
{
    if bytes.len() == 0 {
        0
    } else if bytes[0] == 0 {
        significant_len(bytes.drop_first())
    } else {
        bytes.len()
    }
}

/// The smaller of a number and two.
pub open spec fn capped_at_two(value: nat) -> nat {
    if value >= 2 {
        2
    } else {
        value
    }
}

/// Whether the number that the bytes stand for is two or more.
pub fn at_least_two(bytes: &Vec<u8>) -> (res: bool)
    ensures
        res == (be_value(bytes@) >= 2),
{
    let mut seen: u8 = 0;
    let mut i: usize = 0;
    while i < bytes.len()
        invariant
            i <= bytes.len(),
            seen as nat == capped_at_two(be_value(bytes@.take(i as int))),
        decreases bytes.len() - i,
    {
        let b: u8 = bytes[i];
        proof {
            let next = bytes@.take(i + 1);
            assert(next.drop_last() =~= bytes@.take(i as int));
            assert(next.last() == b);
        }
        if seen >= 1 {
            seen = 2;
        } else if b >= 2 {
            seen = 2;
        } else {
            seen = b;
        }
        i += 1;
    }
    proof {
        assert(bytes@.take(i as int) =~= bytes@);
    }
    seen == 2
}

/// How many bytes remain once the leading zero bytes are taken off.
pub fn significant_length(bytes: &Vec<u8>) -> (len: usize)
    ensures
        len == significant_len(bytes@),
{
    let mut i: usize = 0;
    assert(bytes@.skip(0) =~= bytes@);
    while i < bytes.len() && bytes[i] == 0
        invariant
            i <= bytes.len(),
            significant_len(bytes@) == significant_len(bytes@.skip(i as int)),
        decreases bytes.len() - i,
    {
        proof {
            assert(bytes@.skip(i as int)[0] == bytes@[i as int]);
            assert(bytes@.skip(i as int).drop_first() =~= bytes@.skip(i + 1));
        }
        i += 1;
    }
    proof {
        if i < bytes.len() {
            assert(bytes@.skip(i as int)[0] == bytes@[i as int]);
        }
    }
    bytes.len() - i
}

} // verus!
