//! The escape rule for the `IAC` byte: a literal 0xFF in user data or in a
//! subnegotiation payload travels as two consecutive 0xFF bytes.

use crate::codes::IAC;
use vstd::prelude::*;

verus! {

/// `data` with every `IAC` byte doubled.
pub open spec fn escape(data: Seq<u8>) -> Seq<u8>
    decreases data.len(),
{
    if data.len() == 0 {
        Seq::empty()
    } else if data[0] == IAC {
        seq![IAC, IAC] + escape(data.drop_first())
    } else {
        seq![data[0]] + escape(data.drop_first())
    }
}

/// `wire` with every pair of consecutive `IAC` bytes, read from the left,
/// replaced by one. An `IAC` that is not followed by a second one stays.
pub open spec fn unescape(wire: Seq<u8>) -> Seq<u8>
    decreases wire.len(),
{
    if wire.len() == 0 {
        Seq::empty()
    } else if wire[0] == IAC && wire.len() >= 2 && wire[1] == IAC {
        seq![IAC] + unescape(wire.skip(2))
    } else {
        seq![wire[0]] + unescape(wire.drop_first())
    }
}

/// Escaping never shortens the data and at most doubles it.
pub proof fn lemma_escape_len(data: Seq<u8>)
    ensures
        data.len() <= escape(data).len() <= 2 * data.len(),
    decreases data.len(),
{
    if data.len() > 0 {
        lemma_escape_len(data.drop_first());
    }
}

/// One byte travels once, or, if it is `IAC`, twice.
pub proof fn lemma_escape_one(byte: u8)
    ensures
        escape(seq![byte]) == if byte == IAC {
            seq![IAC, IAC]
        } else {
            seq![byte]
        },
{
    let rest = seq![byte].drop_first();
    assert(rest.len() == 0);
    assert(escape(rest) == Seq::<u8>::empty());
    assert(seq![IAC, IAC] + Seq::<u8>::empty() == seq![IAC, IAC]);
    assert(seq![byte] + Seq::<u8>::empty() == seq![byte]);
}

/// Escaping distributes over concatenation.
pub proof fn lemma_escape_concat(a: Seq<u8>, b: Seq<u8>)
    ensures
        escape(a + b) == escape(a) + escape(b),
    decreases a.len(),
{
    if a.len() == 0 {
        assert(a + b == b);
    } else {
        lemma_escape_concat(a.drop_first(), b);
        assert((a + b).drop_first() == a.drop_first() + b);
    }
}

/// Escaped data is read back as it was: escaping loses nothing.
pub proof fn lemma_unescape_escape(data: Seq<u8>)
    ensures
        unescape(escape(data)) == data,
    decreases data.len(),
{
    if data.len() > 0 {
        let rest = data.drop_first();
        lemma_unescape_escape(rest);
        if data[0] == IAC {
            assert(escape(data).skip(2) == escape(rest));
        } else {
            assert(escape(data).drop_first() == escape(rest));
        }
        assert(seq![data[0]] + rest == data);
    }
}

/// Copies `data`, doubling every `IAC` byte.
pub fn escape_iac(data: &[u8]) -> (wire: Vec<u8>)
    ensures
        wire@ == escape(data@),
{
    let mut wire: Vec<u8> = Vec::new();
    let mut i: usize = 0;
    assert(data@.skip(0) == data@);
    assert(wire@ + escape(data@) == escape(data@));
    while i < data.len()
        invariant
            i <= data@.len(),
            wire@ + escape(data@.skip(i as int)) == escape(data@),
        decreases data@.len() - i,
    {
        let byte: u8 = data[i];
        proof {
            let rest = data@.skip(i as int);
            assert(rest.drop_first() == data@.skip(i + 1));
            assert(rest[0] == byte);
            if byte == IAC {
                assert(wire@.push(byte).push(byte) + escape(rest.drop_first()) == wire@ + escape(rest));
            } else {
                assert(wire@.push(byte) + escape(rest.drop_first()) == wire@ + escape(rest));
            }
        }
        wire.push(byte);
        if byte == IAC {
            wire.push(byte);
        }
        i += 1;
    }
    assert(data@.skip(i as int) == Seq::<u8>::empty());
    assert(wire@ + Seq::<u8>::empty() == wire@);
    wire
}

} // verus!
