//! Hex encoding of identifier bytes: a byte string rendered as
//! lower-case hex digits behind a `"0x"` prefix, two digits per byte.

use vstd::prelude::*;

verus! {

/// The sixteen lower-case hex digit characters, in value order.
pub open spec fn hex_digits() -> Seq<char> {
    "0123456789abcdef"@
}

/// The two hex digit characters of one byte, high nibble first.
pub open spec fn hex_pair(b: u8) -> Seq<char> {
    seq![hex_digits()[b as int / 16], hex_digits()[b as int % 16]]
}

/// The hex digit characters of a byte string, in order.
pub open spec fn hex_encoding(bytes: Seq<u8>) -> Seq<char>
    decreases bytes.len(),
{
    if bytes.len() == 0 {
        Seq::empty()
    } else {
        hex_encoding(bytes.drop_last()) + hex_pair(bytes.last())
    }
}

/// The hex rendering of a byte string: `"0x"`, then two lower-case
/// digits per byte.
pub open spec fn hex_with_prefix(bytes: Seq<u8>) -> Seq<char> {
    seq!['0', 'x'] + hex_encoding(bytes)
}

/// Render an identifier's bytes — a UUID's sixteen, say — as
/// `"0x"`-prefixed lower-case hex.
pub fn uuid_to_hex_string(bytes: &Vec<u8>) -> (r: String)
    ensures
        r@ == hex_with_prefix(bytes@),
{
    let digits = "0123456789abcdef";
    proof {
        reveal_strlit("0123456789abcdef");
        reveal_strlit("0x");
    }
    let mut r = String::from_str("0x");
    let mut i: usize = 0;
    proof {
        assert(r@ =~= seq!['0', 'x'] + hex_encoding(bytes@.subrange(0, 0)));
    }
    while i < bytes.len()
        invariant
            i <= bytes.len(),
            digits@ == hex_digits(),
            digits@.len() == 16,
            r@ == seq!['0', 'x'] + hex_encoding(bytes@.subrange(0, i as int)),
        decreases bytes.len() - i,
    {
        let b = bytes[i];
        let hi = (b >> 4) as usize;
        let lo = (b & 0xf) as usize;
        proof {
            assert(b >> 4 == b / 16 && b & 0xf == b % 16 && b >> 4 < 16 && (b & 0xf) < 16)
                by (bit_vector);
        }
        let high_digit = digits.substring_char(hi, hi + 1);
        let low_digit = digits.substring_char(lo, lo + 1);
        r.append(high_digit);
        r.append(low_digit);
        proof {
            let taken = bytes@.subrange(0, i + 1);
            assert(taken.drop_last() =~= bytes@.subrange(0, i as int));
            assert(taken.last() == bytes@[i as int]);
            assert(high_digit@ =~= seq![hex_digits()[hi as int]]);
            assert(low_digit@ =~= seq![hex_digits()[lo as int]]);
            assert(r@ =~= seq!['0', 'x'] + hex_encoding(taken));
        }
        i = i + 1;
    }
    proof {
        assert(bytes@.subrange(0, bytes@.len() as int) =~= bytes@);
    }
    r
}

} // verus!
