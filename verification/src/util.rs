//! Bit-field extraction: big-endian byte spans to unsigned integers, and a
//! lowercase hex rendering of binary digests.

use vstd::prelude::*;
use vstd::string::StringExecFns;

verus! {

/// Big-endian value of the two bytes of `bytes` starting at index `i`:
/// `bytes[i]` is the high byte.
pub open spec fn be16(bytes: Seq<u8>, i: int) -> int
    recommends
        0 <= i,
        i + 2 <= bytes.len(),
{
    (bytes[i] as int) * 256 + (bytes[i + 1] as int)
}

/// Big-endian value of the three bytes of `bytes` starting at index `i`:
/// `bytes[i]` is the most significant byte.
pub open spec fn be24(bytes: Seq<u8>, i: int) -> int
    recommends
        0 <= i,
        i + 3 <= bytes.len(),
{
    (bytes[i] as int) * 65536 + (bytes[i + 1] as int) * 256 + (bytes[i + 2] as int)
}

/// Interpret the first two bytes of `number_bytes` as a big-endian unsigned
/// 16-bit integer; `number_bytes[0]` is the high byte.
pub fn bits_to_uint_16(number_bytes: &[u8]) -> (r: u16)
    requires
        number_bytes@.len() >= 2,
    ensures
        r as int == be16(number_bytes@, 0),
{
    (number_bytes[0] as u16) * 256 + (number_bytes[1] as u16)
}

/// Interpret the first three bytes of `number_bytes` as a big-endian unsigned
/// 24-bit integer; `number_bytes[0]` is the most significant byte.
pub fn bits_to_uint_24(number_bytes: &[u8]) -> (r: u32)
    requires
        number_bytes@.len() >= 3,
    ensures
        r as int == be24(number_bytes@, 0),
        r < 0x1000000,
{
    (number_bytes[0] as u32) * 65536 + (number_bytes[1] as u32) * 256 + (number_bytes[2] as u32)
}

/// The lowercase hex character for a nibble value.
pub open spec fn hex_digit(n: int) -> char
    recommends
        0 <= n < 16,
{
    if n == 0 {
        '0'
    } else if n == 1 {
        '1'
    } else if n == 2 {
        '2'
    } else if n == 3 {
        '3'
    } else if n == 4 {
        '4'
    } else if n == 5 {
        '5'
    } else if n == 6 {
        '6'
    } else if n == 7 {
        '7'
    } else if n == 8 {
        '8'
    } else if n == 9 {
        '9'
    } else if n == 10 {
        'a'
    } else if n == 11 {
        'b'
    } else if n == 12 {
        'c'
    } else if n == 13 {
        'd'
    } else if n == 14 {
        'e'
    } else {
        'f'
    }
}

/// Lowercase hex rendering of a byte sequence: two digits per byte, high
/// nibble first.
pub open spec fn hex_of(bytes: Seq<u8>) -> Seq<char>
    decreases bytes.len(),
{
    if bytes.len() == 0 {
        Seq::empty()
    } else {
        seq![
            hex_digit(bytes[0] as int / 16),
            hex_digit(bytes[0] as int % 16),
        ] + hex_of(bytes.drop_first())
    }
}

/// Appending a byte to the input appends its two digits to the rendering.
proof fn lemma_hex_of_push(bytes: Seq<u8>, b: u8)
    ensures
        hex_of(bytes.push(b)) == hex_of(bytes) + seq![
            hex_digit(b as int / 16),
            hex_digit(b as int % 16),
        ],
    decreases bytes.len(),
{
    let pair = seq![hex_digit(b as int / 16), hex_digit(b as int % 16)];
    if bytes.len() == 0 {
        assert(bytes.push(b).drop_first() =~= Seq::<u8>::empty());
        assert(hex_of(Seq::<u8>::empty()) =~= Seq::<char>::empty());
        assert(bytes.push(b)[0] == b);
        assert(hex_of(bytes.push(b)) =~= hex_of(bytes) + pair);
    } else {
        assert(bytes.push(b).drop_first() =~= bytes.drop_first().push(b));
        lemma_hex_of_push(bytes.drop_first(), b);
        assert(hex_of(bytes.push(b)) =~= hex_of(bytes) + pair);
    }
}

/// Append the hex character for one nibble value to `out`.
fn push_hex_digit(out: &mut String, nibble: u8)
    requires
        nibble < 16,
    ensures
        final(out)@ == old(out)@ + seq![hex_digit(nibble as int)],
{
    if nibble == 0 {
        proof {
            reveal_strlit("0");
        }
        out.append("0");
        assert(out@ =~= old(out)@ + seq![hex_digit(nibble as int)]);
    } else if nibble == 1 {
        proof {
            reveal_strlit("1");
        }
        out.append("1");
        assert(out@ =~= old(out)@ + seq![hex_digit(nibble as int)]);
    } else if nibble == 2 {
        proof {
            reveal_strlit("2");
        }
        out.append("2");
        assert(out@ =~= old(out)@ + seq![hex_digit(nibble as int)]);
    } else if nibble == 3 {
        proof {
            reveal_strlit("3");
        }
        out.append("3");
        assert(out@ =~= old(out)@ + seq![hex_digit(nibble as int)]);
    } else if nibble == 4 {
        proof {
            reveal_strlit("4");
        }
        out.append("4");
        assert(out@ =~= old(out)@ + seq![hex_digit(nibble as int)]);
    } else if nibble == 5 {
        proof {
            reveal_strlit("5");
        }
        out.append("5");
        assert(out@ =~= old(out)@ + seq![hex_digit(nibble as int)]);
    } else if nibble == 6 {
        proof {
            reveal_strlit("6");
        }
        out.append("6");
        assert(out@ =~= old(out)@ + seq![hex_digit(nibble as int)]);
    } else if nibble == 7 {
        proof {
            reveal_strlit("7");
        }
        out.append("7");
        assert(out@ =~= old(out)@ + seq![hex_digit(nibble as int)]);
    } else if nibble == 8 {
        proof {
            reveal_strlit("8");
        }
        out.append("8");
        assert(out@ =~= old(out)@ + seq![hex_digit(nibble as int)]);
    } else if nibble == 9 {
        proof {
            reveal_strlit("9");
        }
        out.append("9");
        assert(out@ =~= old(out)@ + seq![hex_digit(nibble as int)]);
    } else if nibble == 10 {
        proof {
            reveal_strlit("a");
        }
        out.append("a");
        assert(out@ =~= old(out)@ + seq![hex_digit(nibble as int)]);
    } else if nibble == 11 {
        proof {
            reveal_strlit("b");
        }
        out.append("b");
        assert(out@ =~= old(out)@ + seq![hex_digit(nibble as int)]);
    } else if nibble == 12 {
        proof {
            reveal_strlit("c");
        }
        out.append("c");
        assert(out@ =~= old(out)@ + seq![hex_digit(nibble as int)]);
    } else if nibble == 13 {
        proof {
            reveal_strlit("d");
        }
        out.append("d");
        assert(out@ =~= old(out)@ + seq![hex_digit(nibble as int)]);
    } else if nibble == 14 {
        proof {
            reveal_strlit("e");
        }
        out.append("e");
        assert(out@ =~= old(out)@ + seq![hex_digit(nibble as int)]);
    } else {
        proof {
            reveal_strlit("f");
        }
        out.append("f");
        assert(out@ =~= old(out)@ + seq![hex_digit(nibble as int)]);
    }
}

/// Render a byte span as lowercase hex, two digits per byte, high nibble
/// first.
pub fn to_hex(bytes: &[u8]) -> (r: String)
    ensures
        r@ == hex_of(bytes@),
{
    let mut out = String::new();
    let mut i: usize = 0;
    proof {
        assert(bytes@.take(0) =~= Seq::<u8>::empty());
    }
    while i < bytes.len()
        invariant
            i <= bytes@.len(),
            out@ == hex_of(bytes@.take(i as int)),
        decreases bytes@.len() - i,
    {
        let b = bytes[i];
        assert(b >> 4 == b / 16 && b >> 4 < 16 && b & 0xf == b % 16 && (b & 0xf) < 16)
            by (bit_vector);
        push_hex_digit(&mut out, b >> 4);
        push_hex_digit(&mut out, b & 0xf);
        proof {
            lemma_hex_of_push(bytes@.take(i as int), b);
            assert(bytes@.take(i as int).push(b) =~= bytes@.take(i + 1));
            assert(out@ =~= hex_of(bytes@.take(i + 1)));
        }
        i = i + 1;
    }
    proof {
        assert(bytes@.take(bytes@.len() as int) =~= bytes@);
    }
    out
}

} // verus!
