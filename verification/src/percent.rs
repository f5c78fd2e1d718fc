use vstd::prelude::*;
use vstd::string::StrSliceExecFns;
use vstd::string::StringSliceAdditionalSpecFns;
use vstd::utf8::decode_utf8;
use vstd::utf8::decode_utf8_encode_utf8;
use vstd::utf8::encode_utf8;
use vstd::utf8::encode_utf8_decode_utf8;
use vstd::utf8::encode_utf8_valid_utf8;
use vstd::utf8::is_leading_byte_width_1;
use vstd::utf8::partial_valid_utf8_extend_ascii_block;
use vstd::utf8::valid_utf8;

verus! {

/// True for the ASCII code of a hexadecimal digit in either case.
pub open spec fn is_hex_digit(b: u8) -> bool {
    (0x30 <= b <= 0x39) || (0x41 <= b <= 0x46) || (0x61 <= b <= 0x66)
}

/// The numeric value of a hexadecimal digit byte.
pub open spec fn hex_value(b: u8) -> u8
    recommends
        is_hex_digit(b),
{
    if 0x30 <= b <= 0x39 {
        (b - 0x30) as u8
    } else if 0x41 <= b <= 0x46 {
        (b - 0x41 + 10) as u8
    } else {
        (b - 0x61 + 10) as u8
    }
}

/// The byte a `%XX` triplet stands for, given its two digit bytes.
pub open spec fn hex_pair_value(hi: u8, lo: u8) -> u8
    recommends
        is_hex_digit(hi),
        is_hex_digit(lo),
{
    (hex_value(hi) * 16 + hex_value(lo)) as u8
}

/// Percent-decoding over byte sequences: each `%` followed by two
/// hexadecimal digits yields the byte they denote; every other byte,
/// including a `%` not followed by two hexadecimal digits, passes
/// through unchanged.
pub open spec fn percent_decode_seq(s: Seq<u8>) -> Seq<u8>
    decreases s.len(),
{
    if s.len() == 0 {
        Seq::empty()
    } else if s[0] == 0x25 && s.len() >= 3 && is_hex_digit(s[1]) && is_hex_digit(s[2]) {
        seq![hex_pair_value(s[1], s[2])] + percent_decode_seq(s.skip(3))
    } else {
        seq![s[0]] + percent_decode_seq(s.skip(1))
    }
}

/// True for bytes that percent-encoding leaves as they are: ASCII
/// alphanumerics and `-`, `.`, `_`, `~`.
pub open spec fn is_unreserved_byte(b: u8) -> bool {
    (0x30 <= b <= 0x39) || (0x41 <= b <= 0x5A) || (0x61 <= b <= 0x7A) || b == 0x2D || b == 0x2E
        || b == 0x5F || b == 0x7E
}

/// The ASCII code of the upper-case hexadecimal digit for a value below 16.
pub open spec fn upper_hex_digit(v: u8) -> u8
    recommends
        v < 16,
{
    if v < 10 {
        (0x30 + v) as u8
    } else {
        (0x41 + v - 10) as u8
    }
}

/// The encoding of one byte: itself when unreserved, else a `%XX` triplet
/// with upper-case hexadecimal digits.
pub open spec fn percent_encode_byte(b: u8) -> Seq<u8> {
    if is_unreserved_byte(b) {
        seq![b]
    } else {
        seq![0x25u8, upper_hex_digit(b / 16), upper_hex_digit(b % 16)]
    }
}

/// Percent-encoding over byte sequences, byte by byte.
pub open spec fn percent_encode_seq(s: Seq<u8>) -> Seq<u8>
    decreases s.len(),
{
    if s.len() == 0 {
        Seq::empty()
    } else {
        percent_encode_byte(s[0]) + percent_encode_seq(s.skip(1))
    }
}

/// An upper-case hexadecimal digit is a hexadecimal digit and decodes back
/// to the value it was made from.
proof fn lemma_upper_hex_digit(v: u8)
    requires
        v < 16,
    ensures
        is_hex_digit(upper_hex_digit(v)),
        hex_value(upper_hex_digit(v)) == v,
{
}

/// The two digits of an encoded byte decode back to that byte.
proof fn lemma_hex_pair_of_byte(b: u8)
    ensures
        is_hex_digit(upper_hex_digit(b / 16)),
        is_hex_digit(upper_hex_digit(b % 16)),
        hex_pair_value(upper_hex_digit(b / 16), upper_hex_digit(b % 16)) == b,
{
    lemma_upper_hex_digit(b / 16);
    lemma_upper_hex_digit(b % 16);
    assert(b == (b / 16) * 16 + b % 16) by (nonlinear_arith);
}

/// Identity law at the byte level: percent-decoding undoes percent-encoding
/// on every byte sequence.
pub proof fn lemma_percent_round_trip(s: Seq<u8>)
    ensures
        percent_decode_seq(percent_encode_seq(s)) == s,
    decreases s.len(),
{
    if s.len() == 0 {
        assert(percent_decode_seq(percent_encode_seq(s)) =~= s);
    } else {
        let b = s[0];
        let rest = s.skip(1);
        lemma_percent_round_trip(rest);
        let enc = percent_encode_seq(s);
        if is_unreserved_byte(b) {
            assert(enc.skip(1) =~= percent_encode_seq(rest));
            assert(percent_decode_seq(enc) =~= s);
        } else {
            lemma_hex_pair_of_byte(b);
            assert(enc.skip(3) =~= percent_encode_seq(rest));
            assert(percent_decode_seq(enc) =~= s);
        }
    }
}

/// Every byte of a percent-encoded sequence is plain ASCII.
pub proof fn lemma_percent_encode_ascii(s: Seq<u8>)
    ensures
        forall|i: int|
            0 <= i < percent_encode_seq(s).len() ==> #[trigger] percent_encode_seq(s)[i] < 0x80,
    decreases s.len(),
{
    if s.len() == 0 {
    } else {
        lemma_percent_encode_ascii(s.skip(1));
        let e = percent_encode_seq(s);
        let first = percent_encode_byte(s[0]);
        let rest = percent_encode_seq(s.skip(1));
        assert forall|i: int| 0 <= i < e.len() implies #[trigger] e[i] < 0x80 by {
            if i < first.len() {
                assert(e[i] == first[i]);
            } else {
                assert(e[i] == rest[i - first.len()]);
            }
        }
    }
}

/// Appending one byte to the input appends that byte's encoding to the output.
proof fn lemma_percent_encode_step(s: Seq<u8>, i: int)
    requires
        0 <= i < s.len(),
    ensures
        percent_encode_seq(s.take(i + 1)) == percent_encode_seq(s.take(i)) + percent_encode_byte(
            s[i],
        ),
    decreases i,
{
    if i == 0 {
        assert(s.take(1)[0] == s[0]);
        assert(s.take(1).skip(1) =~= Seq::<u8>::empty());
        assert(percent_encode_seq(s.take(1)) == percent_encode_byte(s[0]) + percent_encode_seq(
            s.take(1).skip(1),
        ));
        assert(percent_encode_seq(s.take(1)) =~= percent_encode_byte(s[0]));
        assert(percent_encode_seq(s.take(0)) =~= Seq::<u8>::empty());
        assert(percent_encode_seq(s.take(0)) + percent_encode_byte(s[0]) =~= percent_encode_byte(
            s[0],
        ));
    } else {
        lemma_percent_encode_step(s.skip(1), i - 1);
        assert(s.take(i + 1).skip(1) =~= s.skip(1).take(i));
        assert(s.take(i).skip(1) =~= s.skip(1).take(i - 1));
        assert(s.take(i + 1)[0] == s[0]);
        assert(s.take(i)[0] == s[0]);
        assert(s.skip(1)[i - 1] == s[i]);
        assert(percent_encode_seq(s.take(i + 1)) == percent_encode_byte(s[0])
            + percent_encode_seq(s.skip(1).take(i)));
        assert(percent_encode_byte(s[0]) + (percent_encode_seq(s.skip(1).take(i - 1))
            + percent_encode_byte(s[i])) =~= (percent_encode_byte(s[0]) + percent_encode_seq(
            s.skip(1).take(i - 1),
        )) + percent_encode_byte(s[i]));
        assert(percent_encode_seq(s.take(i)) == percent_encode_byte(s[0]) + percent_encode_seq(
            s.skip(1).take(i - 1),
        ));
    }
}

/// Percent-encodes a byte sequence: unreserved bytes pass through, every
/// other byte becomes a `%XX` triplet with upper-case hexadecimal digits.
pub fn percent_encode_bytes(bytes: &Vec<u8>) -> (r: Vec<u8>)
    ensures
        r@ == percent_encode_seq(bytes@),
{
    let mut out: Vec<u8> = Vec::new();
    let mut i: usize = 0;
    while i < bytes.len()
        invariant
            0 <= i <= bytes.len(),
            out@ == percent_encode_seq(bytes@.take(i as int)),
        decreases bytes.len() - i,
    {
        let b = bytes[i];
        proof {
            lemma_percent_encode_step(bytes@, i as int);
        }
        if (0x30 <= b && b <= 0x39) || (0x41 <= b && b <= 0x5A) || (0x61 <= b && b <= 0x7A) || b
            == 0x2D || b == 0x2E || b == 0x5F || b == 0x7E {
            out.push(b);
            assert(out@ =~= percent_encode_seq(bytes@.take(i + 1)));
        } else {
            let hi = b / 16;
            let lo = b % 16;
            out.push(0x25);
            out.push(if hi < 10 { 0x30 + hi } else { 0x41 + hi - 10 });
            out.push(if lo < 10 { 0x30 + lo } else { 0x41 + lo - 10 });
            assert(out@ =~= percent_encode_seq(bytes@.take(i + 1)));
        }
        i = i + 1;
    }
    proof {
        assert(bytes@.take(bytes@.len() as int) =~= bytes@);
    }
    out
}

/// Relies on percent_encoding::percent_decode_str: replaces each `%XX`
/// hexadecimal triplet in the string's bytes with the byte it denotes and
/// passes every other byte through unchanged.
#[verifier::external_body]
pub(crate) fn percent_decode_str_bytes(s: &str) -> (r: Vec<u8>)
    ensures
        r@ == percent_decode_seq(s.spec_bytes()),
{
    percent_encoding::percent_decode_str(s).collect()
}

/// Relies on String::from_utf8: succeeds exactly on valid UTF-8 input and
/// yields its decoding.
#[verifier::external_body]
pub(crate) fn string_from_utf8(bytes: Vec<u8>) -> (r: Option<String>)
    ensures
        match r {
            Some(s) => valid_utf8(bytes@) && s@ == decode_utf8(bytes@),
            None => !valid_utf8(bytes@),
        },
{
    String::from_utf8(bytes).ok()
}

/// Identity law at the string level: the percent-encoding of a string's
/// UTF-8 bytes percent-decodes back to those bytes, and they read back as
/// exactly the original string.
pub proof fn lemma_filename_round_trip(s: Seq<char>)
    ensures
        percent_decode_seq(percent_encode_seq(encode_utf8(s))) == encode_utf8(s),
        valid_utf8(percent_decode_seq(percent_encode_seq(encode_utf8(s)))),
        decode_utf8(percent_decode_seq(percent_encode_seq(encode_utf8(s)))) == s,
{
    lemma_percent_round_trip(encode_utf8(s));
    encode_utf8_valid_utf8(s);
    encode_utf8_decode_utf8(s);
}

/// A sequence of plain ASCII bytes is valid UTF-8.
proof fn lemma_ascii_valid_utf8(bytes: Seq<u8>)
    requires
        forall|i: int| 0 <= i < bytes.len() ==> #[trigger] bytes[i] < 0x80,
    ensures
        valid_utf8(bytes),
{
    assert(bytes.subrange(0, 0) =~= Seq::<u8>::empty());
    assert(valid_utf8(bytes.subrange(0, 0)));
    assert(forall|i: int|
        0 <= i < bytes.len() ==> #[trigger] is_leading_byte_width_1(bytes[i]));
    partial_valid_utf8_extend_ascii_block(bytes, 0, bytes.len() as int);
    assert(bytes.subrange(0, bytes.len() as int) =~= bytes);
}

/// Percent-encodes a string by its UTF-8 bytes, yielding an ASCII string
/// fit for a header value. Decoding the result undoes the encoding: the
/// last two clauses state the identity law end to end.
pub fn percent_encode_str(s: &str) -> (r: String)
    ensures
        encode_utf8(r@) == percent_encode_seq(encode_utf8(s@)),
        valid_utf8(percent_decode_seq(encode_utf8(r@))),
        decode_utf8(percent_decode_seq(encode_utf8(r@))) == s@,
{
    let bytes = s.as_bytes_vec();
    let enc = percent_encode_bytes(&bytes);
    proof {
        lemma_percent_encode_ascii(bytes@);
        lemma_ascii_valid_utf8(enc@);
        lemma_filename_round_trip(s@);
    }
    match string_from_utf8(enc) {
        Some(r) => {
            proof {
                decode_utf8_encode_utf8(percent_encode_seq(encode_utf8(s@)));
            }
            r
        },
        None => {
            // cannot happen: the encoded bytes were proved valid UTF-8
            assert(false);
            String::new()
        },
    }
}

} // verus!
