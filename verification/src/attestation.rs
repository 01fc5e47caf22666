//! The attestation of a register bank: its 128-byte image written as 256
//! lowercase hexadecimal digits, and the reading of such a text back into a bank.

use vstd::prelude::*;
use vstd::utf8::{
    is_ascii_chars, is_ascii_chars_encode_utf8, is_char_boundary, pop_first_scalar, valid_utf8,
};
use vstd::string::StringSliceAdditionalSpecFns;
use crate::hex32::{
    Hex32, bytes_from_words, lemma_image_layout, lemma_words_bytes_roundtrip, words_from_bytes,
};

verus! {

/// The ASCII code of the lowercase hexadecimal digit for `n` (0..16).
pub open spec fn hex_digit_byte(n: int) -> u8 {
    if n < 10 {
        (48 + n) as u8
    } else {
        (87 + n) as u8
    }
}

/// The one-character text holding the lowercase hexadecimal digit for `n`.
fn digit_text(n: u8) -> (s: &'static str)
    requires
        n < 16,
    ensures
        s@ == seq![hex_digit_byte(n as int) as char],
{
    proof {
        reveal_strlit("0");
        reveal_strlit("1");
        reveal_strlit("2");
        reveal_strlit("3");
        reveal_strlit("4");
        reveal_strlit("5");
        reveal_strlit("6");
        reveal_strlit("7");
        reveal_strlit("8");
        reveal_strlit("9");
        reveal_strlit("a");
        reveal_strlit("b");
        reveal_strlit("c");
        reveal_strlit("d");
        reveal_strlit("e");
        reveal_strlit("f");
    }
    if n == 0 {
        "0"
    } else if n == 1 {
        "1"
    } else if n == 2 {
        "2"
    } else if n == 3 {
        "3"
    } else if n == 4 {
        "4"
    } else if n == 5 {
        "5"
    } else if n == 6 {
        "6"
    } else if n == 7 {
        "7"
    } else if n == 8 {
        "8"
    } else if n == 9 {
        "9"
    } else if n == 10 {
        "a"
    } else if n == 11 {
        "b"
    } else if n == 12 {
        "c"
    } else if n == 13 {
        "d"
    } else if n == 14 {
        "e"
    } else {
        "f"
    }
}

/// The lowercase hexadecimal text of a byte sequence: two digits per byte,
/// the high nibble first.
pub open spec fn hex_text(bs: Seq<u8>) -> Seq<char> {
    Seq::new(
        2 * bs.len(),
        |k: int|
            hex_digit_byte(
                if k % 2 == 0 {
                    (bs[k / 2] / 16) as int
                } else {
                    (bs[k / 2] % 16) as int
                },
            ) as char,
    )
}

/// The value of the hexadecimal digit with ASCII code `c` (either case), if it is one.
pub open spec fn hex_digit_value(c: u8) -> Option<u8> {
    if 48 <= c <= 57 {
        Some((c - 48) as u8)
    } else if 97 <= c <= 102 {
        Some((c - 87) as u8)
    } else if 65 <= c <= 70 {
        Some((c - 55) as u8)
    } else {
        None
    }
}

/// The byte that a two-character text `a b` denotes in base 16: either two
/// hexadecimal digits, or a `+` sign followed by one digit.
pub open spec fn hex_pair_value(a: u8, b: u8) -> Option<u8> {
    if a == 43 {
        hex_digit_value(b)
    } else {
        match (hex_digit_value(a), hex_digit_value(b)) {
            (Some(hi), Some(lo)) => Some((16 * hi + lo) as u8),
            _ => None,
        }
    }
}

/// The byte denoted by the `i`-th pair of characters of `text`.
pub open spec fn pair_at(text: Seq<u8>, i: int) -> Option<u8> {
    hex_pair_value(text[2 * i], text[2 * i + 1])
}

/// Every one of the first `n` pairs of characters of `text` denotes a byte.
pub open spec fn pairs_valid_before(text: Seq<u8>, n: int) -> bool {
    forall|j: int| 0 <= j < n ==> (#[trigger] pair_at(text, j)) is Some
}

/// The 128 bytes that an attestation text (given by its UTF-8 bytes) denotes:
/// `None` unless it is exactly 256 bytes long and every pair denotes a byte.
pub open spec fn decode_attestation(text: Seq<u8>) -> Option<Seq<u8>> {
    if text.len() == 256 && pairs_valid_before(text, 128) {
        Some(Seq::new(128, |i: int| pair_at(text, i)->0))
    } else {
        None
    }
}

/// Reading the text pair by pair never cuts a character in two: whenever the
/// pairs before pair `i` denote bytes, pair `i` ends on a character boundary.
pub open spec fn pairs_on_char_boundaries(text: Seq<u8>) -> bool {
    text.len() == 256 ==> forall|i: int|
        0 <= i < 128 && #[trigger] pairs_valid_before(text, i) ==> is_char_boundary(text, 2 * i + 2)
}

/// The value of one hexadecimal digit.
fn hex_digit(c: u8) -> (r: Option<u8>)
    ensures
        r == hex_digit_value(c),
{
    if 48 <= c && c <= 57 {
        Some(c - 48)
    } else if 97 <= c && c <= 102 {
        Some(c - 87)
    } else if 65 <= c && c <= 70 {
        Some(c - 55)
    } else {
        None
    }
}

/// The byte a pair of characters denotes in base 16.
fn hex_pair(a: u8, b: u8) -> (r: Option<u8>)
    ensures
        r == hex_pair_value(a, b),
{
    if a == 43 {
        hex_digit(b)
    } else {
        match (hex_digit(a), hex_digit(b)) {
            (Some(hi), Some(lo)) => Some(16 * hi + lo),
            _ => None,
        }
    }
}

/// In the hexadecimal text of a byte sequence, characters `2j` and `2j+1` are
/// the lowercase digits of the high and low nibble of byte `j`.
pub proof fn lemma_hex_text_digits(bs: Seq<u8>, j: int)
    requires
        0 <= j < bs.len(),
    ensures
        hex_text(bs).len() == 2 * bs.len(),
        hex_text(bs)[2 * j] as int == (if ((bs[j] / 16) as int) < 10 { 48 + (bs[j] / 16) as int } else { 87 + (bs[j] / 16) as int }),
        hex_text(bs)[2 * j + 1] as int == (if ((bs[j] % 16) as int) < 10 { 48 + (bs[j] % 16) as int } else { 87 + (bs[j] % 16) as int }),
{
    assert((2 * j) / 2 == j && (2 * j) % 2 == 0);
    assert((2 * j + 1) / 2 == j && (2 * j + 1) % 2 == 1);
}

/// In the attestation of 32 registers, register `i` is written at characters
/// `8i .. 8i+8`: its bytes least significant first, each as two lowercase
/// hexadecimal digits, high nibble first.
pub proof fn lemma_attestation_layout(ws: Seq<u32>, i: int)
    requires
        ws.len() == 32,
        0 <= i < 32,
    ensures
        hex_text(bytes_from_words(ws)).len() == 256,
        ({
            let w = ws[i];
            let b0: u8 = (w & 0xff) as u8;
            let b1: u8 = ((w >> 8) & 0xff) as u8;
            let b2: u8 = ((w >> 16) & 0xff) as u8;
            let b3: u8 = ((w >> 24) & 0xff) as u8;
            &&& hex_text(bytes_from_words(ws))[8 * i + 0] as int == (if ((b0 / 16) as int) < 10 { 48 + (b0 / 16) as int } else { 87 + (b0 / 16) as int })
            &&& hex_text(bytes_from_words(ws))[8 * i + 1] as int == (if ((b0 % 16) as int) < 10 { 48 + (b0 % 16) as int } else { 87 + (b0 % 16) as int })
            &&& hex_text(bytes_from_words(ws))[8 * i + 2] as int == (if ((b1 / 16) as int) < 10 { 48 + (b1 / 16) as int } else { 87 + (b1 / 16) as int })
            &&& hex_text(bytes_from_words(ws))[8 * i + 3] as int == (if ((b1 % 16) as int) < 10 { 48 + (b1 % 16) as int } else { 87 + (b1 % 16) as int })
            &&& hex_text(bytes_from_words(ws))[8 * i + 4] as int == (if ((b2 / 16) as int) < 10 { 48 + (b2 / 16) as int } else { 87 + (b2 / 16) as int })
            &&& hex_text(bytes_from_words(ws))[8 * i + 5] as int == (if ((b2 % 16) as int) < 10 { 48 + (b2 % 16) as int } else { 87 + (b2 % 16) as int })
            &&& hex_text(bytes_from_words(ws))[8 * i + 6] as int == (if ((b3 / 16) as int) < 10 { 48 + (b3 / 16) as int } else { 87 + (b3 / 16) as int })
            &&& hex_text(bytes_from_words(ws))[8 * i + 7] as int == (if ((b3 % 16) as int) < 10 { 48 + (b3 % 16) as int } else { 87 + (b3 % 16) as int })
        }),
{
    let image = bytes_from_words(ws);
    lemma_image_layout(ws, i);
    lemma_hex_text_digits(image, 4 * i);
    lemma_hex_text_digits(image, 4 * i + 1);
    lemma_hex_text_digits(image, 4 * i + 2);
    lemma_hex_text_digits(image, 4 * i + 3);
}

/// A text is accepted exactly when it is 256 bytes long and each of its pairs
/// is two hexadecimal digits of either case, or `+` and one such digit.
pub proof fn lemma_decode_accepts_exactly_hex_pairs(text: Seq<u8>)
    ensures
        (decode_attestation(text) is Some) == (text.len() == 256 && forall|q: int|
            #![trigger text[q]]
            0 <= q < 256 && q % 2 == 0 ==> ((48 <= text[q] <= 57 || 97 <= text[q] <= 102 || 65 <= text[q] <= 70) || text[q] == 43)
                && (48 <= text[q + 1] <= 57 || 97 <= text[q + 1] <= 102 || 65 <= text[q + 1] <= 70)),
{
    if text.len() == 256 {
        if decode_attestation(text) is Some {
            assert forall|q: int| #![trigger text[q]] 0 <= q < 256 && q % 2 == 0 implies ((48 <= text[q] <= 57 || 97 <= text[q] <= 102 || 65 <= text[q] <= 70) || text[q] == 43) && (48 <= text[q + 1] <= 57 || 97 <= text[q + 1] <= 102 || 65 <= text[q + 1] <= 70) by {
                let j = q / 2;
                assert(q == 2 * j);
                assert(pair_at(text, j) is Some);
            }
        }
        if forall|q: int|
            #![trigger text[q]]
            0 <= q < 256 && q % 2 == 0 ==> ((48 <= text[q] <= 57 || 97 <= text[q] <= 102 || 65 <= text[q] <= 70) || text[q] == 43)
                && (48 <= text[q + 1] <= 57 || 97 <= text[q + 1] <= 102 || 65 <= text[q + 1] <= 70) {
            assert forall|j: int| 0 <= j < 128 implies (#[trigger] pair_at(text, j)) is Some by {
                assert((2 * j) % 2 == 0);
                assert(text[2 * j] == text[2 * j]);
            }
        }
    }
}

/// Each accepted pair is read in base 16: two digits of either case give
/// sixteen times the first plus the second, and `+` followed by a digit gives
/// that digit.
pub proof fn lemma_decode_reads_pairs(text: Seq<u8>, j: int)
    requires
        decode_attestation(text) is Some,
        0 <= j < 128,
    ensures
        ({
            let value = |c: u8|
                if 48 <= c <= 57 {
                    c - 48
                } else if 97 <= c <= 102 {
                    c - 87
                } else {
                    c - 55
                };
            let a = text[2 * j];
            let b = text[2 * j + 1];
            decode_attestation(text)->0[j] as int == if a == 43 {
                value(b)
            } else {
                16 * value(a) + value(b)
            }
        }),
{
    assert(pair_at(text, j) is Some);
}

/// Reading is blind to case: a text and its lowercase form describe the same bank.
pub proof fn lemma_decode_ignores_case(text: Seq<u8>)
    ensures
        decode_attestation(text) == decode_attestation(
            Seq::new(
                text.len(),
                |q: int|
                    if 65 <= text[q] <= 70 {
                        (text[q] + 32) as u8
                    } else {
                        text[q]
                    },
            ),
        ),
{
    let lower = Seq::new(
        text.len(),
        |q: int|
            if 65 <= text[q] <= 70 {
                (text[q] + 32) as u8
            } else {
                text[q]
            },
    );
    assert forall|j: int| 0 <= j < text.len() / 2 implies #[trigger] pair_at(text, j) == pair_at(lower, j) by {
        assert(0 <= 2 * j + 1 < text.len());
    }
    if text.len() == 256 {
        if pairs_valid_before(text, 128) {
            assert forall|j: int| 0 <= j < 128 implies (#[trigger] pair_at(lower, j)) is Some by {
                assert(pair_at(text, j) == pair_at(lower, j));
            }
        }
        if pairs_valid_before(lower, 128) {
            assert forall|j: int| 0 <= j < 128 implies (#[trigger] pair_at(text, j)) is Some by {
                assert(pair_at(text, j) == pair_at(lower, j));
            }
        }
        if pairs_valid_before(text, 128) {
            assert(decode_attestation(text)->0 =~= decode_attestation(lower)->0);
        }
    }
}

/// In a text of ASCII bytes every position is a character boundary.
proof fn lemma_ascii_char_boundaries(text: Seq<u8>, k: int)
    requires
        forall|j: int| 0 <= j < text.len() ==> text[j] < 128,
        0 <= k <= text.len(),
    ensures
        valid_utf8(text),
        is_char_boundary(text, k),
    decreases text.len(),
{
    if text.len() > 0 {
        let rest = text.subrange(1, text.len() as int);
        assert(pop_first_scalar(text) =~= rest);
        lemma_ascii_char_boundaries(rest, if k == 0 { 0 } else { k - 1 });
    }
}

/// A hexadecimal digit reads back as the nibble it was written for.
proof fn lemma_hex_digit_roundtrip(n: int)
    requires
        0 <= n < 16,
    ensures
        hex_digit_byte(n) < 128,
        hex_digit_byte(n) != 43,
        hex_digit_value(hex_digit_byte(n)) == Some(n as u8),
{
}

/// Rehydrating from the attestation of a bank restores that bank exactly:
/// the text reads pair by pair without cutting a character, every pair is a
/// byte, the bytes are the bank's image, and that image gives back the bank.
pub proof fn lemma_attestation_rehydrates(h: Hex32, att: &str)
    requires
        att@ == hex_text(bytes_from_words(h.words@)),
    ensures
        pairs_on_char_boundaries(att.spec_bytes()),
        decode_attestation(att.spec_bytes()) == Some(bytes_from_words(h.words@)),
        words_from_bytes(decode_attestation(att.spec_bytes())->0) == h.words@,
{
    let image = bytes_from_words(h.words@);
    let chars = att@;
    assert forall|k: int| 0 <= k < chars.len() implies '\0' <= #[trigger] chars[k] <= '\u{7f}'
        && chars[k] as u8 == hex_digit_byte(
        if k % 2 == 0 {
            (image[k / 2] / 16) as int
        } else {
            (image[k / 2] % 16) as int
        },
    ) by {
        lemma_hex_digit_roundtrip((image[k / 2] / 16) as int);
        lemma_hex_digit_roundtrip((image[k / 2] % 16) as int);
    }
    assert(is_ascii_chars(chars));
    is_ascii_chars_encode_utf8(chars);
    let text = att.spec_bytes();
    assert(text.len() == 256);
    assert forall|i: int| 0 <= i < 128 implies #[trigger] pair_at(text, i) == Some(image[i]) by {
        assert((2 * i) / 2 == i && (2 * i) % 2 == 0);
        assert((2 * i + 1) / 2 == i && (2 * i + 1) % 2 == 1);
        assert(text[2 * i] == chars[2 * i] as u8);
        assert(text[2 * i + 1] == chars[2 * i + 1] as u8);
        lemma_hex_digit_roundtrip((image[i] / 16) as int);
        lemma_hex_digit_roundtrip((image[i] % 16) as int);
    }
    assert(pairs_valid_before(text, 128));
    assert(decode_attestation(text)->0 =~= image);
    assert forall|i: int| 0 <= i < 128 && #[trigger] pairs_valid_before(text, i) implies is_char_boundary(
        text,
        2 * i + 2,
    ) by {
        assert forall|j: int| 0 <= j < text.len() implies text[j] < 128 by {
            assert(text[j] == chars[j] as u8);
        }
        lemma_ascii_char_boundaries(text, 2 * i + 2);
    }
    lemma_words_bytes_roundtrip(h.words@);
}

impl Hex32 {
    /// The attestation of the bank: its 128-byte little-endian image as 256
    /// lowercase hexadecimal digits.
    pub fn attestation(&self) -> (s: String)
        ensures
            s@ == hex_text(bytes_from_words(self.words@)),
            s@.len() == 256,
            forall|i: int|
                #![trigger self.words[i]]
                0 <= i < 32 ==> {
            let w = self.words[i];
            let b0: u8 = (w & 0xff) as u8;
            let b1: u8 = ((w >> 8) & 0xff) as u8;
            let b2: u8 = ((w >> 16) & 0xff) as u8;
            let b3: u8 = ((w >> 24) & 0xff) as u8;
            &&& s@[8 * i + 0] as int == (if ((b0 / 16) as int) < 10 { 48 + (b0 / 16) as int } else { 87 + (b0 / 16) as int })
            &&& s@[8 * i + 1] as int == (if ((b0 % 16) as int) < 10 { 48 + (b0 % 16) as int } else { 87 + (b0 % 16) as int })
            &&& s@[8 * i + 2] as int == (if ((b1 / 16) as int) < 10 { 48 + (b1 / 16) as int } else { 87 + (b1 / 16) as int })
            &&& s@[8 * i + 3] as int == (if ((b1 % 16) as int) < 10 { 48 + (b1 % 16) as int } else { 87 + (b1 % 16) as int })
            &&& s@[8 * i + 4] as int == (if ((b2 / 16) as int) < 10 { 48 + (b2 / 16) as int } else { 87 + (b2 / 16) as int })
            &&& s@[8 * i + 5] as int == (if ((b2 % 16) as int) < 10 { 48 + (b2 % 16) as int } else { 87 + (b2 % 16) as int })
            &&& s@[8 * i + 6] as int == (if ((b3 / 16) as int) < 10 { 48 + (b3 / 16) as int } else { 87 + (b3 / 16) as int })
            &&& s@[8 * i + 7] as int == (if ((b3 % 16) as int) < 10 { 48 + (b3 % 16) as int } else { 87 + (b3 % 16) as int })
            },
    {
        let bytes = self.to_bytes();
        let mut s = String::new();
        for i in 0..128
            invariant
                bytes@ == bytes_from_words(self.words@),
                s@ =~= hex_text(bytes@.take(i as int)),
        {
            let b = bytes[i];
            s.append(digit_text(b / 16));
            s.append(digit_text(b % 16));
            assert(hex_text(bytes@.take(i + 1)) =~= hex_text(bytes@.take(i as int)) + seq![
                hex_digit_byte((b / 16) as int) as char,
                hex_digit_byte((b % 16) as int) as char,
            ]);
        }
        assert(bytes@.take(128) =~= bytes@);
        assert forall|i: int| #![trigger self.words[i]] 0 <= i < 32 implies {
            let w = self.words[i];
            let b0: u8 = (w & 0xff) as u8;
            let b1: u8 = ((w >> 8) & 0xff) as u8;
            let b2: u8 = ((w >> 16) & 0xff) as u8;
            let b3: u8 = ((w >> 24) & 0xff) as u8;
            &&& s@[8 * i + 0] as int == (if ((b0 / 16) as int) < 10 { 48 + (b0 / 16) as int } else { 87 + (b0 / 16) as int })
            &&& s@[8 * i + 1] as int == (if ((b0 % 16) as int) < 10 { 48 + (b0 % 16) as int } else { 87 + (b0 % 16) as int })
            &&& s@[8 * i + 2] as int == (if ((b1 / 16) as int) < 10 { 48 + (b1 / 16) as int } else { 87 + (b1 / 16) as int })
            &&& s@[8 * i + 3] as int == (if ((b1 % 16) as int) < 10 { 48 + (b1 % 16) as int } else { 87 + (b1 % 16) as int })
            &&& s@[8 * i + 4] as int == (if ((b2 / 16) as int) < 10 { 48 + (b2 / 16) as int } else { 87 + (b2 / 16) as int })
            &&& s@[8 * i + 5] as int == (if ((b2 % 16) as int) < 10 { 48 + (b2 % 16) as int } else { 87 + (b2 % 16) as int })
            &&& s@[8 * i + 6] as int == (if ((b3 / 16) as int) < 10 { 48 + (b3 / 16) as int } else { 87 + (b3 / 16) as int })
            &&& s@[8 * i + 7] as int == (if ((b3 % 16) as int) < 10 { 48 + (b3 % 16) as int } else { 87 + (b3 % 16) as int })
        } by {
            lemma_attestation_layout(self.words@, i);
        }
        s
    }

    /// Replaces the bank by the one an attestation text describes. Returns
    /// `false`, leaving the bank unchanged, when the text is not 256 bytes
    /// long or a pair of its characters is not a byte in base 16.
    pub fn rehydrate(&mut self, att: &str) -> (ok: bool)
        requires
            pairs_on_char_boundaries(att.spec_bytes()),
        ensures
            ok == decode_attestation(att.spec_bytes()) is Some,
            ok ==> final(self).words@ == words_from_bytes(decode_attestation(att.spec_bytes())->0),
            !ok ==> *final(self) == *old(self),
    {
        let text = att.as_bytes();
        if text.len() != 256 {
            return false;
        }
        let mut bytes = [0u8; 128];
        for i in 0..128
            invariant
                text@ == att.spec_bytes(),
                text@.len() == 256,
                pairs_valid_before(text@, i as int),
                forall|j: int| 0 <= j < i ==> bytes[j] == pair_at(text@, j)->0,
        {
            match hex_pair(text[2 * i], text[2 * i + 1]) {
                Some(v) => {
                    bytes[i] = v;
                    assert(pair_at(text@, i as int) is Some);
                },
                None => {
                    assert(pair_at(text@, i as int) is None);
                    return false;
                },
            }
        }
        assert(bytes@ =~= decode_attestation(text@)->0);
        *self = Hex32::from_bytes(bytes);
        true
    }
}

} // verus!
