//! Hex32: a bank of 32 registers of 32 bits (128 bytes) holding the agent's state.

use vstd::prelude::*;

verus! {

/// The little-endian word made of four bytes, least significant first.
pub open spec fn le_word(b0: u8, b1: u8, b2: u8, b3: u8) -> u32 {
    (b0 + 256 * b1 + 65536 * b2 + 16777216 * b3) as u32
}

/// Byte `k` (0 is the least significant) of the little-endian image of `w`.
pub open spec fn le_byte(w: u32, k: int) -> u8 {
    if k == 0 {
        (w % 256) as u8
    } else if k == 1 {
        ((w / 256) % 256) as u8
    } else if k == 2 {
        ((w / 65536) % 256) as u8
    } else {
        (w / 16777216) as u8
    }
}

/// The 32 registers read from a 128-byte image, four little-endian bytes each.
pub open spec fn words_from_bytes(bs: Seq<u8>) -> Seq<u32> {
    Seq::new(32, |i: int| le_word(bs[4 * i], bs[4 * i + 1], bs[4 * i + 2], bs[4 * i + 3]))
}

/// The 128-byte image of 32 registers, each written as four little-endian bytes.
pub open spec fn bytes_from_words(ws: Seq<u32>) -> Seq<u8> {
    Seq::new(128, |j: int| le_byte(ws[j / 4], j % 4))
}

/// Radix-256 digits of a word are its byte fields.
proof fn lemma_byte_fields(w: u32)
    by (bit_vector)
    ensures
        w % 256 == w & 0xff,
        (w / 256) % 256 == (w >> 8) & 0xff,
        (w / 65536) % 256 == (w >> 16) & 0xff,
        w / 16777216 == (w >> 24) & 0xff,
{
}

/// Four bytes weighted by powers of 256 are the same as the bytes shifted into place.
proof fn lemma_bytes_shifted(b0: u32, b1: u32, b2: u32, b3: u32)
    by (bit_vector)
    requires
        b0 < 256,
        b1 < 256,
        b2 < 256,
        b3 < 256,
    ensures
        b0 + 256 * b1 + 65536 * b2 + 16777216 * b3 == b0 | (b1 << 8) | (b2 << 16) | (b3 << 24),
{
}

/// In the image of 32 registers, register `i` occupies bytes `4i .. 4i+4`,
/// least significant byte first.
pub proof fn lemma_image_layout(ws: Seq<u32>, i: int)
    requires
        ws.len() == 32,
        0 <= i < 32,
    ensures
        bytes_from_words(ws).len() == 128,
        bytes_from_words(ws)[4 * i] == (ws[i] & 0xff) as u8,
        bytes_from_words(ws)[4 * i + 1] == ((ws[i] >> 8) & 0xff) as u8,
        bytes_from_words(ws)[4 * i + 2] == ((ws[i] >> 16) & 0xff) as u8,
        bytes_from_words(ws)[4 * i + 3] == ((ws[i] >> 24) & 0xff) as u8,
{
    assert((4 * i) / 4 == i && (4 * i) % 4 == 0);
    assert((4 * i + 1) / 4 == i && (4 * i + 1) % 4 == 1);
    assert((4 * i + 2) / 4 == i && (4 * i + 2) % 4 == 2);
    assert((4 * i + 3) / 4 == i && (4 * i + 3) % 4 == 3);
    lemma_byte_fields(ws[i]);
}

/// Reading a 128-byte image, register `i` is made of bytes `4i .. 4i+4`,
/// least significant byte first.
pub proof fn lemma_register_layout(bs: Seq<u8>, i: int)
    requires
        bs.len() == 128,
        0 <= i < 32,
    ensures
        words_from_bytes(bs).len() == 32,
        words_from_bytes(bs)[i] == (bs[4 * i] as u32) | ((bs[4 * i + 1] as u32) << 8) | ((bs[4
            * i + 2] as u32) << 16) | ((bs[4 * i + 3] as u32) << 24),
{
    lemma_bytes_shifted(
        bs[4 * i] as u32,
        bs[4 * i + 1] as u32,
        bs[4 * i + 2] as u32,
        bs[4 * i + 3] as u32,
    );
}

/// The four little-endian bytes of a word put back together give the word.
proof fn lemma_word_from_its_bytes(w: u32)
    ensures
        le_word(le_byte(w, 0), le_byte(w, 1), le_byte(w, 2), le_byte(w, 3)) == w,
{
}

/// The little-endian bytes of a word made from four bytes are those bytes.
proof fn lemma_bytes_from_their_word(b0: u8, b1: u8, b2: u8, b3: u8)
    ensures
        le_byte(le_word(b0, b1, b2, b3), 0) == b0,
        le_byte(le_word(b0, b1, b2, b3), 1) == b1,
        le_byte(le_word(b0, b1, b2, b3), 2) == b2,
        le_byte(le_word(b0, b1, b2, b3), 3) == b3,
{
}

/// Reading the binary image of a bank gives the bank back: the image loses nothing.
pub proof fn lemma_words_bytes_roundtrip(ws: Seq<u32>)
    requires
        ws.len() == 32,
    ensures
        words_from_bytes(bytes_from_words(ws)) == ws,
{
    let bs = bytes_from_words(ws);
    assert forall|i: int| 0 <= i < 32 implies #[trigger] words_from_bytes(bs)[i] == ws[i] by {
        assert((4 * i) / 4 == i && (4 * i) % 4 == 0);
        assert((4 * i + 1) / 4 == i && (4 * i + 1) % 4 == 1);
        assert((4 * i + 2) / 4 == i && (4 * i + 2) % 4 == 2);
        assert((4 * i + 3) / 4 == i && (4 * i + 3) % 4 == 3);
        lemma_word_from_its_bytes(ws[i]);
    }
    assert(words_from_bytes(bs) =~= ws);
}

/// Writing the image of a bank read from 128 bytes gives those bytes back.
pub proof fn lemma_bytes_words_roundtrip(bs: Seq<u8>)
    requires
        bs.len() == 128,
    ensures
        bytes_from_words(words_from_bytes(bs)) == bs,
{
    let ws = words_from_bytes(bs);
    assert forall|j: int| 0 <= j < 128 implies #[trigger] bytes_from_words(ws)[j] == bs[j] by {
        let i = j / 4;
        let k = j % 4;
        assert(j == 4 * i + k);
        lemma_bytes_from_their_word(bs[4 * i], bs[4 * i + 1], bs[4 * i + 2], bs[4 * i + 3]);
    }
    assert(bytes_from_words(ws) =~= bs);
}

/// The register bank.
#[derive(Clone, Copy, Debug)]
pub struct Hex32 {
    pub words: [u32; 32],
}

impl Hex32 {
    /// Number of bytes in the binary image of the bank.
    pub const BYTE_LEN: usize = 128;

    /// Number of 32-bit registers in the bank.
    pub const WORD_LEN: usize = 32;

    /// A bank with every register zero.
    pub fn new() -> (h: Self)
        ensures
            forall|i: int| 0 <= i < 32 ==> h.words[i] == 0,
    {
        Hex32 { words: [0u32; 32] }
    }

    /// Reads the bank from its 128-byte little-endian image.
    pub fn from_bytes(bytes: [u8; 128]) -> (h: Self)
        ensures
            h.words@ == words_from_bytes(bytes@),
            forall|i: int|
                0 <= i < 32 ==> #[trigger] h.words[i] == (bytes[4 * i] as u32) | ((bytes[4 * i
                    + 1] as u32) << 8) | ((bytes[4 * i + 2] as u32) << 16) | ((bytes[4 * i
                    + 3] as u32) << 24),
    {
        let mut words = [0u32; 32];
        for i in 0..32
            invariant
                forall|k: int| 0 <= k < i ==> words[k] == le_word(
                    bytes[4 * k], bytes[4 * k + 1], bytes[4 * k + 2], bytes[4 * k + 3],
                ),
        {
            let b0 = bytes[4 * i] as u32;
            let b1 = bytes[4 * i + 1] as u32;
            let b2 = bytes[4 * i + 2] as u32;
            let b3 = bytes[4 * i + 3] as u32;
            words[i] = b0 + 256 * b1 + 65536 * b2 + 16777216 * b3;
        }
        let h = Hex32 { words };
        assert(h.words@ =~= words_from_bytes(bytes@));
        assert forall|i: int| 0 <= i < 32 implies #[trigger] h.words[i] == (bytes[4 * i] as u32)
            | ((bytes[4 * i + 1] as u32) << 8) | ((bytes[4 * i + 2] as u32) << 16) | ((bytes[4
            * i + 3] as u32) << 24) by {
            lemma_register_layout(bytes@, i);
        }
        h
    }

    /// The 128-byte little-endian image of the bank.
    pub fn to_bytes(&self) -> (out: [u8; 128])
        ensures
            out@ == bytes_from_words(self.words@),
            forall|i: int|
                #![trigger self.words[i]]
                0 <= i < 32 ==> out[4 * i] == (self.words[i] & 0xff) as u8 && out[4 * i + 1] == ((
                self.words[i] >> 8) & 0xff) as u8 && out[4 * i + 2] == ((self.words[i] >> 16)
                & 0xff) as u8 && out[4 * i + 3] == ((self.words[i] >> 24) & 0xff) as u8,
    {
        let mut out = [0u8; 128];
        for i in 0..32
            invariant
                forall|j: int| 0 <= j < 4 * i ==> out[j] == le_byte(self.words[j / 4], j % 4),
        {
            let w = self.words[i];
            out[4 * i] = (w % 256) as u8;
            out[4 * i + 1] = ((w / 256) % 256) as u8;
            out[4 * i + 2] = ((w / 65536) % 256) as u8;
            out[4 * i + 3] = (w / 16777216) as u8;
        }
        assert(out@ =~= bytes_from_words(self.words@));
        assert forall|i: int| 0 <= i < 32 implies out[4 * i] == (#[trigger] self.words[i] & 0xff) as u8
            && out[4 * i + 1] == ((self.words[i] >> 8) & 0xff) as u8 && out[4 * i + 2] == ((
            self.words[i] >> 16) & 0xff) as u8 && out[4 * i + 3] == ((self.words[i] >> 24)
            & 0xff) as u8 by {
            lemma_image_layout(self.words@, i);
        }
        out
    }

    /// A copy of all 32 registers.
    pub fn registers(&self) -> (r: [u32; 32])
        ensures
            r@ == self.words@,
    {
        self.words
    }

    /// The register at `idx`.
    pub fn get_word(&self, idx: usize) -> (w: u32)
        requires
            idx < 32,
        ensures
            w == self.words[idx as int],
    {
        self.words[idx]
    }

    /// Overwrites the register at `idx`; every other register keeps its value.
    pub fn set_word(&mut self, idx: usize, val: u32)
        requires
            idx < 32,
        ensures
            final(self).words@ == old(self).words@.update(idx as int, val),
    {
        self.words[idx] = val;
    }
}

impl Default for Hex32 {
    /// A bank with every register zero.
    fn default() -> (h: Self)
        ensures
            forall|i: int| 0 <= i < 32 ==> h.words[i] == 0,
    {
        Hex32::new()
    }
}

} // verus!
