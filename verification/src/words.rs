//! Bytes and the 32-bit words that cross the buffer data window.
//!
//! A block travels as little-endian words.  Packing bytes into words and
//! unpacking them again gives the bytes back, which is why a block written
//! and read again through the window comes back unchanged.

use vstd::prelude::*;

verus! {

/// The word made of four bytes, lowest first.
pub open spec fn word_of(b0: u8, b1: u8, b2: u8, b3: u8) -> u32 {
    (b0 as u32) | ((b1 as u32) << 8) | ((b2 as u32) << 16) | ((b3 as u32) << 24)
}

/// Byte `k` of a word, counted from the lowest.
pub open spec fn byte_of(w: u32, k: int) -> u8 {
    if k == 0 {
        (w & 0xFF) as u8
    } else if k == 1 {
        ((w >> 8) & 0xFF) as u8
    } else if k == 2 {
        ((w >> 16) & 0xFF) as u8
    } else {
        ((w >> 24) & 0xFF) as u8
    }
}

/// The words that carry `bytes`: one for every four bytes, in order.  Bytes
/// beyond the last full word are left out.
pub open spec fn pack(bytes: Seq<u8>) -> Seq<u32> {
    Seq::new(
        (bytes.len() / 4) as nat,
        |i: int| word_of(bytes[4 * i], bytes[4 * i + 1], bytes[4 * i + 2], bytes[4 * i + 3]),
    )
}

/// The bytes that `words` carry: four for every word, in order.
pub open spec fn unpack(words: Seq<u32>) -> Seq<u8> {
    Seq::new(words.len() * 4, |i: int| byte_of(words[i / 4], i % 4))
}

/// Splitting the word made of four bytes gives the four bytes back.
pub proof fn lemma_bytes_of_word(b0: u8, b1: u8, b2: u8, b3: u8)
    ensures
        byte_of(word_of(b0, b1, b2, b3), 0) == b0,
        byte_of(word_of(b0, b1, b2, b3), 1) == b1,
        byte_of(word_of(b0, b1, b2, b3), 2) == b2,
        byte_of(word_of(b0, b1, b2, b3), 3) == b3,
{
    let w = word_of(b0, b1, b2, b3);
    assert((w & 0xFF) as u8 == b0 && ((w >> 8) & 0xFF) as u8 == b1 && ((w >> 16) & 0xFF) as u8
        == b2 && ((w >> 24) & 0xFF) as u8 == b3) by (bit_vector)
        requires
            w == (b0 as u32) | ((b1 as u32) << 8) | ((b2 as u32) << 16) | ((b3 as u32) << 24),
    ;
}

/// Joining the four bytes of a word gives the word back.
pub proof fn lemma_word_of_bytes(w: u32)
    ensures
        word_of(byte_of(w, 0), byte_of(w, 1), byte_of(w, 2), byte_of(w, 3)) == w,
{
    let b0 = byte_of(w, 0);
    let b1 = byte_of(w, 1);
    let b2 = byte_of(w, 2);
    let b3 = byte_of(w, 3);
    assert((b0 as u32) | ((b1 as u32) << 8) | ((b2 as u32) << 16) | ((b3 as u32) << 24) == w)
        by (bit_vector)
        requires
            b0 == (w & 0xFF) as u8,
            b1 == ((w >> 8) & 0xFF) as u8,
            b2 == ((w >> 16) & 0xFF) as u8,
            b3 == ((w >> 24) & 0xFF) as u8,
    ;
}

/// Bytes whose number is a multiple of four survive the way through words:
/// what is written through the data window and read back is what was there.
pub proof fn lemma_unpack_pack(bytes: Seq<u8>)
    requires
        bytes.len() % 4 == 0,
    ensures
        unpack(pack(bytes)) == bytes,
{
    let back = unpack(pack(bytes));
    assert(back.len() == bytes.len());
    assert forall|i: int| 0 <= i < bytes.len() implies back[i] == bytes[i] by {
        let k = i / 4;
        lemma_bytes_of_word(bytes[4 * k], bytes[4 * k + 1], bytes[4 * k + 2], bytes[4 * k + 3]);
        assert(i == 4 * k + i % 4);
    }
    assert(back =~= bytes);
}

/// Words survive the way through bytes.
pub proof fn lemma_pack_unpack(words: Seq<u32>)
    ensures
        pack(unpack(words)) == words,
{
    let back = pack(unpack(words));
    assert(back.len() == words.len());
    assert forall|i: int| 0 <= i < words.len() implies back[i] == words[i] by {
        lemma_word_of_bytes(words[i]);
        assert((4 * i) / 4 == i && (4 * i + 1) / 4 == i && (4 * i + 2) / 4 == i && (4 * i + 3) / 4
            == i);
        assert((4 * i) % 4 == 0 && (4 * i + 1) % 4 == 1 && (4 * i + 2) % 4 == 2 && (4 * i + 3) % 4
            == 3);
    }
    assert(back =~= words);
}

/// Packs bytes into little-endian words.
pub fn pack_words(bytes: &Vec<u8>) -> (words: Vec<u32>)
    ensures
        words@ == pack(bytes@),
{
    let n: usize = bytes.len() / 4;
    let mut words: Vec<u32> = Vec::new();
    let mut i: usize = 0;
    while i < n
        invariant
            n == bytes.len() / 4,
            i <= n,
            words@.len() == i,
            forall|j: int| 0 <= j < i ==> #[trigger] words@[j] == pack(bytes@)[j],
        decreases n - i,
    {
        let b0 = bytes[4 * i];
        let b1 = bytes[4 * i + 1];
        let b2 = bytes[4 * i + 2];
        let b3 = bytes[4 * i + 3];
        words.push((b0 as u32) | ((b1 as u32) << 8) | ((b2 as u32) << 16) | ((b3 as u32) << 24));
        i += 1;
    }
    assert(words@ =~= pack(bytes@));
    words
}

/// Unpacks little-endian words into bytes.
pub fn unpack_words(words: &Vec<u32>) -> (bytes: Vec<u8>)
    ensures
        bytes@ == unpack(words@),
{
    let mut bytes: Vec<u8> = Vec::new();
    let mut i: usize = 0;
    while i < words.len()
        invariant
            i <= words.len(),
            bytes@.len() == 4 * i,
            forall|j: int| 0 <= j < 4 * i ==> #[trigger] bytes@[j] == unpack(words@)[j],
        decreases words.len() - i,
    {
        let w = words[i];
        bytes.push((w & 0xFF) as u8);
        bytes.push(((w >> 8) & 0xFF) as u8);
        bytes.push(((w >> 16) & 0xFF) as u8);
        bytes.push(((w >> 24) & 0xFF) as u8);
        proof {
            assert((4 * i) / 4 == i && (4 * i + 1) / 4 == i && (4 * i + 2) / 4 == i && (4 * i + 3)
                / 4 == i);
            assert((4 * i) % 4 == 0 && (4 * i + 1) % 4 == 1 && (4 * i + 2) % 4 == 2 && (4 * i + 3)
                % 4 == 3);
        }
        i += 1;
    }
    assert(bytes@ =~= unpack(words@));
    bytes
}

} // verus!
