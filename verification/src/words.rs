//! The memory image of words, as graphics buffers take it.

use vstd::prelude::*;

verus! {

/// The byte of a word at a place, counted from the lowest.
pub open spec fn byte_of_word(word: u32, place: int) -> u8 {
    let scaled = if place == 0 {
        word as int
    } else if place == 1 {
        word as int / 0x100
    } else if place == 2 {
        word as int / 0x1_0000
    } else {
        word as int / 0x100_0000
    };
    (scaled % 0x100) as u8
}

/// Words laid out with the lowest byte first.
pub open spec fn little_endian(words: Seq<u32>) -> Seq<u8> {
    Seq::new(4 * words.len(), |k: int| byte_of_word(words[k / 4], k % 4))
}

/// Words laid out with the highest byte first.
pub open spec fn big_endian(words: Seq<u32>) -> Seq<u8> {
    Seq::new(4 * words.len(), |k: int| byte_of_word(words[k / 4], 3 - k % 4))
}

/// Whether bytes are the memory image of words, in the one byte order or the
/// other.
pub open spec fn is_image(words: Seq<u32>, bytes: Seq<u8>) -> bool {
    bytes == little_endian(words) || bytes == big_endian(words)
}

/// Calls `bytemuck::cast_slice` from words to bytes, which cannot fail: a byte
/// needs no alignment and divides every length. The bytes are the words in
/// memory order, four for each word, in the byte order of the machine.
#[verifier::external_body]
pub(crate) fn words_as_bytes<'a>(words: &'a [u32]) -> (r: &'a [u8])
    ensures
        is_image(words@, r@),
{
    bytemuck::cast_slice(words)
}

/// The bytes of an image give the words back: from the lowest byte up where the lowest
/// comes first, from the highest down otherwise. There are four bytes to a word.
pub proof fn an_image_gives_its_words_back(words: Seq<u32>, k: int)
    requires
        0 <= k < words.len(),
    ensures
        ({
            let b = little_endian(words);
            &&& b.len() == 4 * words.len()
            &&& b[4 * k] + 0x100 * b[4 * k + 1] + 0x1_0000 * b[4 * k + 2] + 0x100_0000 * b[4 * k + 3]
                == words[k]
        }),
        ({
            let b = big_endian(words);
            &&& b.len() == 4 * words.len()
            &&& b[4 * k + 3] + 0x100 * b[4 * k + 2] + 0x1_0000 * b[4 * k + 1] + 0x100_0000 * b[4 * k]
                == words[k]
        }),
{
    let w = words[k] as int;
    assert(w / 0x1_0000 == (w / 0x100) / 0x100);
    assert(w / 0x100_0000 == (w / 0x1_0000) / 0x100);
    assert(w / 0x100_0000 < 0x100);
    let (little, big) = (little_endian(words), big_endian(words));
    assert(little[4 * k] == w % 0x100 && big[4 * k + 3] == w % 0x100);
    assert(little[4 * k + 1] == (w / 0x100) % 0x100 && big[4 * k + 2] == (w / 0x100) % 0x100);
    assert(little[4 * k + 2] == (w / 0x1_0000) % 0x100 && big[4 * k + 1] == (w / 0x1_0000) % 0x100);
    assert(little[4 * k + 3] == (w / 0x100_0000) % 0x100 && big[4 * k] == (w / 0x100_0000) % 0x100);
}

/// Different words have different images in one byte order.
pub proof fn images_tell_words_apart(a: Seq<u32>, b: Seq<u32>)
    requires
        little_endian(a) == little_endian(b) || big_endian(a) == big_endian(b),
    ensures
        a == b,
{
    assert(little_endian(a).len() == 4 * a.len() && little_endian(b).len() == 4 * b.len());
    assert(big_endian(a).len() == 4 * a.len() && big_endian(b).len() == 4 * b.len());
    assert forall|k: int| 0 <= k < a.len() implies a[k] == b[k] by {
        an_image_gives_its_words_back(a, k);
        an_image_gives_its_words_back(b, k);
    }
}

} // verus!
