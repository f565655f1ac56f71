//! The binary image format: a little-endian stream of 16-bit words.
use vstd::prelude::*;

verus! {

/// Why a byte stream is no loadable image.
#[derive(Clone, Copy, Debug, PartialEq, Eq, Structural)]
pub enum ImageError {
    /// The stream has an odd number of bytes.
    OddLength,
    /// The stream holds more words than memory.
    TooLarge,
}

/// The word made of a low and a high byte.
pub open spec fn word_of(low: u8, high: u8) -> u16 {
    (high as int * 256 + low as int) as u16
}

/// The words of a stream of even length, pair by pair in file order.
pub open spec fn words_of(bytes: Seq<u8>) -> Seq<u16> {
    Seq::new(bytes.len() / 2, |i: int| word_of(bytes[2 * i], bytes[2 * i + 1]))
}

/// The bytes of a word sequence, low byte first.
pub open spec fn bytes_of(words: Seq<u16>) -> Seq<u8> {
    Seq::new(2 * words.len(), |i: int| if i % 2 == 0 { (words[i / 2] % 256) as u8 } else { (words[i / 2] / 256) as u8 })
}

/// Decodes an image into words.
pub fn decode_image(bytes: &Vec<u8>) -> (r: Result<Vec<u16>, ImageError>)
    ensures
        bytes@.len() % 2 == 1 ==> r == Err::<Vec<u16>, ImageError>(ImageError::OddLength),
        bytes@.len() % 2 == 0 && bytes@.len() > 65536 ==> r == Err::<Vec<u16>, ImageError>(ImageError::TooLarge),
        bytes@.len() % 2 == 0 && bytes@.len() <= 65536 ==> (r matches Ok(w) && w@ == words_of(bytes@)),
{
    if bytes.len() % 2 == 1 {
        return Err(ImageError::OddLength);
    }
    if bytes.len() > 65536 {
        return Err(ImageError::TooLarge);
    }
    let mut words: Vec<u16> = Vec::new();
    let n = bytes.len() / 2;
    let mut i: usize = 0;
    while i < n
        invariant
            n == bytes@.len() / 2,
            bytes@.len() % 2 == 0,
            bytes@.len() <= 65536,
            i <= n,
            words@ == words_of(bytes@).subrange(0, i as int),
        decreases n - i,
    {
        let low = bytes[2 * i];
        let high = bytes[2 * i + 1];
        words.push((high as u16) * 256 + low as u16);
        i = i + 1;
    }
    assert(words@ =~= words_of(bytes@));
    Ok(words)
}

/// Encodes words as an image, low byte first.
pub fn encode_image(words: &Vec<u16>) -> (r: Vec<u8>)
    requires
        words@.len() <= 32768,
    ensures
        r@ == bytes_of(words@),
{
    let mut bytes: Vec<u8> = Vec::new();
    let mut i: usize = 0;
    while i < words.len()
        invariant
            i <= words@.len() <= 32768,
            bytes@ == bytes_of(words@).subrange(0, 2 * i as int),
        decreases words.len() - i,
    {
        let w = words[i];
        bytes.push((w % 256) as u8);
        bytes.push((w / 256) as u8);
        assert(bytes@ =~= bytes_of(words@).subrange(0, 2 * (i + 1) as int));
        i = i + 1;
    }
    assert(bytes@ =~= bytes_of(words@));
    bytes
}

/// Decoding an image and writing every word back as a little-endian pair
/// gives the image byte for byte.
pub proof fn lemma_image_round_trip(bytes: Seq<u8>)
    requires
        bytes.len() % 2 == 0,
    ensures
        bytes_of(words_of(bytes)) == bytes,
{
    let w = words_of(bytes);
    assert forall|i: int| 0 <= i < bytes.len() implies #[trigger] bytes_of(w)[i] == bytes[i] by {
        let k = i / 2;
        let lo = bytes[2 * k];
        let hi = bytes[2 * k + 1];
        assert(w[k] == hi as int * 256 + lo as int);
        if i % 2 == 0 {
            assert(i == 2 * k);
        } else {
            assert(i == 2 * k + 1);
        }
    }
    assert(bytes_of(w) =~= bytes);
}

} // verus!
