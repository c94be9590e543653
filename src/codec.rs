//! Float tensors on the wire: little-endian 32-bit words, base64-encoded.
//!
//! A tensor is held as the bit patterns of its `f32` elements (`f32::to_bits`),
//! so that encoding and decoding are exact on every value, NaNs included.

use base64::engine::general_purpose::STANDARD;
use base64::Engine;
use vstd::prelude::*;

verus! {

/// The error of `base64::Engine::decode`, carried opaquely.
#[verifier::external_type_specification]
#[verifier::external_body]
pub struct ExBase64DecodeError(base64::DecodeError);

/// The `k`-th little-endian byte of a word, for `k` in `0..4`.
pub open spec fn byte_of(w: u32, k: int) -> u8 {
    if k == 0 {
        w as u8
    } else if k == 1 {
        (w >> 8u32) as u8
    } else if k == 2 {
        (w >> 16u32) as u8
    } else {
        (w >> 24u32) as u8
    }
}

/// The word whose little-endian bytes are `b0, b1, b2, b3`.
pub open spec fn word_of(b0: u8, b1: u8, b2: u8, b3: u8) -> u32 {
    (b0 as u32) | ((b1 as u32) << 8u32) | ((b2 as u32) << 16u32) | ((b3 as u32) << 24u32)
}

/// The little-endian byte image of a sequence of words.
pub open spec fn le_bytes(ws: Seq<u32>) -> Seq<u8> {
    Seq::new(4 * ws.len(), |j: int| byte_of(ws[j / 4], j % 4))
}

/// The words read from a byte sequence, four little-endian bytes each
/// (a trailing partial word is not read).
pub open spec fn le_words(b: Seq<u8>) -> Seq<u32> {
    Seq::new(b.len() / 4, |i: int| word_of(b[4 * i], b[4 * i + 1], b[4 * i + 2], b[4 * i + 3]))
}

/// Padded standard-alphabet base64 text of a byte sequence.
pub uninterp spec fn base64_text(bytes: Seq<u8>) -> Seq<char>;

/// The bytes that a text decodes to under padded standard base64, if it is valid.
pub uninterp spec fn base64_bytes(text: Seq<char>) -> Option<Seq<u8>>;

/// Why a tensor payload could not be decoded.
#[derive(Debug, Clone, Copy, PartialEq, Eq, Structural)]
pub enum DecodeFault {
    /// The text is not valid base64.
    Base64,
    /// The decoded byte count is not a multiple of four.
    Length,
}

proof fn lemma_word_bytes(w: u32)
    ensures
        word_of(byte_of(w, 0), byte_of(w, 1), byte_of(w, 2), byte_of(w, 3)) == w,
{
    assert(((w as u8) as u32) | ((((w >> 8u32) as u8) as u32) << 8u32) | ((((w >> 16u32) as u8)
        as u32) << 16u32) | ((((w >> 24u32) as u8) as u32) << 24u32) == w) by (bit_vector);
}

proof fn lemma_bytes_word(b0: u8, b1: u8, b2: u8, b3: u8)
    ensures
        byte_of(word_of(b0, b1, b2, b3), 0) == b0,
        byte_of(word_of(b0, b1, b2, b3), 1) == b1,
        byte_of(word_of(b0, b1, b2, b3), 2) == b2,
        byte_of(word_of(b0, b1, b2, b3), 3) == b3,
{
    let w = word_of(b0, b1, b2, b3);
    assert(w == (b0 as u32) | ((b1 as u32) << 8u32) | ((b2 as u32) << 16u32) | ((b3 as u32)
        << 24u32));
    assert(((((b0 as u32) | ((b1 as u32) << 8u32) | ((b2 as u32) << 16u32) | ((b3 as u32)
        << 24u32))) as u8) == b0) by (bit_vector);
    assert(((((b0 as u32) | ((b1 as u32) << 8u32) | ((b2 as u32) << 16u32) | ((b3 as u32)
        << 24u32)) >> 8u32) as u8) == b1) by (bit_vector);
    assert(((((b0 as u32) | ((b1 as u32) << 8u32) | ((b2 as u32) << 16u32) | ((b3 as u32)
        << 24u32)) >> 16u32) as u8) == b2) by (bit_vector);
    assert(((((b0 as u32) | ((b1 as u32) << 8u32) | ((b2 as u32) << 16u32) | ((b3 as u32)
        << 24u32)) >> 24u32) as u8) == b3) by (bit_vector);
}

/// Reading back the byte image of words gives the words.
pub proof fn lemma_words_of_bytes(ws: Seq<u32>)
    ensures
        le_words(le_bytes(ws)) == ws,
{
    let b = le_bytes(ws);
    assert(b.len() / 4 == ws.len()) by (nonlinear_arith)
        requires
            b.len() == 4 * ws.len(),
    ;
    assert forall|i: int| 0 <= i < ws.len() implies #[trigger] le_words(b)[i] == ws[i] by {
        assert((4 * i) / 4 == i && (4 * i + 1) / 4 == i && (4 * i + 2) / 4 == i && (4 * i + 3)
            / 4 == i) by (nonlinear_arith);
        assert((4 * i) % 4 == 0 && (4 * i + 1) % 4 == 1 && (4 * i + 2) % 4 == 2 && (4 * i + 3)
            % 4 == 3) by (nonlinear_arith);
        assert(4 * i + 3 < b.len()) by (nonlinear_arith)
            requires
                b.len() == 4 * ws.len(),
                i < ws.len(),
        ;
        lemma_word_bytes(ws[i]);
    }
    assert(le_words(b) =~= ws);
}

/// Writing out the words read from a whole number of words gives the bytes back.
pub proof fn lemma_bytes_of_words(b: Seq<u8>)
    requires
        b.len() % 4 == 0,
    ensures
        le_bytes(le_words(b)) == b,
{
    let ws = le_words(b);
    assert(4 * (b.len() / 4) == b.len()) by (nonlinear_arith)
        requires
            b.len() % 4 == 0,
    ;
    assert forall|j: int| 0 <= j < b.len() implies #[trigger] le_bytes(ws)[j] == b[j] by {
        let i = j / 4;
        let k = j % 4;
        assert(j == 4 * i + k && 0 <= k < 4 && 0 <= i < ws.len()) by (nonlinear_arith)
            requires
                i == j / 4,
                k == j % 4,
                0 <= j < b.len(),
                ws.len() == b.len() / 4,
                4 * (b.len() / 4) == b.len(),
        ;
        lemma_bytes_word(b[4 * i], b[4 * i + 1], b[4 * i + 2], b[4 * i + 3]);
    }
    assert(le_bytes(ws) =~= b);
}

/// The little-endian byte image of `words`.
pub fn le_bytes_from_words(words: &Vec<u32>) -> (r: Vec<u8>)
    requires
        4 * words@.len() <= usize::MAX,
    ensures
        r@ == le_bytes(words@),
{
    let mut out: Vec<u8> = Vec::new();
    let mut i: usize = 0;
    while i < words.len()
        invariant
            i <= words@.len(),
            4 * words@.len() <= usize::MAX,
            out@.len() == 4 * i,
            forall|p: int, k: int|
                0 <= p < i && 0 <= k < 4 ==> #[trigger] out@[4 * p + k] == byte_of(words@[p], k),
        decreases words@.len() - i,
    {
        let w = words[i];
        out.push(w as u8);
        out.push((w >> 8u32) as u8);
        out.push((w >> 16u32) as u8);
        out.push((w >> 24u32) as u8);
        i = i + 1;
    }
    assert forall|j: int| 0 <= j < out@.len() implies #[trigger] out@[j] == le_bytes(words@)[j] by {
        let p = j / 4;
        let k = j % 4;
        assert(j == 4 * p + k && 0 <= k < 4 && 0 <= p < words@.len()) by (nonlinear_arith)
            requires
                p == j / 4,
                k == j % 4,
                0 <= j < out@.len(),
                out@.len() == 4 * words@.len(),
        ;
    }
    assert(out@ =~= le_bytes(words@));
    out
}

/// The words of `bytes`, four little-endian bytes each; a byte count that is not
/// a multiple of four is refused.
pub fn words_from_le_bytes(bytes: &Vec<u8>) -> (r: Result<Vec<u32>, DecodeFault>)
    ensures
        bytes@.len() % 4 != 0 ==> r == Err::<Vec<u32>, DecodeFault>(DecodeFault::Length),
        bytes@.len() % 4 == 0 ==> r is Ok && r->Ok_0@ == le_words(bytes@),
{
    if bytes.len() % 4 != 0 {
        return Err(DecodeFault::Length);
    }
    let len = bytes.len();
    let n = len / 4;
    let mut out: Vec<u32> = Vec::new();
    let mut i: usize = 0;
    while i < n
        invariant
            len == bytes@.len(),
            n == bytes@.len() / 4,
            bytes@.len() % 4 == 0,
            i <= n,
            out@ == le_words(bytes@).take(i as int),
        decreases n - i,
    {
        assert(4 * i + 3 < bytes@.len()) by (nonlinear_arith)
            requires
                i < n,
                n == bytes@.len() / 4,
        ;
        let at: usize = 4 * i;
        let w = (bytes[at] as u32) | ((bytes[at + 1] as u32) << 8u32) | ((bytes[at + 2] as u32)
            << 16u32) | ((bytes[at + 3] as u32) << 24u32);
        out.push(w);
        i = i + 1;
        assert(out@ =~= le_words(bytes@).take(i as int));
    }
    assert(out@ =~= le_words(bytes@));
    Ok(out)
}

/// Relies on `base64::Engine::encode` with the `STANDARD` engine: the padded
/// standard-alphabet base64 text of the bytes.
#[verifier::external_body]
fn base64_encode(bytes: &Vec<u8>) -> (r: String)
    ensures
        r@ == base64_text(bytes@),
{
    STANDARD.encode(bytes)
}

/// Relies on `base64::Engine::decode` with the `STANDARD` engine: the bytes
/// that the text stands for, or an error for text that is not canonical padded
/// base64; the text that `encode` produced for some bytes decodes to exactly them.
#[verifier::external_body]
fn base64_decode(text: &str) -> (r: Result<Vec<u8>, base64::DecodeError>)
    ensures
        match r {
            Ok(b) => base64_bytes(text@) == Some(b@),
            Err(_) => base64_bytes(text@) is None,
        },
        forall|b: Seq<u8>| #[trigger] base64_text(b) == text@ ==> (r is Ok && r->Ok_0@ == b),
{
    STANDARD.decode(text)
}

/// The wire text of a tensor: base64 of the little-endian bytes of its words.
pub fn encode_floats_base64(data: &Vec<u32>) -> (r: String)
    requires
        4 * data@.len() <= usize::MAX,
    ensures
        r@ == base64_text(le_bytes(data@)),
{
    let bytes = le_bytes_from_words(data);
    base64_encode(&bytes)
}

/// The tensor that a wire text stands for: `DecodeFault::Base64` when the text
/// is not base64, `DecodeFault::Length` when it decodes to a byte count that is
/// not a multiple of four.
pub open spec fn decoded_tensor(text: Seq<char>) -> Result<Seq<u32>, DecodeFault> {
    match base64_bytes(text) {
        None => Err(DecodeFault::Base64),
        Some(b) => if b.len() % 4 != 0 {
            Err(DecodeFault::Length)
        } else {
            Ok(le_words(b))
        },
    }
}

/// The tensor that a wire text stands for (see `decoded_tensor`). The text of
/// any tensor decodes back to that tensor.
pub fn decode_floats_base64(text: &str) -> (r: Result<Vec<u32>, DecodeFault>)
    ensures
        match decoded_tensor(text@) {
            Ok(w) => r is Ok && r->Ok_0@ == w,
            Err(f) => r == Err::<Vec<u32>, DecodeFault>(f),
        },
        forall|x: Seq<u32>| #[trigger] base64_text(le_bytes(x)) == text@ ==> (r is Ok && r->Ok_0@
            == x),
{
    let decoded = base64_decode(text);
    let r = match decoded {
        Ok(bytes) => words_from_le_bytes(&bytes),
        Err(_) => Err(DecodeFault::Base64),
    };
    assert forall|x: Seq<u32>| #[trigger] base64_text(le_bytes(x)) == text@ implies (r is Ok
        && r->Ok_0@ == x) by {
        lemma_words_of_bytes(x);
        assert(le_bytes(x).len() % 4 == 0);
    }
    r
}

} // verus!
