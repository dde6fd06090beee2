use vstd::prelude::*;
use crate::error::{Label, SessionError};

verus! {

/// The 32-bit word stored little-endian at byte positions `4*i .. 4*i + 4` of `b`.
pub open spec fn le_word_at(b: Seq<u8>, i: int) -> u32 {
    (b[4 * i] + b[4 * i + 1] * 0x100 + b[4 * i + 2] * 0x1_0000 + b[4 * i + 3]
        * 0x100_0000) as u32
}

/// All full little-endian 32-bit words of `b`, in order; 1-3 trailing bytes
/// that do not fill a word carry no element.
pub open spec fn le_words(b: Seq<u8>) -> Seq<u32> {
    Seq::new((b.len() / 4) as nat, |i: int| le_word_at(b, i))
}

/// Reading words from a byte buffer yields exactly one element per full
/// 32-bit word, `floor(len / 4)`: 1-3 trailing bytes never add an element
/// and never fail.
pub proof fn lemma_word_count(b: Seq<u8>)
    ensures
        le_words(b).len() == b.len() / 4,
{
}

/// What base64 decoding yields on `s`: the decoded bytes exactly when `s` is
/// valid base64, and no value otherwise.
pub uninterp spec fn base64_decoded(s: Seq<u8>) -> Option<Seq<u8>>;

#[verifier::external_type_specification]
#[verifier::external_body]
pub struct ExDecodeError(base64::DecodeError);

/// Relies on base64::decode (standard alphabet): whether it succeeds and what
/// bytes it yields are functions of the input bytes alone.
#[verifier::external_body]
fn base64_decode_raw(s: &Vec<u8>) -> (r: Result<Vec<u8>, base64::DecodeError>)
    ensures
        r is Ok <==> base64_decoded(s@) is Some,
        r is Ok ==> r.unwrap()@ == base64_decoded(s@).unwrap(),
{
    base64::decode(s.as_slice())
}

/// Reads as many full little-endian 32-bit words from `bytes` as fit; a
/// trailing partial word is dropped.
pub fn read_le_words(bytes: &Vec<u8>) -> (r: Vec<u32>)
    ensures
        r@ == le_words(bytes@),
{
    let n: usize = bytes.len() / 4;
    let mut r: Vec<u32> = Vec::new();
    let mut i: usize = 0;
    while i < n
        invariant
            bytes@.len() <= usize::MAX,
            n == bytes@.len() / 4,
            i <= n,
            r@.len() == i,
            forall|k: int| 0 <= k < i ==> r@[k] == le_word_at(bytes@, k),
        decreases n - i,
    {
        proof {
            assert(4 * (i as int) + 3 < bytes@.len()) by {
                assert(i + 1 <= n);
                assert(4 * (i as int) + 4 <= 4 * (n as int)) by (nonlinear_arith)
                    requires i + 1 <= n;
                assert(4 * (n as int) <= bytes@.len()) by (nonlinear_arith)
                    requires n == bytes@.len() / 4;
            }
        }
        let b0: u8 = bytes[4 * i];
        let b1: u8 = bytes[4 * i + 1];
        let b2: u8 = bytes[4 * i + 2];
        let b3: u8 = bytes[4 * i + 3];
        let w: u32 = (b0 as u32) + (b1 as u32) * 0x100 + (b2 as u32) * 0x1_0000 + (b3 as u32)
            * 0x100_0000;
        r.push(w);
        i = i + 1;
    }
    assert(r@ =~= le_words(bytes@));
    r
}

/// Base64-decodes `payload` and reads its full little-endian 32-bit words,
/// dropping 1-3 trailing bytes; fails exactly when `payload` is not valid
/// base64, naming the array the payload belongs to.
pub fn decode_u32s(payload: &Vec<u8>, which: Label) -> (r: Result<Vec<u32>, SessionError>)
    ensures
        r is Ok <==> base64_decoded(payload@) is Some,
        r is Err ==> r == Err::<Vec<u32>, SessionError>(SessionError::InvalidBase64(which)),
        r is Ok ==> r.unwrap()@ == le_words(base64_decoded(payload@).unwrap()),
{
    match base64_decode_raw(payload) {
        Ok(bytes) => Ok(read_le_words(&bytes)),
        Err(_) => Err(SessionError::InvalidBase64(which)),
    }
}

/// As `decode_u32s`, but reinterprets each word as a 32-bit signed integer
/// with the same bits.
pub fn decode_i32s(payload: &Vec<u8>, which: Label) -> (r: Result<Vec<i32>, SessionError>)
    ensures
        r is Ok <==> base64_decoded(payload@) is Some,
        r is Err ==> r == Err::<Vec<i32>, SessionError>(SessionError::InvalidBase64(which)),
        r is Ok ==> r.unwrap()@ == le_words(base64_decoded(payload@).unwrap()).map_values(
            |w: u32| w as i32,
        ),
{
    match decode_u32s(payload, which) {
        Ok(words) => {
            let mut r: Vec<i32> = Vec::new();
            let mut i: usize = 0;
            while i < words.len()
                invariant
                    i <= words@.len(),
                    r@.len() == i,
                    forall|k: int| 0 <= k < i ==> r@[k] == words@[k] as i32,
                decreases words@.len() - i,
            {
                #[verifier::truncate]
                let v: i32 = words[i] as i32;
                r.push(v);
                i = i + 1;
            }
            assert(r@ =~= words@.map_values(|w: u32| w as i32));
            Ok(r)
        },
        Err(e) => Err(e),
    }
}

} // verus!
