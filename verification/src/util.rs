//! Pure byte utilities: UTF-8 validation, chunk concatenation, and the
//! default buffer size, together with the trusted boundary to `bytes::Bytes`
//! and to `String::from_utf8`.

use bytes::Bytes;
use vstd::prelude::*;

verus! {

#[verifier::external_type_specification]
#[verifier::external_body]
pub struct ExBytes(Bytes);

/// The byte contents of a `bytes::Bytes` chunk, in order.
pub uninterp spec fn bytes_data(b: Bytes) -> Seq<u8>;

/// Relies on `bytes::Bytes`'s `AsRef<[u8]>`: a `Bytes` value is a handle onto
/// one contiguous run of bytes, and `as_ref` exposes exactly that run.
#[verifier::external_body]
pub(crate) fn bytes_slice(b: &Bytes) -> (r: &[u8])
    ensures
        r@ == bytes_data(*b),
{
    b.as_ref()
}

/// What `String::from_utf8` yields for a byte sequence: the decoded text when
/// the bytes are valid UTF-8, and nothing otherwise. The outcome depends on
/// the bytes alone.
pub uninterp spec fn utf8_decode(bytes: Seq<u8>) -> Option<Seq<char>>;

/// Relies on `String::from_utf8`: it returns the decoded string exactly when
/// the bytes are valid UTF-8, and a description of the defect otherwise.
#[verifier::external_body]
pub(crate) fn decode_utf8(bytes: &[u8]) -> (r: Result<String, String>)
    ensures
        r is Ok <==> utf8_decode(bytes@) is Some,
        r matches Ok(s) ==> utf8_decode(bytes@) == Some(s@),
{
    match String::from_utf8(bytes.to_vec()) {
        Ok(s) => Ok(s),
        Err(e) => Err(format!("{}", e)),
    }
}

/// Appends a copy of `src` to the end of `dst`.
pub(crate) fn append_bytes(dst: &mut Vec<u8>, src: &[u8])
    ensures
        final(dst)@ == old(dst)@ + src@,
{
    let mut tail = vstd::slice::slice_to_vec(src);
    dst.append(&mut tail);
}

/// Attempts UTF-8 validation of a byte sequence: the decoded text on success,
/// and `None` — not an error — on invalid UTF-8.
pub fn bytes_to_string(bytes: &[u8]) -> (r: Option<String>)
    ensures
        r is Some <==> utf8_decode(bytes@) is Some,
        r matches Some(s) ==> utf8_decode(bytes@) == Some(s@),
{
    match decode_utf8(bytes) {
        Ok(s) => Some(s),
        Err(_) => None,
    }
}

/// The bytes of a sequence of chunks, concatenated in input order.
pub open spec fn concat_data(chunks: Seq<Bytes>) -> Seq<u8>
    decreases chunks.len(),
{
    if chunks.len() == 0 {
        Seq::empty()
    } else {
        concat_data(chunks.drop_last()) + bytes_data(chunks.last())
    }
}

pub(crate) proof fn lemma_concat_data_take(chunks: Seq<Bytes>, i: int)
    requires
        0 <= i < chunks.len(),
    ensures
        concat_data(chunks.take(i + 1)) == concat_data(chunks.take(i)) + bytes_data(chunks[i]),
{
    assert(chunks.take(i + 1).drop_last() =~= chunks.take(i));
    assert(chunks.take(i + 1).last() == chunks[i]);
}

/// Concatenates multiple byte chunks into a single vector, in input order;
/// empty input yields an empty result.
pub fn concat_bytes(chunks: Vec<Bytes>) -> (r: Vec<u8>)
    ensures
        r@ == concat_data(chunks@),
{
    let mut result: Vec<u8> = Vec::new();
    let n = chunks.len();
    let mut i: usize = 0;
    while i < n
        invariant
            i <= n,
            n == chunks@.len(),
            result@ == concat_data(chunks@.take(i as int)),
        decreases n - i,
    {
        append_bytes(&mut result, bytes_slice(&chunks[i]));
        proof {
            lemma_concat_data_take(chunks@, i as int);
        }
        i += 1;
    }
    proof {
        assert(chunks@.take(n as int) =~= chunks@);
    }
    result
}

/// Concatenation respects input order: an empty input gives the empty
/// sequence, and three chunks give the three byte runs joined left to right.
pub proof fn lemma_concat_order(a: Bytes, b: Bytes, c: Bytes)
    ensures
        concat_data(Seq::<Bytes>::empty()) == Seq::<u8>::empty(),
        concat_data(seq![a, b, c]) == bytes_data(a) + bytes_data(b) + bytes_data(c),
{
    assert(concat_data(Seq::<Bytes>::empty()) =~= Seq::<u8>::empty());
    assert(seq![a].drop_last() =~= Seq::<Bytes>::empty());
    assert(seq![a].last() == a);
    assert(concat_data(seq![a]) =~= bytes_data(a));
    assert(seq![a, b].drop_last() =~= seq![a]);
    assert(concat_data(seq![a, b]) =~= bytes_data(a) + bytes_data(b));
    assert(seq![a, b, c].drop_last() =~= seq![a, b]);
    assert(concat_data(seq![a, b, c]) =~= bytes_data(a) + bytes_data(b) + bytes_data(c));
}

/// The buffer size a default-configured converter uses for reader draining.
pub fn default_buffer_size() -> (r: usize)
    ensures
        r == 8192,
{
    8192
}

} // verus!
