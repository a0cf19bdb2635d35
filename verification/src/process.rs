//! Stand-alone draining of a chunked body, without a converter instance.

use crate::error::StreamConverterError;
use crate::source::{
    all_chunks, first_failure, lemma_first_failure_at, lemma_pulled_bytes_take, pulled_bytes,
    ChunkPull, ChunkStream,
};
use crate::util::{append_bytes, bytes_slice};
use vstd::prelude::*;

verus! {

/// Drains a chunked body into a vector of bytes.
///
/// The chunks' bytes are appended in delivery order. At the first transport
/// failure the drain aborts: the failure's message comes back as a
/// `HyperError` and the bytes accumulated so far are discarded.
pub fn process_stream(body: ChunkStream) -> (r: Result<Vec<u8>, StreamConverterError>)
    ensures
        r is Ok <==> all_chunks(body.pulls@),
        r matches Ok(v) ==> v@ == pulled_bytes(body.pulls@),
        r matches Err(e) ==> ({
            let i = first_failure(body.pulls@);
            &&& 0 <= i < body.pulls@.len()
            &&& body.pulls@[i] matches ChunkPull::TransportFailure(m) && e
                matches StreamConverterError::HyperError(em) && em@ == m@
        }),
{
    let mut result: Vec<u8> = Vec::new();
    let n = body.pulls.len();
    let mut i: usize = 0;
    while i < n
        invariant
            i <= n,
            n == body.pulls@.len(),
            forall|j: int| 0 <= j < i ==> body.pulls@[j] is Chunk,
            result@ == pulled_bytes(body.pulls@.take(i as int)),
        decreases n - i,
    {
        match &body.pulls[i] {
            ChunkPull::Chunk(chunk) => {
                append_bytes(&mut result, bytes_slice(chunk));
                proof {
                    lemma_pulled_bytes_take(body.pulls@, i as int);
                }
            },
            ChunkPull::TransportFailure(message) => {
                proof {
                    lemma_first_failure_at(body.pulls@, i as int);
                }
                return Err(StreamConverterError::HyperError(message.clone()));
            },
        }
        i += 1;
    }
    proof {
        assert(body.pulls@.take(n as int) =~= body.pulls@);
    }
    Ok(result)
}

} // verus!
