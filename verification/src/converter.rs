//! The configurable converter holding the four drain operations.

use crate::error::StreamConverterError;
use crate::source::{
    all_chunks, ends_read, ends_text_read, first_failure, lemma_read_bytes_take,
    lemma_read_text_take, lemma_stop_index_all, lemma_stop_index_at, lemma_text_stop_index_all,
    lemma_text_stop_index_at, pulled_bytes, read_bytes, read_text, reader_fails, stop_index,
    text_reader_fails, text_stop_index, ChunkPull, ChunkStream, ReadPull, ReaderSource,
};
use crate::util::{append_bytes, decode_utf8, utf8_decode};
use vstd::prelude::*;
use vstd::string::StringExecFns;

verus! {

/// Converts recorded streams into strings or byte vectors.
///
/// The buffer size only matters on the reader path, and there only to the
/// caller that fills a working buffer of that size while recording the
/// reads: chunks of a chunked body arrive pre-sized. A size of zero is
/// accepted but gives a reader loop that cannot progress; choosing a useful
/// size is the caller's responsibility.
#[derive(Debug)]
pub struct StreamConverter {
    buffer_size: usize,
}

impl StreamConverter {
    /// The configured working-buffer size, in bytes.
    pub closed spec fn buffer_size_view(&self) -> usize {
        self.buffer_size
    }

    /// Creates a converter with the default buffer size of 8192 bytes.
    pub fn new() -> (r: Self)
        ensures
            r.buffer_size_view() == 8192,
    {
        Self { buffer_size: 8192 }
    }

    /// Creates a converter with the given working-buffer size, in bytes.
    pub fn with_buffer_size(buffer_size: usize) -> (r: Self)
        ensures
            r.buffer_size_view() == buffer_size,
    {
        Self { buffer_size }
    }

    /// The configured working-buffer size, in bytes.
    pub fn buffer_size(&self) -> (r: usize)
        ensures
            r == self.buffer_size_view(),
    {
        self.buffer_size
    }

    /// Drains a chunked body into a vector of bytes.
    ///
    /// The chunks' bytes are appended in delivery order. At the first
    /// transport failure the drain aborts: the failure's message comes back
    /// as a `HyperError` and the bytes accumulated so far are discarded.
    pub fn body_to_bytes(&self, body: ChunkStream) -> (r: Result<
        Vec<u8>,
        StreamConverterError,
    >)
        ensures
            r is Ok <==> all_chunks(body.pulls@),
            r matches Ok(v) ==> v@ == pulled_bytes(body.pulls@),
            r matches Err(e) ==> ({
                let i = first_failure(body.pulls@);
                &&& 0 <= i < body.pulls@.len()
                &&& body.pulls@[i] matches ChunkPull::TransportFailure(m) && e
                    matches StreamConverterError::HyperError(em) && em@ == m@
            }),
    {
        crate::process::process_stream(body)
    }

    /// Drains a chunked body into a string.
    ///
    /// Equivalent to `body_to_bytes` followed by one UTF-8 validation pass
    /// over the whole accumulated buffer. Validation is never per chunk, so
    /// a chunk boundary that splits a multi-byte code point is not an error;
    /// only the assembled buffer's validity matters.
    pub fn body_to_string(&self, body: ChunkStream) -> (r: Result<
        String,
        StreamConverterError,
    >)
        ensures
            r is Ok <==> all_chunks(body.pulls@) && utf8_decode(pulled_bytes(body.pulls@))
                is Some,
            r matches Ok(s) ==> Some(s@) == utf8_decode(pulled_bytes(body.pulls@)),
            all_chunks(body.pulls@) && utf8_decode(pulled_bytes(body.pulls@)) is None ==> (
            r matches Err(e) && e is EncodingError),
            !all_chunks(body.pulls@) ==> (r matches Err(e) && ({
                let i = first_failure(body.pulls@);
                &&& 0 <= i < body.pulls@.len()
                &&& body.pulls@[i] matches ChunkPull::TransportFailure(m) && e
                    matches StreamConverterError::HyperError(em) && em@ == m@
            })),
    {
        let bytes = match self.body_to_bytes(body) {
            Ok(v) => v,
            Err(e) => {
                return Err(e);
            },
        };
        match decode_utf8(bytes.as_slice()) {
            Ok(s) => Ok(s),
            Err(m) => Err(StreamConverterError::EncodingError(m)),
        }
    }

    /// Drains recorded reads into a vector of bytes.
    ///
    /// Each read's fill is appended in read order; an empty fill means end
    /// of source and stops the drain, leaving later records untouched. At
    /// the first I/O failure the drain aborts: the failure's message comes
    /// back as an `IoError` and the bytes accumulated so far are discarded.
    pub fn to_bytes(&self, reader: ReaderSource) -> (r: Result<Vec<u8>, StreamConverterError>)
        ensures
            r is Err <==> reader_fails(reader.reads@),
            r matches Ok(v) ==> v@ == read_bytes(reader.reads@.take(stop_index(reader.reads@))),
            r matches Err(e) ==> ({
                let k = stop_index(reader.reads@);
                &&& 0 <= k < reader.reads@.len()
                &&& reader.reads@[k] matches ReadPull::IoFailure(m) && e
                    matches StreamConverterError::IoError(em) && em@ == m@
            }),
    {
        let mut result: Vec<u8> = Vec::new();
        let n = reader.reads.len();
        let mut i: usize = 0;
        while i < n
            invariant
                i <= n,
                n == reader.reads@.len(),
                forall|j: int| 0 <= j < i ==> !ends_read(reader.reads@[j]),
                result@ == read_bytes(reader.reads@.take(i as int)),
            decreases n - i,
        {
            match &reader.reads[i] {
                ReadPull::Data(fill) => {
                    if fill.len() == 0 {
                        proof {
                            lemma_stop_index_at(reader.reads@, i as int);
                        }
                        return Ok(result);
                    }
                    append_bytes(&mut result, fill.as_slice());
                    proof {
                        lemma_read_bytes_take(reader.reads@, i as int);
                    }
                },
                ReadPull::IoFailure(message) => {
                    proof {
                        lemma_stop_index_at(reader.reads@, i as int);
                    }
                    return Err(StreamConverterError::IoError(message.clone()));
                },
            }
            i += 1;
        }
        proof {
            lemma_stop_index_all(reader.reads@);
            assert(reader.reads@.take(n as int) =~= reader.reads@);
        }
        Ok(result)
    }

    /// Drains recorded reads into a string.
    ///
    /// UTF-8 validation happens per read, not on the whole buffer — the
    /// asymmetry against the chunked-body path: a multi-byte code point
    /// split across two reads fails with an `EncodingError` even though the
    /// overall byte stream is valid. An empty fill means end of source; at
    /// the first I/O failure or invalid read the drain aborts and the text
    /// accumulated so far is discarded.
    pub fn to_string(&self, reader: ReaderSource) -> (r: Result<String, StreamConverterError>)
        ensures
            r is Ok <==> !text_reader_fails(reader.reads@),
            r matches Ok(s) ==> s@ == read_text(
                reader.reads@.take(text_stop_index(reader.reads@)),
            ),
            r matches Err(e) ==> ({
                let k = text_stop_index(reader.reads@);
                &&& 0 <= k < reader.reads@.len()
                &&& (reader.reads@[k] matches ReadPull::IoFailure(m) ==> e
                    matches StreamConverterError::IoError(em) && em@ == m@)
                &&& (reader.reads@[k] is Data ==> e is EncodingError)
            }),
    {
        let mut result = String::new();
        let n = reader.reads.len();
        let mut i: usize = 0;
        while i < n
            invariant
                i <= n,
                n == reader.reads@.len(),
                forall|j: int| 0 <= j < i ==> !ends_text_read(reader.reads@[j]),
                result@ == read_text(reader.reads@.take(i as int)),
            decreases n - i,
        {
            match &reader.reads[i] {
                ReadPull::Data(fill) => {
                    if fill.len() == 0 {
                        proof {
                            lemma_text_stop_index_at(reader.reads@, i as int);
                        }
                        return Ok(result);
                    }
                    match decode_utf8(fill.as_slice()) {
                        Ok(text) => {
                            result.append(text.as_str());
                            proof {
                                lemma_read_text_take(reader.reads@, i as int);
                            }
                        },
                        Err(message) => {
                            proof {
                                lemma_text_stop_index_at(reader.reads@, i as int);
                            }
                            return Err(StreamConverterError::EncodingError(message));
                        },
                    }
                },
                ReadPull::IoFailure(message) => {
                    proof {
                        lemma_text_stop_index_at(reader.reads@, i as int);
                    }
                    return Err(StreamConverterError::IoError(message.clone()));
                },
            }
            i += 1;
        }
        proof {
            lemma_text_stop_index_all(reader.reads@);
            assert(reader.reads@.take(n as int) =~= reader.reads@);
        }
        Ok(result)
    }
}

impl Default for StreamConverter {
    /// The same converter `new` builds: buffer size 8192.
    fn default() -> (r: Self)
        ensures
            r.buffer_size_view() == 8192,
    {
        Self::new()
    }
}

} // verus!
