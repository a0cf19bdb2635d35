//! Models of the two byte sources a drain consumes.
//!
//! A live body or reader is an I/O object; what the drain logic actually
//! consumes is the finite record of its pulls. `ChunkStream` is that record
//! for a chunked body: each pull yielded a chunk or a transport failure.
//! `ReaderSource` is the record for a buffered reader: each read filled some
//! prefix of the working buffer (an empty fill means end of source) or failed.

use crate::util::{bytes_data, utf8_decode};
use bytes::Bytes;
use vstd::prelude::*;

verus! {

/// One pull from a chunked body: the next chunk, or a transport failure
/// carrying its diagnostic message.
pub enum ChunkPull {
    Chunk(Bytes),
    TransportFailure(String),
}

/// The pulls a chunked body handed out, in delivery order. The source is
/// exhausted after the last entry.
pub struct ChunkStream {
    pub pulls: Vec<ChunkPull>,
}

/// The bytes a single pull contributes: a chunk's contents, nothing for a
/// failure.
pub open spec fn pull_data(p: ChunkPull) -> Seq<u8> {
    match p {
        ChunkPull::Chunk(b) => bytes_data(b),
        ChunkPull::TransportFailure(_) => Seq::empty(),
    }
}

/// Every pull yielded a chunk; the source finished without failing.
pub open spec fn all_chunks(pulls: Seq<ChunkPull>) -> bool {
    forall|i: int| 0 <= i < pulls.len() ==> pulls[i] is Chunk
}

/// The chunk bytes of a pull sequence, concatenated in delivery order.
pub open spec fn pulled_bytes(pulls: Seq<ChunkPull>) -> Seq<u8>
    decreases pulls.len(),
{
    if pulls.len() == 0 {
        Seq::empty()
    } else {
        pulled_bytes(pulls.drop_last()) + pull_data(pulls.last())
    }
}

/// The position of the first transport failure, or the length when every
/// pull is a chunk.
pub open spec fn first_failure(pulls: Seq<ChunkPull>) -> int
    decreases pulls.len(),
{
    if pulls.len() == 0 {
        0
    } else if !(pulls[0] is Chunk) {
        0
    } else {
        1 + first_failure(pulls.drop_first())
    }
}

pub(crate) proof fn lemma_pulled_bytes_take(pulls: Seq<ChunkPull>, i: int)
    requires
        0 <= i < pulls.len(),
    ensures
        pulled_bytes(pulls.take(i + 1)) == pulled_bytes(pulls.take(i)) + pull_data(pulls[i]),
{
    assert(pulls.take(i + 1).drop_last() =~= pulls.take(i));
    assert(pulls.take(i + 1).last() == pulls[i]);
}

pub(crate) proof fn lemma_first_failure_at(pulls: Seq<ChunkPull>, i: int)
    requires
        0 <= i < pulls.len(),
        !(pulls[i] is Chunk),
        forall|j: int| 0 <= j < i ==> pulls[j] is Chunk,
    ensures
        first_failure(pulls) == i,
    decreases i,
{
    if i > 0 {
        let rest = pulls.drop_first();
        assert(pulls[0] is Chunk);
        assert(!(rest[i - 1] is Chunk));
        assert forall|j: int| 0 <= j < i - 1 implies rest[j] is Chunk by {
            assert(pulls[j + 1] is Chunk);
        }
        lemma_first_failure_at(rest, i - 1);
    }
}

/// One read from a buffered reader: the bytes that filled the working
/// buffer's prefix (empty means end of source), or an I/O failure carrying
/// its diagnostic message.
pub enum ReadPull {
    Data(Vec<u8>),
    IoFailure(String),
}

/// The reads a buffered reader returned, in order. A drain stops at the
/// first empty read or failure; later entries are never consumed.
pub struct ReaderSource {
    pub reads: Vec<ReadPull>,
}

/// The bytes a single read contributes: its fill, nothing for a failure.
pub open spec fn read_data(p: ReadPull) -> Seq<u8> {
    match p {
        ReadPull::Data(b) => b@,
        ReadPull::IoFailure(_) => Seq::empty(),
    }
}

/// A read that ends a byte drain: an empty fill or an I/O failure.
pub open spec fn ends_read(p: ReadPull) -> bool {
    match p {
        ReadPull::Data(b) => b@.len() == 0,
        ReadPull::IoFailure(_) => true,
    }
}

/// The position of the first read that ends a byte drain, or the length when
/// none does.
pub open spec fn stop_index(reads: Seq<ReadPull>) -> int
    decreases reads.len(),
{
    if reads.len() == 0 {
        0
    } else if ends_read(reads[0]) {
        0
    } else {
        1 + stop_index(reads.drop_first())
    }
}

/// A byte drain of these reads ends on an I/O failure rather than on end of
/// source.
pub open spec fn reader_fails(reads: Seq<ReadPull>) -> bool {
    stop_index(reads) < reads.len() && reads[stop_index(reads)] is IoFailure
}

/// The filled bytes of a read sequence, concatenated in read order.
pub open spec fn read_bytes(reads: Seq<ReadPull>) -> Seq<u8>
    decreases reads.len(),
{
    if reads.len() == 0 {
        Seq::empty()
    } else {
        read_bytes(reads.drop_last()) + read_data(reads.last())
    }
}

pub(crate) proof fn lemma_read_bytes_take(reads: Seq<ReadPull>, i: int)
    requires
        0 <= i < reads.len(),
    ensures
        read_bytes(reads.take(i + 1)) == read_bytes(reads.take(i)) + read_data(reads[i]),
{
    assert(reads.take(i + 1).drop_last() =~= reads.take(i));
    assert(reads.take(i + 1).last() == reads[i]);
}

pub(crate) proof fn lemma_stop_index_at(reads: Seq<ReadPull>, i: int)
    requires
        0 <= i < reads.len(),
        ends_read(reads[i]),
        forall|j: int| 0 <= j < i ==> !ends_read(reads[j]),
    ensures
        stop_index(reads) == i,
    decreases i,
{
    if i > 0 {
        let rest = reads.drop_first();
        assert(!ends_read(reads[0]));
        assert(ends_read(rest[i - 1]));
        assert forall|j: int| 0 <= j < i - 1 implies !ends_read(rest[j]) by {
            assert(!ends_read(reads[j + 1]));
        }
        lemma_stop_index_at(rest, i - 1);
    }
}

pub(crate) proof fn lemma_stop_index_all(reads: Seq<ReadPull>)
    requires
        forall|j: int| 0 <= j < reads.len() ==> !ends_read(reads[j]),
    ensures
        stop_index(reads) == reads.len(),
    decreases reads.len(),
{
    if reads.len() > 0 {
        let rest = reads.drop_first();
        assert(!ends_read(reads[0]));
        assert forall|j: int| 0 <= j < rest.len() implies !ends_read(rest[j]) by {
            assert(!ends_read(reads[j + 1]));
        }
        lemma_stop_index_all(rest);
    }
}

/// A read that ends a text drain: an empty fill, an I/O failure, or a fill
/// that is not valid UTF-8 on its own. Text draining validates each read by
/// itself, so a multi-byte code point split across two reads ends the drain
/// even when the overall byte stream is valid.
pub open spec fn ends_text_read(p: ReadPull) -> bool {
    match p {
        ReadPull::Data(b) => b@.len() == 0 || utf8_decode(b@) is None,
        ReadPull::IoFailure(_) => true,
    }
}

/// The position of the first read that ends a text drain, or the length when
/// none does.
pub open spec fn text_stop_index(reads: Seq<ReadPull>) -> int
    decreases reads.len(),
{
    if reads.len() == 0 {
        0
    } else if ends_text_read(reads[0]) {
        0
    } else {
        1 + text_stop_index(reads.drop_first())
    }
}

/// A text drain of these reads ends on an I/O failure or an invalid read
/// rather than on end of source.
pub open spec fn text_reader_fails(reads: Seq<ReadPull>) -> bool {
    let k = text_stop_index(reads);
    k < reads.len() && !(reads[k] matches ReadPull::Data(b) && b@.len() == 0)
}

/// The text a single read contributes: its fill decoded, when it decodes.
pub open spec fn decoded_data(p: ReadPull) -> Seq<char> {
    match p {
        ReadPull::Data(b) => match utf8_decode(b@) {
            Some(t) => t,
            None => Seq::empty(),
        },
        ReadPull::IoFailure(_) => Seq::empty(),
    }
}

/// The decoded text of a read sequence, concatenated in read order.
pub open spec fn read_text(reads: Seq<ReadPull>) -> Seq<char>
    decreases reads.len(),
{
    if reads.len() == 0 {
        Seq::empty()
    } else {
        read_text(reads.drop_last()) + decoded_data(reads.last())
    }
}

pub(crate) proof fn lemma_read_text_take(reads: Seq<ReadPull>, i: int)
    requires
        0 <= i < reads.len(),
    ensures
        read_text(reads.take(i + 1)) == read_text(reads.take(i)) + decoded_data(reads[i]),
{
    assert(reads.take(i + 1).drop_last() =~= reads.take(i));
    assert(reads.take(i + 1).last() == reads[i]);
}

pub(crate) proof fn lemma_text_stop_index_at(reads: Seq<ReadPull>, i: int)
    requires
        0 <= i < reads.len(),
        ends_text_read(reads[i]),
        forall|j: int| 0 <= j < i ==> !ends_text_read(reads[j]),
    ensures
        text_stop_index(reads) == i,
    decreases i,
{
    if i > 0 {
        let rest = reads.drop_first();
        assert(!ends_text_read(reads[0]));
        assert(ends_text_read(rest[i - 1]));
        assert forall|j: int| 0 <= j < i - 1 implies !ends_text_read(rest[j]) by {
            assert(!ends_text_read(reads[j + 1]));
        }
        lemma_text_stop_index_at(rest, i - 1);
    }
}

pub(crate) proof fn lemma_text_stop_index_all(reads: Seq<ReadPull>)
    requires
        forall|j: int| 0 <= j < reads.len() ==> !ends_text_read(reads[j]),
    ensures
        text_stop_index(reads) == reads.len(),
    decreases reads.len(),
{
    if reads.len() > 0 {
        let rest = reads.drop_first();
        assert(!ends_text_read(reads[0]));
        assert forall|j: int| 0 <= j < rest.len() implies !ends_text_read(rest[j]) by {
            assert(!ends_text_read(reads[j + 1]));
        }
        lemma_text_stop_index_all(rest);
    }
}

} // verus!
