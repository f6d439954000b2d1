//! The download engine: header validation and the chunk-copy loop,
//! verified over plain values. The transport hands in the response
//! status, the declared-length header and the byte chunks; a sink takes
//! the bytes.

use vstd::prelude::*;

use crate::errors::Error;
use crate::text::{parse_uint, uint_ok, uint_val};
use crate::video_info::Format;

verus! {

/// A destination that records every write: the bytes in arrival order
/// and how many write calls occurred.
pub struct ByteSink {
    /// Every byte written, in order.
    pub data: Vec<u8>,
    /// How many write calls occurred.
    pub writes: usize,
}

impl ByteSink {
    /// An empty sink.
    pub fn new() -> (r: ByteSink)
        ensures
            r.data@ == Seq::<u8>::empty(),
            r.writes == 0,
    {
        ByteSink { data: Vec::new(), writes: 0 }
    }

    /// Writes one chunk in full, appending its bytes in order; one call
    /// is one write.
    pub fn write_all(&mut self, chunk: &Vec<u8>)
        requires
            old(self).writes < usize::MAX,
        ensures
            final(self).data@ == old(self).data@ + chunk@,
            final(self).writes == old(self).writes + 1,
    {
        let n = chunk.len();
        let mut k: usize = 0;
        while k < n
            invariant
                k <= n,
                n == chunk@.len(),
                self.data@ == old(self).data@ + chunk@.take(k as int),
                self.writes == old(self).writes,
            decreases n - k,
        {
            self.data.push(chunk[k]);
            proof {
                assert(old(self).data@ + chunk@.take(k as int) + seq![chunk@[k as int]]
                    =~= old(self).data@ + chunk@.take(k + 1));
            }
            k += 1;
        }
        proof {
            assert(chunk@.take(n as int) =~= chunk@);
        }
        self.writes += 1;
    }
}

/// The bytes of a chunk sequence, in arrival order.
pub open spec fn chunk_bytes(chunks: Seq<Seq<u8>>) -> Seq<u8>
    decreases chunks.len(),
{
    if chunks.len() == 0 {
        Seq::empty()
    } else {
        chunk_bytes(chunks.drop_last()) + chunks.last()
    }
}

proof fn lemma_chunk_bytes_take_step(cs: Seq<Seq<u8>>, i: int)
    requires
        0 <= i < cs.len(),
    ensures
        chunk_bytes(cs.take(i + 1)) == chunk_bytes(cs.take(i)) + cs[i],
{
    assert(cs.take(i + 1).drop_last() =~= cs.take(i));
    assert(cs.take(i + 1).last() == cs[i]);
}

proof fn lemma_chunk_bytes_take_len(cs: Seq<Seq<u8>>, i: int)
    requires
        0 <= i <= cs.len(),
    ensures
        chunk_bytes(cs.take(i)).len() <= chunk_bytes(cs).len(),
    decreases cs.len() - i,
{
    if i == cs.len() {
        assert(cs.take(i) =~= cs);
    } else {
        lemma_chunk_bytes_take_step(cs, i);
        lemma_chunk_bytes_take_len(cs, i + 1);
    }
}

/// The outcome of validating a media response head: the declared length
/// exactly when the status is 200 and the header is present, numeric
/// and in range; a non-200 status is a connection failure carrying it;
/// a missing or non-numeric header is a protocol failure.
pub open spec fn head_result(status: u16, content_length: Option<Seq<char>>) -> Result<
    u64,
    Error,
> {
    if status != 200 {
        Err(Error::ConnectionError(status))
    } else {
        match content_length {
            None => Err(Error::ProtocolError),
            Some(s) => if uint_ok(s, u64::MAX as nat) {
                Ok(uint_val(s) as u64)
            } else {
                Err(Error::ProtocolError)
            },
        }
    }
}

/// Validates a media response head and parses the declared length.
pub fn check_stream_head(status: u16, content_length: Option<&str>) -> (r: Result<u64, Error>)
    ensures
        r == head_result(status, content_length.deep_view()),
{
    if status != 200 {
        return Err(Error::ConnectionError(status));
    }
    match content_length {
        None => Err(Error::ProtocolError),
        Some(s) => match parse_uint(s, 18446744073709551615) {
            Some(n) => Ok(n),
            None => Err(Error::ProtocolError),
        },
    }
}

/// Copies one media response to a sink under the engine's rules: the
/// head is validated first, and a failed head writes nothing; then each
/// chunk is written in full, in arrival order, one write per chunk,
/// before the next is taken. The total written is returned; it is not
/// compared against the declared length.
pub fn run_download(
    status: u16,
    content_length: Option<&str>,
    chunks: &Vec<Vec<u8>>,
    sink: &mut ByteSink,
) -> (r: Result<u64, Error>)
    requires
        old(sink).writes + chunks@.len() <= usize::MAX,
        chunk_bytes(chunks.deep_view()).len() <= u64::MAX,
    ensures
        match head_result(status, content_length.deep_view()) {
            Err(e) => r == Err::<u64, Error>(e) && *final(sink) == *old(sink),
            Ok(_) => {
                &&& r matches Ok(total) && total == chunk_bytes(chunks.deep_view()).len()
                &&& final(sink).data@ == old(sink).data@ + chunk_bytes(chunks.deep_view())
                &&& final(sink).writes == old(sink).writes + chunks@.len()
            },
        },
{
    match check_stream_head(status, content_length) {
        Ok(_) => {},
        Err(e) => {
            return Err(e);
        },
    }
    let ghost cs = chunks.deep_view();
    let n = chunks.len();
    let mut total: u64 = 0;
    let mut i: usize = 0;
    proof {
        assert(cs.take(0) =~= Seq::<Seq<u8>>::empty());
    }
    while i < n
        invariant
            i <= n,
            n == chunks@.len(),
            cs == chunks.deep_view(),
            cs.len() == n,
            old(sink).writes + n <= usize::MAX,
            chunk_bytes(cs).len() <= u64::MAX,
            sink.writes == old(sink).writes + i,
            sink.data@ == old(sink).data@ + chunk_bytes(cs.take(i as int)),
            total == chunk_bytes(cs.take(i as int)).len(),
        decreases n - i,
    {
        proof {
            assert(cs[i as int] == chunks@[i as int]@);
            lemma_chunk_bytes_take_step(cs, i as int);
            lemma_chunk_bytes_take_len(cs, i + 1);
        }
        sink.write_all(&chunks[i]);
        total = total + chunks[i].len() as u64;
        proof {
            assert(old(sink).data@ + chunk_bytes(cs.take(i as int)) + cs[i as int]
                =~= old(sink).data@ + chunk_bytes(cs.take(i + 1)));
        }
        i += 1;
    }
    proof {
        assert(cs.take(n as int) =~= cs);
    }
    Ok(total)
}

/// Downloading interface for one chosen `Format`: what the transport
/// loop reads of it, verified over plain values.
pub struct DownloadFormat<'f> {
    /// The chosen format.
    pub format: &'f Format,
}

impl<'a> DownloadFormat<'a> {
    /// The download link of the chosen format, verbatim; it is never
    /// altered or re-encoded.
    pub fn url(&self) -> (r: &String)
        ensures
            r@ == self.format.url@,
    {
        &self.format.url
    }
}

} // verus!
