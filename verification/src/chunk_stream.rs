//! The stream of chunks that a parse reads.

use bytes::Bytes;
use futures::channel::mpsc::UnboundedReceiver;
use vstd::prelude::*;

use crate::outside::pending;

verus! {

/// The chunks that were fed to a parser, as a parse reads them: in the order in
/// which they were fed, and nothing after the last one.
pub struct ChunkStream {
    /// The receiver that the chunks come from.
    pub rx: UnboundedReceiver<Bytes>,
}

impl View for ChunkStream {
    type V = Seq<Seq<u8>>;

    /// The chunks that the stream still yields.
    open spec fn view(&self) -> Seq<Seq<u8>> {
        pending(self.rx)
    }
}

impl ChunkStream {
    /// What the stream yields for a chunk that it received: the chunk, never an
    /// error.
    pub fn item(chunk: Bytes) -> (item: Result<Bytes, std::io::Error>)
        ensures
            item == Ok::<Bytes, std::io::Error>(chunk),
    {
        Ok(chunk)
    }
}

/// A stream yields all that its receiver hands out, and nothing else.
pub proof fn law_stream_yields_what_is_pending(stream: ChunkStream)
    ensures
        stream@ == pending(stream.rx),
{
}

} // verus!
