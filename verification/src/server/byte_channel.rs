//! Reading from a channel of byte chunks as from a stream of bytes.

use vstd::prelude::*;

verus! {

/// What to do with what came from the channel.
#[derive(Debug, Clone, PartialEq, Eq)]
pub enum ChunkStep {
    /// Take the next chunk: an empty one is not the end.
    Again,
    /// These bytes are next.
    Bytes(Vec<u8>),
    /// There are no more.
    End,
    /// The channel is broken.
    BrokenPipe,
}

/// Decides on what came from the channel: a chunk, nothing more, or an error.
pub fn next_chunk(received: Result<Option<Vec<u8>>, ()>) -> (r: ChunkStep)
    ensures
        r == match received {
            Ok(Some(data)) => if data@.len() == 0 {
                ChunkStep::Again
            } else {
                ChunkStep::Bytes(data)
            },
            Ok(None) => ChunkStep::End,
            Err(_) => ChunkStep::BrokenPipe,
        },
{
    match received {
        Ok(Some(data)) => if data.len() == 0 {
            ChunkStep::Again
        } else {
            ChunkStep::Bytes(data)
        },
        Ok(None) => ChunkStep::End,
        Err(_) => ChunkStep::BrokenPipe,
    }
}

} // verus!
