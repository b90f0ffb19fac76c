use vstd::prelude::*;

verus! {

/// Whether handing a frame to the encoder produced a packet for the stream.
#[derive(Debug, Clone, Copy, PartialEq, Eq, Structural)]
pub enum MediaWriteResult {
    PacketWritten,
    NoPacketWritten,
}

} // verus!
