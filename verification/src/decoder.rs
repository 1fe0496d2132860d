//! The threaded decoder's main-thread side: the worker owns the arithmetic
//! coder and the command machine, the main thread owns the ring buffer and
//! the checksum. Raw compressed bytes go to the worker through a
//! demultiplexer and uniquely-owned buffers come back; this module holds the
//! decisions the main thread takes at that boundary - the checksum over the
//! consumed stream, the outstanding-buffer accounting, the wait-for-input
//! rule, and the buffer recycling policy.
use vstd::prelude::*;

use crate::crc32::crc32c_init;
use crate::crc32::crc32c_update;
use crate::crc32::spec_crc32c_update;
use crate::codec::spec_pack_last_8;

verus! {

/// The incremental CRC32C digest over the compressed bytes handed to the
/// worker.
#[derive(Clone, Copy, Debug)]
pub struct SubDigest(u32);

impl SubDigest {
    /// The running chained checksum state.
    pub closed spec fn state32(&self) -> u32 {
        self.0
    }

    /// Fold more stream bytes into the digest.
    pub fn write(&mut self, data: &[u8])
        ensures
            final(self).state32() == spec_crc32c_update(old(self).state32(), data@),
    {
        self.0 = crc32c_update(self.0, data)
    }

    /// The digest so far, widened to the hasher convention.
    pub fn finish(&self) -> (r: u64)
        ensures
            r == self.state32() as u64,
            r <= 0xffffffff,
    {
        self.0 as u64
    }
}

/// A fresh digest at the start of the chain.
pub fn default_crc() -> (r: SubDigest)
    ensures
        r.state32() == 0,
{
    SubDigest(crc32c_init())
}

impl Default for SubDigest {
    fn default() -> (ret: Self)
        ensures
            ret.state32() == 0,
    {
        default_crc()
    }
}

/// What to do with a buffer the worker hands back: slide it in for an empty
/// demultiplexer slot, swap it in after copying the unread tail when it is
/// roomy enough to be worth it, or free it.
#[derive(Clone, Copy, Debug, PartialEq, Eq, Structural)]
pub enum RecycleAction {
    ReplaceEmpty,
    SwapAndCopy,
    Free,
}

/// The recycling policy for a returned buffer, judged against the
/// demultiplexer's current unread slice: an empty slot always takes the
/// buffer; otherwise the buffer must hold at least twice the unread bytes to
/// displace them. This bounds peak buffer count without thrashing.
pub fn buffer_recycle_decision(unread_len: usize, returned_len: usize) -> (r: RecycleAction)
    requires
        unread_len <= usize::MAX / 2,
    ensures
        unread_len == 0 ==> r == RecycleAction::ReplaceEmpty,
        unread_len > 0 && unread_len * 2 <= returned_len ==> r == RecycleAction::SwapAndCopy,
        unread_len > 0 && unread_len * 2 > returned_len ==> r == RecycleAction::Free,
{
    if unread_len == 0 {
        RecycleAction::ReplaceEmpty
    } else if unread_len * 2 <= returned_len {
        RecycleAction::SwapAndCopy
    } else {
        RecycleAction::Free
    }
}

/// The main-thread state of the threaded decoder: the checksum chain over
/// the consumed compressed stream, the count of buffers held by the worker,
/// and the literal window the recoder last reported.
pub struct DivansDecoderCodec {
    pub crc: SubDigest,
    pub frozen_checksum: Option<u64>,
    pub skip_checksum: bool,
    pub outstanding_buffer_count: usize,
    pub last_8_literals: u64,
}

impl DivansDecoderCodec {
    /// Adopt a (possibly pre-fed) checksum chain and start with no buffers
    /// outstanding.
    pub fn new(crc: SubDigest, skip_checksum: bool) -> (ret: Self)
        ensures
            ret.crc == crc,
            ret.frozen_checksum is None,
            ret.skip_checksum == skip_checksum,
            ret.outstanding_buffer_count == 0,
            ret.last_8_literals == 0,
    {
        DivansDecoderCodec {
            crc,
            frozen_checksum: None,
            skip_checksum,
            outstanding_buffer_count: 0,
            last_8_literals: 0,
        }
    }

    /// Compressed bytes accepted by the demultiplexer fold into the checksum
    /// unless checking is skipped.
    pub fn note_input_consumed(&mut self, consumed: &[u8])
        ensures
            final(self).crc.state32() == (if old(self).skip_checksum {
                old(self).crc.state32()
            } else {
                spec_crc32c_update(old(self).crc.state32(), consumed@)
            }),
            final(self).frozen_checksum == old(self).frozen_checksum,
            final(self).skip_checksum == old(self).skip_checksum,
            final(self).outstanding_buffer_count == old(self).outstanding_buffer_count,
            final(self).last_8_literals == old(self).last_8_literals,
    {
        if !self.skip_checksum {
            self.crc.write(consumed);
        }
    }

    /// One more buffer is in the worker's hands.
    pub fn note_buffer_pushed(&mut self)
        requires
            old(self).outstanding_buffer_count < usize::MAX,
        ensures
            final(self).outstanding_buffer_count == old(self).outstanding_buffer_count + 1,
            final(self).crc == old(self).crc,
            final(self).frozen_checksum == old(self).frozen_checksum,
            final(self).skip_checksum == old(self).skip_checksum,
            final(self).last_8_literals == old(self).last_8_literals,
    {
        self.outstanding_buffer_count += 1;
    }

    /// The worker handed one buffer back.
    pub fn note_buffer_returned(&mut self)
        requires
            old(self).outstanding_buffer_count >= 1,
        ensures
            final(self).outstanding_buffer_count == old(self).outstanding_buffer_count - 1,
            final(self).crc == old(self).crc,
            final(self).frozen_checksum == old(self).frozen_checksum,
            final(self).skip_checksum == old(self).skip_checksum,
            final(self).last_8_literals == old(self).last_8_literals,
    {
        self.outstanding_buffer_count -= 1;
    }

    /// The main thread may block waiting for input only when the worker
    /// holds nothing and the stream has not ended: anything else could still
    /// produce progress.
    pub fn needs_more_input(&self, encountered_eof: bool) -> (r: bool)
        ensures
            r == (self.outstanding_buffer_count == 0 && !encountered_eof),
    {
        self.outstanding_buffer_count == 0 && !encountered_eof
    }

    /// After the recoder materializes a command, record its last eight
    /// literals as the packed context window.
    pub fn note_command_recoded(&mut self, last_8: [u8; 8])
        ensures
            final(self).last_8_literals == spec_pack_last_8(last_8),
            final(self).crc == old(self).crc,
            final(self).frozen_checksum == old(self).frozen_checksum,
            final(self).skip_checksum == old(self).skip_checksum,
            final(self).outstanding_buffer_count == old(self).outstanding_buffer_count,
    {
        self.last_8_literals = (last_8[0] as u64) + (last_8[1] as u64) * 0x100 + (last_8[2] as u64)
            * 0x10000 + (last_8[3] as u64) * 0x1000000 + (last_8[4] as u64) * 0x100000000 + (
        last_8[5] as u64) * 0x10000000000 + (last_8[6] as u64) * 0x1000000000000 + (
        last_8[7] as u64) * 0x100000000000000;
    }
}

} // verus!
