//! The command-level state machine shared by the encoder and the decoder: it
//! selects a command kind through one nibble of the arithmetic coder, hands
//! the payload to the matching per-command machine, routes finished commands
//! to the ring buffer, and terminates the stream with an eight-byte checksum
//! trailer.
//!
//! The arithmetic coder, the per-command machines and the ring-buffer recoder
//! are outside collaborators reached only through their suspension protocol;
//! this module holds every decision the machine takes between those calls,
//! with the buffer bookkeeping and checksum logic in full.
use vstd::prelude::*;

use crate::crc32::crc32c_init;
use crate::crc32::crc32c_update;
use crate::crc32::spec_crc32c_update;
use crate::probability::FrequentistCDF16;
use crate::probability::Speed;
use crate::probability::freq_blended;
use crate::probability::freq_speed_increment;

verus! {

/// Every operation reports success, a buffer suspension, or the single fatal
/// terminal.
#[derive(Clone, Copy, Debug, PartialEq, Eq, Structural)]
pub enum DivansResult {
    Success,
    NeedsMoreInput,
    NeedsMoreOutput,
    Failure,
}

/// The states of the top-level machine. The three shutdown states belong to
/// the encoder's flush path; `WriteChecksum` carries how many trailer bytes
/// are already handled.
#[derive(Clone, Copy, Debug, PartialEq, Eq, Structural)]
pub enum EncodeOrDecodeState {
    Begin,
    Literal,
    Dict,
    Copy,
    BlockSwitchLiteral,
    BlockSwitchCommand,
    BlockSwitchDistance,
    PredictionMode,
    PopulateRingBuffer,
    DivansSuccess,
    EncodedShutdownNode,
    ShutdownCoder,
    CoderBufferDrain,
    WriteChecksum(u8),
}

impl Default for EncodeOrDecodeState {
    fn default() -> (ret: Self)
        ensures
            ret == EncodeOrDecodeState::Begin,
    {
        EncodeOrDecodeState::Begin
    }
}

/// What one command-coding step tells the caller: move to the next command,
/// or hand back a suspension or terminal result.
pub enum OneCommandReturn {
    Advance,
    BufferExhausted(DivansResult),
}

/// A back-reference into the decoded history.
#[derive(Clone, Copy, Debug)]
pub struct CopyCommand {
    pub distance: u32,
    pub num_bytes: u32,
}

/// A reference into the shared dictionary.
#[derive(Clone, Copy, Debug)]
pub struct DictCommand {
    pub word_size: u8,
    pub transform: u8,
    pub final_size: u8,
    pub word_id: u32,
}

/// Raw bytes to pass through.
#[derive(Clone, Debug)]
pub struct LiteralCommand {
    pub data: Vec<u8>,
    pub high_entropy: bool,
}

/// A rotation of the command or distance block model.
#[derive(Clone, Copy, Debug)]
pub struct BlockSwitch {
    pub block_type: u8,
}

/// A rotation of the literal block model, carrying the new stride.
#[derive(Clone, Copy, Debug)]
pub struct LiteralBlockSwitch {
    pub block_type: u8,
    pub stride: u8,
}

/// A declaration of the literal context transform and its context maps.
#[derive(Clone, Debug)]
pub struct PredictionModeContextMap {
    pub literal_context_map: Vec<u8>,
    pub predmode_speed_and_distance_context_map: Vec<u8>,
}

/// The tagged union of the seven command kinds the stream can carry.
#[derive(Clone, Debug)]
pub enum Command {
    Copy(CopyCommand),
    Dict(DictCommand),
    Literal(LiteralCommand),
    BlockSwitchLiteral(LiteralBlockSwitch),
    BlockSwitchCommand(BlockSwitch),
    BlockSwitchDistance(BlockSwitch),
    PredictionMode(PredictionModeContextMap),
}

/// The wire tag of each command kind. Tags 0 and 8 through 14 are reserved;
/// 15 terminates the stream.
pub open spec fn spec_command_nibble(cmd: Command) -> u8 {
    match cmd {
        Command::Copy(_) => 0x1,
        Command::Dict(_) => 0x2,
        Command::Literal(_) => 0x3,
        Command::BlockSwitchLiteral(_) => 0x4,
        Command::BlockSwitchCommand(_) => 0x5,
        Command::BlockSwitchDistance(_) => 0x6,
        Command::PredictionMode(_) => 0x7,
    }
}

/// The nibble the encoder feeds to the arithmetic coder for a command, or the
/// end-of-stream tag once the input is exhausted.
pub fn command_type_to_nibble(cmd: &Command, is_end: bool) -> (r: u8)
    ensures
        is_end ==> r == 0xf,
        !is_end ==> r == spec_command_nibble(*cmd),
{
    if is_end {
        return 0xf;
    }
    match *cmd {
        Command::Copy(_) => 0x1,
        Command::Dict(_) => 0x2,
        Command::Literal(_) => 0x3,
        Command::BlockSwitchLiteral(_) => 0x4,
        Command::BlockSwitchCommand(_) => 0x5,
        Command::BlockSwitchDistance(_) => 0x6,
        Command::PredictionMode(_) => 0x7,
    }
}

/// The state that processes each command kind.
pub open spec fn spec_command_state(cmd: Command) -> EncodeOrDecodeState {
    match cmd {
        Command::Copy(_) => EncodeOrDecodeState::Copy,
        Command::Dict(_) => EncodeOrDecodeState::Dict,
        Command::Literal(_) => EncodeOrDecodeState::Literal,
        Command::BlockSwitchLiteral(_) => EncodeOrDecodeState::BlockSwitchLiteral,
        Command::BlockSwitchCommand(_) => EncodeOrDecodeState::BlockSwitchCommand,
        Command::BlockSwitchDistance(_) => EncodeOrDecodeState::BlockSwitchDistance,
        Command::PredictionMode(_) => EncodeOrDecodeState::PredictionMode,
    }
}

/// Where each coded nibble sends the machine, or nothing for the reserved
/// tags. Tag 15 ends the stream on the encoder's flush path and announces the
/// checksum trailer on the decoder's.
pub open spec fn nibble_to_state(code: u8, is_end: bool) -> Option<EncodeOrDecodeState> {
    if code == 0x1 {
        Some(EncodeOrDecodeState::Copy)
    } else if code == 0x2 {
        Some(EncodeOrDecodeState::Dict)
    } else if code == 0x3 {
        Some(EncodeOrDecodeState::Literal)
    } else if code == 0x4 {
        Some(EncodeOrDecodeState::BlockSwitchLiteral)
    } else if code == 0x5 {
        Some(EncodeOrDecodeState::BlockSwitchCommand)
    } else if code == 0x6 {
        Some(EncodeOrDecodeState::BlockSwitchDistance)
    } else if code == 0x7 {
        Some(EncodeOrDecodeState::PredictionMode)
    } else if code == 0xf {
        if is_end {
            Some(EncodeOrDecodeState::DivansSuccess)
        } else {
            Some(EncodeOrDecodeState::WriteChecksum(0))
        }
    } else {
        None
    }
}

/// The nibble the encoder writes for a command is one the decoder maps back
/// to the state that processes exactly that command kind.
pub proof fn lemma_command_nibble_round_trip(cmd: Command)
    ensures
        1 <= spec_command_nibble(cmd) <= 7,
        nibble_to_state(spec_command_nibble(cmd), false) == Some(spec_command_state(cmd)),
{
}

/// The incremental CRC32C digest over the coded stream.
pub struct SubDigest(u32);

impl SubDigest {
    /// The running chained checksum state.
    pub closed spec fn state32(&self) -> u32 {
        self.0
    }

    /// Fold more stream bytes into the digest.
    pub fn write(&mut self, data: &[u8])
        ensures
            final(self).state32() == spec_crc32c_update(old(self).state32(), data@),
    {
        self.0 = crc32c_update(self.0, data)
    }

    /// The digest so far, widened to the hasher convention.
    pub fn finish(&self) -> (r: u64)
        ensures
            r == self.state32() as u64,
            r <= 0xffffffff,
    {
        self.0 as u64
    }
}

/// A fresh digest at the start of the chain.
pub fn default_crc() -> (r: SubDigest)
    ensures
        r.state32() == 0,
{
    SubDigest(crc32c_init())
}

/// Byte `i` of the eight-byte trailer: the checksum little-endian, then the
/// ASCII magic `a n s ~`.
pub open spec fn trailer_byte(crc: u64, i: int) -> u8 {
    if i == 0 {
        (crc % 256) as u8
    } else if i == 1 {
        ((crc / 256) % 256) as u8
    } else if i == 2 {
        ((crc / 65536) % 256) as u8
    } else if i == 3 {
        ((crc / 16777216) % 256) as u8
    } else if i == 4 {
        97
    } else if i == 5 {
        110
    } else if i == 6 {
        115
    } else {
        126
    }
}

/// Materialize the trailer for a frozen checksum.
pub fn trailer_bytes(crc: u64) -> (r: [u8; 8])
    ensures
        forall|i: int| 0 <= i < 8 ==> r[i] == trailer_byte(crc, i),
{
    let r: [u8; 8] = [
        (crc % 256) as u8,
        ((crc / 256) % 256) as u8,
        ((crc / 65536) % 256) as u8,
        ((crc / 16777216) % 256) as u8,
        97,
        110,
        115,
        126,
    ];
    proof {
        assert(r@ =~= seq![
            (crc % 256) as u8,
            ((crc / 256) % 256) as u8,
            ((crc / 65536) % 256) as u8,
            ((crc / 16777216) % 256) as u8,
            97u8,
            110u8,
            115u8,
            126u8,
        ]);
    }
    r
}

/// Whether a stream byte at trailer position `pos` dooms the decode: the
/// magic must always match, the checksum bytes only when checking is not
/// skipped.
pub open spec fn trailer_pos_fatal(crc: u64, byte: u8, pos: int, skip: bool) -> bool {
    byte != trailer_byte(crc, pos) && (pos >= 4 || !skip)
}

/// The trailer the encoder emits for a checksum passes every positional check
/// of a decoder that computed the same checksum, with or without skipping.
pub proof fn lemma_trailer_round_trip(crc: u64, skip: bool)
    ensures
        forall|k: int| 0 <= k < 8 ==> !trailer_pos_fatal(crc, trailer_byte(crc, k), k, skip),
{
}

/// Verifying the trailer in two pieces rejects exactly the streams that
/// verifying it in one piece rejects: suspension does not change the outcome.
pub proof fn lemma_trailer_verify_chunked(crc: u64, bytes: Seq<u8>, skip: bool, j: int)
    requires
        bytes.len() == 8,
        0 <= j <= 8,
    ensures
        (exists|k: int| 0 <= k < 8 && trailer_pos_fatal(crc, bytes[k], k, skip)) <==> ((exists|k: int|
            0 <= k < j && trailer_pos_fatal(crc, bytes[k], k, skip)) || (exists|k: int|
            j <= k < 8 && trailer_pos_fatal(crc, bytes[k], k, skip))),
{
}

} // verus!

verus! {

/// Bookkeeping carried across commands: the last-eight-literals window, the
/// literal stride, the current block types, the distance cache, the running
/// counts, and the command-type prior that the nibble coding adapts.
pub struct CrossCommandBookKeeping {
    pub last_8_literals: u64,
    pub stride: u8,
    pub btype_lit: u8,
    pub btype_cmd: u8,
    pub btype_dist: u8,
    pub last_dist: u32,
    pub command_count: u32,
    pub decode_byte_count: u32,
    pub cmd_prior: FrequentistCDF16,
}

impl CrossCommandBookKeeping {
    pub open spec fn wf(&self) -> bool {
        self.cmd_prior.wf()
    }
}

/// What the outer loop must do next, given the machine's state.
#[derive(Clone, Copy, Debug, PartialEq, Eq, Structural)]
pub enum CodecAction {
    Fatal,
    Finished,
    CoderPump,
    RunSubState,
    EmitRingBuffer,
    VerifyTrailer,
}

/// What the encoder's flush loop must do next.
#[derive(Clone, Copy, Debug, PartialEq, Eq, Structural)]
pub enum FlushAction {
    EncodeEndMarker,
    DrainCoder,
    CloseCoder,
    EmitTrailer,
    Finished,
    Fatal,
}

/// How one finished command leaves the machine: queued for the ring buffer,
/// plainly advanced, or advanced with a codec-trait recomputation owed.
#[derive(Clone, Copy, Debug, PartialEq, Eq, Structural)]
pub enum CommandOutcome {
    Populate,
    Advance,
    UpdateTraitAndAdvance,
}

/// How a ring-buffer emission leaves the machine: retried with fresh output
/// room, yielded to the caller, or advanced to the next command.
#[derive(Clone, Copy, Debug, PartialEq, Eq, Structural)]
pub enum RingBufferOutcome {
    Retry,
    Yield(DivansResult),
    Advance,
}

/// The little-endian packing of the recoder's last-eight-literals window.
pub open spec fn spec_pack_last_8(b: [u8; 8]) -> int {
    b[0] + b[1] * 0x100 + b[2] * 0x10000 + b[3] * 0x1000000 + b[4] * 0x100000000
        + b[5] * 0x10000000000 + b[6] * 0x1000000000000 + b[7] * 0x100000000000000
}

/// The decision core of the command state machine. It owns the top-level
/// state, the checksum chain and the cross-command bookkeeping; the outside
/// collaborators feed it their results through the `on_*` entry points and
/// follow the actions it hands back.
pub struct DivansCodec {
    pub state: EncodeOrDecodeState,
    pub bk: CrossCommandBookKeeping,
    pub state_populate_ring_buffer: Option<Command>,
    pub crc: SubDigest,
    pub frozen_checksum: Option<u64>,
    pub skip_checksum: bool,
    pub is_decoding: bool,
}

impl DivansCodec {
    pub open spec fn wf(&self) -> bool {
        self.bk.wf()
    }

    /// A fresh machine: at `Begin`, with an empty checksum chain, no frozen
    /// checksum, the seed command prior, and unit stride.
    pub fn new(is_decoding: bool, skip_checksum: bool) -> (ret: Self)
        ensures
            ret.wf(),
            ret.state == EncodeOrDecodeState::Begin,
            ret.crc.state32() == 0,
            ret.frozen_checksum is None,
            ret.skip_checksum == skip_checksum,
            ret.is_decoding == is_decoding,
            ret.state_populate_ring_buffer is None,
            ret.bk.last_8_literals == 0,
            ret.bk.stride == 1,
            ret.bk.btype_lit == 0,
            ret.bk.btype_cmd == 0,
            ret.bk.btype_dist == 0,
            ret.bk.last_dist == 1,
            ret.bk.command_count == 0,
            ret.bk.decode_byte_count == 0,
            forall|i: int| 0 <= i < 16 ==> ret.bk.cmd_prior.cdf[i] == 4 * (i + 1),
    {
        DivansCodec {
            state: EncodeOrDecodeState::Begin,
            bk: CrossCommandBookKeeping {
                last_8_literals: 0,
                stride: 1,
                btype_lit: 0,
                btype_cmd: 0,
                btype_dist: 0,
                last_dist: 1,
                command_count: 0,
                decode_byte_count: 0,
                cmd_prior: FrequentistCDF16::default(),
            },
            state_populate_ring_buffer: None,
            crc: default_crc(),
            frozen_checksum: None,
            skip_checksum,
            is_decoding,
        }
    }

    /// Route one coded nibble: the seven command tags open their command
    /// state, the end tag finishes the encoder or announces the decoder's
    /// trailer, and every reserved tag is fatal and leaves the machine
    /// untouched.
    pub fn update_command_state_from_nibble(&mut self, command_type_code: u8, is_end: bool) -> (r:
        DivansResult)
        ensures
            match nibble_to_state(command_type_code, is_end) {
                Some(st) => final(self).state == st && r == DivansResult::Success,
                None => final(self).state == old(self).state && r == DivansResult::Failure,
            },
            final(self).bk == old(self).bk,
            final(self).state_populate_ring_buffer == old(self).state_populate_ring_buffer,
            final(self).crc == old(self).crc,
            final(self).frozen_checksum == old(self).frozen_checksum,
            final(self).skip_checksum == old(self).skip_checksum,
            final(self).is_decoding == old(self).is_decoding,
    {
        match command_type_code {
            1 => {
                self.state = EncodeOrDecodeState::Copy;
            },
            2 => {
                self.state = EncodeOrDecodeState::Dict;
            },
            3 => {
                self.state = EncodeOrDecodeState::Literal;
            },
            4 => {
                self.state = EncodeOrDecodeState::BlockSwitchLiteral;
            },
            5 => {
                self.state = EncodeOrDecodeState::BlockSwitchCommand;
            },
            6 => {
                self.state = EncodeOrDecodeState::BlockSwitchDistance;
            },
            7 => {
                self.state = EncodeOrDecodeState::PredictionMode;
            },
            0xf => {
                if is_end {
                    self.state = EncodeOrDecodeState::DivansSuccess;
                } else {
                    self.state = EncodeOrDecodeState::WriteChecksum(0);
                }
            },
            _ => {
                return DivansResult::Failure;
            },
        };
        DivansResult::Success
    }

    /// The `Begin` step once the coder has exchanged the command nibble:
    /// adapt the command-type prior at rocket speed, then route the nibble.
    pub fn begin_command_with_nibble(&mut self, nibble: u8, is_end: bool) -> (r: DivansResult)
        requires
            old(self).wf(),
            nibble < 16,
            old(self).state == EncodeOrDecodeState::Begin,
        ensures
            final(self).wf(),
            forall|i: int|
                0 <= i < 16 ==> final(self).bk.cmd_prior.cdf[i] == freq_blended(
                    old(self).bk.cmd_prior.cdf,
                    nibble as int,
                    freq_speed_increment(Speed::ROCKET),
                    i,
                ),
            match nibble_to_state(nibble, is_end) {
                Some(st) => final(self).state == st && r == DivansResult::Success,
                None => final(self).state == EncodeOrDecodeState::Begin && r
                    == DivansResult::Failure,
            },
            final(self).bk.last_8_literals == old(self).bk.last_8_literals,
            final(self).bk.stride == old(self).bk.stride,
            final(self).bk.btype_lit == old(self).bk.btype_lit,
            final(self).bk.btype_cmd == old(self).bk.btype_cmd,
            final(self).bk.btype_dist == old(self).bk.btype_dist,
            final(self).bk.last_dist == old(self).bk.last_dist,
            final(self).bk.command_count == old(self).bk.command_count,
            final(self).bk.decode_byte_count == old(self).bk.decode_byte_count,
            final(self).state_populate_ring_buffer == old(self).state_populate_ring_buffer,
            final(self).crc == old(self).crc,
            final(self).frozen_checksum == old(self).frozen_checksum,
            final(self).skip_checksum == old(self).skip_checksum,
            final(self).is_decoding == old(self).is_decoding,
    {
        self.bk.cmd_prior.blend(nibble, Speed::ROCKET);
        self.update_command_state_from_nibble(nibble, is_end)
    }

    /// A finished command updates the bookkeeping and chooses the next step:
    /// payload-bearing commands queue for the ring buffer; block switches and
    /// prediction modes advance directly, recomputing the codec traits when
    /// the stride crosses one or a prediction mode arrives.
    pub fn on_command_decoded(&mut self, cmd: Command) -> (r: CommandOutcome)
        requires
            old(self).state == spec_command_state(cmd),
        ensures
            final(self).wf() == old(self).wf(),
            match cmd {
                Command::Copy(cc) => final(self).state == EncodeOrDecodeState::PopulateRingBuffer
                    && (final(self).state_populate_ring_buffer matches Some(p)
                    && p == cmd) && final(self).bk.last_dist == cc.distance && r
                    == CommandOutcome::Populate && final(self).bk.stride == old(self).bk.stride
                    && final(self).bk.btype_lit == old(self).bk.btype_lit,
                Command::Dict(_) => final(self).state == EncodeOrDecodeState::PopulateRingBuffer
                    && (final(self).state_populate_ring_buffer matches Some(p)
                    && p == cmd) && r == CommandOutcome::Populate && final(self).bk.last_dist
                    == old(self).bk.last_dist && final(self).bk.stride == old(self).bk.stride,
                Command::Literal(_) => final(self).state == EncodeOrDecodeState::PopulateRingBuffer
                    && (final(self).state_populate_ring_buffer matches Some(p)
                    && p == cmd) && r == CommandOutcome::Populate && final(self).bk.last_dist
                    == old(self).bk.last_dist && final(self).bk.stride == old(self).bk.stride,
                Command::BlockSwitchLiteral(bs) => final(self).state == EncodeOrDecodeState::Begin
                    && final(self).bk.btype_lit == bs.block_type && final(self).bk.stride
                    == bs.stride && r == (if (old(self).bk.stride <= 1) != (bs.stride <= 1) {
                    CommandOutcome::UpdateTraitAndAdvance
                } else {
                    CommandOutcome::Advance
                }) && final(self).state_populate_ring_buffer == old(self).state_populate_ring_buffer,
                Command::BlockSwitchCommand(bs) => final(self).state == EncodeOrDecodeState::Begin
                    && final(self).bk.btype_cmd == bs.block_type && r == CommandOutcome::Advance
                    && final(self).bk.stride == old(self).bk.stride,
                Command::BlockSwitchDistance(bs) => final(self).state == EncodeOrDecodeState::Begin
                    && final(self).bk.btype_dist == bs.block_type && r == CommandOutcome::Advance
                    && final(self).bk.stride == old(self).bk.stride,
                Command::PredictionMode(_) => final(self).state == EncodeOrDecodeState::Begin && r
                    == CommandOutcome::UpdateTraitAndAdvance && final(self).bk.stride == old(self).bk.stride,
            },
            final(self).bk.cmd_prior == old(self).bk.cmd_prior,
            final(self).bk.last_8_literals == old(self).bk.last_8_literals,
            final(self).bk.command_count == old(self).bk.command_count,
            final(self).bk.decode_byte_count == old(self).bk.decode_byte_count,
            final(self).crc == old(self).crc,
            final(self).frozen_checksum == old(self).frozen_checksum,
            final(self).skip_checksum == old(self).skip_checksum,
            final(self).is_decoding == old(self).is_decoding,
    {
        match cmd {
            Command::Copy(cc) => {
                self.bk.last_dist = cc.distance;
                self.state_populate_ring_buffer = Some(Command::Copy(cc));
                self.state = EncodeOrDecodeState::PopulateRingBuffer;
                CommandOutcome::Populate
            },
            Command::Dict(dc) => {
                self.state_populate_ring_buffer = Some(Command::Dict(dc));
                self.state = EncodeOrDecodeState::PopulateRingBuffer;
                CommandOutcome::Populate
            },
            Command::Literal(lc) => {
                self.state_populate_ring_buffer = Some(Command::Literal(lc));
                self.state = EncodeOrDecodeState::PopulateRingBuffer;
                CommandOutcome::Populate
            },
            Command::BlockSwitchLiteral(bs) => {
                let old_stride = self.bk.stride;
                self.bk.btype_lit = bs.block_type;
                self.bk.stride = bs.stride;
                self.state = EncodeOrDecodeState::Begin;
                if (old_stride <= 1) != (bs.stride <= 1) {
                    CommandOutcome::UpdateTraitAndAdvance
                } else {
                    CommandOutcome::Advance
                }
            },
            Command::BlockSwitchCommand(bs) => {
                self.bk.btype_cmd = bs.block_type;
                self.state = EncodeOrDecodeState::Begin;
                CommandOutcome::Advance
            },
            Command::BlockSwitchDistance(bs) => {
                self.bk.btype_dist = bs.block_type;
                self.state = EncodeOrDecodeState::Begin;
                CommandOutcome::Advance
            },
            Command::PredictionMode(_) => {
                self.state = EncodeOrDecodeState::Begin;
                CommandOutcome::UpdateTraitAndAdvance
            },
        }
    }

    /// The ring-buffer emission step. A suspension for more output yields to
    /// a caller that collects the decoded file bytes and otherwise retries;
    /// success
    /// counts the command, snapshots the recoder's byte count and literal
    /// window, frees the populate slot and returns to `Begin`.
    pub fn on_populate_ring_buffer(
        &mut self,
        recoder_result: DivansResult,
        num_bytes_encoded: u32,
        last_8: [u8; 8],
    ) -> (r: RingBufferOutcome)
        requires
            old(self).state == EncodeOrDecodeState::PopulateRingBuffer,
            recoder_result != DivansResult::NeedsMoreInput,
        ensures
            final(self).wf() == old(self).wf(),
            final(self).bk.decode_byte_count == num_bytes_encoded,
            match recoder_result {
                DivansResult::NeedsMoreOutput => final(self).state == old(self).state && (if old(self).is_decoding {
                    r == RingBufferOutcome::Yield(DivansResult::NeedsMoreOutput)
                } else {
                    r == RingBufferOutcome::Retry
                }) && final(self).bk.command_count == old(self).bk.command_count && final(self).bk.last_8_literals == old(self).bk.last_8_literals && final(self).state_populate_ring_buffer == old(self).state_populate_ring_buffer,
                DivansResult::Failure => final(self).state == old(self).state && r
                    == RingBufferOutcome::Yield(DivansResult::Failure) && final(self).bk.command_count == old(self).bk.command_count && final(self).bk.last_8_literals
                    == old(self).bk.last_8_literals && final(self).state_populate_ring_buffer
                    == old(self).state_populate_ring_buffer,
                DivansResult::Success => final(self).state == EncodeOrDecodeState::Begin && final(self).bk.command_count == old(self).bk.command_count.wrapping_add(1u32) && final(self).bk.last_8_literals == spec_pack_last_8(last_8) && (final(self).state_populate_ring_buffer is None) && r == RingBufferOutcome::Advance,
                DivansResult::NeedsMoreInput => false,
            },
            final(self).bk.cmd_prior == old(self).bk.cmd_prior,
            final(self).bk.stride == old(self).bk.stride,
            final(self).bk.btype_lit == old(self).bk.btype_lit,
            final(self).bk.btype_cmd == old(self).bk.btype_cmd,
            final(self).bk.btype_dist == old(self).bk.btype_dist,
            final(self).bk.last_dist == old(self).bk.last_dist,
            final(self).crc == old(self).crc,
            final(self).frozen_checksum == old(self).frozen_checksum,
            final(self).skip_checksum == old(self).skip_checksum,
            final(self).is_decoding == old(self).is_decoding,
    {
        self.bk.decode_byte_count = num_bytes_encoded;
        match recoder_result {
            DivansResult::NeedsMoreOutput => {
                if self.is_decoding {
                    RingBufferOutcome::Yield(DivansResult::NeedsMoreOutput)
                } else {
                    RingBufferOutcome::Retry
                }
            },
            DivansResult::Success => {
                self.bk.command_count = self.bk.command_count.wrapping_add(1);
                self.bk.last_8_literals = (last_8[0] as u64) + (last_8[1] as u64) * 0x100 + (
                last_8[2] as u64) * 0x10000 + (last_8[3] as u64) * 0x1000000 + (last_8[4] as u64)
                    * 0x100000000 + (last_8[5] as u64) * 0x10000000000 + (last_8[6] as u64)
                    * 0x1000000000000 + (last_8[7] as u64) * 0x100000000000000;
                self.state_populate_ring_buffer = None;
                self.state = EncodeOrDecodeState::Begin;
                RingBufferOutcome::Advance
            },
            _ => RingBufferOutcome::Yield(DivansResult::Failure),
        }
    }

    /// What the command loop must do in the current state. Reaching a command
    /// step in any shutdown state is fatal: once flush has begun no further
    /// command may be coded.
    pub fn next_action(&self) -> (a: CodecAction)
        ensures
            a == match self.state {
                EncodeOrDecodeState::EncodedShutdownNode => CodecAction::Fatal,
                EncodeOrDecodeState::ShutdownCoder => CodecAction::Fatal,
                EncodeOrDecodeState::CoderBufferDrain => CodecAction::Fatal,
                EncodeOrDecodeState::WriteChecksum(_) => CodecAction::VerifyTrailer,
                EncodeOrDecodeState::DivansSuccess => CodecAction::Finished,
                EncodeOrDecodeState::Begin => CodecAction::CoderPump,
                EncodeOrDecodeState::PopulateRingBuffer => CodecAction::EmitRingBuffer,
                _ => CodecAction::RunSubState,
            },
    {
        match self.state {
            EncodeOrDecodeState::EncodedShutdownNode
            | EncodeOrDecodeState::ShutdownCoder
            | EncodeOrDecodeState::CoderBufferDrain => CodecAction::Fatal,
            EncodeOrDecodeState::WriteChecksum(_) => CodecAction::VerifyTrailer,
            EncodeOrDecodeState::DivansSuccess => CodecAction::Finished,
            EncodeOrDecodeState::Begin => CodecAction::CoderPump,
            EncodeOrDecodeState::PopulateRingBuffer => CodecAction::EmitRingBuffer,
            _ => CodecAction::RunSubState,
        }
    }

    /// What the encoder's flush loop must do in the current state: code the
    /// end marker, drain, close, drain again, emit the trailer. Flushing in
    /// the middle of a partly processed command is fatal.
    pub fn flush_next_action(&self) -> (a: FlushAction)
        ensures
            a == match self.state {
                EncodeOrDecodeState::Begin => FlushAction::EncodeEndMarker,
                EncodeOrDecodeState::EncodedShutdownNode => FlushAction::DrainCoder,
                EncodeOrDecodeState::ShutdownCoder => FlushAction::CloseCoder,
                EncodeOrDecodeState::CoderBufferDrain => FlushAction::DrainCoder,
                EncodeOrDecodeState::WriteChecksum(_) => FlushAction::EmitTrailer,
                EncodeOrDecodeState::DivansSuccess => FlushAction::Finished,
                _ => FlushAction::Fatal,
            },
    {
        match self.state {
            EncodeOrDecodeState::Begin => FlushAction::EncodeEndMarker,
            EncodeOrDecodeState::EncodedShutdownNode => FlushAction::DrainCoder,
            EncodeOrDecodeState::ShutdownCoder => FlushAction::CloseCoder,
            EncodeOrDecodeState::CoderBufferDrain => FlushAction::DrainCoder,
            EncodeOrDecodeState::WriteChecksum(_) => FlushAction::EmitTrailer,
            EncodeOrDecodeState::DivansSuccess => FlushAction::Finished,
            _ => FlushAction::Fatal,
        }
    }

    /// Advance the flush sequence after its current outside step succeeded:
    /// the coded end marker (which leaves the command machine at its success
    /// terminal) leads to the first drain, the drain to the close, the close
    /// to the final drain, and that drain to the trailer.
    pub fn on_flush_step_success(&mut self)
        requires
            old(self).state == EncodeOrDecodeState::Begin || old(self).state
                == EncodeOrDecodeState::DivansSuccess || old(self).state
                == EncodeOrDecodeState::EncodedShutdownNode || old(self).state
                == EncodeOrDecodeState::ShutdownCoder || old(self).state
                == EncodeOrDecodeState::CoderBufferDrain,
        ensures
            final(self).state == match old(self).state {
                EncodeOrDecodeState::Begin => EncodeOrDecodeState::EncodedShutdownNode,
                EncodeOrDecodeState::DivansSuccess => EncodeOrDecodeState::EncodedShutdownNode,
                EncodeOrDecodeState::EncodedShutdownNode => EncodeOrDecodeState::ShutdownCoder,
                EncodeOrDecodeState::ShutdownCoder => EncodeOrDecodeState::CoderBufferDrain,
                _ => EncodeOrDecodeState::WriteChecksum(0),
            },
            final(self).bk == old(self).bk,
            final(self).state_populate_ring_buffer == old(self).state_populate_ring_buffer,
            final(self).crc == old(self).crc,
            final(self).frozen_checksum == old(self).frozen_checksum,
            final(self).skip_checksum == old(self).skip_checksum,
            final(self).is_decoding == old(self).is_decoding,
    {
        self.state = match self.state {
            EncodeOrDecodeState::Begin => EncodeOrDecodeState::EncodedShutdownNode,
            EncodeOrDecodeState::DivansSuccess => EncodeOrDecodeState::EncodedShutdownNode,
            EncodeOrDecodeState::EncodedShutdownNode => EncodeOrDecodeState::ShutdownCoder,
            EncodeOrDecodeState::ShutdownCoder => EncodeOrDecodeState::CoderBufferDrain,
            _ => EncodeOrDecodeState::WriteChecksum(0),
        };
    }

    /// The checksum update owed at the end of every codec call: until the
    /// checksum freezes, the decoder folds in the compressed bytes it
    /// consumed (unless checking is skipped) and the encoder folds in the
    /// compressed bytes it produced.
    pub fn note_stream_bytes(&mut self, consumed_input: &[u8], produced_output: &[u8])
        ensures
            final(self).crc.state32() == (if old(self).frozen_checksum is Some {
                old(self).crc.state32()
            } else if old(self).is_decoding {
                if old(self).skip_checksum {
                    old(self).crc.state32()
                } else {
                    spec_crc32c_update(old(self).crc.state32(), consumed_input@)
                }
            } else {
                spec_crc32c_update(old(self).crc.state32(), produced_output@)
            }),
            final(self).state == old(self).state,
            final(self).bk == old(self).bk,
            final(self).state_populate_ring_buffer == old(self).state_populate_ring_buffer,
            final(self).frozen_checksum == old(self).frozen_checksum,
            final(self).skip_checksum == old(self).skip_checksum,
            final(self).is_decoding == old(self).is_decoding,
    {
        match self.frozen_checksum {
            Some(_) => {},
            None => {
                if self.is_decoding {
                    if !self.skip_checksum {
                        self.crc.write(consumed_input);
                    }
                } else {
                    self.crc.write(produced_output);
                }
            },
        }
    }
}

} // verus!

verus! {

/// The checksum value the decoder's trailer step settles on: zero when
/// checking is skipped, the already-frozen value when one exists, and
/// otherwise the chain closed over the compressed bytes consumed so far.
pub open spec fn spec_frozen_value(c: DivansCodec, consumed: Seq<u8>) -> u64 {
    if c.skip_checksum {
        0u64
    } else if c.frozen_checksum is Some {
        c.frozen_checksum->0
    } else {
        spec_crc32c_update(c.crc.state32(), consumed) as u64
    }
}

impl DivansCodec {
    /// The decoder's trailer step: freeze the checksum over the compressed
    /// bytes consumed before the trailer, then compare as many of the eight
    /// trailer bytes as the input holds. A mismatch in the four checksum
    /// bytes is fatal unless checking is skipped; a mismatch in the magic is
    /// always fatal and consumes nothing. Matching bytes are consumed, and
    /// the step suspends for more input until all eight are verified.
    pub fn write_checksum_decode(&mut self, input: &[u8], input_offset: &mut usize) -> (r:
        DivansResult)
        requires
            old(self).state is WriteChecksum,
            old(self).state->WriteChecksum_0 < 8,
            old(self).is_decoding,
            *old(input_offset) <= input.len(),
        ensures
            ({
                let count = old(self).state->WriteChecksum_0 as int;
                let off = *old(input_offset) as int;
                let avail = input@.len() - off;
                let needed = 8 - count;
                let to_check = if avail < needed {
                    avail
                } else {
                    needed
                };
                let frozen = spec_frozen_value(*old(self), input@.take(off));
                let fail = exists|k: int|
                    0 <= k < to_check && #[trigger] trailer_pos_fatal(
                        frozen,
                        input@[off + k],
                        count + k,
                        old(self).skip_checksum,
                    );
                &&& to_check == 0 ==> r == DivansResult::NeedsMoreInput && *final(input_offset)
                    == off && final(self).state == old(self).state && final(self).crc == old(self).crc && final(self).frozen_checksum == (if old(self).skip_checksum {
                    Some(0u64)
                } else {
                    old(self).frozen_checksum
                })
                &&& to_check > 0 ==> {
                    &&& final(self).frozen_checksum == Some(frozen)
                    &&& final(self).crc.state32() == (if old(self).skip_checksum || old(self).frozen_checksum is Some {
                        old(self).crc.state32()
                    } else {
                        spec_crc32c_update(old(self).crc.state32(), input@.take(off))
                    })
                    &&& fail ==> r == DivansResult::Failure && *final(input_offset) == off && final(self).state == old(self).state
                    &&& !fail && to_check == needed ==> r == DivansResult::Success && *final(input_offset) == off + needed && final(self).state == EncodeOrDecodeState::DivansSuccess
                    &&& !fail && to_check < needed ==> r == DivansResult::NeedsMoreInput && *final(input_offset) == off + to_check && final(self).state == EncodeOrDecodeState::WriteChecksum(
                        (count + to_check) as u8,
                    )
                }
            }),
            final(self).bk == old(self).bk,
            final(self).state_populate_ring_buffer == old(self).state_populate_ring_buffer,
            final(self).skip_checksum == old(self).skip_checksum,
            final(self).is_decoding == old(self).is_decoding,
    {
        let count: u8 = match self.state {
            EncodeOrDecodeState::WriteChecksum(c) => c,
            _ => 0,
        };
        if self.skip_checksum {
            self.frozen_checksum = Some(0);
        }
        let avail: usize = input.len() - *input_offset;
        let needed: usize = 8 - count as usize;
        let to_check: usize = if avail < needed {
            avail
        } else {
            needed
        };
        if to_check == 0 {
            return DivansResult::NeedsMoreInput;
        }
        match self.frozen_checksum {
            Some(_) => {},
            None => {
                let prefix = vstd::slice::slice_subrange(input, 0, *input_offset);
                proof {
                    assert(prefix@ =~= input@.take(*input_offset as int));
                }
                self.crc.write(prefix);
                self.frozen_checksum = Some(self.crc.finish());
            },
        }
        let crc: u64 = match self.frozen_checksum {
            Some(v) => v,
            None => 0,
        };
        let checksum = trailer_bytes(crc);
        let ghost off = *input_offset as int;
        let ghost frozen_self = *self;
        let mut idx: usize = 0;
        #[verifier::loop_isolation(false)]
        while idx < to_check
            invariant
                idx <= to_check,
                *input_offset == off,
                *self == frozen_self,
                forall|j: int|
                    0 <= j < idx ==> !#[trigger] trailer_pos_fatal(
                        crc,
                        input@[off + j],
                        count + j,
                        self.skip_checksum,
                    ),
            decreases to_check - idx,
        {
            let chk = checksum[count as usize + idx];
            let fil = input[*input_offset + idx];
            if chk != fil {
                if count as usize + idx >= 4 || !self.skip_checksum {
                    proof {
                        assert(crc == spec_frozen_value(*old(self), input@.take(off)));
                        assert(trailer_pos_fatal(
                            crc,
                            input@[off + idx as int],
                            count as int + idx as int,
                            self.skip_checksum,
                        ));
                    }
                    return DivansResult::Failure;
                }
            }
            idx += 1;
        }
        *input_offset += to_check;
        if needed != to_check {
            self.state = EncodeOrDecodeState::WriteChecksum(count + to_check as u8);
            DivansResult::NeedsMoreInput
        } else {
            self.state = EncodeOrDecodeState::DivansSuccess;
            DivansResult::Success
        }
    }
}

} // verus!

verus! {

/// The checksum value the encoder's trailer step settles on: the frozen
/// value when one exists, otherwise the chain closed over the compressed
/// bytes produced so far in this flush call.
pub open spec fn spec_encode_frozen_value(c: DivansCodec, produced: Seq<u8>) -> u64 {
    if c.frozen_checksum is Some {
        c.frozen_checksum->0
    } else {
        spec_crc32c_update(c.crc.state32(), produced) as u64
    }
}

impl DivansCodec {
    /// The encoder's trailer step: freeze the checksum over the compressed
    /// bytes produced before the trailer, then copy as many of the eight
    /// trailer bytes as the output has room for, suspending for more output
    /// until all eight are written.
    pub fn write_checksum_encode(&mut self, output: &mut Vec<u8>, output_offset: &mut usize) -> (r:
        DivansResult)
        requires
            old(self).state is WriteChecksum,
            old(self).state->WriteChecksum_0 < 8,
            !old(self).is_decoding,
            *old(output_offset) <= old(output).len(),
        ensures
            ({
                let count = old(self).state->WriteChecksum_0 as int;
                let off = *old(output_offset) as int;
                let remaining = old(output).len() - off;
                let needed = 8 - count;
                let k = if remaining < needed {
                    remaining
                } else {
                    needed
                };
                let frozen = spec_encode_frozen_value(*old(self), old(output)@.take(off));
                &&& final(self).frozen_checksum == Some(frozen)
                &&& final(self).crc.state32() == (if old(self).frozen_checksum is Some {
                    old(self).crc.state32()
                } else {
                    spec_crc32c_update(old(self).crc.state32(), old(output)@.take(off))
                })
                &&& final(output).len() == old(output).len()
                &&& forall|t: int|
                    0 <= t < old(output).len() && !(off <= t < off + k) ==> final(output)@[t]
                        == old(output)@[t]
                &&& forall|t: int|
                    0 <= t < k ==> final(output)@[off + t] == #[trigger] trailer_byte(
                        frozen,
                        count + t,
                    )
                &&& *final(output_offset) == off + k
                &&& k == needed ==> final(self).state == EncodeOrDecodeState::DivansSuccess && r
                    == DivansResult::Success
                &&& k < needed ==> final(self).state == EncodeOrDecodeState::WriteChecksum(
                    (count + k) as u8,
                ) && r == DivansResult::NeedsMoreOutput
            }),
            final(self).bk == old(self).bk,
            final(self).state_populate_ring_buffer == old(self).state_populate_ring_buffer,
            final(self).skip_checksum == old(self).skip_checksum,
            final(self).is_decoding == old(self).is_decoding,
    {
        let count: u8 = match self.state {
            EncodeOrDecodeState::WriteChecksum(c) => c,
            _ => 0,
        };
        match self.frozen_checksum {
            Some(_) => {},
            None => {
                let prefix = vstd::slice::slice_subrange(output.as_slice(), 0, *output_offset);
                proof {
                    assert(prefix@ =~= output@.take(*output_offset as int));
                }
                self.crc.write(prefix);
                self.frozen_checksum = Some(self.crc.finish());
            },
        }
        let crc: u64 = match self.frozen_checksum {
            Some(v) => v,
            None => 0,
        };
        let checksum = trailer_bytes(crc);
        let remaining: usize = output.len() - *output_offset;
        let needed: usize = 8 - count as usize;
        let k: usize = if remaining < needed {
            remaining
        } else {
            needed
        };
        let ghost off = *output_offset as int;
        let mut j: usize = 0;
        #[verifier::loop_isolation(false)]
        while j < k
            invariant
                j <= k,
                output.len() == old(output).len(),
                forall|t: int|
                    0 <= t < output.len() && !(off <= t < off + j) ==> output@[t] == old(
                        output,
                    )@[t],
                forall|t: int|
                    0 <= t < j ==> output@[off + t] == #[trigger] trailer_byte(crc, count + t),
            decreases k - j,
        {
            output[*output_offset + j] = checksum[count as usize + j];
            j += 1;
        }
        *output_offset += k;
        if needed <= remaining {
            self.state = EncodeOrDecodeState::DivansSuccess;
            DivansResult::Success
        } else {
            self.state = EncodeOrDecodeState::WriteChecksum(count + k as u8);
            DivansResult::NeedsMoreOutput
        }
    }
}

} // verus!
