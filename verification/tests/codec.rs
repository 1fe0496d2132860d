use divans::codec::BlockSwitch;
use divans::codec::CodecAction;
use divans::codec::Command;
use divans::codec::CommandOutcome;
use divans::codec::CopyCommand;
use divans::codec::DictCommand;
use divans::codec::DivansCodec;
use divans::codec::DivansResult;
use divans::codec::EncodeOrDecodeState;
use divans::codec::FlushAction;
use divans::codec::LiteralBlockSwitch;
use divans::codec::LiteralCommand;
use divans::codec::PredictionModeContextMap;
use divans::codec::RingBufferOutcome;
use divans::codec::command_type_to_nibble;
use divans::codec::default_crc;
use divans::codec::trailer_bytes;
use divans::crc32::crc32c_init;
use divans::crc32::crc32c_update;
use divans::decoder::DivansDecoderCodec;
use divans::decoder::RecycleAction;
use divans::decoder::SubDigest;
use divans::decoder::buffer_recycle_decision;

fn literal(bytes: &[u8]) -> Command {
    Command::Literal(LiteralCommand { data: bytes.to_vec(), high_entropy: false })
}

fn all_commands() -> Vec<(Command, u8, EncodeOrDecodeState)> {
    vec![
        (
            Command::Copy(CopyCommand { distance: 3, num_bytes: 4 }),
            0x1,
            EncodeOrDecodeState::Copy,
        ),
        (
            Command::Dict(DictCommand { word_size: 4, transform: 0, final_size: 4, word_id: 7 }),
            0x2,
            EncodeOrDecodeState::Dict,
        ),
        (literal(&[0x41]), 0x3, EncodeOrDecodeState::Literal),
        (
            Command::BlockSwitchLiteral(LiteralBlockSwitch { block_type: 1, stride: 2 }),
            0x4,
            EncodeOrDecodeState::BlockSwitchLiteral,
        ),
        (
            Command::BlockSwitchCommand(BlockSwitch { block_type: 1 }),
            0x5,
            EncodeOrDecodeState::BlockSwitchCommand,
        ),
        (
            Command::BlockSwitchDistance(BlockSwitch { block_type: 1 }),
            0x6,
            EncodeOrDecodeState::BlockSwitchDistance,
        ),
        (
            Command::PredictionMode(PredictionModeContextMap {
                literal_context_map: vec![0u8; 4],
                predmode_speed_and_distance_context_map: vec![0u8; 4],
            }),
            0x7,
            EncodeOrDecodeState::PredictionMode,
        ),
    ]
}

#[test]
fn test_command_nibbles_round_trip() {
    for (cmd, nibble, state) in all_commands() {
        assert_eq!(command_type_to_nibble(&cmd, false), nibble);
        assert_eq!(command_type_to_nibble(&cmd, true), 0xf);
        let mut codec = DivansCodec::new(true, false);
        assert_eq!(
            codec.update_command_state_from_nibble(nibble, false),
            DivansResult::Success
        );
        assert_eq!(codec.state, state);
    }
}

#[test]
fn test_reserved_nibbles_are_fatal() {
    for nibble in [0u8, 8, 9, 10, 11, 12, 13, 14] {
        let mut codec = DivansCodec::new(true, false);
        assert_eq!(
            codec.update_command_state_from_nibble(nibble, false),
            DivansResult::Failure
        );
        assert_eq!(codec.state, EncodeOrDecodeState::Begin);
    }
}

#[test]
fn test_end_nibble_at_begin() {
    // The end tag right after Begin: the encoder finishes, the decoder moves
    // to trailer verification.
    let mut enc = DivansCodec::new(false, false);
    assert_eq!(enc.update_command_state_from_nibble(0xf, true), DivansResult::Success);
    assert_eq!(enc.state, EncodeOrDecodeState::DivansSuccess);
    let mut dec = DivansCodec::new(true, false);
    assert_eq!(dec.update_command_state_from_nibble(0xf, false), DivansResult::Success);
    assert_eq!(dec.state, EncodeOrDecodeState::WriteChecksum(0));
}

#[test]
fn test_begin_command_adapts_prior() {
    let mut codec = DivansCodec::new(true, false);
    assert_eq!(codec.begin_command_with_nibble(3, false), DivansResult::Success);
    assert_eq!(codec.state, EncodeOrDecodeState::Literal);
    // The rocket-speed step of 384 lands on every bucket from the coded
    // nibble up.
    assert_eq!(codec.bk.cmd_prior.cdf(2), 12);
    assert_eq!(codec.bk.cmd_prior.cdf(3), 16 + 384);
    assert_eq!(codec.bk.cmd_prior.max(), 64 + 384);
}

#[test]
fn test_command_outcomes_and_bookkeeping() {
    let mut codec = DivansCodec::new(true, false);
    codec.state = EncodeOrDecodeState::Copy;
    let r = codec.on_command_decoded(Command::Copy(CopyCommand { distance: 9, num_bytes: 2 }));
    assert_eq!(r, CommandOutcome::Populate);
    assert_eq!(codec.state, EncodeOrDecodeState::PopulateRingBuffer);
    assert_eq!(codec.bk.last_dist, 9);
    assert!(codec.state_populate_ring_buffer.is_some());

    // Crossing the stride boundary forces a codec-trait recomputation; a
    // switch that stays on the same side does not.
    let mut codec = DivansCodec::new(true, false);
    codec.state = EncodeOrDecodeState::BlockSwitchLiteral;
    let r = codec.on_command_decoded(Command::BlockSwitchLiteral(LiteralBlockSwitch {
        block_type: 1,
        stride: 4,
    }));
    assert_eq!(r, CommandOutcome::UpdateTraitAndAdvance);
    assert_eq!(codec.bk.stride, 4);
    assert_eq!(codec.state, EncodeOrDecodeState::Begin);
    codec.state = EncodeOrDecodeState::BlockSwitchLiteral;
    let r = codec.on_command_decoded(Command::BlockSwitchLiteral(LiteralBlockSwitch {
        block_type: 2,
        stride: 5,
    }));
    assert_eq!(r, CommandOutcome::Advance);

    let mut codec = DivansCodec::new(true, false);
    codec.state = EncodeOrDecodeState::PredictionMode;
    let r = codec.on_command_decoded(Command::PredictionMode(PredictionModeContextMap {
        literal_context_map: vec![],
        predmode_speed_and_distance_context_map: vec![],
    }));
    assert_eq!(r, CommandOutcome::UpdateTraitAndAdvance);
    assert_eq!(codec.state, EncodeOrDecodeState::Begin);
}

#[test]
fn test_populate_ring_buffer_outcomes() {
    let mut codec = DivansCodec::new(true, false);
    codec.state = EncodeOrDecodeState::Literal;
    codec.on_command_decoded(literal(&[1, 2, 3]));
    let last8 = [1u8, 2, 3, 4, 5, 6, 7, 8];
    let r = codec.on_populate_ring_buffer(DivansResult::NeedsMoreOutput, 5, last8);
    assert_eq!(r, RingBufferOutcome::Yield(DivansResult::NeedsMoreOutput));
    assert_eq!(codec.bk.decode_byte_count, 5);
    assert_eq!(codec.state, EncodeOrDecodeState::PopulateRingBuffer);
    let r = codec.on_populate_ring_buffer(DivansResult::Success, 8, last8);
    assert_eq!(r, RingBufferOutcome::Advance);
    assert_eq!(codec.state, EncodeOrDecodeState::Begin);
    assert_eq!(codec.bk.command_count, 1);
    assert_eq!(codec.bk.last_8_literals, 0x0807060504030201u64);
    assert!(codec.state_populate_ring_buffer.is_none());
}

#[test]
fn test_next_action_mapping() {
    let mut codec = DivansCodec::new(true, false);
    assert_eq!(codec.next_action(), CodecAction::CoderPump);
    codec.state = EncodeOrDecodeState::Literal;
    assert_eq!(codec.next_action(), CodecAction::RunSubState);
    codec.state = EncodeOrDecodeState::PopulateRingBuffer;
    assert_eq!(codec.next_action(), CodecAction::EmitRingBuffer);
    codec.state = EncodeOrDecodeState::WriteChecksum(3);
    assert_eq!(codec.next_action(), CodecAction::VerifyTrailer);
    codec.state = EncodeOrDecodeState::DivansSuccess;
    assert_eq!(codec.next_action(), CodecAction::Finished);
    // No further commands may be coded once flush has begun.
    for st in [
        EncodeOrDecodeState::EncodedShutdownNode,
        EncodeOrDecodeState::ShutdownCoder,
        EncodeOrDecodeState::CoderBufferDrain,
    ] {
        codec.state = st;
        assert_eq!(codec.next_action(), CodecAction::Fatal);
    }
}

#[test]
fn test_crc32c_known_vector() {
    // The iSCSI CRC32C check value.
    let crc = crc32c_update(crc32c_init(), b"123456789");
    assert_eq!(crc, 0xE3069283);
    assert_eq!(crc32c_update(crc32c_init(), b""), 0);
    // Chaining over pieces equals one shot over the whole.
    let piecewise = crc32c_update(crc32c_update(crc32c_init(), b"12345"), b"6789");
    assert_eq!(piecewise, crc);
}

#[test]
fn test_empty_stream_flush_emits_minimal_trailer() {
    // Encoding nothing: flush codes the end marker, drains, closes, drains,
    // then writes a trailer whose checksum covers the empty stream.
    let mut codec = DivansCodec::new(false, false);
    assert_eq!(codec.flush_next_action(), FlushAction::EncodeEndMarker);
    codec.begin_command_with_nibble(0xf, true);
    assert_eq!(codec.state, EncodeOrDecodeState::DivansSuccess);

    // The state walk the flush performs around the coder calls.
    let mut codec = DivansCodec::new(false, false);
    codec.on_flush_step_success();
    assert_eq!(codec.flush_next_action(), FlushAction::DrainCoder);
    codec.on_flush_step_success();
    assert_eq!(codec.flush_next_action(), FlushAction::CloseCoder);
    codec.on_flush_step_success();
    assert_eq!(codec.flush_next_action(), FlushAction::DrainCoder);
    codec.on_flush_step_success();
    assert_eq!(codec.flush_next_action(), FlushAction::EmitTrailer);
    assert_eq!(codec.state, EncodeOrDecodeState::WriteChecksum(0));

    let mut out = vec![0u8; 16];
    let mut off = 0usize;
    let r = codec.write_checksum_encode(&mut out, &mut off);
    assert_eq!(r, DivansResult::Success);
    assert_eq!(off, 8);
    assert_eq!(codec.flush_next_action(), FlushAction::Finished);
    // CRC32C of the empty stream is zero; the magic closes the trailer.
    assert_eq!(&out[0..8], [0, 0, 0, 0, b'a', b'n', b's', b'~'].as_slice());
}

#[test]
fn test_trailer_checksum_matches_stream_crc() {
    // The encoder's trailer embeds the CRC32C of the bytes it produced.
    let payload = vec![0u8; 256];
    let mut codec = DivansCodec::new(false, false);
    codec.note_stream_bytes(&[], &payload);
    codec.state = EncodeOrDecodeState::WriteChecksum(0);
    let mut out = vec![0u8; 8];
    let mut off = 0usize;
    assert_eq!(codec.write_checksum_encode(&mut out, &mut off), DivansResult::Success);
    let expected = crc32c_update(crc32c_init(), &payload);
    assert_eq!(&out[0..4], expected.to_le_bytes().as_slice());
    assert_eq!(&out[4..8], b"ans~".as_slice());
    // A decoder that consumed the same stream accepts that trailer.
    let mut dec = DivansCodec::new(true, false);
    dec.note_stream_bytes(&payload, &[]);
    dec.state = EncodeOrDecodeState::WriteChecksum(0);
    let mut in_off = 0usize;
    assert_eq!(dec.write_checksum_decode(&out, &mut in_off), DivansResult::Success);
    assert_eq!(dec.state, EncodeOrDecodeState::DivansSuccess);
    assert_eq!(dec.frozen_checksum, Some(expected as u64));
}

#[test]
fn test_trailer_one_byte_of_room_at_each_position() {
    // Emit the trailer through eight single-byte windows; each suspension
    // resumes exactly where it stopped and the bytes equal the one-shot
    // trailer.
    let mut codec = DivansCodec::new(false, false);
    codec.note_stream_bytes(&[], b"payload");
    codec.state = EncodeOrDecodeState::WriteChecksum(0);
    let expected = trailer_bytes(crc32c_update(crc32c_init(), b"payload") as u64);
    let mut collected = Vec::new();
    for pos in 0..8 {
        let mut out = vec![0u8; 1];
        let mut off = 0usize;
        let r = codec.write_checksum_encode(&mut out, &mut off);
        assert_eq!(off, 1);
        collected.push(out[0]);
        if pos < 7 {
            assert_eq!(r, DivansResult::NeedsMoreOutput);
            assert_eq!(codec.state, EncodeOrDecodeState::WriteChecksum(pos as u8 + 1));
        } else {
            assert_eq!(r, DivansResult::Success);
            assert_eq!(codec.state, EncodeOrDecodeState::DivansSuccess);
        }
    }
    assert_eq!(collected, expected.to_vec());
}

#[test]
fn test_trailer_byte_at_a_time_decode() {
    // Feeding the decoder's trailer step one byte at a time: every step is a
    // suspension or the final success, never a failure.
    let payload = b"stream bytes before the trailer";
    let mut enc = DivansCodec::new(false, false);
    enc.note_stream_bytes(&[], payload);
    enc.state = EncodeOrDecodeState::WriteChecksum(0);
    let mut trailer = vec![0u8; 8];
    let mut off = 0usize;
    enc.write_checksum_encode(&mut trailer, &mut off);

    let mut dec = DivansCodec::new(true, false);
    dec.note_stream_bytes(payload, &[]);
    dec.state = EncodeOrDecodeState::WriteChecksum(0);
    for pos in 0..8 {
        let piece = [trailer[pos]];
        let mut in_off = 0usize;
        let r = dec.write_checksum_decode(&piece, &mut in_off);
        assert_eq!(in_off, 1);
        if pos < 7 {
            assert_eq!(r, DivansResult::NeedsMoreInput);
        } else {
            assert_eq!(r, DivansResult::Success);
        }
        assert_ne!(r, DivansResult::Failure);
    }
    assert_eq!(dec.state, EncodeOrDecodeState::DivansSuccess);
}

#[test]
fn test_skip_checksum_tolerates_crc_but_not_magic() {
    let payload = b"some decoded stream";
    let mut enc = DivansCodec::new(false, false);
    enc.note_stream_bytes(&[], payload);
    enc.state = EncodeOrDecodeState::WriteChecksum(0);
    let mut trailer = vec![0u8; 8];
    let mut off = 0usize;
    enc.write_checksum_encode(&mut trailer, &mut off);

    // Corrupting trailer byte 0 (a checksum byte) passes with skipping on.
    let mut corrupt_crc = trailer.clone();
    corrupt_crc[0] ^= 0xff;
    let mut dec = DivansCodec::new(true, true);
    dec.state = EncodeOrDecodeState::WriteChecksum(0);
    let mut in_off = 0usize;
    assert_eq!(dec.write_checksum_decode(&corrupt_crc, &mut in_off), DivansResult::Success);

    // Corrupting trailer byte 4 (the magic 'a') fails even with skipping on.
    let mut corrupt_magic = trailer.clone();
    corrupt_magic[4] ^= 0xff;
    let mut dec = DivansCodec::new(true, true);
    dec.state = EncodeOrDecodeState::WriteChecksum(0);
    let mut in_off = 0usize;
    assert_eq!(dec.write_checksum_decode(&corrupt_magic, &mut in_off), DivansResult::Failure);
    assert_eq!(in_off, 0);

    // Without skipping, the corrupted checksum byte fails too.
    let mut dec = DivansCodec::new(true, false);
    dec.note_stream_bytes(payload, &[]);
    dec.state = EncodeOrDecodeState::WriteChecksum(0);
    let mut in_off = 0usize;
    assert_eq!(dec.write_checksum_decode(&corrupt_crc, &mut in_off), DivansResult::Failure);
}

#[test]
fn test_reencoding_same_stream_reproduces_trailer() {
    // Re-encoding a stream that produces the same compressed bytes freezes
    // the same checksum and emits an identical trailer.
    let coded = b"identical coded bytes";
    let mut first = DivansCodec::new(false, false);
    first.note_stream_bytes(&[], coded);
    first.state = EncodeOrDecodeState::WriteChecksum(0);
    let mut t1 = vec![0u8; 8];
    let mut o1 = 0usize;
    first.write_checksum_encode(&mut t1, &mut o1);
    let mut second = DivansCodec::new(false, false);
    second.note_stream_bytes(&[], coded);
    second.state = EncodeOrDecodeState::WriteChecksum(0);
    let mut t2 = vec![0u8; 8];
    let mut o2 = 0usize;
    second.write_checksum_encode(&mut t2, &mut o2);
    assert_eq!(t1, t2);
    assert_eq!(first.frozen_checksum, second.frozen_checksum);
}

#[test]
fn test_checksum_freezes_once() {
    // After the checksum freezes, later stream bytes no longer change it.
    let mut codec = DivansCodec::new(false, false);
    codec.note_stream_bytes(&[], b"before");
    codec.state = EncodeOrDecodeState::WriteChecksum(0);
    let mut out = vec![0u8; 8];
    let mut off = 0usize;
    codec.write_checksum_encode(&mut out, &mut off);
    let frozen = codec.frozen_checksum;
    codec.note_stream_bytes(&[], b"after");
    assert_eq!(codec.frozen_checksum, frozen);
    assert_eq!(frozen, Some(crc32c_update(crc32c_init(), b"before") as u64));
}

#[test]
fn test_default_crc_matches_fresh_chain() {
    let mut d = default_crc();
    assert_eq!(d.finish(), 0);
    d.write(b"123456789");
    assert_eq!(d.finish(), 0xE3069283u64);
}

#[test]
fn test_decoder_buffer_accounting() {
    let mut dec = DivansDecoderCodec::new(SubDigest::default(), false);
    assert!(dec.needs_more_input(false));
    assert!(!dec.needs_more_input(true));
    dec.note_buffer_pushed();
    assert!(!dec.needs_more_input(false));
    dec.note_buffer_returned();
    assert!(dec.needs_more_input(false));
    dec.note_input_consumed(b"123456789");
    assert_eq!(dec.crc.finish(), 0xE3069283u64);
    let mut skipping = DivansDecoderCodec::new(SubDigest::default(), true);
    skipping.note_input_consumed(b"123456789");
    assert_eq!(skipping.crc.finish(), 0);
    dec.note_command_recoded([8, 7, 6, 5, 4, 3, 2, 1]);
    assert_eq!(dec.last_8_literals, 0x0102030405060708u64);
}

#[test]
fn test_buffer_recycle_policy() {
    assert_eq!(buffer_recycle_decision(0, 0), RecycleAction::ReplaceEmpty);
    assert_eq!(buffer_recycle_decision(0, 100), RecycleAction::ReplaceEmpty);
    assert_eq!(buffer_recycle_decision(10, 20), RecycleAction::SwapAndCopy);
    assert_eq!(buffer_recycle_decision(10, 21), RecycleAction::SwapAndCopy);
    assert_eq!(buffer_recycle_decision(10, 19), RecycleAction::Free);
    assert_eq!(buffer_recycle_decision(1, 1), RecycleAction::Free);
}
