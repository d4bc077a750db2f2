use motion_core::frame::{FrameError, PilotCommand};
use motion_core::receiver::{Feedback, ReceiverDecoder, SyncState};

fn link_frame(channels: [u16; 14]) -> [u8; 32] {
    let mut frame = [0u8; 32];
    frame[0] = 0x20;
    frame[1] = 0x40;
    for (k, value) in channels.iter().enumerate() {
        frame[2 + 2 * k] = (value & 0xFF) as u8;
        frame[3 + 2 * k] = (value >> 8) as u8;
    }
    let sum: u16 = frame[..30].iter().map(|b| *b as u16).sum();
    let check = 0xFFFFu16 - sum;
    frame[30] = (check & 0xFF) as u8;
    frame[31] = (check >> 8) as u8;
    frame
}

fn frame_rolling(roll_raw: u16) -> [u8; 32] {
    let mut channels = [1500u16; 14];
    channels[0] = roll_raw;
    link_frame(channels)
}

fn command_rolling(roll: i32) -> PilotCommand {
    PilotCommand { roll, pitch: 0, yaw_rate: 0, altitude: 0, controller_enable: false }
}

#[test]
fn new_decoder_is_in_step_and_wants_a_frame() {
    let decoder = ReceiverDecoder::new();
    assert_eq!(decoder.state(), SyncState::Aligned);
    assert_eq!(decoder.wanted(), 32);
}

#[test]
fn accepted_frame_keeps_step() {
    let mut decoder = ReceiverDecoder::new();
    let report = decoder.feed(&frame_rolling(1600));
    assert_eq!(report, Feedback::Command(command_rolling(100)));
    assert_eq!(decoder.state(), SyncState::Aligned);
}

#[test]
fn checksum_failure_drops_frame_and_keeps_step() {
    let mut decoder = ReceiverDecoder::new();
    let mut frame = frame_rolling(1600);
    frame[30] ^= 0xFF;
    assert_eq!(decoder.feed(&frame), Feedback::Rejected(FrameError::FailsChecksum));
    assert_eq!(decoder.state(), SyncState::Aligned);
    assert_eq!(decoder.wanted(), 32);
}

#[test]
fn missing_header_starts_the_search() {
    let mut decoder = ReceiverDecoder::new();
    assert_eq!(decoder.feed(&[0u8; 32]), Feedback::Rejected(FrameError::InvalidPacket));
    assert_eq!(decoder.state(), SyncState::Hunting { half: false });
    assert_eq!(decoder.wanted(), 1);
}

#[test]
fn search_follows_the_header_byte_by_byte() {
    let mut decoder = ReceiverDecoder::new();
    decoder.feed(&[0u8; 32]);
    assert_eq!(decoder.feed(&[0x40]), Feedback::Quiet);
    assert_eq!(decoder.state(), SyncState::Hunting { half: false });
    decoder.feed(&[0x20]);
    assert_eq!(decoder.state(), SyncState::Hunting { half: true });
    decoder.feed(&[0x33]);
    assert_eq!(decoder.state(), SyncState::Hunting { half: false });
    decoder.feed(&[0x20]);
    decoder.feed(&[0x20]);
    assert_eq!(decoder.state(), SyncState::Hunting { half: true });
    assert_eq!(decoder.feed(&[0x40]), Feedback::Quiet);
    assert_eq!(decoder.state(), SyncState::Skipping);
    assert_eq!(decoder.wanted(), 30);
    assert_eq!(decoder.feed(&[0xAAu8; 30]), Feedback::Quiet);
    assert_eq!(decoder.state(), SyncState::Aligned);
    assert_eq!(decoder.wanted(), 32);
}

#[test]
fn resync_decodes_the_frame_behind_the_header() {
    let mut corrupted = frame_rolling(1900);
    corrupted[0] = 0x00;
    let mut stream: Vec<u8> = Vec::new();
    stream.extend_from_slice(&corrupted);
    stream.extend_from_slice(&frame_rolling(1700));
    stream.extend_from_slice(&frame_rolling(1600));
    let mut decoder = ReceiverDecoder::new();
    let (commands, taken) = decoder.decode_stream(&stream);
    assert_eq!(commands, vec![command_rolling(100)]);
    assert_eq!(taken, 96);
    assert_eq!(decoder.state(), SyncState::Aligned);
}

#[test]
fn resync_passes_over_noise_without_a_header() {
    let mut stream: Vec<u8> = vec![0x55u8; 32];
    stream.extend_from_slice(&[0x40, 0x20, 0x41, 0x20, 0x00, 0x20]);
    stream.extend_from_slice(&frame_rolling(1000));
    stream.extend_from_slice(&frame_rolling(1501));
    stream.extend_from_slice(&frame_rolling(1502));
    let mut decoder = ReceiverDecoder::new();
    let (commands, taken) = decoder.decode_stream(&stream);
    assert_eq!(commands, vec![command_rolling(1), command_rolling(2)]);
    assert_eq!(taken, stream.len());
    assert_eq!(decoder.state(), SyncState::Aligned);
}

#[test]
fn dropped_byte_is_recovered_from() {
    let mut stream: Vec<u8> = Vec::new();
    stream.extend_from_slice(&frame_rolling(1510));
    stream.extend_from_slice(&frame_rolling(1520)[1..]);
    stream.extend_from_slice(&frame_rolling(1530));
    stream.extend_from_slice(&frame_rolling(1540));
    stream.extend_from_slice(&frame_rolling(1550));
    let (commands, _) = ReceiverDecoder::new().decode_stream(&stream);
    assert_eq!(commands.first(), Some(&command_rolling(10)));
    assert_eq!(commands.last(), Some(&command_rolling(50)));
    assert!(!commands.contains(&command_rolling(20)));
}

#[test]
fn stream_in_step_decodes_every_frame() {
    let mut stream: Vec<u8> = Vec::new();
    for raw in [1400u16, 1500, 1600] {
        stream.extend_from_slice(&frame_rolling(raw));
    }
    let (commands, taken) = ReceiverDecoder::new().decode_stream(&stream);
    assert_eq!(commands, vec![command_rolling(-100), command_rolling(0), command_rolling(100)]);
    assert_eq!(taken, 96);
}

#[test]
fn checksum_failure_in_a_stream_costs_one_frame() {
    let mut spoiled = frame_rolling(1900);
    spoiled[10] ^= 0x10;
    let mut stream: Vec<u8> = Vec::new();
    stream.extend_from_slice(&frame_rolling(1510));
    stream.extend_from_slice(&spoiled);
    stream.extend_from_slice(&frame_rolling(1530));
    let (commands, taken) = ReceiverDecoder::new().decode_stream(&stream);
    assert_eq!(commands, vec![command_rolling(10), command_rolling(30)]);
    assert_eq!(taken, 96);
}

#[test]
fn partial_chunk_at_the_end_is_left_alone() {
    let mut stream: Vec<u8> = Vec::new();
    stream.extend_from_slice(&frame_rolling(1510));
    stream.extend_from_slice(&frame_rolling(1520)[..31]);
    let mut decoder = ReceiverDecoder::new();
    let (commands, taken) = decoder.decode_stream(&stream);
    assert_eq!(commands, vec![command_rolling(10)]);
    assert_eq!(taken, 32);
    let (rest, more) = decoder.decode_stream(&frame_rolling(1520));
    assert_eq!(rest, vec![command_rolling(20)]);
    assert_eq!(more, 32);
}

#[test]
fn empty_stream_gives_nothing() {
    let mut decoder = ReceiverDecoder::new();
    let (commands, taken) = decoder.decode_stream(&[]);
    assert!(commands.is_empty());
    assert_eq!(taken, 0);
    assert_eq!(decoder.state(), SyncState::Aligned);
}

#[test]
fn stream_and_single_chunks_agree() {
    let mut stream: Vec<u8> = vec![0x11u8; 32];
    stream.extend_from_slice(&[0x20, 0x20, 0x40]);
    stream.extend_from_slice(&[0x77u8; 30]);
    stream.extend_from_slice(&frame_rolling(1444));
    let (commands, taken) = ReceiverDecoder::new().decode_stream(&stream);

    let mut decoder = ReceiverDecoder::new();
    let mut stepped: Vec<PilotCommand> = Vec::new();
    let mut pos = 0;
    while stream.len() - pos >= decoder.wanted() {
        let n = decoder.wanted();
        if let Feedback::Command(command) = decoder.feed(&stream[pos..pos + n]) {
            stepped.push(command);
        }
        pos += n;
    }
    assert_eq!(stepped, commands);
    assert_eq!(pos, taken);
    assert_eq!(commands, vec![command_rolling(-56)]);
}
