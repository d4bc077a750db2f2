use motion_core::frame::{
    center, command_from_channels, decode_frame, FrameError, PilotCommand, CHANNEL_SPAN,
};

fn sealed_frame(channels: [u16; 14]) -> [u8; 32] {
    let mut frame = [0u8; 32];
    frame[0] = 0x20;
    frame[1] = 0x40;
    for (k, value) in channels.iter().enumerate() {
        frame[2 + 2 * k] = (value & 0xFF) as u8;
        frame[3 + 2 * k] = (value >> 8) as u8;
    }
    let sum: u16 = frame[..30].iter().map(|b| *b as u16).sum();
    let check = 0xFFFFu16 - sum;
    frame[30] = (check & 0xFF) as u8;
    frame[31] = (check >> 8) as u8;
    frame
}

fn frame_with_switch(raw: u16) -> [u8; 32] {
    let mut channels = [1500u16; 14];
    channels[5] = raw;
    sealed_frame(channels)
}

const RECORDED: [u8; 32] = [
    0x20, 0x40, 0xDB, 0x05, 0xDC, 0x05, 0x54, 0x05, 0xDC, 0x05, 0xE8, 0x03, 0xD0, 0x07, 0xD2, 0x05,
    0xE8, 0x03, 0xDC, 0x05, 0xDC, 0x05, 0xDC, 0x05, 0xDC, 0x05, 0xDC, 0x05, 0xDC, 0x05, 0xDA, 0xF3,
];

#[test]
fn recorded_frame_decodes() {
    let command = decode_frame(&RECORDED).expect("frame is in order");
    assert_eq!(
        command,
        PilotCommand { roll: -1, pitch: 0, yaw_rate: 0, altitude: -10, controller_enable: true }
    );
}

#[test]
fn sealed_frame_matches_recorded_checksum() {
    let channels = [
        1499, 1500, 1364, 1500, 1000, 2000, 1490, 1000, 1500, 1500, 1500, 1500, 1500, 1500,
    ];
    assert_eq!(sealed_frame(channels), RECORDED);
}

#[test]
fn frame_without_header_is_invalid_packet() {
    assert_eq!(decode_frame(&[0x02u8; 32]), Err(FrameError::InvalidPacket));
}

#[test]
fn frame_with_second_header_byte_wrong_is_invalid_packet() {
    let mut frame = RECORDED;
    frame[1] = 0x41;
    assert_eq!(decode_frame(&frame), Err(FrameError::InvalidPacket));
}

#[test]
fn frame_with_wrong_checksum_fails_checksum() {
    let mut frame = RECORDED;
    frame[31] = 0xFF;
    assert_eq!(decode_frame(&frame), Err(FrameError::FailsChecksum));
}

#[test]
fn frame_with_flipped_payload_fails_checksum() {
    let mut frame = RECORDED;
    frame[7] ^= 0x01;
    assert_eq!(decode_frame(&frame), Err(FrameError::FailsChecksum));
}

#[test]
fn header_is_checked_before_checksum() {
    let mut frame = RECORDED;
    frame[0] = 0x21;
    frame[30] = 0x00;
    assert_eq!(decode_frame(&frame), Err(FrameError::InvalidPacket));
}

#[test]
fn axes_come_from_their_channels() {
    let mut channels = [1500u16; 14];
    channels[0] = 1600;
    channels[1] = 1400;
    channels[2] = 1111;
    channels[3] = 2000;
    channels[4] = 1777;
    channels[5] = 1000;
    channels[6] = 1250;
    let command = decode_frame(&sealed_frame(channels)).unwrap();
    assert_eq!(
        command,
        PilotCommand { roll: 100, pitch: -100, yaw_rate: 500, altitude: -250, controller_enable: false }
    );
    assert_eq!(command_from_channels(&channels), command);
}

#[test]
fn channel_words_are_little_endian() {
    let mut channels = [1500u16; 14];
    channels[0] = 0x0102;
    let frame = sealed_frame(channels);
    assert_eq!((frame[2], frame[3]), (0x02, 0x01));
    assert_eq!(decode_frame(&frame).unwrap().roll, 0x0102 - 1500);
}

#[test]
fn normalization_of_center_and_ends() {
    assert_eq!(center(1500) as f32 / CHANNEL_SPAN as f32, 0.0);
    assert_eq!(center(2000) as f32 / CHANNEL_SPAN as f32, 1.0);
    assert_eq!(center(1000) as f32 / CHANNEL_SPAN as f32, -1.0);
}

#[test]
fn center_is_exact_over_the_whole_range() {
    assert_eq!(center(0), -1500);
    assert_eq!(center(1499), -1);
    assert_eq!(center(1750), 250);
    assert_eq!(center(u16::MAX), 64035);
}

#[test]
fn switch_turns_on_above_six_tenths() {
    assert!(!decode_frame(&frame_with_switch(1500)).unwrap().controller_enable);
    assert!(!decode_frame(&frame_with_switch(1800)).unwrap().controller_enable);
    assert!(decode_frame(&frame_with_switch(1801)).unwrap().controller_enable);
    assert!(decode_frame(&frame_with_switch(2000)).unwrap().controller_enable);
}

#[test]
fn switch_threshold_agrees_with_the_normalized_value() {
    for raw in [0u16, 1000, 1799, 1800, 1801, 1802, 2000, u16::MAX] {
        let normalized = (raw as f32 - 1500.0) / 500.0;
        let command = decode_frame(&frame_with_switch(raw)).unwrap();
        assert_eq!(command.controller_enable, normalized > 0.6);
    }
}
