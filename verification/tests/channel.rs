use openefi::clock::EdgeClock;
use openefi::command_buffer::CommandBuffer;
use openefi::command_buffer::FRAME_LEN;
use openefi::sensors::sequence_channel;
use openefi::sensors::SensorTypes;
use openefi::sensors::SensorValues;

#[test]
fn buffer_starts_empty() {
    let buffer = CommandBuffer::new();
    assert_eq!(buffer.len(), 0);
    assert_eq!(FRAME_LEN, 128);
}

#[test]
fn the_last_byte_of_a_frame_hands_it_out() {
    let mut buffer = CommandBuffer::new();
    for i in 0..127u8 {
        assert_eq!(buffer.push_byte(i), None);
        assert_eq!(buffer.len(), i as usize + 1);
    }
    let frame = buffer.push_byte(200).unwrap();
    for i in 0..127usize {
        assert_eq!(frame[i], i as u8);
    }
    assert_eq!(frame[127], 200);
    assert_eq!(buffer.len(), 0);
    // the next frame starts from nothing
    assert_eq!(buffer.push_byte(9), None);
    assert_eq!(buffer.len(), 1);
}

#[test]
fn frames_keep_the_order_of_the_bytes() {
    let mut buffer = CommandBuffer::new();
    let stream: Vec<u8> = (0..300u32).map(|i| (i % 251) as u8).collect();
    let frames = buffer.extend(&stream);
    assert_eq!(frames.len(), 2);
    assert_eq!(&frames[0][..], &stream[0..128]);
    assert_eq!(&frames[1][..], &stream[128..256]);
    assert_eq!(buffer.len(), 44);
    // the rest completes with the bytes that follow
    let more: Vec<u8> = (0..84u32).map(|i| (255 - i) as u8).collect();
    let frames = buffer.extend(&more);
    assert_eq!(frames.len(), 1);
    assert_eq!(&frames[0][..44], &stream[256..300]);
    assert_eq!(&frames[0][44..], &more[..]);
    assert_eq!(buffer.len(), 0);
}

#[test]
fn short_runs_accumulate() {
    let mut buffer = CommandBuffer::new();
    assert!(buffer.extend(&[]).is_empty());
    assert_eq!(buffer.len(), 0);
    assert!(buffer.extend(&[1u8; 64]).is_empty());
    assert_eq!(buffer.len(), 64);
    assert!(buffer.extend(&[2u8; 63]).is_empty());
    assert_eq!(buffer.len(), 127);
    let frames = buffer.extend(&[3u8; 64]);
    assert_eq!(frames.len(), 1);
    assert_eq!(&frames[0][..64], &[1u8; 64][..]);
    assert_eq!(&frames[0][64..127], &[2u8; 63][..]);
    assert_eq!(frames[0][127], 3);
    assert_eq!(buffer.len(), 63);
}

#[test]
fn a_whole_frame_at_once() {
    let mut buffer = CommandBuffer::new();
    let frames = buffer.extend(&[7u8; 128]);
    assert_eq!(frames, vec![[7u8; 128]]);
    assert_eq!(buffer.len(), 0);
}

#[test]
fn channels_follow_the_conversion_run() {
    assert_eq!(sequence_channel(0), Some(SensorTypes::TPS));
    assert_eq!(sequence_channel(1), Some(SensorTypes::CoolantTemp));
    assert_eq!(sequence_channel(2), Some(SensorTypes::AirTemp));
    assert_eq!(sequence_channel(3), Some(SensorTypes::MAP));
    assert_eq!(sequence_channel(4), Some(SensorTypes::ExternalLambda));
    assert_eq!(sequence_channel(5), Some(SensorTypes::BatteryVoltage));
    assert_eq!(sequence_channel(6), None);
    assert_eq!(sequence_channel(usize::MAX), None);
}

#[test]
fn a_reading_replaces_only_its_channel() {
    let mut values = SensorValues::new();
    for channel in [
        SensorTypes::TPS,
        SensorTypes::CoolantTemp,
        SensorTypes::AirTemp,
        SensorTypes::MAP,
        SensorTypes::ExternalLambda,
        SensorTypes::BatteryVoltage,
    ] {
        assert_eq!(values.get(channel), 0);
    }
    values.update(13_800, SensorTypes::BatteryVoltage);
    values.update(450, SensorTypes::TPS);
    assert_eq!(values.get(SensorTypes::BatteryVoltage), 13_800);
    assert_eq!(values.get(SensorTypes::TPS), 450);
    assert_eq!(values.get(SensorTypes::MAP), 0);
    values.update(12_100, SensorTypes::BatteryVoltage);
    assert_eq!(values.get(SensorTypes::BatteryVoltage), 12_100);
    assert_eq!(values.get(SensorTypes::TPS), 450);
}

#[test]
fn a_conversion_run_fills_every_channel() {
    let mut values = SensorValues::new();
    values.update_all(&[10, 20, 30, 40, 50, 60]);
    assert_eq!(values.get(SensorTypes::TPS), 10);
    assert_eq!(values.get(SensorTypes::CoolantTemp), 20);
    assert_eq!(values.get(SensorTypes::AirTemp), 30);
    assert_eq!(values.get(SensorTypes::MAP), 40);
    assert_eq!(values.get(SensorTypes::ExternalLambda), 50);
    assert_eq!(values.get(SensorTypes::BatteryVoltage), 60);
    assert_eq!(
        values,
        SensorValues { tps: 10, clt: 20, iat: 30, map: 40, o2: 50, vbatt: 60 }
    );
}

#[test]
fn clock_needs_a_rate() {
    assert!(EdgeClock::new(0, 0).is_none());
    assert!(EdgeClock::new(0, 1).is_some());
}

#[test]
fn clock_counts_microseconds() {
    let mut clock = EdgeClock::new(1000, 120).unwrap();
    assert_eq!(clock.now(1000), 0);
    assert_eq!(clock.now(1119), 0);
    assert_eq!(clock.now(1120), 1);
    assert_eq!(clock.now(121_000), 1000);
    // reading twice at the same count adds nothing
    assert_eq!(clock.now(121_000), 1000);
}

#[test]
fn clock_follows_the_counter_around_its_wrap() {
    let mut clock = EdgeClock::new(u32::MAX - 59, 120).unwrap();
    // 60 cycles to the wrap and 60 beyond
    assert_eq!(clock.now(60), 1);
    // one cycle short of a full wrap later
    assert_eq!(clock.now(59), 1 + ((1u64 << 32) - 1) / 120);
    let mut clock = EdgeClock::new(5, 1).unwrap();
    assert_eq!(clock.now(4), (1u64 << 32) - 1);
    assert_eq!(clock.now(3), 2 * ((1u64 << 32) - 1));
}

#[test]
fn clock_never_runs_backwards() {
    let mut clock = EdgeClock::new(0, 7).unwrap();
    let mut last = 0;
    let mut count: u32 = 0;
    for step in [1u32, 6, 7, 4_000_000_000, 4_000_000_000, 13, 0, u32::MAX] {
        count = count.wrapping_add(step);
        let now = clock.now(count);
        assert!(now >= last);
        last = now;
    }
    assert_eq!(last, (1 + 6 + 7 + 8_000_000_000u64 + 13 + u32::MAX as u64) / 7);
}
