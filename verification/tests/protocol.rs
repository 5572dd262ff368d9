//! Primitive values, plot channels and the stream protocol decoder.

use bluetooth_monitor::ble::model::CharacteristicKey;
use bluetooth_monitor::numbers::{F32Bits, F64Bits};
use bluetooth_monitor::plotting::{
    decode_value, default_channels, PlotChannel, PlotChannelConfig, PlotSample, PlotValueType,
    RawValue, ScaledValue,
};
use bluetooth_monitor::protocol::{
    decode_frame, judge_crc, same_bytes, validate_crc, CrcMode, CrcStatus, Endian, FieldDefinition,
    FrameMode, ProtocolConfig, ProtocolDecoder, StreamProtocolDecoder, MAX_BUFFER_BYTES,
    MAX_FRAME_BYTES,
};
use crc::{Crc, CRC_16_IBM_SDLC, CRC_16_MODBUS, CRC_16_XMODEM, CRC_8_SMBUS};

fn number(raw: RawValue) -> f64 {
    match raw {
        RawValue::Int(value) => value as f64,
        RawValue::Float(value) => f32::from_bits(value.bits) as f64,
    }
}

fn scaled(value: ScaledValue) -> f64 {
    number(value.raw) * f64::from_bits(value.scale.bits) + f64::from_bits(value.bias.bits)
}

fn bits(value: f64) -> F64Bits {
    F64Bits { bits: value.to_bits() }
}

fn config(frame_mode: FrameMode) -> ProtocolConfig {
    ProtocolConfig { enabled: true, frame_mode, ..ProtocolConfig::default() }
}

fn decoder(frame_mode: FrameMode) -> StreamProtocolDecoder {
    let mut decoder = StreamProtocolDecoder::default();
    decoder.configure(&config(frame_mode));
    decoder
}

#[test]
fn decodes_integer_endianness() {
    assert_eq!(
        decode_value(&[0x34, 0x12], 0, PlotValueType::U16Le).map(number),
        Some(0x1234 as f64)
    );
    assert_eq!(
        decode_value(&[0x12, 0x34], 0, PlotValueType::U16Be).map(number),
        Some(0x1234 as f64)
    );
}

#[test]
fn rejects_short_payload() {
    assert_eq!(decode_value(&[1], 0, PlotValueType::U32Le), None);
}

#[test]
fn every_primitive_type_is_decoded() {
    let data = [0xFE, 0x80, 0x01, 0xC0];
    let at = |value_type| decode_value(&data, 0, value_type).map(number).unwrap();
    assert_eq!(at(PlotValueType::U8), 254.0);
    assert_eq!(at(PlotValueType::I8), -2.0);
    assert_eq!(at(PlotValueType::U16Le), u16::from_le_bytes([0xFE, 0x80]) as f64);
    assert_eq!(at(PlotValueType::U16Be), u16::from_be_bytes([0xFE, 0x80]) as f64);
    assert_eq!(at(PlotValueType::I16Le), i16::from_le_bytes([0xFE, 0x80]) as f64);
    assert_eq!(at(PlotValueType::I16Be), i16::from_be_bytes([0xFE, 0x80]) as f64);
    assert_eq!(at(PlotValueType::U32Le), u32::from_le_bytes(data) as f64);
    assert_eq!(at(PlotValueType::U32Be), u32::from_be_bytes(data) as f64);
    assert_eq!(at(PlotValueType::I32Le), i32::from_le_bytes(data) as f64);
    assert_eq!(at(PlotValueType::I32Be), i32::from_be_bytes(data) as f64);
    assert_eq!(at(PlotValueType::F32Le), f32::from_le_bytes(data) as f64);
    assert_eq!(at(PlotValueType::F32Be), f32::from_be_bytes(data) as f64);
}

#[test]
fn values_that_are_not_finite_are_passed_over() {
    assert_eq!(decode_value(&f32::NAN.to_le_bytes(), 0, PlotValueType::F32Le), None);
    assert_eq!(decode_value(&f32::INFINITY.to_be_bytes(), 0, PlotValueType::F32Be), None);
    assert_eq!(decode_value(&[1, 2], usize::MAX, PlotValueType::U8), None);
    assert_eq!(
        decode_value(&1.5f32.to_le_bytes(), 0, PlotValueType::F32Le),
        Some(RawValue::Float(F32Bits { bits: 1.5f32.to_bits() }))
    );
}

#[test]
fn value_types_have_labels_and_widths() {
    assert_eq!(PlotValueType::ALL.len(), 12);
    assert_eq!(PlotValueType::default(), PlotValueType::U8);
    assert_eq!(PlotValueType::I16Be.label(), "i16 BE");
    assert_eq!(PlotValueType::F32Le.label(), "f32 LE");
    assert_eq!(PlotValueType::ALL.map(|t| t.width()), [1, 1, 2, 2, 2, 2, 4, 4, 4, 4, 4, 4]);
}

fn key(name: &str) -> CharacteristicKey {
    CharacteristicKey { service_uuid: "service".to_owned(), characteristic_uuid: name.to_owned() }
}

#[test]
fn plot_channel_keeps_the_newest_samples() {
    let mut channel = PlotChannel::new(PlotChannelConfig {
        enabled: true,
        source: Some(key("char")),
        value_type: PlotValueType::U8,
        scale: bits(2.0),
        bias: bits(1.0),
        ..PlotChannelConfig::default()
    });
    for byte in [1u8, 2, 3] {
        let reading = channel.reading(&key("char"), &[byte]).unwrap();
        channel.ingest(&key("char"), &[byte], bits(scaled(reading)), 2);
    }
    let samples: Vec<PlotSample> = channel.samples.iter().copied().collect();
    assert_eq!(
        samples,
        vec![
            PlotSample { number: 2, value: bits(5.0) },
            PlotSample { number: 3, value: bits(7.0) },
        ]
    );
    assert_eq!(channel.reading(&key("other"), &[1]), None);
    channel.ingest(&key("other"), &[1], bits(9.0), 2);
    channel.ingest(&key("char"), &[1], bits(f64::NAN), 2);
    assert_eq!(channel.counter, 3);
    channel.config.enabled = false;
    assert_eq!(channel.reading(&key("char"), &[1]), None);
    channel.clear();
    assert_eq!(channel.samples.len(), 0);
    assert_eq!(channel.counter, 0);
}

#[test]
fn default_channels_are_numbered() {
    let names: Vec<String> = default_channels().into_iter().map(|c| c.name).collect();
    assert_eq!(names, vec!["CH1", "CH2", "CH3", "CH4"]);
    assert_eq!(PlotChannelConfig::default().name, "CH1");
}

#[test]
fn fixed_length_reassembles_stream() {
    let mut decoder = StreamProtocolDecoder::default();
    decoder.configure(&ProtocolConfig {
        enabled: true,
        frame_mode: FrameMode::FixedLength { length: 4 },
        ..ProtocolConfig::default()
    });
    assert!(decoder.push(&[1, 2]).is_empty());
    let frames = decoder.push(&[3, 4, 5, 6, 7, 8]);
    assert_eq!(frames.len(), 2);
    assert_eq!(frames[0].data, vec![1, 2, 3, 4]);
    assert_eq!(frames[1].data, vec![5, 6, 7, 8]);
}

#[test]
fn delimiter_reassembles_stream() {
    let mut decoder = StreamProtocolDecoder::default();
    decoder.configure(&ProtocolConfig {
        enabled: true,
        frame_mode: FrameMode::Delimiter { delimiter: vec![0x0D, 0x0A], keep: false },
        ..ProtocolConfig::default()
    });
    let frames = decoder.push(b"ABC\r\nDEF\r\n");
    assert_eq!(frames.len(), 2);
    assert_eq!(frames[0].data, b"ABC".to_vec());
    assert_eq!(frames[1].data, b"DEF".to_vec());
}

#[test]
fn length_field_reassembles_stream() {
    let mut decoder = StreamProtocolDecoder::default();
    decoder.configure(&ProtocolConfig {
        enabled: true,
        frame_mode: FrameMode::LengthField {
            offset: 0,
            width: 1,
            endian: Endian::Little,
            adjustment: 0,
        },
        ..ProtocolConfig::default()
    });
    let frames = decoder.push(&[3, 0xAA, 0xBB, 4, 1, 2, 3]);
    assert_eq!(frames.len(), 2);
    assert_eq!(frames[0].data, vec![3, 0xAA, 0xBB]);
    assert_eq!(frames[1].data, vec![4, 1, 2, 3]);
}

#[test]
fn delimiter_can_span_notifications() {
    let mut decoder = StreamProtocolDecoder::default();
    decoder.configure(&ProtocolConfig {
        enabled: true,
        frame_mode: FrameMode::Delimiter { delimiter: vec![0x0D, 0x0A], keep: false },
        ..ProtocolConfig::default()
    });
    assert!(decoder.push(b"ABC\r").is_empty());
    let frames = decoder.push(b"\nDEF\r\n");
    assert_eq!(frames.len(), 2);
    assert_eq!(frames[0].data, b"ABC".to_vec());
    assert_eq!(frames[1].data, b"DEF".to_vec());
}

#[test]
fn decoded_fields_apply_scale_and_bias() {
    let config = ProtocolConfig {
        enabled: true,
        fields: vec![FieldDefinition {
            name: "temperature".to_owned(),
            offset: 0,
            value_type: PlotValueType::U16Le,
            scale: bits(0.1),
            bias: bits(-40.0),
        }],
        ..ProtocolConfig::default()
    };
    let frame = decode_frame(vec![0xF4, 0x01], &config);
    assert_eq!(frame.fields[0].name, "temperature");
    let value = scaled(frame.fields[0].value.unwrap());
    assert!((value - 10.0).abs() < 1e-9);
}

#[test]
fn modbus_crc_is_validated() {
    let mut frame = b"123456789".to_vec();
    let crc = Crc::<u16>::new(&CRC_16_MODBUS).checksum(&frame);
    frame.extend_from_slice(&crc.to_le_bytes());
    assert_eq!(validate_crc(&frame, CrcMode::Crc16ModbusLeTail), CrcStatus::Valid);
}

#[test]
fn every_checksum_is_that_of_the_catalogue() {
    let body = b"123456789".to_vec();
    let tails: [(CrcMode, Vec<u8>); 5] = [
        (CrcMode::Crc8SmbusTail, vec![0xF4]),
        (CrcMode::Crc16ModbusLeTail, 0x4B37u16.to_le_bytes().to_vec()),
        (CrcMode::Crc16ModbusBeTail, 0x4B37u16.to_be_bytes().to_vec()),
        (CrcMode::Crc16XmodemBeTail, 0x31C3u16.to_be_bytes().to_vec()),
        (CrcMode::Crc16IbmSdlcLeTail, 0x906Eu16.to_le_bytes().to_vec()),
    ];
    assert_eq!(Crc::<u8>::new(&CRC_8_SMBUS).checksum(&body), 0xF4);
    assert_eq!(Crc::<u16>::new(&CRC_16_MODBUS).checksum(&body), 0x4B37);
    assert_eq!(Crc::<u16>::new(&CRC_16_XMODEM).checksum(&body), 0x31C3);
    assert_eq!(Crc::<u16>::new(&CRC_16_IBM_SDLC).checksum(&body), 0x906E);
    for (mode, tail) in tails {
        let mut frame = body.clone();
        frame.extend_from_slice(&tail);
        assert_eq!(validate_crc(&frame, mode), CrcStatus::Valid, "{mode:?}");
        let last = frame.len() - 1;
        frame[last] ^= 1;
        assert_eq!(validate_crc(&frame, mode), CrcStatus::Invalid, "{mode:?}");
        assert_eq!(validate_crc(&tail, mode), CrcStatus::TooShort, "{mode:?}");
        assert_eq!(mode.width(), tail.len());
    }
    assert_eq!(validate_crc(&body, CrcMode::NoCrc), CrcStatus::Disabled);
    assert_eq!(validate_crc(&[], CrcMode::NoCrc), CrcStatus::Disabled);
}

#[test]
fn checksum_verdict_for_a_given_checksum() {
    assert_eq!(judge_crc(&[9, 0x34, 0x12], CrcMode::Crc16ModbusLeTail, 0x1234), CrcStatus::Valid);
    assert_eq!(judge_crc(&[9, 0x34, 0x12], CrcMode::Crc16ModbusBeTail, 0x1234), CrcStatus::Invalid);
    assert_eq!(judge_crc(&[9, 0x12, 0x34], CrcMode::Crc16XmodemBeTail, 0x1234), CrcStatus::Valid);
    assert_eq!(judge_crc(&[9, 0x34], CrcMode::Crc8SmbusTail, 0x34), CrcStatus::Valid);
    assert_eq!(judge_crc(&[0x34], CrcMode::Crc8SmbusTail, 0x34), CrcStatus::TooShort);
}

#[test]
fn labels_of_the_analyzer() {
    assert_eq!(Endian::ALL.map(|e| e.label()), ["LE", "BE"]);
    assert_eq!(CrcMode::ALL[1].label(), "CRC-8/SMBUS tail");
    assert_eq!(CrcMode::default().label(), "None");
    assert_eq!(
        [CrcStatus::Disabled, CrcStatus::Valid, CrcStatus::Invalid, CrcStatus::TooShort]
            .map(|s| s.label()),
        ["-", "OK", "BAD", "SHORT"]
    );
    assert_eq!(FrameMode::default().label(), "BLE packet");
    assert_eq!(FrameMode::FixedLength { length: 1 }.label(), "Fixed length");
}

#[test]
fn packets_are_frames_without_buffering() {
    let mut decoder = decoder(FrameMode::BlePacket);
    let frames = decoder.push(&[7, 8]);
    assert_eq!(frames.len(), 1);
    assert_eq!(frames[0].data, vec![7, 8]);
    assert_eq!(frames[0].crc, CrcStatus::Disabled);
    assert_eq!(decoder.buffered_bytes(), 0);
    assert!(decoder.push(&[]).is_empty());
}

#[test]
fn nothing_is_decoded_while_off() {
    let mut decoder = StreamProtocolDecoder::default();
    assert!(decoder.push(&[1, 2, 3]).is_empty());
    assert_eq!(decoder.buffered_bytes(), 0);
}

#[test]
fn where_a_stream_is_cut_does_not_matter() {
    let data: Vec<u8> = (0u8..100).map(|i| if i % 7 == 0 { b'\n' } else { i }).collect();
    let modes = [
        FrameMode::FixedLength { length: 7 },
        FrameMode::Delimiter { delimiter: vec![b'\n'], keep: true },
        FrameMode::LengthField { offset: 1, width: 1, endian: Endian::Big, adjustment: 1 },
    ];
    for mode in modes {
        let mut whole = decoder(mode.clone());
        let expected: Vec<Vec<u8>> = whole.push(&data).into_iter().map(|f| f.data).collect();
        for cut in 1..data.len() {
            let mut split = decoder(mode.clone());
            let mut frames: Vec<Vec<u8>> =
                split.push(&data[..cut]).into_iter().map(|f| f.data).collect();
            frames.extend(split.push(&data[cut..]).into_iter().map(|f| f.data));
            assert_eq!(frames, expected);
            assert_eq!(split.buffered_bytes(), whole.buffered_bytes());
        }
    }
}

#[test]
fn delimiter_may_stay_in_the_frame() {
    let mut decoder = decoder(FrameMode::Delimiter { delimiter: b"--".to_vec(), keep: true });
    let frames = decoder.push(b"a---b--");
    assert_eq!(frames.len(), 2);
    assert_eq!(frames[0].data, b"a--".to_vec());
    assert_eq!(frames[1].data, b"-b--".to_vec());
}

#[test]
fn length_fields_of_all_widths() {
    let mut wide = decoder(FrameMode::LengthField {
        offset: 1,
        width: 4,
        endian: Endian::Big,
        adjustment: 6,
    });
    let frames = wide.push(&[0x55, 0, 0, 0, 1, 0xAA, 0xBB, 0x55]);
    assert_eq!(frames.len(), 1);
    assert_eq!(frames[0].data, vec![0x55, 0, 0, 0, 1, 0xAA, 0xBB]);
    assert_eq!(wide.buffered_bytes(), 1);

    let mut two = decoder(FrameMode::LengthField {
        offset: 0,
        width: 2,
        endian: Endian::Little,
        adjustment: 0,
    });
    assert!(two.push(&[4, 0, 3]).is_empty());
    let frames = two.push(&[9, 4]);
    assert_eq!(frames.len(), 1);
    assert_eq!(frames[0].data, vec![4, 0, 3, 9]);
}

#[test]
fn unusable_framing_drops_every_byte() {
    let modes = [
        FrameMode::FixedLength { length: 0 },
        FrameMode::FixedLength { length: MAX_FRAME_BYTES + 1 },
        FrameMode::Delimiter { delimiter: Vec::new(), keep: false },
        FrameMode::Delimiter { delimiter: vec![0; 257], keep: false },
        FrameMode::LengthField { offset: 0, width: 3, endian: Endian::Big, adjustment: 0 },
        FrameMode::LengthField { offset: 4_097, width: 1, endian: Endian::Big, adjustment: 0 },
    ];
    for mode in modes {
        let mut decoder = decoder(mode);
        assert!(decoder.push(&[1, 2, 3]).is_empty());
        assert_eq!(decoder.buffered_bytes(), 0);
    }
}

#[test]
fn length_that_does_not_cover_its_field_resynchronises() {
    let mut decoder = decoder(FrameMode::LengthField {
        offset: 0,
        width: 1,
        endian: Endian::Little,
        adjustment: -1,
    });
    let frames = decoder.push(&[0, 1, 3, 7]);
    assert_eq!(frames.len(), 1);
    assert_eq!(frames[0].data, vec![3, 7]);
}

#[test]
fn long_runs_without_a_delimiter_are_dropped_byte_by_byte() {
    let mut decoder = decoder(FrameMode::Delimiter { delimiter: vec![0xFF], keep: false });
    assert!(decoder.push(&vec![1u8; MAX_FRAME_BYTES]).is_empty());
    assert_eq!(decoder.buffered_bytes(), MAX_FRAME_BYTES);
    assert!(decoder.push(&[2, 2]).is_empty());
    assert_eq!(decoder.buffered_bytes(), MAX_FRAME_BYTES);
    let frames = decoder.push(&[0xFF]);
    assert_eq!(frames.len(), 1);
    assert_eq!(frames[0].data.len(), MAX_FRAME_BYTES - 1);
}

#[test]
fn buffer_keeps_its_newest_bytes() {
    let mut decoder = decoder(FrameMode::FixedLength { length: MAX_FRAME_BYTES });
    let mut data = vec![1u8; 5];
    data.extend(vec![2u8; MAX_BUFFER_BYTES]);
    let frames = decoder.push(&data);
    assert_eq!(frames.len(), MAX_BUFFER_BYTES / MAX_FRAME_BYTES);
    assert!(frames[0].data.iter().all(|byte| *byte == 2));
    assert_eq!(decoder.buffered_bytes(), 0);
}

#[test]
fn changed_configuration_drops_what_waits() {
    let mut decoder = decoder(FrameMode::FixedLength { length: 4 });
    assert!(decoder.push(&[1, 2]).is_empty());
    decoder.configure(&config(FrameMode::FixedLength { length: 4 }));
    assert_eq!(decoder.buffered_bytes(), 2);
    let mut zero = config(FrameMode::FixedLength { length: 4 });
    zero.fields[0].bias = bits(-0.0);
    decoder.configure(&zero);
    assert_eq!(decoder.buffered_bytes(), 2);
    let mut renamed = config(FrameMode::FixedLength { length: 4 });
    renamed.fields[0].name = "other".to_owned();
    decoder.configure(&renamed);
    assert_eq!(decoder.buffered_bytes(), 0);
    assert!(decoder.push(&[1, 2]).is_empty());
    decoder.reset();
    assert_eq!(decoder.buffered_bytes(), 0);

    let mut odd = config(FrameMode::FixedLength { length: 4 });
    odd.fields[0].scale = bits(f64::NAN);
    decoder.configure(&odd);
    assert!(decoder.push(&[1]).is_empty());
    decoder.configure(&odd);
    assert_eq!(decoder.buffered_bytes(), 0);
}

#[test]
fn fields_outside_the_frame_are_missing() {
    let mut settings = config(FrameMode::BlePacket);
    settings.crc = CrcMode::Crc8SmbusTail;
    settings.fields = vec![
        FieldDefinition { name: "near".to_owned(), ..FieldDefinition::default() },
        FieldDefinition { name: "far".to_owned(), offset: 9, ..FieldDefinition::default() },
    ];
    let frame = decode_frame(vec![5], &settings);
    assert_eq!(frame.crc, CrcStatus::TooShort);
    assert_eq!(frame.fields[0].value.map(scaled), Some(5.0));
    assert_eq!(frame.fields[1].value, None);
    assert_eq!(frame.clone(), frame);
}

#[test]
fn configurations_are_compared_by_value() {
    assert!(same_bytes(&[1, 2], &[1, 2]));
    assert!(!same_bytes(&[1, 2], &[1, 3]));
    assert!(!same_bytes(&[1, 2], &[1]));
    let a = FrameMode::LengthField { offset: 1, width: 2, endian: Endian::Big, adjustment: -3 };
    assert!(a.same(&a.clone()));
    assert!(!a.same(&FrameMode::BlePacket));
    assert!(ProtocolConfig::default().same(&ProtocolConfig::default()));
}

#[test]
fn delimited_frames_and_the_rest_give_back_the_stream() {
    let stream = b"ab--c----d-e";
    for keep in [false, true] {
        let mut decoder = decoder(FrameMode::Delimiter { delimiter: b"--".to_vec(), keep });
        let mut joined = Vec::new();
        for frame in decoder.push(stream) {
            assert_eq!(frame.data.ends_with(b"--"), keep);
            joined.extend_from_slice(&frame.data);
            if !keep {
                joined.extend_from_slice(b"--");
            }
        }
        assert_eq!(decoder.buffered_bytes(), 3);
        joined.extend_from_slice(b"d-e");
        assert_eq!(joined, stream.to_vec());
    }
}

#[test]
fn no_more_than_a_frame_waits() {
    let mut decoder = decoder(FrameMode::Delimiter { delimiter: vec![0xFF], keep: false });
    decoder.push(&vec![1u8; MAX_FRAME_BYTES + 1_000]);
    assert_eq!(decoder.buffered_bytes(), MAX_FRAME_BYTES);
}
