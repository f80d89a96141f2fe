use bytes::BytesMut;
use svroll::frame::{FrameError, ModbusFrame, RequestCodec, ResponseCodec};

fn wire(unit: u8, fc: u8, regs: &[u16]) -> Vec<u8> {
    ModbusFrame::new_read_response(unit, fc, regs).encode_to_vec()
}

#[test]
fn encode_uses_modbus_crc_low_byte_first() {
    let frame = ModbusFrame {
        unit_id: 1,
        function_code: 3,
        data: vec![0x00, 0x00, 0x00, 0x0A],
        crc: 0,
        len: 8,
    };
    assert_eq!(frame.encode_to_vec(), vec![0x01, 0x03, 0x00, 0x00, 0x00, 0x0A, 0xC5, 0xCD]);
    let frozen = frame.encode_frame();
    assert_eq!(&frozen[..], &[0x01, 0x03, 0x00, 0x00, 0x00, 0x0A, 0xC5, 0xCD]);
}

#[test]
fn new_read_response_layout() {
    let f = ModbusFrame::new_read_response(7, 4, &[0x1234, 0x00FF]);
    assert_eq!(f.unit_id, 7);
    assert_eq!(f.function_code, 4);
    assert_eq!(f.data, vec![4, 0x12, 0x34, 0x00, 0xFF]);
    assert_eq!(f.crc, 0);
    assert_eq!(f.total_length(), 9);
}

#[test]
fn round_trip_gives_registers_back() {
    let regs = [1u16, 0xBEEF, 0, 65535, 42];
    let bytes = wire(0x11, 3, &regs);
    let mut buf = BytesMut::from(&bytes[..]);
    let mut frame = ModbusFrame::new();
    assert_eq!(frame.parse_frame(&mut buf), Ok(true));
    assert!(buf.is_empty());
    assert_eq!(frame.unit_id, 0x11);
    assert_eq!(frame.function_code, 3);
    assert_eq!(frame.len, bytes.len());
    assert_eq!(frame.parse_read_response(), Ok(regs.to_vec()));
}

#[test]
fn round_trip_leaves_following_bytes() {
    let mut bytes = wire(1, 4, &[10, 20]);
    bytes.extend_from_slice(&[0xAA, 0xBB]);
    let mut buf = BytesMut::from(&bytes[..]);
    let mut frame = ModbusFrame::new();
    assert_eq!(frame.parse_frame(&mut buf), Ok(true));
    assert_eq!(&buf[..], &[0xAA, 0xBB]);
    assert_eq!(frame.parse_read_response(), Ok(vec![10, 20]));
}

#[test]
fn every_single_bit_flip_in_registers_is_a_checksum_error() {
    let bytes = wire(1, 3, &[0x0102, 0x0304, 0xA0B0]);
    for pos in 3..bytes.len() - 2 {
        for bit in 0..8 {
            let mut corrupted = bytes.clone();
            corrupted[pos] ^= 1 << bit;
            let mut buf = BytesMut::from(&corrupted[..]);
            let mut frame = ModbusFrame::new();
            let r = frame.parse_frame(&mut buf);
            assert!(matches!(r, Err(FrameError::ChecksumMismatch { .. })), "pos {} bit {}", pos, bit);
            assert_eq!(&buf[..], &corrupted[..]);
        }
    }
}

#[test]
fn short_buffers_need_more_data() {
    let bytes = wire(1, 3, &[5, 6, 7]);
    for k in 0..bytes.len() {
        let mut buf = BytesMut::from(&bytes[..k]);
        let mut frame = ModbusFrame::new();
        assert_eq!(frame.parse_frame(&mut buf), Ok(false));
        assert_eq!(buf.len(), k);
        assert_eq!(frame.len, 4);
    }
}

#[test]
fn other_function_codes_take_eight_bytes() {
    let frame = ModbusFrame { unit_id: 2, function_code: 6, data: vec![0, 1, 0, 3], crc: 0, len: 8 };
    let bytes = frame.encode_to_vec();
    assert_eq!(bytes.len(), 8);
    let mut buf = BytesMut::from(&bytes[..7]);
    let mut f = ModbusFrame::new();
    assert_eq!(f.parse_frame(&mut buf), Ok(false));
    let mut buf = BytesMut::from(&bytes[..]);
    assert_eq!(f.parse_frame(&mut buf), Ok(true));
    assert_eq!(f.data, vec![0, 1, 0, 3]);
    assert_eq!(f.parse_read_response(), Err(FrameError::UnsupportedFunction { function_code: 6 }));
}

#[test]
fn parse_read_response_errors() {
    let empty = ModbusFrame { unit_id: 1, function_code: 3, data: vec![], crc: 0, len: 4 };
    assert_eq!(empty.parse_read_response(), Err(FrameError::EmptyData));
    assert_eq!(empty.get_byte_count(), Err(FrameError::EmptyData));
    let mismatch = ModbusFrame { unit_id: 1, function_code: 3, data: vec![4, 0, 1], crc: 0, len: 7 };
    assert_eq!(
        mismatch.parse_read_response(),
        Err(FrameError::ByteCountMismatch { expected: 5, actual: 3 })
    );
    let odd = ModbusFrame { unit_id: 1, function_code: 4, data: vec![3, 0, 1, 2], crc: 0, len: 8 };
    assert_eq!(odd.parse_read_response(), Err(FrameError::OddByteCount { byte_count: 3 }));
    assert_eq!(odd.get_byte_count(), Ok(3));
}

#[test]
fn update_length_counts_data() {
    let mut f = ModbusFrame::new();
    f.data = vec![1, 2, 3];
    f.update_length();
    assert_eq!(f.total_length(), 7);
}

#[test]
fn codecs_decode_and_encode() {
    let mut codec = RequestCodec;
    let mut buf = BytesMut::new();
    assert!(matches!(codec.decode(&mut buf), Ok(None)));
    let bytes = wire(9, 3, &[0x1111]);
    buf.extend_from_slice(&bytes[..3]);
    assert!(matches!(codec.decode(&mut buf), Ok(None)));
    buf.extend_from_slice(&bytes[3..]);
    let frame = codec.decode(&mut buf).unwrap().unwrap();
    assert_eq!(frame.parse_read_response(), Ok(vec![0x1111]));

    let mut out = BytesMut::new();
    let mut enc = ResponseCodec;
    assert!(enc.encode(frame.clone(), &mut out).is_ok());
    assert_eq!(&out[..], &bytes[..]);

    let mut buf = BytesMut::from(&bytes[..2]);
    assert_eq!(ModbusFrame::try_from_buffer(&mut buf).unwrap_err(), FrameError::Incomplete);
}
