use tusk::{get_max_encode_buffer_size, DecodeError, TuskEncoder};

#[test]
fn decode_test() {
    let encoder = TuskEncoder::new(0);
    let data = [1, 2, 1, 3, 4];
    let encoded = encoder.encode(&data);
    let result = encoder.decode(&encoded).unwrap();
    assert_eq!(result, data);
}

#[test]
fn decode_delimiter() {
    for num in 0x00..=0xff {
        let encoder = TuskEncoder::new(num);
        let data = (0x00..=0xfe).collect::<Vec<u8>>();
        let encoded = encoder.encode(&data);
        let result = encoder.decode(&encoded).unwrap();
        assert_eq!(result, data, "Failed for num: {}", num);
    }
}

#[test]
fn encode_delimiter() {
    let encoder = TuskEncoder::new(1);
    let result = encoder.encode(&[1, 2, 1, 3, 4]);
    let expected = [1, 2, 2, 3, 3, 4, 1];
    assert_eq!(result, expected);

    for num in 0x00..=0xfd {
        let encoder = TuskEncoder::new(num);
        let data = (0x00..=0xfe).collect::<Vec<u8>>();
        let result = encoder.encode(&data);
        let mut expected = data.clone();
        expected[num as usize] = 0xff - num;
        expected.insert(0, num + 1);
        expected.push(num);
        assert_eq!(result, expected, "Failed for num: {}", num);
    }
}

#[test]
fn encode00() {
    let encoder = TuskEncoder::new(0);

    let result = encoder.encode(&[1, 2, 3, 4]);
    let expected = [5, 1, 2, 3, 4, 0];
    assert_eq!(result, expected);

    let result = encoder.encode(&[1, 2, 0, 3, 4]);
    let expected = [3, 1, 2, 3, 3, 4, 0];
    assert_eq!(result, expected);

    let result = encoder.encode(&[1, 2, 0, 3, 4, 0]);
    let expected = [3, 1, 2, 3, 3, 4, 1, 0];
    assert_eq!(result, expected);
}

#[test]
fn encode_size() {
    let data = (0x01..=0xfe).collect::<Vec<u8>>();
    let buffer_size = get_max_encode_buffer_size(data.len());
    let overhead = buffer_size - data.len();
    assert_eq!(overhead, 2);

    let data = (0x01..=0xff).collect::<Vec<u8>>();
    let buffer_size = get_max_encode_buffer_size(data.len());
    let overhead = buffer_size - data.len();
    assert_eq!(overhead, 3);
}

#[test]
fn encode01() {
    let encoder = TuskEncoder::new(0);

    let result = encoder.encode(&[0x00]);
    let expected = [0x01, 0x01, 0x00];
    assert_eq!(result, expected);
}

#[test]
fn encode02() {
    let encoder = TuskEncoder::new(0);

    let result = encoder.encode(&[0x00, 0x00]);
    let expected = [0x01, 0x01, 0x01, 0x00];
    assert_eq!(result, expected);
}

#[test]
fn encode03() {
    let encoder = TuskEncoder::new(0);

    let result = encoder.encode(&[0x00, 0x11, 0x00]);
    let expected = [0x01, 0x02, 0x11, 0x01, 0x00];
    assert_eq!(result, expected);
}

#[test]
fn encode04() {
    let encoder = TuskEncoder::new(0);

    let result = encoder.encode(&[0x11, 0x22, 0x00, 0x33]);
    let expected = [0x03, 0x11, 0x22, 0x02, 0x33, 0x00];
    assert_eq!(result, expected);
}

#[test]
fn encode05() {
    let encoder = TuskEncoder::new(0);

    let result = encoder.encode(&[0x11, 0x22, 0x33, 0x44]);
    let expected = [0x05, 0x11, 0x22, 0x33, 0x44, 0x00];
    assert_eq!(result, expected);
}

#[test]
fn encode06() {
    let encoder = TuskEncoder::new(0);

    let result = encoder.encode(&[0x11, 0x00, 0x00, 0x00]);
    let expected = [0x02, 0x11, 0x01, 0x01, 0x01, 00];
    assert_eq!(result, expected);
}

#[test]
fn encode07() {
    let encoder = TuskEncoder::new(0);

    let data = (0x01..=0xfe).collect::<Vec<u8>>();
    let result = encoder.encode(&data);

    let mut expected = data.clone();
    expected.insert(0, 0xff);
    expected.push(0x00);
    assert_eq!(result, expected);
}

#[test]
fn encode08() {
    let encoder = TuskEncoder::new(0);

    let data = (0x00..=0xfe).collect::<Vec<u8>>();
    let result = encoder.encode(&data);

    let mut expected = data;
    expected.remove(0);
    expected.insert(0, 0xff);
    expected.insert(0, 0x01);
    expected.push(0x00);

    assert_eq!(result, expected);
}

#[test]
fn encode09() {
    let encoder = TuskEncoder::new(0);

    let data = (0x01..=0xff).collect::<Vec<u8>>();
    let result = encoder.encode(&data);

    let mut expected = data;
    expected.insert(0, 0xff);
    expected.insert(expected.len() - 1, 0x02);
    expected.push(0x00);

    assert_eq!(result, expected);
}

#[test]
fn encode10() {
    let encoder = TuskEncoder::new(0);

    let data = (0x01..=0xff)
        .map(|v: u8| v.wrapping_add(1))
        .collect::<Vec<u8>>();
    let result = encoder.encode(&data);

    let mut expected = data;
    expected.pop();
    expected.insert(0, 0xff);
    expected.push(0x01);
    expected.push(0x01);
    expected.push(0x00);

    assert_eq!(result, expected);
}

#[test]
fn encode11() {
    let encoder = TuskEncoder::new(0);

    let data = (0x01..=0xff)
        .map(|v: u8| v.wrapping_add(2))
        .collect::<Vec<u8>>();
    let result = encoder.encode(&data);

    let mut expected = data;
    let len = expected.len();
    expected[len - 2] = 2;
    expected.insert(0, 0xfe);
    expected.push(0x00);

    assert_eq!(result, expected);
}

#[test]
fn encode_empty_payload() {
    for delimiter in [0x00u8, 0x01, 0x7f, 0xff] {
        let encoder = TuskEncoder::new(delimiter);
        assert_eq!(encoder.encode(&[]), vec![1, delimiter]);
        assert_eq!(encoder.decode(&[1, delimiter]), Ok(vec![]));
    }
}

#[test]
fn encode_delimiter_0xfe_and_0xff() {
    let data = (0x00..=0xfe).collect::<Vec<u8>>();

    // the delimiter follows a full block, and is the last byte of the payload
    let mut expected = vec![0xff];
    expected.extend_from_slice(&data[..254]);
    expected.extend_from_slice(&[0x01, 0x01, 0xfe]);
    assert_eq!(TuskEncoder::new(0xfe).encode(&data), expected);

    // the payload holds no delimiter: a full block and a block of one byte
    let mut expected = vec![0xff];
    expected.extend_from_slice(&data[..254]);
    expected.extend_from_slice(&[0x02, 0xfe, 0xff]);
    assert_eq!(TuskEncoder::new(0xff).encode(&data), expected);
}

#[test]
fn round_trip_payload_with_delimiters() {
    let payloads: [&[u8]; 6] = [
        &[7],
        &[7, 7],
        &[1, 7, 2],
        &[7, 1, 2, 7],
        &[1, 2, 3, 7, 7, 7, 4],
        &[0, 7, 0, 7, 0],
    ];
    for payload in payloads {
        let encoder = TuskEncoder::new(7);
        let frame = encoder.encode(payload);
        assert_eq!(frame.last(), Some(&7));
        assert_eq!(encoder.decode(&frame), Ok(payload.to_vec()));
    }
}

#[test]
fn round_trip_runs_of_254_and_255() {
    for delimiter in [0x00u8, 0x01, 0xff] {
        let encoder = TuskEncoder::new(delimiter);
        let other = delimiter.wrapping_add(5);
        for len in [253usize, 254, 255, 256, 507, 508, 509, 510, 1000] {
            let payload = vec![other; len];
            let frame = encoder.encode(&payload);
            assert_eq!(frame.len(), get_max_encode_buffer_size(len));
            assert_eq!(encoder.decode(&frame), Ok(payload));
        }
    }
}

#[test]
fn two_full_blocks_back_to_back() {
    let encoder = TuskEncoder::new(0);
    let payload = vec![9u8; 508];
    let mut expected = vec![0xff];
    expected.extend_from_slice(&[9u8; 254]);
    expected.push(0xff);
    expected.extend_from_slice(&[9u8; 254]);
    expected.push(0x00);
    assert_eq!(encoder.encode(&payload), expected);
    assert_eq!(encoder.decode(&expected), Ok(payload));
}

#[test]
fn full_block_then_delimiter() {
    let encoder = TuskEncoder::new(0);
    let mut payload = vec![9u8; 254];
    payload.push(0);
    payload.push(5);
    let mut expected = vec![0xff];
    expected.extend_from_slice(&[9u8; 254]);
    expected.extend_from_slice(&[0x01, 0x02, 0x05, 0x00]);
    assert_eq!(encoder.encode(&payload), expected);
    assert_eq!(encoder.decode(&expected), Ok(payload));
}

#[test]
fn round_trip_all_delimiters() {
    for delimiter in [0x00u8, 0x01, 0x02, 0xfe, 0xff] {
        let encoder = TuskEncoder::new(delimiter);
        for len in [1usize, 2, 3, 10, 253, 254, 255, 256, 600] {
            let payload = vec![delimiter; len];
            let frame = encoder.encode(&payload);
            let mut expected = vec![1u8; len + 1];
            expected.push(delimiter);
            assert_eq!(frame, expected);
            assert_eq!(encoder.decode(&frame), Ok(payload));
        }
    }
}

#[test]
fn round_trip_every_delimiter_every_byte() {
    let mut payload = Vec::new();
    for round in 0..3u8 {
        for byte in 0x00..=0xffu8 {
            payload.push(byte.wrapping_mul(round.wrapping_add(1)));
        }
    }
    for delimiter in 0x00..=0xffu8 {
        let encoder = TuskEncoder::new(delimiter);
        let frame = encoder.encode(&payload);
        assert!(frame.len() <= get_max_encode_buffer_size(payload.len()));
        assert!(frame.len() >= payload.len() + 2);
        assert_eq!(encoder.decode(&frame), Ok(payload.clone()), "delimiter {}", delimiter);
    }
}

#[test]
fn zero_delimiter_occurs_once() {
    let encoder = TuskEncoder::new(0);
    let payload = [0, 1, 0, 0, 2, 3, 0];
    let frame = encoder.encode(&payload);
    assert_eq!(frame.iter().filter(|b| **b == 0).count(), 1);
    assert_eq!(frame.last(), Some(&0));
}

#[test]
fn decode_frame_without_closing_delimiter() {
    let encoder = TuskEncoder::new(0);
    assert_eq!(encoder.decode(&[3, 1, 2, 3, 3, 4]), Ok(vec![1, 2, 0, 3, 4]));
    assert_eq!(encoder.decode(&[3, 1, 2, 3, 3, 4, 1]), Ok(vec![1, 2, 0, 3, 4, 0]));
    assert_eq!(encoder.decode(&[1]), Ok(vec![]));
    assert_eq!(encoder.decode(&[1, 1]), Ok(vec![0]));

    let encoder = TuskEncoder::new(9);
    assert_eq!(encoder.decode(&[3, 1, 2, 2, 3]), Ok(vec![1, 2, 9, 3]));
}

#[test]
fn decode_empty_frame() {
    let encoder = TuskEncoder::new(0);
    assert_eq!(encoder.decode(&[]), Ok(vec![]));
    assert_eq!(encoder.decode(&[0]), Ok(vec![]));
}

#[test]
fn decode_block_after_full_block() {
    // a full block may be followed by an empty last block
    let encoder = TuskEncoder::new(0);
    let mut frame = vec![0xff];
    frame.extend_from_slice(&[7u8; 254]);
    frame.extend_from_slice(&[0x01, 0x00]);
    assert_eq!(encoder.decode(&frame), Ok(vec![7u8; 254]));
}

#[test]
fn decode_malformed_block_too_long() {
    let encoder = TuskEncoder::new(0);
    assert_eq!(encoder.decode(&[5, 1, 2, 0]), Err(DecodeError::MalformedFrame));
    assert_eq!(encoder.decode(&[5, 1, 2]), Err(DecodeError::MalformedFrame));
    assert_eq!(encoder.decode(&[2]), Err(DecodeError::MalformedFrame));
    assert_eq!(encoder.decode(&[2, 1, 0xff, 0]), Err(DecodeError::MalformedFrame));
}

#[test]
fn decode_malformed_zero_code() {
    let encoder = TuskEncoder::new(0);
    assert_eq!(encoder.decode(&[2, 1, 0, 2, 1, 0]), Err(DecodeError::MalformedFrame));
    assert_eq!(encoder.decode(&[0, 0]), Err(DecodeError::MalformedFrame));

    let encoder = TuskEncoder::new(4);
    assert_eq!(encoder.decode(&[0, 4]), Err(DecodeError::MalformedFrame));
    assert_eq!(encoder.decode(&[2, 1, 0, 4]), Err(DecodeError::MalformedFrame));
}

#[test]
fn decode_malformed_delimiter_in_block() {
    let encoder = TuskEncoder::new(0);
    assert_eq!(encoder.decode(&[3, 0, 5, 0]), Err(DecodeError::MalformedFrame));

    let encoder = TuskEncoder::new(4);
    assert_eq!(encoder.decode(&[3, 1, 4, 2, 7, 4]), Err(DecodeError::MalformedFrame));
    assert_eq!(encoder.decode(&[3, 1, 5, 2, 7, 4]), Ok(vec![1, 5, 4, 7]));
}

#[test]
fn decode_never_expands() {
    let encoder = TuskEncoder::new(3);
    let frames: [&[u8]; 5] = [&[1, 1, 1, 1], &[2, 9, 1, 3], &[4, 1, 2, 4], &[1], &[2, 8, 2, 8]];
    for frame in frames {
        let payload = encoder.decode(frame).unwrap();
        assert!(payload.len() <= frame.len());
    }
}

#[test]
fn max_encode_buffer_size_values() {
    assert_eq!(get_max_encode_buffer_size(0), 1);
    assert_eq!(get_max_encode_buffer_size(1), 3);
    assert_eq!(get_max_encode_buffer_size(253), 255);
    assert_eq!(get_max_encode_buffer_size(254), 256);
    assert_eq!(get_max_encode_buffer_size(255), 258);
    assert_eq!(get_max_encode_buffer_size(508), 511);
    assert_eq!(get_max_encode_buffer_size(509), 513);
}
