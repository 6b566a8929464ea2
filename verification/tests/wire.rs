use ssh_bastion_rs::wire::{
    decode_assigned_port, encode_assigned_port, Decoded, TunnelMessage, TunnelMessageClose,
    TunnelMessageData,
};

fn close(user_id: u64) -> TunnelMessage {
    TunnelMessage::Close(TunnelMessageClose { user_id })
}

fn data(user_id: u64, len: u64) -> TunnelMessage {
    TunnelMessage::Data(TunnelMessageData { user_id, len })
}

#[test]
fn close_frame_bytes() {
    let out = close(5).encode(&[9, 9, 9]);
    assert_eq!(out, vec![2, 0, 0, 0, 0, 0, 0, 0, 5]);
}

#[test]
fn data_frame_bytes_are_big_endian() {
    let out = data(0x0102030405060708, 2).encode(&[0xaa, 0xbb, 0xcc]);
    assert_eq!(
        out,
        vec![1, 1, 2, 3, 4, 5, 6, 7, 8, 0, 0, 0, 0, 0, 0, 0, 2, 0xaa, 0xbb]
    );
}

#[test]
fn empty_data_frame_has_only_header() {
    let out = data(7, 0).encode(&[]);
    assert_eq!(out, vec![1, 0, 0, 0, 0, 0, 0, 0, 7, 0, 0, 0, 0, 0, 0, 0, 0]);
}

#[test]
fn data_frame_round_trip_with_trailing_bytes() {
    let payload = [10u8, 20, 30, 40];
    let mut bytes = data(42, 4).encode(&payload);
    let frame_len = bytes.len();
    bytes.extend_from_slice(&[2, 0, 0]);
    match TunnelMessage::decode(&bytes) {
        Decoded::Frame { message, payload: p, consumed } => {
            assert_eq!(message, data(42, 4));
            assert_eq!(p, payload.to_vec());
            assert_eq!(consumed, frame_len);
            assert_eq!(consumed, 21);
        }
        _ => panic!("expected a frame"),
    }
}

#[test]
fn close_frame_round_trip() {
    let bytes = close(u64::MAX).encode(&[]);
    match TunnelMessage::decode(&bytes) {
        Decoded::Frame { message, payload, consumed } => {
            assert_eq!(message, close(u64::MAX));
            assert!(payload.is_empty());
            assert_eq!(consumed, 9);
        }
        _ => panic!("expected a frame"),
    }
}

#[test]
fn prefixes_ask_for_exactly_the_rest_of_each_field() {
    let bytes = data(3, 5).encode(&[1, 2, 3, 4, 5]);
    let wanted = |n: usize| match TunnelMessage::decode(&bytes[..n]) {
        Decoded::NeedMore(k) => k,
        _ => panic!("expected a request for more bytes at {}", n),
    };
    assert_eq!(wanted(0), 9);
    assert_eq!(wanted(4), 5);
    assert_eq!(wanted(9), 8);
    assert_eq!(wanted(12), 5);
    assert_eq!(wanted(17), 5);
    assert_eq!(wanted(20), 2);
    for n in 0..bytes.len() {
        let k = wanted(n) as usize;
        assert!(k >= 1 && k <= bytes.len() - n);
    }
}

#[test]
fn reading_as_asked_rebuilds_the_frame() {
    let payload: Vec<u8> = (0..=255u8).collect();
    let mut stream = data(99, 256).encode(&payload);
    stream.extend(close(99).encode(&[]));
    let mut got = Vec::new();
    let mut pos = 0;
    loop {
        match TunnelMessage::decode(&got) {
            Decoded::NeedMore(k) => {
                let k = k as usize;
                got.extend_from_slice(&stream[pos..pos + k]);
                pos += k;
            }
            Decoded::Frame { message, payload: p, consumed } => {
                assert_eq!(message, data(99, 256));
                assert_eq!(p, payload);
                assert_eq!(consumed, pos);
                break;
            }
            Decoded::BadInstruction(_) => panic!("unexpected instruction"),
        }
    }
    assert_eq!(&stream[pos..], &close(99).encode(&[])[..]);
}

#[test]
fn unknown_instruction_is_refused_after_the_user_id() {
    assert!(matches!(TunnelMessage::decode(&[3]), Decoded::NeedMore(8)));
    match TunnelMessage::decode(&[3, 0, 0, 0, 0, 0, 0, 0, 1]) {
        Decoded::BadInstruction(i) => assert_eq!(i, 3),
        _ => panic!("expected a refusal"),
    }
    assert!(matches!(
        TunnelMessage::decode(&[0, 0, 0, 0, 0, 0, 0, 0, 1, 5]),
        Decoded::BadInstruction(0)
    ));
}

#[test]
fn huge_announced_length_asks_for_the_whole_payload() {
    let mut bytes = vec![1, 0, 0, 0, 0, 0, 0, 0, 1];
    bytes.extend_from_slice(&u64::MAX.to_be_bytes());
    bytes.extend_from_slice(&[1, 2, 3]);
    match TunnelMessage::decode(&bytes) {
        Decoded::NeedMore(k) => assert_eq!(k, u64::MAX - 3),
        _ => panic!("expected a request for more bytes"),
    }
}

#[test]
fn assigned_port_round_trip() {
    assert_eq!(encode_assigned_port(20000), vec![0x4e, 0x20]);
    assert_eq!(decode_assigned_port(&[0x4e, 0x20]), Some(20000));
    assert_eq!(decode_assigned_port(&[0x1d, 0x14, 0xff]), Some(7444));
    assert_eq!(decode_assigned_port(&[0x1d]), None);
    assert_eq!(decode_assigned_port(&[]), None);
    for p in [0u16, 1, 255, 256, 65535] {
        assert_eq!(decode_assigned_port(&encode_assigned_port(p)), Some(p));
    }
}
