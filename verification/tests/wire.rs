use rust_grpc_proxy::record::CreateTransaction;
use rust_grpc_proxy::wire::{
    decode_frame, decode_record, encode_frame, frame_payload, serialize_record,
};

fn sample() -> CreateTransaction {
    CreateTransaction {
        signature: "ab".to_string(),
        mint_address: "Xpump".to_string(),
        creator_address: "c".to_string(),
        slot: 42,
        is_create_v2: true,
    }
}

fn sample_payload() -> Vec<u8> {
    let mut expected: Vec<u8> = Vec::new();
    expected.extend_from_slice(&[2, 0, 0, 0, 0, 0, 0, 0]);
    expected.extend_from_slice(b"ab");
    expected.extend_from_slice(&[5, 0, 0, 0, 0, 0, 0, 0]);
    expected.extend_from_slice(b"Xpump");
    expected.extend_from_slice(&[1, 0, 0, 0, 0, 0, 0, 0]);
    expected.extend_from_slice(b"c");
    expected.extend_from_slice(&[42, 0, 0, 0, 0, 0, 0, 0]);
    expected.push(1);
    expected
}

fn records() -> Vec<CreateTransaction> {
    vec![
        sample(),
        CreateTransaction {
            signature: String::new(),
            mint_address: String::new(),
            creator_address: String::new(),
            slot: 0,
            is_create_v2: false,
        },
        CreateTransaction {
            signature: "5T".to_string(),
            mint_address: "m\u{e9}\u{4e2d}\u{1f600}pump".to_string(),
            creator_address: "EK".repeat(200),
            slot: u64::MAX,
            is_create_v2: false,
        },
        CreateTransaction {
            signature: "s".to_string(),
            mint_address: "line\nfeed\0nul".to_string(),
            creator_address: "c".to_string(),
            slot: 0x0102_0304_0506_0708,
            is_create_v2: true,
        },
    ]
}

#[test]
fn payload_lays_fields_out_in_declared_order() {
    assert_eq!(serialize_record(&sample()), Ok(sample_payload()));
}

#[test]
fn slot_is_eight_little_endian_bytes() {
    let record = CreateTransaction { slot: 0x0102_0304_0506_0708, ..records()[1].clone() };
    let payload = serialize_record(&record).unwrap();
    assert_eq!(payload.len(), 8 + 8 + 8 + 8 + 1);
    assert_eq!(&payload[24..32], &[8, 7, 6, 5, 4, 3, 2, 1]);
    assert_eq!(payload[32], 0);
}

#[test]
fn text_length_counts_bytes_not_characters() {
    let record = CreateTransaction { mint_address: "\u{e9}".to_string(), ..records()[1].clone() };
    let payload = serialize_record(&record).unwrap();
    assert_eq!(&payload[8..18], &[2, 0, 0, 0, 0, 0, 0, 0, 0xc3, 0xa9]);
}

#[test]
fn frame_is_length_then_payload() {
    assert_eq!(frame_payload(vec![9, 8, 7]), Ok(vec![3, 0, 0, 0, 9, 8, 7]));
    assert_eq!(frame_payload(vec![]), Ok(vec![0, 0, 0, 0]));
    let long = frame_payload(vec![7; 0x0102_03]).unwrap();
    assert_eq!(&long[..4], &[3, 2, 1, 0]);
    assert_eq!(long.len(), 4 + 0x0102_03);

    let frame = encode_frame(&sample()).unwrap();
    let payload = sample_payload();
    assert_eq!(&frame[..4], &(payload.len() as u32).to_le_bytes());
    assert_eq!(&frame[4..], &payload[..]);
}

#[test]
fn decoding_a_payload_gives_the_record_back() {
    for record in records() {
        let payload = serialize_record(&record).unwrap();
        assert_eq!(decode_record(&payload), Some(record));
    }
    assert_eq!(decode_record(&sample_payload()), Some(sample()));
}

#[test]
fn decoding_a_frame_gives_the_record_back() {
    for record in records() {
        let frame = encode_frame(&record).unwrap();
        assert_eq!(decode_frame(&frame), Some((record, frame.len())));
    }
}

#[test]
fn decoding_agrees_with_the_serialiser() {
    for record in records() {
        let payload = serialize_record(&record).unwrap();
        let fields: (String, String, String, u64, bool) = bincode::deserialize(&payload).unwrap();
        assert_eq!(fields.0, record.signature);
        assert_eq!(fields.1, record.mint_address);
        assert_eq!(fields.2, record.creator_address);
        assert_eq!(fields.3, record.slot);
        assert_eq!(fields.4, record.is_create_v2);
    }
}

#[test]
fn frame_decoding_leaves_what_follows() {
    let mut stream = encode_frame(&sample()).unwrap();
    let first = stream.len();
    stream.extend_from_slice(&[1, 2, 3]);
    assert_eq!(decode_frame(&stream), Some((sample(), first)));
}

#[test]
fn frames_in_a_stream_decode_in_order() {
    let mut stream = Vec::new();
    for record in records() {
        stream.extend_from_slice(&encode_frame(&record).unwrap());
    }
    let mut at = 0;
    let mut decoded = Vec::new();
    while at < stream.len() {
        let (record, used) = decode_frame(&stream[at..]).unwrap();
        decoded.push(record);
        at += used;
    }
    assert_eq!(at, stream.len());
    assert_eq!(decoded, records());
}

#[test]
fn truncated_payload_is_refused() {
    let payload = sample_payload();
    for len in 0..payload.len() {
        assert_eq!(decode_record(&payload[..len]), None);
    }
}

#[test]
fn payload_with_trailing_bytes_is_refused() {
    let mut payload = sample_payload();
    payload.push(0);
    assert_eq!(decode_record(&payload), None);
}

#[test]
fn flag_other_than_zero_or_one_is_refused() {
    let mut payload = sample_payload();
    let last = payload.len() - 1;
    payload[last] = 2;
    assert_eq!(decode_record(&payload), None);
    payload[last] = 0;
    assert_eq!(decode_record(&payload), Some(CreateTransaction { is_create_v2: false, ..sample() }));
}

#[test]
fn text_that_is_not_utf8_is_refused() {
    let mut payload = sample_payload();
    payload[8] = 0xff;
    assert_eq!(decode_record(&payload), None);
}

#[test]
fn text_length_beyond_the_payload_is_refused() {
    let mut payload = sample_payload();
    payload[0] = 0xff;
    assert_eq!(decode_record(&payload), None);
    let mut huge = sample_payload();
    for byte in huge[..8].iter_mut() {
        *byte = 0xff;
    }
    assert_eq!(decode_record(&huge), None);
}

#[test]
fn truncated_frame_is_refused() {
    let frame = encode_frame(&sample()).unwrap();
    for len in 0..frame.len() {
        assert_eq!(decode_frame(&frame[..len]), None);
    }
    assert_eq!(decode_frame(&[0xff, 0xff, 0xff, 0xff, 1, 2, 3]), None);
}

#[test]
fn frame_length_must_match_the_payload() {
    let mut frame = encode_frame(&sample()).unwrap();
    frame[0] -= 1;
    assert_eq!(decode_frame(&frame), None);
    let mut longer = encode_frame(&sample()).unwrap();
    longer[0] += 1;
    longer.push(0);
    assert_eq!(decode_frame(&longer), None);
}
