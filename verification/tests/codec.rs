use bytes::{Bytes, BytesMut};
use rektorrent::codec::{CodecError, PwpCodec, PwpMessage};
use rektorrent::io_error::IoErrorKind;

fn frame(message: PwpMessage) -> Vec<u8> {
    let mut buf = BytesMut::new();
    PwpCodec.encode(message, &mut buf).unwrap();
    buf.to_vec()
}

fn every_message() -> Vec<PwpMessage> {
    vec![
        PwpMessage::KeepAlive,
        PwpMessage::Choke,
        PwpMessage::Unchoke,
        PwpMessage::Interested,
        PwpMessage::NotInterested,
        PwpMessage::Have(0x01020304),
        PwpMessage::Bitfield(Bytes::from_static(&[0xa0, 0x05])),
        PwpMessage::Bitfield(Bytes::new()),
        PwpMessage::Request { index: 1, begin: 0x4000, length: u32::MAX },
        PwpMessage::Piece { index: 2, begin: 3, block: Bytes::from_static(b"block") },
        PwpMessage::Piece { index: 2, begin: 3, block: Bytes::new() },
        PwpMessage::Cancel { index: 7, begin: 8, length: 9 },
    ]
}

#[test]
fn test_keepalive_codec() {
    let mut codec = PwpCodec;
    let mut buf = BytesMut::new();
    codec.encode(PwpMessage::KeepAlive, &mut buf).unwrap();
    assert_eq!(buf.to_vec(), vec![0, 0, 0, 0]);

    let decoded = codec.decode(&mut buf).unwrap().unwrap();
    assert_eq!(decoded, PwpMessage::KeepAlive);
}

#[test]
fn test_choke_codec() {
    let mut codec = PwpCodec;
    let mut buf = BytesMut::new();
    codec.encode(PwpMessage::Choke, &mut buf).unwrap();
    assert_eq!(buf.to_vec(), vec![0, 0, 0, 1, 0]);

    let decoded = codec.decode(&mut buf).unwrap().unwrap();
    assert_eq!(decoded, PwpMessage::Choke);
}

#[test]
fn frames_are_written_as_the_protocol_says() {
    assert_eq!(frame(PwpMessage::Unchoke), vec![0, 0, 0, 1, 1]);
    assert_eq!(frame(PwpMessage::Interested), vec![0, 0, 0, 1, 2]);
    assert_eq!(frame(PwpMessage::NotInterested), vec![0, 0, 0, 1, 3]);
    assert_eq!(frame(PwpMessage::Have(0x01020304)), vec![0, 0, 0, 5, 4, 1, 2, 3, 4]);
    assert_eq!(
        frame(PwpMessage::Bitfield(Bytes::from_static(&[0xa0, 0x05]))),
        vec![0, 0, 0, 3, 5, 0xa0, 0x05]
    );
    assert_eq!(
        frame(PwpMessage::Request { index: 1, begin: 0x4000, length: 0x01020304 }),
        vec![0, 0, 0, 13, 6, 0, 0, 0, 1, 0, 0, 0x40, 0, 1, 2, 3, 4]
    );
    assert_eq!(
        frame(PwpMessage::Piece { index: 2, begin: 3, block: Bytes::from_static(b"ab") }),
        vec![0, 0, 0, 11, 7, 0, 0, 0, 2, 0, 0, 0, 3, b'a', b'b']
    );
    assert_eq!(
        frame(PwpMessage::Cancel { index: 7, begin: 8, length: 9 }),
        vec![0, 0, 0, 13, 8, 0, 0, 0, 7, 0, 0, 0, 8, 0, 0, 0, 9]
    );
}

#[test]
fn every_message_is_read_back() {
    for message in every_message() {
        let mut buf = BytesMut::new();
        PwpCodec.encode(message.clone(), &mut buf).unwrap();
        buf.extend_from_slice(&[9, 9]);
        assert_eq!(PwpCodec.decode(&mut buf), Ok(Some(message)));
        assert_eq!(buf.to_vec(), vec![9, 9]);
    }
}

#[test]
fn a_stream_of_messages_is_read_back() {
    let mut buf = BytesMut::new();
    for message in every_message() {
        PwpCodec.encode(message, &mut buf).unwrap();
    }
    for message in every_message() {
        assert_eq!(PwpCodec.decode(&mut buf), Ok(Some(message)));
    }
    assert_eq!(PwpCodec.decode(&mut buf), Ok(None));
}

#[test]
fn a_cut_frame_is_left_alone() {
    for message in every_message() {
        let whole = frame(message);
        for end in 0..whole.len() {
            let mut buf = BytesMut::from(&whole[..end]);
            assert_eq!(PwpCodec.decode(&mut buf), Ok(None));
            assert_eq!(buf.to_vec(), whole[..end].to_vec());
        }
    }
}

#[test]
fn messages_without_fields_may_be_longer() {
    let mut buf = BytesMut::from(&[0u8, 0, 0, 3, 1, 7, 7, 5][..]);
    assert_eq!(PwpCodec.decode(&mut buf), Ok(Some(PwpMessage::Unchoke)));
    assert_eq!(buf.to_vec(), vec![5]);
}

#[test]
fn invalid_frames_are_refused() {
    let cases: Vec<(Vec<u8>, CodecError, &str)> = vec![
        (vec![0, 0, 0, 2, 4, 0], CodecError::InvalidHaveSize, "Invalid Have size"),
        (vec![0, 0, 0, 4, 4, 0, 0, 7], CodecError::InvalidHaveSize, "Invalid Have size"),
        (vec![0, 0, 0, 1, 6], CodecError::InvalidRequestSize, "Invalid Request size"),
        (
            vec![0, 0, 0, 8, 7, 0, 0, 0, 0, 0, 0, 0],
            CodecError::InvalidPieceSize,
            "Invalid Piece size",
        ),
        (vec![0, 0, 0, 1, 8], CodecError::InvalidCancelSize, "Invalid Cancel size"),
        (vec![0, 0, 0, 1, 9], CodecError::UnknownMessageId, "Unknown message ID"),
    ];
    for (octets, error, words) in cases {
        let mut buf = BytesMut::from(&octets[..]);
        let found = PwpCodec.decode(&mut buf).unwrap_err();
        assert_eq!(found.kind, IoErrorKind::InvalidData);
        assert_eq!(found.text, words);
        assert_eq!(found, error.io_error());
        assert_eq!(error.message(), words);
        assert_eq!(buf.to_vec(), octets[4..].to_vec());
    }
}

#[test]
fn a_stream_may_be_cut_anywhere() {
    let mut whole = Vec::new();
    for message in every_message() {
        whole.extend_from_slice(&frame(message));
    }
    whole.extend_from_slice(&[0, 0, 0]);
    for cut in 0..=whole.len() {
        let mut buf = BytesMut::from(&whole[..cut]);
        let mut taken = Vec::new();
        while let Some(message) = PwpCodec.decode(&mut buf).unwrap() {
            taken.push(message);
        }
        buf.extend_from_slice(&whole[cut..]);
        while let Some(message) = PwpCodec.decode(&mut buf).unwrap() {
            taken.push(message);
        }
        assert_eq!(taken, every_message());
        assert_eq!(buf.to_vec(), vec![0, 0, 0]);
    }
}
