use bytes::Bytes;
use rektorrent::bencode::{Bencode, BencodeDict};
use rektorrent::metainfo::{Metainfo, MetainfoError, Refusal, TorrentInfo, TorrentMetadata};

const TORRENT: &[u8] = b"d8:announce8:http://t4:infod6:lengthi1024e4:name4:file12:piece lengthi512e\
6:pieces20:aaaaaaaaaaaaaaaaaaaaee";

const INFO_HASH: [u8; 20] = [
    99, 251, 255, 69, 138, 117, 184, 122, 81, 143, 52, 70, 20, 247, 124, 129, 101, 105, 212, 86,
];

fn refused(octets: &[u8]) -> Refusal {
    match TorrentMetadata::from_bytes(octets) {
        Ok(metadata) => panic!("{:?}", metadata),
        Err(MetainfoError::Bencode(refusal)) => refusal,
    }
}

#[test]
fn torrent_files_are_read() {
    let metadata = TorrentMetadata::from_bytes(TORRENT).unwrap();
    assert_eq!(metadata.meta.announce, "http://t");
    assert_eq!(metadata.meta.info.name, "file");
    assert_eq!(metadata.meta.info.piece_length, 512);
    assert_eq!(metadata.meta.info.pieces, Bytes::from_static(b"aaaaaaaaaaaaaaaaaaaa"));
    assert_eq!(metadata.meta.info.length, Some(1024));
    assert_eq!(metadata.info_hash, INFO_HASH);
    assert_eq!(metadata.clone().info_hash, INFO_HASH);
}

#[test]
fn the_length_may_be_missing() {
    let octets = b"d8:announce8:http://t4:infod4:name4:file12:piece lengthi512e6:pieces20:\
aaaaaaaaaaaaaaaaaaaaee";
    let metadata = TorrentMetadata::from_bytes(octets).unwrap();
    assert_eq!(metadata.meta.info.length, None);
    assert_eq!(
        metadata.info_hash,
        [
            167, 13, 22, 0, 141, 232, 169, 51, 12, 101, 121, 216, 211, 244, 178, 242, 5, 61, 132,
            110
        ]
    );
}

#[test]
fn the_length_may_stand_in_a_list() {
    let octets = b"d8:announce8:http://t4:infod6:lengthli1024ee4:name4:file12:piece lengthi512e\
6:pieces20:aaaaaaaaaaaaaaaaaaaaee";
    let metadata = TorrentMetadata::from_bytes(octets).unwrap();
    assert_eq!(metadata.meta.info.length, Some(1024));
    assert_eq!(
        metadata.info_hash,
        [1, 1, 177, 245, 91, 255, 27, 220, 212, 195, 80, 222, 12, 148, 40, 87, 218, 243, 68, 82]
    );
    let octets = b"d8:announce8:http://t4:infod6:lengthle4:name4:file12:piece lengthi512e\
6:pieces20:aaaaaaaaaaaaaaaaaaaaee";
    let metadata = TorrentMetadata::from_bytes(octets).unwrap();
    assert_eq!(metadata.meta.info.length, None);
    assert_eq!(
        metadata.info_hash,
        [
            203, 155, 167, 215, 201, 199, 143, 197, 203, 236, 189, 201, 52, 5, 153, 54, 158, 210,
            42, 211
        ]
    );
}

#[test]
fn the_info_hash_depends_on_the_info_alone() {
    let other = b"d8:announce8:http://u7:comment1:c4:infod6:lengthi1024e4:name4:file12:piece \
lengthi512e6:pieces20:aaaaaaaaaaaaaaaaaaaae4:zzzzi0eetrailing";
    let metadata = TorrentMetadata::from_bytes(other).unwrap();
    assert_eq!(metadata.meta.announce, "http://u");
    assert_eq!(metadata.info_hash, INFO_HASH);
}

#[test]
fn the_info_hash_depends_on_all_of_the_info() {
    let private = b"d8:announce8:http://t4:infod6:lengthi1024e4:name4:file12:piece lengthi512e\
6:pieces20:aaaaaaaaaaaaaaaaaaaa7:privatei1eee";
    let metadata = TorrentMetadata::from_bytes(private).unwrap();
    assert_eq!(metadata.meta.info.length, Some(1024));
    assert_eq!(
        metadata.info_hash,
        [
            152, 123, 59, 204, 225, 126, 127, 71, 123, 225, 145, 128, 87, 225, 197, 226, 219, 2,
            18, 79
        ]
    );
}

#[test]
fn other_values_are_no_torrent_files() {
    for octets in [
        &b"i5e"[..],
        &b"de"[..],
        &b"d8:announce1:ae"[..],
        &b"d8:announce1:a4:infoi1ee"[..],
        &b"d8:announce1:a4:infod4:name1:n12:piece lengthi1eee"[..],
        &b"d8:announce1:a4:infod4:name1:n12:piece length1:x6:pieces0:ee"[..],
        &b"d8:announce1:a4:infod4:name1:\xff12:piece lengthi1e6:pieces0:ee"[..],
        &b"d8:announce1:a4:infod6:length1:54:name1:n12:piece lengthi1e6:pieces0:ee"[..],
        &b"d8:announce1:a4:infod6:lengthli5ei6ee4:name1:n12:piece lengthi1e6:pieces0:ee"[..],
        &b"d8:announce1:a4:infod4:name1:n12:piece lengthi1e6:pieces0:e1:\xff0:e"[..],
    ] {
        assert_eq!(refused(octets), Refusal::NotMetainfo);
    }
}

#[test]
fn octets_that_are_not_bencoded_are_refused() {
    for octets in [&b""[..], &b"x"[..], &b"d8:announce"[..]] {
        assert_eq!(refused(octets), Refusal::NotBencoded);
    }
}

#[test]
fn refusals_are_told_in_words() {
    let error = TorrentMetadata::from_bytes(b"de").unwrap_err();
    assert_eq!(
        error.message("Deserialization failed: missing field `announce`"),
        "Bencode deserialization failed: Deserialization failed: missing field `announce`"
    );
}

#[test]
fn words_come_with_values_that_cannot_be_read() {
    for octets in [&b""[..], &b"x"[..], &b"l"[..]] {
        let expected = bendy::serde::from_bytes::<bendy::value::Value>(octets).unwrap_err();
        assert_eq!(Bencode::from_bytes(octets).unwrap_err(), expected.to_string());
    }
}

#[test]
fn the_info_part_is_read_back() {
    for length in [None, Some(-5)] {
        let info = TorrentInfo {
            name: "n\u{e4}me".to_string(),
            piece_length: i64::MIN,
            pieces: Bytes::from_static(b"\x00\xff"),
            length,
        };
        let back = TorrentInfo::from_bencode(&info.clone().to_bencode()).unwrap();
        assert_eq!(back.name, info.name);
        assert_eq!(back.piece_length, info.piece_length);
        assert_eq!(back.pieces, info.pieces);
        assert_eq!(back.length, info.length);
        let meta = Bencode::Dict(BencodeDict {
            entries: vec![
                (b"announce".to_vec(), Bencode::String(b"http://t".to_vec())),
                (b"info".to_vec(), info.to_bencode()),
            ],
        });
        let read = Metainfo::from_bencode(&meta).unwrap();
        assert_eq!(read.clone().announce, "http://t");
        assert_eq!(read.info.length, length);
    }
}

#[test]
fn bencoded_values_are_read_and_written() {
    let octets = b"d1:ai-7e1:bl2:\x00\xff3:xyze1:cd1:di0eee";
    let value = Bencode::from_bytes(octets).unwrap();
    assert_eq!(value.to_bytes().unwrap(), octets.to_vec());
    let dict = match &value {
        Bencode::Dict(dict) => dict,
        other => panic!("{:?}", other),
    };
    assert!(matches!(dict.get(b"a"), Some(Bencode::Integer(-7))));
    match dict.get(b"b") {
        Some(Bencode::List(items)) => {
            assert_eq!(items.len(), 2);
            assert!(matches!(&items[0], Bencode::String(s) if s == b"\x00\xff"));
        }
        other => panic!("{:?}", other),
    }
    assert!(dict.get(b"e").is_none());
}

fn nested(depth: usize) -> Bencode {
    let mut value = Bencode::Integer(i64::MIN);
    for level in 0..depth {
        value = if level % 2 == 0 {
            Bencode::List(vec![value])
        } else {
            Bencode::Dict(BencodeDict { entries: vec![(vec![0xff], value)] })
        };
    }
    value
}

#[test]
fn nested_values_are_written_to_a_depth_and_read_back() {
    for depth in [0, 1, 2, 3, 2047, 2048] {
        let octets = nested(depth).to_bytes().unwrap();
        let back = Bencode::from_bytes(&octets).unwrap();
        assert_eq!(back.to_bytes().unwrap(), octets);
    }
    assert!(nested(2049).to_bytes().is_err());
    assert!(nested(2050).to_bytes().is_err());
}

#[test]
fn dictionaries_are_written_in_order_and_once_per_key() {
    let value = Bencode::Dict(BencodeDict {
        entries: vec![
            (b"b".to_vec(), Bencode::Integer(1)),
            (b"a".to_vec(), Bencode::Integer(2)),
            (b"b".to_vec(), Bencode::Integer(3)),
        ],
    });
    assert_eq!(value.to_bytes().unwrap(), b"d1:ai2e1:bi3ee".to_vec());
    match &value {
        Bencode::Dict(dict) => assert!(matches!(dict.get(b"b"), Some(Bencode::Integer(3)))),
        other => panic!("{:?}", other),
    }
}
