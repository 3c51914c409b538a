use rektorrent::bencode::{Bencode, BencodeDict};
use rektorrent::io_error::{IoError, IoErrorKind, Timed};
use rektorrent::tracker::http::HttpTracker;
use rektorrent::tracker::udp::{Connecting, ResolvedAddr, UdpTracker};
use rektorrent::tracker::{
    discovered, AnnounceRequest, AnnounceResponse, AnyTracker, PeerAddr, TrackerError,
    TrackerManager, TrackerUrl,
};

fn request() -> AnnounceRequest {
    AnnounceRequest {
        info_hash: *b"\x00\xffABCDEFGHIJKLMNOPQ~",
        peer_id: *b"-RK0001-abcdefghijkl",
        port: 6881,
        uploaded: 0,
        downloaded: 18446744073709551615,
        left: 1234567890,
        compact: true,
    }
}

fn peer(ip: (u8, u8, u8, u8), port: u16) -> PeerAddr {
    PeerAddr { ip, port }
}

fn url(text: &str) -> TrackerUrl {
    TrackerUrl::parse(text).unwrap()
}

#[test]
fn octets_are_escaped_in_urls() {
    assert_eq!(HttpTracker::url_encode(b""), "");
    assert_eq!(HttpTracker::url_encode(b"AZaz09-_.~"), "AZaz09-_.~");
    assert_eq!(HttpTracker::url_encode(b" /%\x00\x0f\xff@[`{"), "%20%2F%25%00%0F%FF%40%5B%60%7B");
}

#[test]
fn requests_are_carried_in_urls() {
    let query = "info_hash=%00%FFABCDEFGHIJKLMNOPQ~&peer_id=-RK0001-abcdefghijkl&port=6881\
                 &uploaded=0&downloaded=18446744073709551615&left=1234567890&compact=1";
    let tracker = HttpTracker::new(url("http://t.example/announce"));
    assert_eq!(
        tracker.announce_url(&request()),
        format!("http://t.example/announce?{}", query)
    );
    let tracker = HttpTracker::new(url("http://t.example/announce?pass=1"));
    assert_eq!(
        tracker.announce_url(&request()),
        format!("http://t.example/announce?pass=1&{}", query)
    );
    let wide = AnnounceRequest { compact: false, ..request() };
    assert!(tracker.announce_url(&wide).ends_with("&compact=0"));
}

#[test]
fn http_replies_are_read() {
    let reply = b"d8:intervali900e5:peers12:\x7f\x00\x00\x01\x1a\xe1\x0a\x00\x00\x02\x00\x50e";
    let response = HttpTracker::receive(Ok(reply.to_vec())).unwrap();
    assert_eq!(response.interval, 900);
    assert_eq!(
        response.peers,
        vec![peer((127, 0, 0, 1), 6881), peer((10, 0, 0, 2), 80)]
    );
}

#[test]
fn http_replies_have_defaults() {
    let response = HttpTracker::receive(Ok(b"de".to_vec())).unwrap();
    assert_eq!(response.interval, 1800);
    assert_eq!(response.peers, vec![]);
    let response = HttpTracker::receive(Ok(b"d8:interval3:abc5:peersl1:xee".to_vec())).unwrap();
    assert_eq!(response.interval, 1800);
    assert_eq!(response.peers, vec![]);
}

#[test]
fn http_intervals_are_cut_to_32_bits() {
    let reply = |n: i64| Bencode::Dict(BencodeDict {
        entries: vec![(b"interval".to_vec(), Bencode::Integer(n))],
    });
    assert_eq!(HttpTracker::interpret(&reply(-1)).unwrap().interval, 0xffff_ffff);
    assert_eq!(HttpTracker::interpret(&reply(0x1_0000_0005)).unwrap().interval, 5);
    assert_eq!(HttpTracker::interpret(&reply(i64::MIN)).unwrap().interval, 0);
}

#[test]
fn http_failures_are_told() {
    let error = HttpTracker::receive(Err("connection refused".to_string())).unwrap_err();
    assert_eq!(error.message(), "Network error: connection refused");
    let error = HttpTracker::receive(Ok(b"d14:failure reason4:gonee".to_vec())).unwrap_err();
    assert_eq!(error.message(), "Tracker returned failure: gone");
    let error = HttpTracker::receive(Ok(b"d14:failure reason2:a\xffe".to_vec())).unwrap_err();
    assert_eq!(error.message(), "Tracker returned failure: a\u{fffd}");
    let error = HttpTracker::receive(Ok(b"i5e".to_vec())).unwrap_err();
    assert_eq!(error.message(), "Parse error: Expected bencode dict");
    let error = HttpTracker::receive(Ok(b"d5:peers5:abcdee".to_vec())).unwrap_err();
    assert_eq!(error.message(), "Parse error: Invalid compact peers string");
    let error = HttpTracker::receive(Ok(b"<html>".to_vec())).unwrap_err();
    assert!(error.message().starts_with("Parse error: Bencode parse error: "));
    let error = TrackerError::UnsupportedProtocol("ftp".to_string());
    assert_eq!(error.message(), "Unsupported protocol: ftp");
}

#[test]
fn udp_trackers_are_looked_up_by_host_and_port() {
    let tracker = UdpTracker::new(url("udp://t.example:6969/announce"));
    assert_eq!(tracker.endpoint().unwrap(), "t.example:6969");
    let tracker = UdpTracker::new(url("udp://t.example/announce"));
    assert_eq!(tracker.endpoint().unwrap(), "t.example:80");
    let tracker = UdpTracker::new(url("udp:nowhere"));
    assert_eq!(tracker.endpoint().unwrap_err().message(), "Parse error: Missing host in URL");
}

#[test]
fn the_first_ipv4_address_is_taken() {
    let one = peer((1, 2, 3, 4), 5);
    let two = peer((6, 7, 8, 9), 5);
    let found = vec![ResolvedAddr::V6, ResolvedAddr::V4(one), ResolvedAddr::V4(two)];
    assert_eq!(UdpTracker::destination("t:5", Ok(found)).unwrap(), one);
    let error = UdpTracker::destination("t:5", Ok(vec![ResolvedAddr::V6])).unwrap_err();
    assert_eq!(error.message(), "Network error: No IPv4 address found");
    let error = UdpTracker::destination("t:5", Err("no such host".to_string())).unwrap_err();
    assert_eq!(
        error.message(),
        "Network error: DNS resolution failed for t:5: no such host"
    );
    assert_eq!(UdpTracker::sent(Ok(4)).unwrap(), 4);
    let error = IoError::new(IoErrorKind::Other, "unreachable");
    assert_eq!(
        UdpTracker::sent::<u8>(Err(error)).unwrap_err().message(),
        "Network error: unreachable"
    );
}

#[test]
fn connection_ids_are_asked_for() {
    assert_eq!(
        UdpTracker::connect_request(0x01020304).to_vec(),
        vec![0, 0, 4, 0x17, 0x27, 0x10, 0x19, 0x80, 0, 0, 0, 0, 1, 2, 3, 4]
    );
    let query = UdpTracker::connect();
    assert_eq!(query.packet, UdpTracker::connect_request(query.transaction_id));
}

#[test]
fn transaction_ids_are_drawn_at_random() {
    let drawn: Vec<u32> = (0..8).map(|_| UdpTracker::connect().transaction_id).collect();
    assert!(drawn.iter().any(|id| *id != drawn[0]));
}

#[test]
fn connection_ids_are_read() {
    let reply = vec![0, 0, 0, 0, 1, 2, 3, 4, 0, 0, 0, 0, 0, 0, 1, 2];
    let read = |reply: Vec<u8>, id: u32| UdpTracker::connected(Timed::Done(reply), id);
    assert_eq!(read(reply.clone(), 0x01020304).unwrap(), 0x102);
    assert_eq!(
        read(reply.clone(), 5).unwrap_err().message(),
        "Parse error: Invalid connect response"
    );
    assert_eq!(
        read(reply[..15].to_vec(), 0x01020304).unwrap_err().message(),
        "Parse error: Invalid connect response length"
    );
    let mut wrong = reply.clone();
    wrong[3] = 1;
    assert_eq!(
        read(wrong, 0x01020304).unwrap_err().message(),
        "Parse error: Invalid connect response"
    );
    let mut failed = reply;
    failed[3] = 3;
    assert_eq!(
        read(failed, 5).unwrap_err().message(),
        "Tracker returned failure: Tracker returned error during connect"
    );
    assert_eq!(
        UdpTracker::connected(Timed::TimedOut, 5).unwrap_err().message(),
        "Network error: Connect timeout"
    );
    let error = IoError::new(IoErrorKind::Other, "port unreachable");
    assert_eq!(
        UdpTracker::connected(Timed::Failed(error), 5).unwrap_err().message(),
        "Network error: port unreachable"
    );
}

#[test]
fn announcements_are_written() {
    let request = request();
    let packet = UdpTracker::announce_request(0x0102030405060708, 9, 10, &request);
    let mut expected = vec![1, 2, 3, 4, 5, 6, 7, 8, 0, 0, 0, 1, 0, 0, 0, 9];
    expected.extend_from_slice(&request.info_hash);
    expected.extend_from_slice(&request.peer_id);
    expected.extend_from_slice(&[0xff; 8]);
    expected.extend_from_slice(&1234567890u64.to_be_bytes());
    expected.extend_from_slice(&[0; 8]);
    expected.extend_from_slice(&[0, 0, 0, 0, 0, 0, 0, 0, 0, 0, 0, 10, 0xff, 0xff, 0xff, 0xff]);
    expected.extend_from_slice(&[0x1a, 0xe1]);
    assert_eq!(packet.len(), 98);
    assert_eq!(packet.to_vec(), expected);
    let query = UdpTracker::announce_udp(0x0102030405060708, &request);
    let key = u32::from_be_bytes([
        query.packet[88],
        query.packet[89],
        query.packet[90],
        query.packet[91],
    ]);
    assert_eq!(
        query.packet,
        UdpTracker::announce_request(0x0102030405060708, query.transaction_id, key, &request)
    );
}

#[test]
fn announcements_are_answered() {
    let mut reply = vec![0, 0, 0, 1, 0, 0, 0, 9, 0, 0, 7, 8, 0, 0, 0, 1, 0, 0, 0, 2];
    reply.extend_from_slice(&[127, 0, 0, 1, 0x1a, 0xe1, 10, 0, 0, 2, 0, 80, 9, 9, 9]);
    let read = |reply: Vec<u8>, id: u32| UdpTracker::announced(Timed::Done(reply), id);
    let response = read(reply.clone(), 9).unwrap();
    assert_eq!(response.interval, 0x708);
    assert_eq!(
        response.peers,
        vec![peer((127, 0, 0, 1), 6881), peer((10, 0, 0, 2), 80)]
    );
    assert_eq!(read(reply[..20].to_vec(), 9).unwrap().peers, vec![]);
    assert_eq!(
        read(reply[..19].to_vec(), 9).unwrap_err().message(),
        "Parse error: Invalid announce response length"
    );
    assert_eq!(
        read(reply.clone(), 8).unwrap_err().message(),
        "Parse error: Invalid announce response"
    );
    reply[3] = 0;
    assert_eq!(
        read(reply, 9).unwrap_err().message(),
        "Parse error: Invalid announce response"
    );
    let mut failed = vec![0, 0, 0, 3, 0, 0, 0, 9];
    failed.extend_from_slice("torrent unknown".as_bytes());
    assert_eq!(
        read(failed, 9).unwrap_err().message(),
        "Tracker returned failure: torrent unknown"
    );
    assert_eq!(
        UdpTracker::announced(Timed::TimedOut, 9).unwrap_err().message(),
        "Network error: Announce timeout"
    );
    let error = IoError::new(IoErrorKind::Other, "port unreachable");
    assert_eq!(
        UdpTracker::announced(Timed::Failed(error), 9).unwrap_err().message(),
        "Network error: port unreachable"
    );
}

#[test]
fn a_tracker_grants_an_id_and_is_told_under_it() {
    let dest = peer((1, 2, 3, 4), 5);
    let begin = || Connecting::begin(dest, &request());
    let conversation = begin();
    let id = conversation.query.transaction_id;
    assert_eq!(conversation.query.packet, UdpTracker::connect_request(id));
    let mut grant = vec![0, 0, 0, 0];
    grant.extend_from_slice(&id.to_be_bytes());
    grant.extend_from_slice(&[1, 2, 3, 4, 5, 6, 7, 8]);
    let conversation = conversation.granted(Timed::Done(grant)).unwrap();
    assert_eq!(conversation.dest, dest);
    let packet = &conversation.query.packet;
    assert_eq!(packet.len(), 98);
    assert_eq!(packet[..12].to_vec(), vec![1, 2, 3, 4, 5, 6, 7, 8, 0, 0, 0, 1]);
    assert_eq!(packet[16..36].to_vec(), request().info_hash.to_vec());
    let mut reply = vec![0, 0, 0, 1];
    reply.extend_from_slice(&conversation.query.transaction_id.to_be_bytes());
    reply.extend_from_slice(&[0, 0, 0, 60, 0, 0, 0, 0, 0, 0, 0, 0]);
    let response = conversation.finished(Timed::Done(reply)).unwrap();
    assert_eq!(response.interval, 60);
    assert_eq!(
        begin().granted(Timed::TimedOut).unwrap_err().message(),
        "Network error: Connect timeout"
    );
}

#[test]
fn different_requests_are_carried_by_different_urls() {
    let tracker = HttpTracker::new(url("http://t.example/announce"));
    let requests = [
        request(),
        AnnounceRequest { info_hash: [0x26; 20], ..request() },
        AnnounceRequest { peer_id: *b"&port=1&uploaded=234", ..request() },
        AnnounceRequest { port: 688, ..request() },
        AnnounceRequest { uploaded: 10, ..request() },
        AnnounceRequest { downloaded: 1, ..request() },
        AnnounceRequest { left: 0, ..request() },
        AnnounceRequest { compact: false, ..request() },
    ];
    let urls: Vec<String> = requests.iter().map(|one| tracker.announce_url(one)).collect();
    for i in 0..urls.len() {
        for j in 0..i {
            assert_ne!(urls[i], urls[j]);
        }
    }
}

#[test]
fn urls_are_taken_apart() {
    let parts = url("UDP://T.example:6969/announce");
    assert_eq!(parts.text, "udp://T.example:6969/announce");
    assert_eq!(parts.scheme, "udp");
    assert_eq!(parts.host.as_deref(), Some("T.example"));
    assert_eq!(parts.port, Some(6969));
    let parts = url("HTTP://T.Example:80");
    assert_eq!(parts.clone().text, "http://t.example/");
    assert_eq!(parts.port, None);
    assert!(TrackerUrl::parse("not a url").is_none());
}

#[test]
fn all_known_trackers_are_told() {
    let manager = TrackerManager::new(vec![
        "udp://a.example:1".to_string(),
        "nonsense".to_string(),
        "ftp://b.example".to_string(),
        "https://c.example/x".to_string(),
        "http://d.example/".to_string(),
        "wss://e.example".to_string(),
    ]);
    assert_eq!(manager.trackers.len(), 5);
    let announcements = manager.announce_all(&request());
    let told: Vec<(&str, &str)> = announcements
        .iter()
        .map(|one| match &one.tracker {
            AnyTracker::Http(tracker) => ("http", tracker.url.text.as_str()),
            AnyTracker::Udp(tracker) => ("udp", tracker.url.text.as_str()),
        })
        .collect();
    assert_eq!(
        told,
        vec![
            ("udp", "udp://a.example:1"),
            ("http", "https://c.example/x"),
            ("http", "http://d.example/"),
        ]
    );
    for one in &announcements {
        assert_eq!(one.request.info_hash, request().info_hash);
        assert_eq!(one.request.left, 1234567890);
    }
}

#[test]
fn a_tracker_that_fails_finds_no_peers() {
    let peers = vec![peer((1, 1, 1, 1), 1)];
    let response = AnnounceResponse { interval: 5, peers: peers.clone() };
    assert_eq!(discovered(Ok(response)), peers);
    assert_eq!(discovered(Err(TrackerError::Parse(String::new()))), vec![]);
}
