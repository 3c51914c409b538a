//! Trackers that are asked over UDP.
//!
//! A client first asks for a connection id, then announces under it. Both requests carry a
//! transaction id that the reply repeats.
use super::{agrees, AnnounceRequest, AnnounceResponse, PeerAddr, TrackerError, TrackerUrl};
#[allow(unused_imports)]
use super::{addr_at, addrs_are_read_back, addrs_in, compact, Fault, Reply};
use crate::io_error::{IoError, Timed};
use crate::octets::{
    buffer_put_i32, buffer_put_slice, buffer_put_u16, buffer_put_u32, buffer_put_u64,
    buffer_with_capacity, take_u16, take_u32, take_u64, take_u8,
};
#[allow(unused_imports)]
use crate::octets::{
    be16, be32, be64, buffer_contents, digits_are_read, u16_at, u16_reads_back, u32_at, u32_reads_back, u64_at,
    u64_reads_back,
};
use crate::text::{lossy_text, push_decimal};
#[allow(unused_imports)]
use crate::text::{decimal, utf8_lossy};
use bytes::BytesMut;
use rand::Rng;
use vstd::prelude::*;

verus! {

pub const CONNECT_ACTION: u32 = 0;

pub const ANNOUNCE_ACTION: u32 = 1;

pub const ERROR_ACTION: u32 = 3;

pub const PROTOCOL_ID: u64 = 0x41727101980;

/// The request for a connection id.
pub open spec fn connect_packet(transaction_id: u32) -> Seq<u8> {
    be64(PROTOCOL_ID) + be32(CONNECT_ACTION) + be32(transaction_id)
}

/// What a datagram says as the reply to the request for a connection id.
pub open spec fn connection_in(datagram: Seq<u8>, transaction_id: u32) -> Result<u64, Fault> {
    if datagram.len() < 16 {
        Err(Fault::Parse("Invalid connect response length"@))
    } else if u32_at(datagram, 0) == ERROR_ACTION {
        Err(Fault::TrackerFailure("Tracker returned error during connect"@))
    } else if u32_at(datagram, 0) != CONNECT_ACTION || u32_at(datagram, 4) != transaction_id {
        Err(Fault::Parse("Invalid connect response"@))
    } else {
        Ok(u64_at(datagram, 8))
    }
}

/// The announcement: who asks for which torrent and how far the download is, no event, the
/// address that the datagram comes from, a key, as many peers as the tracker likes, and the
/// port.
pub open spec fn announce_packet(
    connection_id: u64,
    transaction_id: u32,
    key: u32,
    request: AnnounceRequest,
) -> Seq<u8> {
    be64(connection_id) + be32(ANNOUNCE_ACTION) + be32(transaction_id) + request.info_hash@
        + request.peer_id@ + be64(request.downloaded) + be64(request.left) + be64(request.uploaded)
        + be32(0) + be32(0) + be32(key) + be32(0xffff_ffff) + be16(request.port)
}

/// What a datagram says as the reply to an announcement.
pub open spec fn announcement_in(datagram: Seq<u8>, transaction_id: u32) -> Result<Reply, Fault> {
    if datagram.len() < 20 {
        Err(Fault::Parse("Invalid announce response length"@))
    } else if u32_at(datagram, 0) == ERROR_ACTION {
        Err(Fault::TrackerFailure(utf8_lossy(datagram.skip(8))))
    } else if u32_at(datagram, 0) != ANNOUNCE_ACTION || u32_at(datagram, 4) != transaction_id {
        Err(Fault::Parse("Invalid announce response"@))
    } else {
        Ok(Reply { interval: u32_at(datagram, 8), peers: addrs_in(datagram.skip(20)) })
    }
}

/// The request for a connection id takes 16 octets, an announcement 98.
pub proof fn packet_lengths(connection_id: u64, transaction_id: u32, key: u32, request: AnnounceRequest)
    ensures
        connect_packet(transaction_id).len() == 16,
        announce_packet(connection_id, transaction_id, key, request).len() == 98,
{
}

/// A tracker finds in an announcement what was put there.
pub proof fn announcement_tells_the_request(
    connection_id: u64,
    transaction_id: u32,
    key: u32,
    request: AnnounceRequest,
)
    ensures
        ({
            let packet = announce_packet(connection_id, transaction_id, key, request);
            &&& u64_at(packet, 0) == connection_id
            &&& u32_at(packet, 8) == ANNOUNCE_ACTION
            &&& u32_at(packet, 12) == transaction_id
            &&& packet.subrange(16, 36) == request.info_hash@
            &&& packet.subrange(36, 56) == request.peer_id@
            &&& u64_at(packet, 56) == request.downloaded
            &&& u64_at(packet, 64) == request.left
            &&& u64_at(packet, 72) == request.uploaded
            &&& u32_at(packet, 88) == key
            &&& u16_at(packet, 96) == request.port
        }),
{
    let packet = announce_packet(connection_id, transaction_id, key, request);
    assert(packet.subrange(0, 8) =~= be64(connection_id));
    assert(packet.subrange(8, 12) =~= be32(ANNOUNCE_ACTION));
    assert(packet.subrange(12, 16) =~= be32(transaction_id));
    assert(packet.subrange(16, 36) =~= request.info_hash@);
    assert(packet.subrange(36, 56) =~= request.peer_id@);
    assert(packet.subrange(56, 64) =~= be64(request.downloaded));
    assert(packet.subrange(64, 72) =~= be64(request.left));
    assert(packet.subrange(72, 80) =~= be64(request.uploaded));
    assert(packet.subrange(88, 92) =~= be32(key));
    assert(packet.subrange(96, 98) =~= be16(request.port));
    u64_reads_back(packet, 0, connection_id);
    u32_reads_back(packet, 8, ANNOUNCE_ACTION);
    u32_reads_back(packet, 12, transaction_id);
    u64_reads_back(packet, 56, request.downloaded);
    u64_reads_back(packet, 64, request.left);
    u64_reads_back(packet, 72, request.uploaded);
    u32_reads_back(packet, 88, key);
    u16_reads_back(packet, 96, request.port);
}

/// A reply that does not repeat the transaction id of the request is never taken for an
/// answer to it.
pub proof fn foreign_reply_is_refused(datagram: Seq<u8>, transaction_id: u32)
    requires
        u32_at(datagram, 4) != transaction_id,
    ensures
        connection_in(datagram, transaction_id) is Err,
        announcement_in(datagram, transaction_id) is Err,
{
}

/// The connection id that a tracker grants is read back from its reply.
pub proof fn connection_id_is_read_back(transaction_id: u32, connection_id: u64)
    ensures
        connection_in(
            be32(CONNECT_ACTION) + be32(transaction_id) + be64(connection_id),
            transaction_id,
        ) == Ok::<u64, Fault>(connection_id),
{
    let datagram = be32(CONNECT_ACTION) + be32(transaction_id) + be64(connection_id);
    assert(datagram.subrange(0, 4) =~= be32(CONNECT_ACTION));
    assert(datagram.subrange(4, 8) =~= be32(transaction_id));
    assert(datagram.subrange(8, 16) =~= be64(connection_id));
    u32_reads_back(datagram, 0, CONNECT_ACTION);
    u32_reads_back(datagram, 4, transaction_id);
    u64_reads_back(datagram, 8, connection_id);
}

/// The interval and the peers that a tracker names are read back from its reply, whatever
/// it says of how many peers load and share.
pub proof fn peers_are_read_back(
    transaction_id: u32,
    interval: u32,
    leechers: u32,
    seeders: u32,
    peers: Seq<PeerAddr>,
)
    ensures
        announcement_in(
            be32(ANNOUNCE_ACTION) + be32(transaction_id) + be32(interval) + be32(leechers) + be32(
                seeders,
            ) + compact(peers),
            transaction_id,
        ) == Ok::<Reply, Fault>(Reply { interval, peers }),
{
    let datagram = be32(ANNOUNCE_ACTION) + be32(transaction_id) + be32(interval) + be32(leechers)
        + be32(seeders) + compact(peers);
    addrs_are_read_back(peers);
    assert(datagram.subrange(0, 4) =~= be32(ANNOUNCE_ACTION));
    assert(datagram.subrange(4, 8) =~= be32(transaction_id));
    assert(datagram.subrange(8, 12) =~= be32(interval));
    assert(datagram.skip(20) =~= compact(peers));
    u32_reads_back(datagram, 0, ANNOUNCE_ACTION);
    u32_reads_back(datagram, 4, transaction_id);
    u32_reads_back(datagram, 8, interval);
}

/// What comes of waiting for a datagram, where `read` tells what a datagram says.
pub open spec fn awaited<T>(
    outcome: Timed<Vec<u8>>,
    late: Seq<char>,
    read: spec_fn(Seq<u8>) -> Result<T, Fault>,
) -> Result<T, Fault> {
    match outcome {
        Timed::Done(datagram) => read(datagram@),
        Timed::Failed(error) => Err(Fault::Network(error.text@)),
        Timed::TimedOut => Err(Fault::Network(late)),
    }
}

/// The connection id that comes of waiting for the reply to the request for it.
pub open spec fn connection_awaited(outcome: Timed<Vec<u8>>, transaction_id: u32) -> Result<
    u64,
    Fault,
> {
    awaited(
        outcome,
        "Connect timeout"@,
        |datagram: Seq<u8>| connection_in(datagram, transaction_id),
    )
}

/// What the tracker tells where the reply to an announcement is waited for.
pub open spec fn announcement_awaited(outcome: Timed<Vec<u8>>, transaction_id: u32) -> Result<
    Reply,
    Fault,
> {
    awaited(
        outcome,
        "Announce timeout"@,
        |datagram: Seq<u8>| announcement_in(datagram, transaction_id),
    )
}

/// An address that a host name stands for.
#[derive(Debug, Clone, Copy)]
pub enum ResolvedAddr {
    V4(PeerAddr),
    V6,
}

/// The first IPv4 address among those that a host name stands for.
pub open spec fn first_ipv4(addrs: Seq<ResolvedAddr>) -> Option<PeerAddr>
    decreases addrs.len(),
{
    if addrs.len() == 0 {
        None
    } else {
        match addrs[0] {
            ResolvedAddr::V4(addr) => Some(addr),
            ResolvedAddr::V6 => first_ipv4(addrs.drop_first()),
        }
    }
}

/// `rand::thread_rng` with `Rng::gen`: some integer. Nothing is promised of which.
#[verifier::external_body]
fn random_u32() -> (n: u32) {
    rand::thread_rng().gen()
}

/// A request that has been written, and the transaction id that its reply has to repeat.
#[derive(Debug)]
pub struct Query {
    pub transaction_id: u32,
    pub packet: BytesMut,
}

/// Whether a request is an announcement with the given key.
pub open spec fn announces(
    query: Query,
    connection_id: u64,
    key: u32,
    request: AnnounceRequest,
) -> bool {
    buffer_contents(query.packet) == announce_packet(
        connection_id,
        query.transaction_id,
        key,
        request,
    )
}

/// Whether a request is an announcement, whatever its key is.
pub open spec fn announces_under(
    query: Query,
    connection_id: u64,
    request: AnnounceRequest,
) -> bool {
    exists|key: u32| #[trigger] announces(query, connection_id, key, request)
}

/// A tracker that is asked over UDP.
#[derive(Debug)]
pub struct UdpTracker {
    pub url: TrackerUrl,
}

impl UdpTracker {
    /// The tracker at a URL.
    pub fn new(url: TrackerUrl) -> (tracker: Self)
        ensures
            tracker.url == url,
    {
        UdpTracker { url }
    }

    /// The name and port that the tracker is looked up by. The port is 80 where the URL
    /// names none.
    pub fn endpoint(&self) -> (result: Result<String, TrackerError>)
        ensures
            agrees(
                result,
                match self.url@.host {
                    Some(host) => Ok(
                        host + ":"@ + decimal(
                            match self.url.port {
                                Some(port) => port as nat,
                                None => 80,
                            },
                        ),
                    ),
                    None => Err(Fault::Parse("Missing host in URL"@)),
                },
            ),
    {
        let host = match &self.url.host {
            Some(host) => host,
            None => return Err(TrackerError::Parse("Missing host in URL".to_owned())),
        };
        let port: u16 = match self.url.port {
            Some(port) => port,
            None => 80,
        };
        let mut endpoint = host.clone();
        endpoint.append(":");
        push_decimal(&mut endpoint, port as u64);
        Ok(endpoint)
    }

    /// The address to send to: the first IPv4 address that the lookup of `endpoint` gave.
    pub fn destination(endpoint: &str, lookup: Result<Vec<ResolvedAddr>, String>) -> (result: Result<
        PeerAddr,
        TrackerError,
    >)
        ensures
            match lookup {
                Ok(addrs) => match first_ipv4(addrs@) {
                    Some(addr) => result == Ok::<PeerAddr, TrackerError>(addr),
                    None => result matches Err(error) && error@ == Fault::Network(
                        "No IPv4 address found"@,
                    ),
                },
                Err(text) => result matches Err(error) && error@ == Fault::Network(
                    "DNS resolution failed for "@ + endpoint@ + ": "@ + text@,
                ),
            },
    {
        let addrs = match lookup {
            Ok(addrs) => addrs,
            Err(text) => {
                let mut words = "DNS resolution failed for ".to_owned();
                words.append(endpoint);
                words.append(": ");
                words.append(text.as_str());
                return Err(TrackerError::Network(words));
            },
        };
        let mut i: usize = 0;
        assert(addrs@.skip(0) =~= addrs@);
        while i < addrs.len()
            invariant
                lookup == Ok::<Vec<ResolvedAddr>, String>(addrs),
                i <= addrs@.len(),
                first_ipv4(addrs@.skip(i as int)) == first_ipv4(addrs@),
            decreases addrs@.len() - i,
        {
            assert(addrs@.skip(i as int).drop_first() =~= addrs@.skip(i + 1));
            if let ResolvedAddr::V4(addr) = addrs[i] {
                return Ok(addr);
            }
            i += 1;
        }
        Err(TrackerError::Network("No IPv4 address found".to_owned()))
    }

    /// What comes of opening a socket or sending a datagram.
    pub fn sent<T>(outcome: Result<T, IoError>) -> (result: Result<T, TrackerError>)
        ensures
            match outcome {
                Ok(value) => result == Ok::<T, TrackerError>(value),
                Err(error) => result matches Err(found) && found@ == Fault::Network(error.text@),
            },
    {
        match outcome {
            Ok(value) => Ok(value),
            Err(error) => Err(TrackerError::Network(error.text)),
        }
    }

    /// Writes the request for a connection id under the given transaction id.
    pub fn connect_request(transaction_id: u32) -> (packet: BytesMut)
        ensures
            buffer_contents(packet) == connect_packet(transaction_id),
    {
        let mut packet = buffer_with_capacity(16);
        buffer_put_u64(&mut packet, PROTOCOL_ID);
        buffer_put_u32(&mut packet, CONNECT_ACTION);
        buffer_put_u32(&mut packet, transaction_id);
        assert(buffer_contents(packet) =~= connect_packet(transaction_id));
        packet
    }

    /// Writes a request for a connection id under a transaction id drawn at random.
    pub fn connect() -> (query: Query)
        ensures
            buffer_contents(query.packet) == connect_packet(query.transaction_id),
    {
        let transaction_id = random_u32();
        Query { transaction_id, packet: Self::connect_request(transaction_id) }
    }

    /// Reads the connection id from what came back on the request for it.
    pub fn connected(outcome: Timed<Vec<u8>>, transaction_id: u32) -> (result: Result<
        u64,
        TrackerError,
    >)
        ensures
            agrees(result, connection_awaited(outcome, transaction_id)),
    {
        let datagram = match outcome {
            Timed::Done(datagram) => datagram,
            Timed::Failed(error) => return Err(TrackerError::Network(error.text)),
            Timed::TimedOut => return Err(TrackerError::Network("Connect timeout".to_owned())),
        };
        if datagram.len() < 16 {
            return Err(TrackerError::Parse("Invalid connect response length".to_owned()));
        }
        let mut rest = datagram.as_slice();
        let action = take_u32(&mut rest);
        let repeated = take_u32(&mut rest);
        let connection_id = take_u64(&mut rest);
        if action == ERROR_ACTION {
            return Err(
                TrackerError::TrackerFailure("Tracker returned error during connect".to_owned()),
            );
        }
        if action != CONNECT_ACTION || repeated != transaction_id {
            return Err(TrackerError::Parse("Invalid connect response".to_owned()));
        }
        Ok(connection_id)
    }

    /// Writes an announcement under the given transaction id and key.
    pub fn announce_request(
        connection_id: u64,
        transaction_id: u32,
        key: u32,
        request: &AnnounceRequest,
    ) -> (packet: BytesMut)
        ensures
            buffer_contents(packet) == announce_packet(
                connection_id,
                transaction_id,
                key,
                *request,
            ),
    {
        let mut packet = buffer_with_capacity(98);
        buffer_put_u64(&mut packet, connection_id);
        buffer_put_u32(&mut packet, ANNOUNCE_ACTION);
        buffer_put_u32(&mut packet, transaction_id);
        buffer_put_slice(&mut packet, &request.info_hash);
        buffer_put_slice(&mut packet, &request.peer_id);
        buffer_put_u64(&mut packet, request.downloaded);
        buffer_put_u64(&mut packet, request.left);
        buffer_put_u64(&mut packet, request.uploaded);
        buffer_put_u32(&mut packet, 0);
        buffer_put_u32(&mut packet, 0);
        buffer_put_u32(&mut packet, key);
        buffer_put_i32(&mut packet, -1);
        buffer_put_u16(&mut packet, request.port);
        assert(buffer_contents(packet) =~= announce_packet(
            connection_id,
            transaction_id,
            key,
            *request,
        ));
        packet
    }

    /// Writes an announcement under a transaction id and a key drawn at random.
    pub fn announce_udp(connection_id: u64, request: &AnnounceRequest) -> (query: Query)
        ensures
            announces_under(query, connection_id, *request),
    {
        let transaction_id = random_u32();
        let key = random_u32();
        let packet = Self::announce_request(connection_id, transaction_id, key, request);
        let query = Query { transaction_id, packet };
        assert(announces(query, connection_id, key, *request));
        query
    }

    /// Reads the tracker's reply from what came back on an announcement.
    pub fn announced(outcome: Timed<Vec<u8>>, transaction_id: u32) -> (result: Result<
        AnnounceResponse,
        TrackerError,
    >)
        ensures
            agrees(result, announcement_awaited(outcome, transaction_id)),
    {
        let datagram = match outcome {
            Timed::Done(datagram) => datagram,
            Timed::Failed(error) => return Err(TrackerError::Network(error.text)),
            Timed::TimedOut => return Err(TrackerError::Network("Announce timeout".to_owned())),
        };
        if datagram.len() < 20 {
            return Err(TrackerError::Parse("Invalid announce response length".to_owned()));
        }
        let mut rest = datagram.as_slice();
        let action = take_u32(&mut rest);
        let repeated = take_u32(&mut rest);
        assert(rest@ =~= datagram@.skip(8));
        if action == ERROR_ACTION {
            return Err(TrackerError::TrackerFailure(lossy_text(rest)));
        }
        if action != ANNOUNCE_ACTION || repeated != transaction_id {
            return Err(TrackerError::Parse("Invalid announce response".to_owned()));
        }
        let interval = take_u32(&mut rest);
        let _leechers = take_u32(&mut rest);
        let _seeders = take_u32(&mut rest);
        let ghost compact = datagram@.skip(20);
        assert(rest@ =~= compact);
        let mut peers: Vec<PeerAddr> = Vec::new();
        while rest.len() >= 6
            invariant
                rest@ == compact.skip(6 * peers@.len() as int),
                6 * peers@.len() <= compact.len(),
                forall|i: int| 0 <= i < peers@.len() ==> peers@[i] == addr_at(compact, 6 * i),
            decreases rest@.len(),
        {
            let a = take_u8(&mut rest);
            let b = take_u8(&mut rest);
            let c = take_u8(&mut rest);
            let d = take_u8(&mut rest);
            let port = take_u16(&mut rest);
            peers.push(PeerAddr { ip: (a, b, c, d), port });
            assert(rest@ =~= compact.skip(6 * peers@.len() as int));
        }
        assert(peers@ =~= addrs_in(compact));
        Ok(AnnounceResponse { interval, peers })
    }
}

/// A conversation with a tracker in which the connection id has been asked for.
#[derive(Debug)]
pub struct Connecting {
    pub dest: PeerAddr,
    pub query: Query,
    pub request: AnnounceRequest,
}

/// A conversation with a tracker in which the announcement has been made.
#[derive(Debug)]
pub struct Announcing {
    pub dest: PeerAddr,
    pub query: Query,
}

impl Connecting {
    /// Begins a conversation: the first thing to send is a request for a connection id.
    pub fn begin(dest: PeerAddr, request: &AnnounceRequest) -> (conversation: Self)
        ensures
            conversation.dest == dest,
            conversation.request == *request,
            buffer_contents(conversation.query.packet) == connect_packet(
                conversation.query.transaction_id,
            ),
    {
        Connecting { dest, query: UdpTracker::connect(), request: *request }
    }

    /// Goes on with what came back. The next thing to send, to the same address, is the
    /// announcement, under the connection id that the tracker has granted. Nothing is
    /// announced where it has granted none.
    pub fn granted(self, outcome: Timed<Vec<u8>>) -> (result: Result<Announcing, TrackerError>)
        ensures
            match connection_awaited(outcome, self.query.transaction_id) {
                Ok(connection_id) => result matches Ok(next) && next.dest == self.dest && announces_under(
                    next.query,
                    connection_id,
                    self.request,
                ),
                Err(fault) => result matches Err(error) && error@ == fault,
            },
    {
        match UdpTracker::connected(outcome, self.query.transaction_id) {
            Ok(connection_id) => {
                let query = UdpTracker::announce_udp(connection_id, &self.request);
                Ok(Announcing { dest: self.dest, query })
            },
            Err(error) => Err(error),
        }
    }
}

impl Announcing {
    /// Ends the conversation with what came back.
    pub fn finished(self, outcome: Timed<Vec<u8>>) -> (result: Result<
        AnnounceResponse,
        TrackerError,
    >)
        ensures
            agrees(result, announcement_awaited(outcome, self.query.transaction_id)),
    {
        UdpTracker::announced(outcome, self.query.transaction_id)
    }
}

/// The request for a connection id, octet by octet: the number of the protocol, four zeros
/// and the transaction id.
pub proof fn connect_requests_are_laid_out(transaction_id: u32)
    ensures
        ({
            let p = connect_packet(transaction_id);
            &&& p.len() == 16
            &&& p.take(12) == seq![0u8, 0, 0x04, 0x17, 0x27, 0x10, 0x19, 0x80, 0, 0, 0, 0]
            &&& p[12] * 0x100_0000 + p[13] * 0x1_0000 + p[14] * 0x100 + p[15] == transaction_id
        }),
{
    let p = connect_packet(transaction_id);
    assert(p.take(12) =~= seq![0u8, 0, 0x04, 0x17, 0x27, 0x10, 0x19, 0x80, 0, 0, 0, 0]);
    assert(p.subrange(12, 16) =~= be32(transaction_id));
    u32_reads_back(p, 12, transaction_id);
    digits_are_read(p, 12);
}

/// The parts of an announcement that are the same in all of them: it is an announcement, it
/// tells no event and no address, and it asks for as many peers as the tracker likes.
pub proof fn announcements_have_fixed_parts(
    connection_id: u64,
    transaction_id: u32,
    key: u32,
    request: AnnounceRequest,
)
    ensures
        ({
            let p = announce_packet(connection_id, transaction_id, key, request);
            &&& p.len() == 98
            &&& p.subrange(8, 12) == seq![0u8, 0, 0, 1]
            &&& p.subrange(80, 88) == seq![0u8, 0, 0, 0, 0, 0, 0, 0]
            &&& p.subrange(92, 96) == seq![0xffu8, 0xff, 0xff, 0xff]
        }),
{
    let p = announce_packet(connection_id, transaction_id, key, request);
    assert(p.subrange(8, 12) =~= be32(1));
    assert(be32(1) =~= seq![0u8, 0, 0, 1]);
    assert(p.subrange(80, 88) =~= be32(0) + be32(0));
    assert(be32(0) + be32(0) =~= seq![0u8, 0, 0, 0, 0, 0, 0, 0]);
    assert(p.subrange(92, 96) =~= be32(0xffff_ffff));
    assert(be32(0xffff_ffff) =~= seq![0xffu8, 0xff, 0xff, 0xff]);
}

/// How the reply to the request for a connection id is read: it takes 16 octets, of which the
/// first four tell that it is one, or an error, the next four repeat the transaction id, and
/// the last eight are the connection id. What follows does not matter.
pub proof fn connection_replies_are_judged(datagram: Seq<u8>, transaction_id: u32)
    ensures
        ({
            let d = datagram;
            let action = d[0] * 0x100_0000 + d[1] * 0x1_0000 + d[2] * 0x100 + d[3];
            let repeated = d[4] * 0x100_0000 + d[5] * 0x1_0000 + d[6] * 0x100 + d[7];
            match connection_in(datagram, transaction_id) {
                Ok(connection_id) => {
                    &&& d.len() >= 16
                    &&& action == 0
                    &&& repeated == transaction_id
                    &&& connection_id == d[8] * 0x100_0000_0000_0000 + d[9] * 0x1_0000_0000_0000
                        + d[10] * 0x100_0000_0000 + d[11] * 0x1_0000_0000 + d[12] * 0x100_0000
                        + d[13] * 0x1_0000 + d[14] * 0x100 + d[15]
                },
                Err(Fault::TrackerFailure(text)) => {
                    &&& d.len() >= 16
                    &&& action == 3
                    &&& text == "Tracker returned error during connect"@
                },
                Err(Fault::Parse(text)) => {
                    ||| d.len() < 16 && text == "Invalid connect response length"@
                    ||| d.len() >= 16 && action != 3 && (action != 0 || repeated
                        != transaction_id) && text == "Invalid connect response"@
                },
                Err(_) => false,
            }
        }),
{
    digits_are_read(datagram, 0);
    digits_are_read(datagram, 4);
    digits_are_read(datagram, 8);
}

/// How the reply to an announcement is read: the first four octets tell that it is one, or an
/// error, whose text stands behind the transaction id; otherwise the transaction id is
/// repeated, the interval follows, and behind two more integers the peers, six octets for
/// each, as many as there are.
pub proof fn announcement_replies_are_judged(datagram: Seq<u8>, transaction_id: u32)
    ensures
        ({
            let d = datagram;
            let action = d[0] * 0x100_0000 + d[1] * 0x1_0000 + d[2] * 0x100 + d[3];
            let repeated = d[4] * 0x100_0000 + d[5] * 0x1_0000 + d[6] * 0x100 + d[7];
            match announcement_in(datagram, transaction_id) {
                Ok(reply) => {
                    &&& d.len() >= 20
                    &&& action == 1
                    &&& repeated == transaction_id
                    &&& reply.interval == d[8] * 0x100_0000 + d[9] * 0x1_0000 + d[10] * 0x100
                        + d[11]
                    &&& 6 * reply.peers.len() <= d.len() - 20 < 6 * reply.peers.len() + 6
                    &&& forall|i: int|
                        0 <= i < reply.peers.len() ==> {
                            let peer = #[trigger] reply.peers[i];
                            &&& peer.ip.0 == d[20 + 6 * i]
                            &&& peer.ip.1 == d[20 + 6 * i + 1]
                            &&& peer.ip.2 == d[20 + 6 * i + 2]
                            &&& peer.ip.3 == d[20 + 6 * i + 3]
                            &&& peer.port == d[20 + 6 * i + 4] * 0x100 + d[20 + 6 * i + 5]
                        }
                },
                Err(Fault::TrackerFailure(text)) => {
                    &&& d.len() >= 20
                    &&& action == 3
                    &&& text == utf8_lossy(d.subrange(8, d.len() as int))
                },
                Err(Fault::Parse(text)) => {
                    ||| d.len() < 20 && text == "Invalid announce response length"@
                    ||| d.len() >= 20 && action != 3 && (action != 1 || repeated
                        != transaction_id) && text == "Invalid announce response"@
                },
                Err(_) => false,
            }
        }),
{
    digits_are_read(datagram, 0);
    digits_are_read(datagram, 4);
    digits_are_read(datagram, 8);
    if datagram.len() >= 20 {
        super::addresses_are_laid_out(datagram.skip(20));
        assert(datagram.skip(8) =~= datagram.subrange(8, datagram.len() as int));
    }
}

/// What comes of waiting for a reply: what the datagram says, the error of the socket, or
/// that the time is over.
pub proof fn waiting_ends_in_one_of_three_ways(
    datagram: Vec<u8>,
    error: IoError,
    transaction_id: u32,
)
    ensures
        connection_awaited(Timed::Done(datagram), transaction_id) == connection_in(
            datagram@,
            transaction_id,
        ),
        connection_awaited(Timed::Failed(error), transaction_id) == Err::<u64, Fault>(
            Fault::Network(error.text@),
        ),
        connection_awaited(Timed::TimedOut, transaction_id) == Err::<u64, Fault>(
            Fault::Network("Connect timeout"@),
        ),
        announcement_awaited(Timed::Done(datagram), transaction_id) == announcement_in(
            datagram@,
            transaction_id,
        ),
        announcement_awaited(Timed::Failed(error), transaction_id) == Err::<Reply, Fault>(
            Fault::Network(error.text@),
        ),
        announcement_awaited(Timed::TimedOut, transaction_id) == Err::<Reply, Fault>(
            Fault::Network("Announce timeout"@),
        ),
{
}

/// The address that is taken is an IPv4 address with none before it; where none is taken,
/// there is none.
pub proof fn first_ipv4_is_the_first(addrs: Seq<ResolvedAddr>)
    ensures
        match first_ipv4(addrs) {
            Some(addr) => exists|i: int|
                0 <= i < addrs.len() && #[trigger] addrs[i] == ResolvedAddr::V4(addr) && forall|
                    j: int,
                | 0 <= j < i ==> #[trigger] addrs[j] == ResolvedAddr::V6,
            None => forall|i: int|
                0 <= i < addrs.len() ==> #[trigger] addrs[i] == ResolvedAddr::V6,
        },
    decreases addrs.len(),
{
    if addrs.len() > 0 {
        let others = addrs.drop_first();
        first_ipv4_is_the_first(others);
        match addrs[0] {
            ResolvedAddr::V4(addr) => {
                assert(addrs[0] == ResolvedAddr::V4(addr));
            },
            ResolvedAddr::V6 => {
                match first_ipv4(others) {
                    Some(addr) => {
                        let i = choose|i: int|
                            0 <= i < others.len() && #[trigger] others[i] == ResolvedAddr::V4(addr)
                                && forall|j: int|
                                0 <= j < i ==> #[trigger] others[j] == ResolvedAddr::V6;
                        assert(addrs[i + 1] == ResolvedAddr::V4(addr));
                        assert forall|j: int| 0 <= j < i + 1 implies #[trigger] addrs[j]
                            == ResolvedAddr::V6 by {
                            if j > 0 {
                                assert(addrs[j] == others[j - 1]);
                            }
                        }
                    },
                    None => {
                        assert forall|i: int| 0 <= i < addrs.len() implies #[trigger] addrs[i]
                            == ResolvedAddr::V6 by {
                            if i > 0 {
                                assert(addrs[i] == others[i - 1]);
                            }
                        }
                    },
                }
            },
        }
    }
}

/// A request announces exactly where its octets are those of an announcement under its
/// transaction id, with some key.
pub proof fn announcing_is_to_send_the_packet(
    query: Query,
    connection_id: u64,
    request: AnnounceRequest,
)
    ensures
        announces_under(query, connection_id, request) <==> exists|key: u32|
            buffer_contents(query.packet) == #[trigger] announce_packet(
                connection_id,
                query.transaction_id,
                key,
                request,
            ),
{
    if announces_under(query, connection_id, request) {
        let key = choose|key: u32| #[trigger] announces(query, connection_id, key, request);
        assert(buffer_contents(query.packet) == announce_packet(
            connection_id,
            query.transaction_id,
            key,
            request,
        ));
    }
    if exists|key: u32|
        buffer_contents(query.packet) == #[trigger] announce_packet(
            connection_id,
            query.transaction_id,
            key,
            request,
        ) {
        let key = choose|key: u32|
            buffer_contents(query.packet) == #[trigger] announce_packet(
                connection_id,
                query.transaction_id,
                key,
                request,
            );
        assert(announces(query, connection_id, key, request));
    }
}

} // verus!
