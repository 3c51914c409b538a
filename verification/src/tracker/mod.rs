//! Trackers: servers that know the peers of a torrent.
pub mod http;
pub mod udp;

use self::http::HttpTracker;
use self::udp::UdpTracker;
use crate::octets::read_u16;
#[allow(unused_imports)]
use crate::octets::{be16, u16_at, u16_reads_back};
use crate::text::same_text;
use vstd::prelude::*;

verus! {

/// What a client tells a tracker.
#[derive(Debug, Clone, Copy)]
pub struct AnnounceRequest {
    pub info_hash: [u8; 20],
    pub peer_id: [u8; 20],
    pub port: u16,
    pub uploaded: u64,
    pub downloaded: u64,
    pub left: u64,
    pub compact: bool,
}

/// The address of a peer: the four octets of its IPv4 address, and its port.
#[derive(Debug, Clone, Copy, PartialEq, Eq)]
pub struct PeerAddr {
    pub ip: (u8, u8, u8, u8),
    pub port: u16,
}

/// What a tracker tells a client: how many seconds to wait before asking again, and peers.
#[derive(Debug)]
pub struct AnnounceResponse {
    pub interval: u32,
    pub peers: Vec<PeerAddr>,
}

/// What an [`AnnounceResponse`] says.
#[verifier::ext_equal]
pub struct Reply {
    pub interval: u32,
    pub peers: Seq<PeerAddr>,
}

impl View for AnnounceResponse {
    type V = Reply;

    open spec fn view(&self) -> Reply {
        Reply { interval: self.interval, peers: self.peers@ }
    }
}

/// Why a tracker has told nothing.
#[derive(Debug)]
pub enum TrackerError {
    Network(String),
    Parse(String),
    TrackerFailure(String),
    UnsupportedProtocol(String),
}

/// What a [`TrackerError`] says.
#[verifier::ext_equal]
pub enum Fault {
    Network(Seq<char>),
    Parse(Seq<char>),
    TrackerFailure(Seq<char>),
    UnsupportedProtocol(Seq<char>),
}

impl View for TrackerError {
    type V = Fault;

    open spec fn view(&self) -> Fault {
        match self {
            TrackerError::Network(text) => Fault::Network(text@),
            TrackerError::Parse(text) => Fault::Parse(text@),
            TrackerError::TrackerFailure(text) => Fault::TrackerFailure(text@),
            TrackerError::UnsupportedProtocol(text) => Fault::UnsupportedProtocol(text@),
        }
    }
}

impl Fault {
    /// The error in words.
    pub open spec fn words(self) -> Seq<char> {
        match self {
            Fault::Network(text) => "Network error: "@ + text,
            Fault::Parse(text) => "Parse error: "@ + text,
            Fault::TrackerFailure(text) => "Tracker returned failure: "@ + text,
            Fault::UnsupportedProtocol(text) => "Unsupported protocol: "@ + text,
        }
    }
}

impl TrackerError {
    /// The error in words.
    pub fn message(&self) -> (text: String)
        ensures
            text@ == self@.words(),
    {
        match self {
            TrackerError::Network(text) => "Network error: ".to_owned().concat(text.as_str()),
            TrackerError::Parse(text) => "Parse error: ".to_owned().concat(text.as_str()),
            TrackerError::TrackerFailure(text) => "Tracker returned failure: ".to_owned().concat(
                text.as_str(),
            ),
            TrackerError::UnsupportedProtocol(text) => "Unsupported protocol: ".to_owned().concat(
                text.as_str(),
            ),
        }
    }
}

/// Whether the result of an operation is the one that is wanted, both as they are seen.
pub open spec fn agrees<T: View>(result: Result<T, TrackerError>, wanted: Result<T::V, Fault>) -> bool {
    match wanted {
        Ok(value) => result matches Ok(found) && found@ == value,
        Err(fault) => result matches Err(found) && found@ == fault,
    }
}

/// The address that six octets spell: an IPv4 address and a port, most significant octet
/// first.
pub open spec fn addr_at(octets: Seq<u8>, at: int) -> PeerAddr {
    PeerAddr {
        ip: (octets[at], octets[at + 1], octets[at + 2], octets[at + 3]),
        port: u16_at(octets, at + 4),
    }
}

/// The addresses that octets spell, six for each. What is left over at the end is passed
/// over.
pub open spec fn addrs_in(octets: Seq<u8>) -> Seq<PeerAddr> {
    Seq::new(octets.len() / 6, |i: int| addr_at(octets, 6 * i))
}

/// The six octets that spell an address.
pub open spec fn addr_octets(addr: PeerAddr) -> Seq<u8> {
    seq![addr.ip.0, addr.ip.1, addr.ip.2, addr.ip.3] + be16(addr.port)
}

/// The octets that spell addresses, six for each.
pub open spec fn compact(addrs: Seq<PeerAddr>) -> Seq<u8>
    decreases addrs.len(),
{
    if addrs.len() == 0 {
        Seq::empty()
    } else {
        compact(addrs.drop_last()) + addr_octets(addrs.last())
    }
}

/// Addresses that were spelled out in octets are read back from them.
pub proof fn addrs_are_read_back(addrs: Seq<PeerAddr>)
    ensures
        compact(addrs).len() == 6 * addrs.len(),
        addrs_in(compact(addrs)) == addrs,
    decreases addrs.len(),
{
    if addrs.len() > 0 {
        let earlier = addrs.drop_last();
        addrs_are_read_back(earlier);
        let octets = compact(addrs);
        assert forall|i: int| 0 <= i < addrs.len() implies addr_at(octets, 6 * i) == addrs[i] by {
            if i < earlier.len() {
                assert(addrs_in(compact(earlier))[i] == earlier[i]);
                assert(forall|j: int|
                    0 <= j < compact(earlier).len() ==> octets[j] == compact(earlier)[j]);
            } else {
                let last = addr_octets(addrs.last());
                assert(forall|j: int| 0 <= j < 6 ==> octets[6 * i + j] == last[j]);
                assert(octets[6 * i + 0] == last[0]);
                assert(octets.subrange(6 * i + 4, 6 * i + 6) =~= be16(addrs.last().port));
                u16_reads_back(octets, 6 * i + 4, addrs.last().port);
            }
        }
    }
    assert(addrs_in(compact(addrs)) =~= addrs);
}

/// The parts of a URL that trackers are told apart and reached by.
#[derive(Debug)]
pub struct TrackerUrl {
    pub text: String,
    pub scheme: String,
    pub host: Option<String>,
    pub port: Option<u16>,
}

/// What a [`TrackerUrl`] says.
#[verifier::ext_equal]
pub struct UrlParts {
    pub text: Seq<char>,
    pub scheme: Seq<char>,
    pub host: Option<Seq<char>>,
    pub port: Option<u16>,
}

impl View for TrackerUrl {
    type V = UrlParts;

    open spec fn view(&self) -> UrlParts {
        UrlParts {
            text: self.text@,
            scheme: self.scheme@,
            host: match self.host {
                Some(host) => Some(host@),
                None => None,
            },
            port: self.port,
        }
    }
}

impl Clone for TrackerUrl {
    fn clone(&self) -> (copy: Self)
        ensures
            copy@ == self@,
    {
        TrackerUrl {
            text: self.text.clone(),
            scheme: self.scheme.clone(),
            host: match &self.host {
                Some(host) => Some(host.clone()),
                None => None,
            },
            port: self.port,
        }
    }
}

/// What `url::Url::parse` takes a text for: a URL in its normal form, its scheme, its host
/// and its port, where it names one other than the default of its scheme.
pub uninterp spec fn url_of(text: Seq<char>) -> Option<UrlParts>;

/// `url::Url::parse`, with `Url::to_string`, `scheme`, `host_str` and `port` of the URL that
/// comes out. Whether there is one, and its parts, depend on nothing but the text; which
/// they are is left to the name.
#[verifier::external_body]
fn parse_url(text: &str) -> (url: Option<TrackerUrl>)
    ensures
        url_of(text@) == match url {
            Some(url) => Some(url@),
            None => None,
        },
{
    match url::Url::parse(text) {
        Ok(url) => Some(TrackerUrl {
            text: url.to_string(),
            scheme: url.scheme().to_owned(),
            host: url.host_str().map(str::to_owned),
            port: url.port(),
        }),
        Err(_) => None,
    }
}

impl TrackerUrl {
    /// Reads a URL.
    pub fn parse(text: &str) -> (url: Option<Self>)
        ensures
            url_of(text@) == match url {
                Some(url) => Some(url@),
                None => None,
            },
    {
        parse_url(text)
    }
}

/// What texts are taken for as URLs, in their order, without those that are none.
pub open spec fn urls_of(texts: Seq<String>) -> Seq<UrlParts>
    decreases texts.len(),
{
    if texts.len() == 0 {
        Seq::empty()
    } else {
        match url_of(texts.last()@) {
            Some(url) => urls_of(texts.drop_last()).push(url),
            None => urls_of(texts.drop_last()),
        }
    }
}

/// A tracker, by the protocol that it speaks.
#[derive(Debug)]
pub enum AnyTracker {
    Http(HttpTracker),
    Udp(UdpTracker),
}

/// What an [`AnyTracker`] is.
#[verifier::ext_equal]
pub enum Kind {
    Http(UrlParts),
    Udp(UrlParts),
}

impl View for AnyTracker {
    type V = Kind;

    open spec fn view(&self) -> Kind {
        match self {
            AnyTracker::Http(tracker) => Kind::Http(tracker.url@),
            AnyTracker::Udp(tracker) => Kind::Udp(tracker.url@),
        }
    }
}

/// The tracker that a URL names, where its scheme is a known one.
pub open spec fn kind_of(url: UrlParts) -> Option<Kind> {
    if url.scheme == "http"@ || url.scheme == "https"@ {
        Some(Kind::Http(url))
    } else if url.scheme == "udp"@ {
        Some(Kind::Udp(url))
    } else {
        None
    }
}

/// The trackers that URLs name, in their order, without those of unknown schemes.
pub open spec fn kinds_of(urls: Seq<UrlParts>) -> Seq<Kind>
    decreases urls.len(),
{
    if urls.len() == 0 {
        Seq::empty()
    } else {
        match kind_of(urls.last()) {
            Some(kind) => kinds_of(urls.drop_last()).push(kind),
            None => kinds_of(urls.drop_last()),
        }
    }
}

/// The trackers of a torrent.
#[derive(Debug)]
pub struct TrackerManager {
    pub trackers: Vec<TrackerUrl>,
}

impl View for TrackerManager {
    type V = Seq<UrlParts>;

    open spec fn view(&self) -> Seq<UrlParts> {
        self.trackers@.map_values(|url: TrackerUrl| url@)
    }
}

/// What is to be told to a tracker.
#[derive(Debug)]
pub struct Announcement {
    pub tracker: AnyTracker,
    pub request: AnnounceRequest,
}

impl TrackerManager {
    /// The trackers that `urls` name. Texts that are no URLs are passed over.
    pub fn new(urls: Vec<String>) -> (manager: Self)
        ensures
            manager@ == urls_of(urls@),
    {
        let mut trackers: Vec<TrackerUrl> = Vec::new();
        let mut i: usize = 0;
        while i < urls.len()
            invariant
                i <= urls@.len(),
                trackers@.map_values(|url: TrackerUrl| url@) == urls_of(urls@.take(i as int)),
            decreases urls@.len() - i,
        {
            let ghost before = trackers@;
            let url = parse_url(urls[i].as_str());
            proof {
                assert(urls@.take(i + 1).drop_last() =~= urls@.take(i as int));
                assert(urls@.take(i + 1).last() == urls@[i as int]);
            }
            if let Some(url) = url {
                trackers.push(url);
                assert(trackers@.map_values(|url: TrackerUrl| url@) =~= before.map_values(
                    |url: TrackerUrl| url@,
                ).push(url@));
            }
            i += 1;
        }
        assert(urls@.take(urls@.len() as int) =~= urls@);
        TrackerManager { trackers }
    }

    /// What is to be told to which tracker: the request, to each tracker of a known scheme,
    /// in the order in which they were named.
    pub fn announce_all(&self, request: &AnnounceRequest) -> (announcements: Vec<Announcement>)
        ensures
            announcements@.map_values(|one: Announcement| one.tracker@) == kinds_of(self@),
            forall|i: int|
                0 <= i < announcements@.len() ==> (#[trigger] announcements@[i]).request
                    == *request,
    {
        let mut announcements: Vec<Announcement> = Vec::new();
        let mut i: usize = 0;
        while i < self.trackers.len()
            invariant
                i <= self.trackers@.len(),
                announcements@.map_values(|one: Announcement| one.tracker@) == kinds_of(
                    self@.take(i as int),
                ),
                forall|j: int|
                    0 <= j < announcements@.len() ==> (#[trigger] announcements@[j]).request
                        == *request,
            decreases self.trackers@.len() - i,
        {
            let ghost before = announcements@;
            let url = &self.trackers[i];
            let tracker = if same_text(url.scheme.as_str(), "http") || same_text(
                url.scheme.as_str(),
                "https",
            ) {
                Some(AnyTracker::Http(HttpTracker::new(url.clone())))
            } else if same_text(url.scheme.as_str(), "udp") {
                Some(AnyTracker::Udp(UdpTracker::new(url.clone())))
            } else {
                None
            };
            proof {
                assert(self@.take(i + 1).drop_last() =~= self@.take(i as int));
                assert(self@.take(i + 1).last() == url@);
            }
            if let Some(tracker) = tracker {
                let ghost kind = tracker@;
                announcements.push(Announcement { tracker, request: *request });
                assert(announcements@.map_values(|one: Announcement| one.tracker@)
                    =~= before.map_values(|one: Announcement| one.tracker@).push(kind));
            }
            i += 1;
        }
        assert(self@.take(self@.len() as int) =~= self@);
        announcements
    }
}

/// The peers that an announcement has found: none where the tracker has told nothing.
pub fn discovered(outcome: Result<AnnounceResponse, TrackerError>) -> (peers: Vec<PeerAddr>)
    ensures
        peers@ == match outcome {
            Ok(response) => response.peers@,
            Err(_) => Seq::empty(),
        },
{
    match outcome {
        Ok(response) => response.peers,
        Err(_) => Vec::new(),
    }
}

/// Reads addresses, six octets for each.
pub(crate) fn read_addrs(octets: &[u8]) -> (addrs: Vec<PeerAddr>)
    ensures
        addrs@ == addrs_in(octets@),
{
    let mut addrs: Vec<PeerAddr> = Vec::new();
    let mut at: usize = 0;
    while octets.len() - at >= 6
        invariant
            at <= octets@.len(),
            at == 6 * addrs@.len(),
            forall|i: int| 0 <= i < addrs@.len() ==> addrs@[i] == addr_at(octets@, 6 * i),
        decreases octets@.len() - at,
    {
        addrs.push(
            PeerAddr {
                ip: (octets[at], octets[at + 1], octets[at + 2], octets[at + 3]),
                port: read_u16(octets, at + 4),
            },
        );
        at += 6;
    }
    assert(addrs@ =~= addrs_in(octets@));
    addrs
}

/// Addresses are read from six octets each: four of the IP address, in their order, and two
/// of the port, most significant first. All of them are, and nothing else.
pub proof fn addresses_are_laid_out(octets: Seq<u8>)
    ensures
        6 * addrs_in(octets).len() <= octets.len() < 6 * addrs_in(octets).len() + 6,
        forall|i: int|
            0 <= i < addrs_in(octets).len() ==> {
                let addr = #[trigger] addrs_in(octets)[i];
                &&& addr.ip.0 == octets[6 * i]
                &&& addr.ip.1 == octets[6 * i + 1]
                &&& addr.ip.2 == octets[6 * i + 2]
                &&& addr.ip.3 == octets[6 * i + 3]
                &&& addr.port == octets[6 * i + 4] * 0x100 + octets[6 * i + 5]
            },
{
}

/// The compact form of addresses holds each in six octets, in their order.
pub proof fn compact_form_is_laid_out(addrs: Seq<PeerAddr>, at: int)
    requires
        0 <= at < addrs.len(),
    ensures
        ({
            let octets = compact(addrs);
            &&& octets.len() == 6 * addrs.len()
            &&& octets[6 * at] == addrs[at].ip.0
            &&& octets[6 * at + 1] == addrs[at].ip.1
            &&& octets[6 * at + 2] == addrs[at].ip.2
            &&& octets[6 * at + 3] == addrs[at].ip.3
            &&& octets[6 * at + 4] * 0x100 + octets[6 * at + 5] == addrs[at].port
        }),
{
    addrs_are_read_back(addrs);
    addresses_are_laid_out(compact(addrs));
    assert(addrs_in(compact(addrs))[at] == addrs[at]);
}

/// The scheme of a URL tells the protocol of the tracker, which is the one at that URL.
pub proof fn schemes_tell_trackers(url: UrlParts)
    ensures
        match kind_of(url) {
            Some(Kind::Http(of)) => of == url && (url.scheme == "http"@ || url.scheme
                == "https"@),
            Some(Kind::Udp(of)) => of == url && url.scheme == "udp"@,
            None => url.scheme != "http"@ && url.scheme != "https"@ && url.scheme != "udp"@,
        },
{
}

/// What texts are taken for as URLs is told text by text, in their order; a text that is no
/// URL adds none.
pub proof fn urls_are_taken_one_by_one(first: Seq<String>, second: Seq<String>, text: String)
    ensures
        urls_of(first + second) == urls_of(first) + urls_of(second),
        urls_of(seq![text]) == match url_of(text@) {
            Some(url) => seq![url],
            None => Seq::empty(),
        },
    decreases second.len(),
{
    assert(seq![text].drop_last() =~= Seq::empty());
    assert(urls_of(seq![text].drop_last()) == Seq::<UrlParts>::empty());
    assert(urls_of(seq![text]) =~= match url_of(text@) {
        Some(url) => seq![url],
        None => Seq::empty(),
    });
    let both = first + second;
    if second.len() == 0 {
        assert(both =~= first);
    } else {
        urls_are_taken_one_by_one(first, second.drop_last(), text);
        assert(both.drop_last() =~= first + second.drop_last());
        assert(both.last() == second.last());
    }
    assert(urls_of(both) =~= urls_of(first) + urls_of(second));
}

/// Which trackers URLs name is told URL by URL, in their order; one of an unknown scheme
/// names none.
pub proof fn trackers_are_told_one_by_one(
    first: Seq<UrlParts>,
    second: Seq<UrlParts>,
    url: UrlParts,
)
    ensures
        kinds_of(first + second) == kinds_of(first) + kinds_of(second),
        kinds_of(seq![url]) == match kind_of(url) {
            Some(kind) => seq![kind],
            None => Seq::empty(),
        },
    decreases second.len(),
{
    assert(seq![url].drop_last() =~= Seq::empty());
    assert(kinds_of(seq![url].drop_last()) == Seq::<Kind>::empty());
    assert(kinds_of(seq![url]) =~= match kind_of(url) {
        Some(kind) => seq![kind],
        None => Seq::empty(),
    });
    let both = first + second;
    if second.len() == 0 {
        assert(both =~= first);
    } else {
        trackers_are_told_one_by_one(first, second.drop_last(), url);
        assert(both.drop_last() =~= first + second.drop_last());
        assert(both.last() == second.last());
    }
    assert(kinds_of(both) =~= kinds_of(first) + kinds_of(second));
}

/// What is said of an error: what kind it is of, and its text.
pub proof fn tracker_errors_have_their_words(text: Seq<char>)
    ensures
        Fault::Network(text).words() == "Network error: "@ + text,
        Fault::Parse(text).words() == "Parse error: "@ + text,
        Fault::TrackerFailure(text).words() == "Tracker returned failure: "@ + text,
        Fault::UnsupportedProtocol(text).words() == "Unsupported protocol: "@ + text,
{
}

/// A reply, an error, a URL, a tracker and a tracker's manager are seen with all that they
/// hold.
pub proof fn tracker_values_are_seen_whole(
    response: AnnounceResponse,
    error: TrackerError,
    url: TrackerUrl,
    tracker: AnyTracker,
    manager: TrackerManager,
)
    ensures
        response@.interval == response.interval,
        response@.peers == response.peers@,
        match error@ {
            Fault::Network(text) => error matches TrackerError::Network(held) && held@ == text,
            Fault::Parse(text) => error matches TrackerError::Parse(held) && held@ == text,
            Fault::TrackerFailure(text) => error matches TrackerError::TrackerFailure(held)
                && held@ == text,
            Fault::UnsupportedProtocol(text) => error matches TrackerError::UnsupportedProtocol(
                held,
            ) && held@ == text,
        },
        url@.text == url.text@,
        url@.scheme == url.scheme@,
        url@.port == url.port,
        url@.host is Some <==> url.host is Some,
        url.host matches Some(host) ==> url@.host == Some(host@),
        match tracker@ {
            Kind::Http(of) => tracker matches AnyTracker::Http(held) && held.url@ == of,
            Kind::Udp(of) => tracker matches AnyTracker::Udp(held) && held.url@ == of,
        },
        manager@.len() == manager.trackers@.len(),
        forall|i: int|
            0 <= i < manager@.len() ==> #[trigger] manager@[i] == manager.trackers@[i]@,
{
}

/// A result agrees with the one that is wanted where both succeed with the same value, or
/// both fail in the same way, and nowhere else.
pub proof fn results_agree_whole(
    result: Result<AnnounceResponse, TrackerError>,
    reply: Reply,
    fault: Fault,
)
    ensures
        agrees(result, Ok(reply)) <==> (result matches Ok(found) && found@ == reply),
        agrees(result, Err(fault)) <==> (result matches Err(found) && found@ == fault),
{
}

} // verus!
