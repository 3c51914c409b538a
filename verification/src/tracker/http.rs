//! Trackers that are asked over HTTP.
use super::{agrees, read_addrs, AnnounceRequest, AnnounceResponse, TrackerError, TrackerUrl};
#[allow(unused_imports)]
use super::{addrs_are_read_back, addrs_in, compact, Fault, PeerAddr, Reply};
use crate::bencode::Bencode;
#[allow(unused_imports)]
use crate::bencode::{bencode_of, Term};
use crate::text::{holds_char, lossy_text, push_decimal, push_hex_digit};
#[allow(unused_imports)]
use crate::text::{
    decimal, decimal_is_digits, decimal_tells_the_number, hex_digit, joined, utf8_lossy,
};
use vstd::prelude::*;
#[allow(unused_imports)]
use vstd::utf8::encode_utf8;

verus! {

/// Whether an octet stands for itself in a URL: letters, digits and four marks do.
pub open spec fn unreserved(octet: u8) -> bool {
    ||| 0x41 <= octet <= 0x5a
    ||| 0x61 <= octet <= 0x7a
    ||| 0x30 <= octet <= 0x39
    ||| octet == 0x2d
    ||| octet == 0x5f
    ||| octet == 0x2e
    ||| octet == 0x7e
}

/// How an octet is written in a URL: as itself, or as a percent sign and two hexadecimal
/// digits.
pub open spec fn escaped(octet: u8) -> Seq<char> {
    if unreserved(octet) {
        seq![octet as char]
    } else {
        seq!['%', hex_digit(octet / 16), hex_digit(octet % 16)]
    }
}

/// How octets are written in a URL.
pub open spec fn url_encoded(octets: Seq<u8>) -> Seq<char>
    decreases octets.len(),
{
    if octets.len() == 0 {
        Seq::empty()
    } else {
        escaped(octets[0]) + url_encoded(octets.drop_first())
    }
}

/// One where peers are asked for in compact form, else zero.
pub open spec fn compact_flag(request: AnnounceRequest) -> nat {
    if request.compact {
        1
    } else {
        0
    }
}

/// The query that carries a request.
pub open spec fn query(request: AnnounceRequest) -> Seq<char> {
    "info_hash="@ + url_encoded(request.info_hash@) + "&peer_id="@ + url_encoded(request.peer_id@)
        + "&port="@ + decimal(request.port as nat) + "&uploaded="@ + decimal(
        request.uploaded as nat,
    ) + "&downloaded="@ + decimal(request.downloaded as nat) + "&left="@ + decimal(
        request.left as nat,
    ) + "&compact="@ + decimal(compact_flag(request))
}

/// The URL that carries a request to the tracker at `url`, which may have a query already.
pub open spec fn announce_url_of(url: Seq<char>, request: AnnounceRequest) -> Seq<char> {
    url + (if url.contains('?') {
        "&"@
    } else {
        "?"@
    }) + query(request)
}

/// An integer, cut to its lowest 32 bits.
pub open spec fn low_32_bits(n: i64) -> u32 {
    (n as int % 0x1_0000_0000) as u32
}

/// What a dictionary holds under a name.
pub open spec fn entry(dict: Map<Seq<u8>, Term>, name: Seq<char>) -> Option<Term> {
    if dict.dom().contains(encode_utf8(name)) {
        Some(dict[encode_utf8(name)])
    } else {
        None
    }
}

/// What a bencoded value says as the reply of a tracker: why it failed, or an interval,
/// half an hour where none is given, and peers in compact form.
pub open spec fn reply_of(term: Term) -> Result<Reply, Fault> {
    match term {
        Term::Dict(dict) => match entry(dict, "failure reason"@) {
            Some(Term::String(reason)) => Err(Fault::TrackerFailure(utf8_lossy(reason))),
            _ => {
                let interval = match entry(dict, "interval"@) {
                    Some(Term::Integer(n)) => low_32_bits(n),
                    _ => 1800,
                };
                match entry(dict, "peers"@) {
                    Some(Term::String(peers)) => if peers.len() % 6 == 0 {
                        Ok(Reply { interval, peers: addrs_in(peers) })
                    } else {
                        Err(Fault::Parse("Invalid compact peers string"@))
                    },
                    _ => Ok(Reply { interval, peers: Seq::empty() }),
                }
            },
        },
        _ => Err(Fault::Parse("Expected bencode dict"@)),
    }
}

/// What octets say as the reply of a tracker.
pub open spec fn reply_in(octets: Seq<u8>) -> Result<Reply, Fault> {
    match bencode_of(octets) {
        Ok(term) => reply_of(term),
        Err(text) => Err(Fault::Parse("Bencode parse error: "@ + text)),
    }
}

/// A tracker that is asked over HTTP.
#[derive(Debug)]
pub struct HttpTracker {
    pub url: TrackerUrl,
}

impl HttpTracker {
    /// The tracker at a URL.
    pub fn new(url: TrackerUrl) -> (tracker: Self)
        ensures
            tracker.url == url,
    {
        HttpTracker { url }
    }

    /// Writes octets as they stand in a URL.
    pub fn url_encode(bytes: &[u8]) -> (text: String)
        ensures
            text@ == url_encoded(bytes@),
    {
        let mut text = String::new();
        let mut i: usize = 0;
        assert(bytes@.skip(0) =~= bytes@);
        while i < bytes.len()
            invariant
                i <= bytes@.len(),
                text@ + url_encoded(bytes@.skip(i as int)) == url_encoded(bytes@),
            decreases bytes@.len() - i,
        {
            let ghost before = text@;
            let b = bytes[i];
            match b {
                0x41..=0x5a | 0x61..=0x7a | 0x30..=0x39 | 0x2d | 0x5f | 0x2e | 0x7e => {
                    text.push(b as char);
                },
                _ => {
                    text.push('%');
                    push_hex_digit(&mut text, b / 16);
                    push_hex_digit(&mut text, b % 16);
                },
            }
            proof {
                assert(text@ =~= before + escaped(b));
                assert(bytes@.skip(i as int).drop_first() =~= bytes@.skip(i + 1));
                assert((before + escaped(b)) + url_encoded(bytes@.skip(i + 1)) =~= before + (
                escaped(b) + url_encoded(bytes@.skip(i + 1))));
            }
            i += 1;
        }
        assert(text@ + url_encoded(bytes@.skip(bytes@.len() as int)) =~= text@);
        text
    }

    /// The URL that carries a request to the tracker.
    pub fn announce_url(&self, request: &AnnounceRequest) -> (url: String)
        ensures
            url@ == announce_url_of(self.url.text@, *request),
    {
        let mut url = self.url.text.clone();
        if holds_char(self.url.text.as_str(), '?') {
            url.append("&");
        } else {
            url.append("?");
        }
        let ghost start = url@;
        url.append("info_hash=");
        url.append(Self::url_encode(&request.info_hash).as_str());
        url.append("&peer_id=");
        url.append(Self::url_encode(&request.peer_id).as_str());
        url.append("&port=");
        push_decimal(&mut url, request.port as u64);
        url.append("&uploaded=");
        push_decimal(&mut url, request.uploaded);
        url.append("&downloaded=");
        push_decimal(&mut url, request.downloaded);
        url.append("&left=");
        push_decimal(&mut url, request.left);
        url.append("&compact=");
        push_decimal(&mut url, if request.compact { 1 } else { 0 });
        assert(url@ =~= start + query(*request));
        url
    }

    /// Reads the reply of a tracker from what it says.
    pub fn interpret(bencode: &Bencode) -> (result: Result<AnnounceResponse, TrackerError>)
        ensures
            agrees(result, reply_of(bencode@)),
    {
        let dict = match bencode {
            Bencode::Dict(dict) => dict,
            _ => return Err(TrackerError::Parse("Expected bencode dict".to_owned())),
        };
        if let Some(Bencode::String(reason)) = dict.get("failure reason".as_bytes()) {
            return Err(TrackerError::TrackerFailure(lossy_text(reason.as_slice())));
        }
        let interval = match dict.get("interval".as_bytes()) {
            Some(Bencode::Integer(n)) => cut_to_32_bits(*n),
            _ => 1800,
        };
        let mut peers = Vec::new();
        if let Some(Bencode::String(octets)) = dict.get("peers".as_bytes()) {
            if octets.len() % 6 != 0 {
                return Err(TrackerError::Parse("Invalid compact peers string".to_owned()));
            }
            peers = read_addrs(octets.as_slice());
        }
        Ok(AnnounceResponse { interval, peers })
    }

    /// Reads the reply of a tracker from the octets that it has sent, or says why none came.
    pub fn receive(reply: Result<Vec<u8>, String>) -> (result: Result<
        AnnounceResponse,
        TrackerError,
    >)
        ensures
            agrees(
                result,
                match reply {
                    Ok(octets) => reply_in(octets@),
                    Err(text) => Err(Fault::Network(text@)),
                },
            ),
    {
        let octets = match reply {
            Ok(octets) => octets,
            Err(text) => return Err(TrackerError::Network(text)),
        };
        match Bencode::from_bytes(octets.as_slice()) {
            Ok(bencode) => Self::interpret(&bencode),
            Err(text) => Err(
                TrackerError::Parse("Bencode parse error: ".to_owned().concat(text.as_str())),
            ),
        }
    }
}

/// The number that a hexadecimal digit stands for.
pub open spec fn hex_value(digit: char) -> Option<u8> {
    if '0' <= digit <= '9' {
        Some((digit as u8 - 0x30) as u8)
    } else if 'A' <= digit <= 'F' {
        Some((digit as u8 - 0x41 + 10) as u8)
    } else {
        None
    }
}

/// The octets that a text in a URL stands for.
pub open spec fn url_decoded(text: Seq<char>) -> Option<Seq<u8>>
    decreases text.len(),
{
    if text.len() == 0 {
        Some(Seq::empty())
    } else if text[0] != '%' {
        match url_decoded(text.skip(1)) {
            Some(rest) if text[0] <= '\x7f' => Some(seq![text[0] as u8] + rest),
            _ => None,
        }
    } else if text.len() < 3 {
        None
    } else {
        match (hex_value(text[1]), hex_value(text[2]), url_decoded(text.skip(3))) {
            (Some(high), Some(low), Some(rest)) => Some(seq![(16 * high + low) as u8] + rest),
            _ => None,
        }
    }
}

/// Octets that are written in a URL are read back from it.
pub proof fn url_encoding_is_undone(octets: Seq<u8>)
    ensures
        url_decoded(url_encoded(octets)) == Some(octets),
    decreases octets.len(),
{
    if octets.len() > 0 {
        let first = octets[0];
        let rest = octets.drop_first();
        let text = url_encoded(octets);
        url_encoding_is_undone(rest);
        if unreserved(first) {
            assert(text.skip(1) =~= url_encoded(rest));
        } else {
            assert(text.skip(3) =~= url_encoded(rest));
            assert(text[1] == hex_digit(first / 16));
            assert(text[2] == hex_digit(first % 16));
        }
        assert(seq![first] + rest =~= octets);
    }
}

/// Octets are written in a URL with percent signs and characters that stand for themselves.
pub proof fn url_encoding_is_plain(octets: Seq<u8>, at: int)
    requires
        0 <= at < url_encoded(octets).len(),
    ensures
        url_encoded(octets)[at] == '%' || unreserved(url_encoded(octets)[at] as u8),
        url_encoded(octets)[at] <= '\x7f',
    decreases octets.len(),
{
    if octets.len() > 0 {
        let start = escaped(octets[0]);
        if at >= start.len() {
            url_encoding_is_plain(octets.drop_first(), at - start.len());
        }
    }
}

/// Whether a text is the rest of a query: nothing, or what starts with an ampersand.
spec fn ends_value(rest: Seq<char>) -> bool {
    rest.len() == 0 || rest[0] == '&'
}

/// A value in a query is told by where the next ampersand stands.
proof fn value_is_told(
    name: Seq<char>,
    value: Seq<char>,
    rest: Seq<char>,
    other_value: Seq<char>,
    other_rest: Seq<char>,
)
    requires
        name + (value + rest) == name + (other_value + other_rest),
        !value.contains('&'),
        !other_value.contains('&'),
        ends_value(rest),
        ends_value(other_rest),
    ensures
        value == other_value,
        rest == other_rest,
{
    let all = value + rest;
    let other = other_value + other_rest;
    assert(all =~= (name + all).skip(name.len() as int));
    assert(other =~= (name + other).skip(name.len() as int));
    if value.len() < other_value.len() {
        assert(all[value.len() as int] == rest[0]);
        assert(other_value.contains(other[value.len() as int]));
    }
    if other_value.len() < value.len() {
        assert(other[other_value.len() as int] == other_rest[0]);
        assert(value.contains(all[other_value.len() as int]));
    }
    assert(value =~= all.take(value.len() as int));
    assert(other_value =~= other.take(value.len() as int));
    assert(rest =~= all.skip(value.len() as int));
    assert(other_rest =~= other.skip(value.len() as int));
}

spec fn compact_onwards(request: AnnounceRequest) -> Seq<char> {
    "&compact="@ + (decimal(compact_flag(request)) + Seq::<char>::empty())
}

spec fn left_onwards(request: AnnounceRequest) -> Seq<char> {
    "&left="@ + (decimal(request.left as nat) + compact_onwards(request))
}

spec fn downloaded_onwards(request: AnnounceRequest) -> Seq<char> {
    "&downloaded="@ + (decimal(request.downloaded as nat) + left_onwards(request))
}

spec fn uploaded_onwards(request: AnnounceRequest) -> Seq<char> {
    "&uploaded="@ + (decimal(request.uploaded as nat) + downloaded_onwards(request))
}

spec fn port_onwards(request: AnnounceRequest) -> Seq<char> {
    "&port="@ + (decimal(request.port as nat) + uploaded_onwards(request))
}

spec fn peer_id_onwards(request: AnnounceRequest) -> Seq<char> {
    "&peer_id="@ + (url_encoded(request.peer_id@) + port_onwards(request))
}

/// A name and a value may be put together with what follows or with what goes before.
proof fn regroup(front: Seq<char>, name: Seq<char>, value: Seq<char>, rest: Seq<char>)
    ensures
        front + name + value + rest == front + (name + (value + rest)),
{
    assert(front + name + value + rest =~= front + (name + (value + rest)));
}

/// A query is its first value with the rest behind it.
proof fn query_regroups(request: AnnounceRequest)
    ensures
        query(request) == "info_hash="@ + (url_encoded(request.info_hash@) + peer_id_onwards(
            request,
        )),
{
    let none = Seq::<char>::empty();
    let info_hash = url_encoded(request.info_hash@);
    let peer_id = url_encoded(request.peer_id@);
    let port = decimal(request.port as nat);
    let uploaded = decimal(request.uploaded as nat);
    let downloaded = decimal(request.downloaded as nat);
    let left = decimal(request.left as nat);
    let compact = decimal(compact_flag(request));
    let first = "info_hash="@ + info_hash;
    let second = first + "&peer_id="@ + peer_id;
    let third = second + "&port="@ + port;
    let fourth = third + "&uploaded="@ + uploaded;
    let fifth = fourth + "&downloaded="@ + downloaded;
    let sixth = fifth + "&left="@ + left;
    let whole = sixth + "&compact="@ + compact;
    assert(query(request) == whole);
    assert(whole == whole + none);
    regroup(sixth, "&compact="@, compact, none);
    regroup(fifth, "&left="@, left, compact_onwards(request));
    regroup(fourth, "&downloaded="@, downloaded, left_onwards(request));
    regroup(third, "&uploaded="@, uploaded, downloaded_onwards(request));
    regroup(second, "&port="@, port, uploaded_onwards(request));
    regroup(first, "&peer_id="@, peer_id, port_onwards(request));
    assert(first + peer_id_onwards(request) =~= "info_hash="@ + (info_hash + peer_id_onwards(
        request,
    )));
}

/// A query is its first value with the rest behind it, and each rest starts with an
/// ampersand. No value holds one.
proof fn query_has_values(request: AnnounceRequest)
    ensures
        query(request) == "info_hash="@ + (url_encoded(request.info_hash@) + peer_id_onwards(
            request,
        )),
        ends_value(peer_id_onwards(request)),
        ends_value(port_onwards(request)),
        ends_value(uploaded_onwards(request)),
        ends_value(downloaded_onwards(request)),
        ends_value(left_onwards(request)),
        ends_value(compact_onwards(request)),
        !url_encoded(request.info_hash@).contains('&'),
        !url_encoded(request.peer_id@).contains('&'),
        forall|n: nat| !(#[trigger] decimal(n)).contains('&'),
{
    reveal_strlit("&peer_id=");
    reveal_strlit("&port=");
    reveal_strlit("&uploaded=");
    reveal_strlit("&downloaded=");
    reveal_strlit("&left=");
    reveal_strlit("&compact=");
    query_regroups(request);
    url_encoding_has_no_ampersand(request.info_hash@);
    url_encoding_has_no_ampersand(request.peer_id@);
    assert forall|n: nat| !(#[trigger] decimal(n)).contains('&') by {
        decimal_is_digits(n);
    }
}

/// Octets are written in a URL without ampersands.
proof fn url_encoding_has_no_ampersand(octets: Seq<u8>)
    ensures
        !url_encoded(octets).contains('&'),
{
    assert forall|i: int| 0 <= i < url_encoded(octets).len() implies url_encoded(octets)[i]
        != '&' by {
        url_encoding_is_plain(octets, i);
    }
}

/// The URL that carries a request tells the whole request: no other one is carried by it.
pub proof fn url_tells_the_request(url: Seq<char>, one: AnnounceRequest, other: AnnounceRequest)
    requires
        announce_url_of(url, one) == announce_url_of(url, other),
    ensures
        one.info_hash@ == other.info_hash@,
        one.peer_id@ == other.peer_id@,
        one.port == other.port,
        one.uploaded == other.uploaded,
        one.downloaded == other.downloaded,
        one.left == other.left,
        one.compact == other.compact,
{
    let start = url + (if url.contains('?') {
        "&"@
    } else {
        "?"@
    });
    assert(query(one) =~= announce_url_of(url, one).skip(start.len() as int));
    assert(query(other) =~= announce_url_of(url, other).skip(start.len() as int));
    query_has_values(one);
    query_has_values(other);
    let none = Seq::<char>::empty();
    value_is_told(
        "info_hash="@,
        url_encoded(one.info_hash@),
        peer_id_onwards(one),
        url_encoded(other.info_hash@),
        peer_id_onwards(other),
    );
    value_is_told(
        "&peer_id="@,
        url_encoded(one.peer_id@),
        port_onwards(one),
        url_encoded(other.peer_id@),
        port_onwards(other),
    );
    value_is_told(
        "&port="@,
        decimal(one.port as nat),
        uploaded_onwards(one),
        decimal(other.port as nat),
        uploaded_onwards(other),
    );
    value_is_told(
        "&uploaded="@,
        decimal(one.uploaded as nat),
        downloaded_onwards(one),
        decimal(other.uploaded as nat),
        downloaded_onwards(other),
    );
    value_is_told(
        "&downloaded="@,
        decimal(one.downloaded as nat),
        left_onwards(one),
        decimal(other.downloaded as nat),
        left_onwards(other),
    );
    value_is_told(
        "&left="@,
        decimal(one.left as nat),
        compact_onwards(one),
        decimal(other.left as nat),
        compact_onwards(other),
    );
    value_is_told("&compact="@, decimal(compact_flag(one)), none, decimal(compact_flag(other)), none);
    url_encoding_is_undone(one.info_hash@);
    url_encoding_is_undone(other.info_hash@);
    url_encoding_is_undone(one.peer_id@);
    url_encoding_is_undone(other.peer_id@);
    decimal_tells_the_number(one.port as nat, other.port as nat);
    decimal_tells_the_number(one.uploaded as nat, other.uploaded as nat);
    decimal_tells_the_number(one.downloaded as nat, other.downloaded as nat);
    decimal_tells_the_number(one.left as nat, other.left as nat);
    decimal_tells_the_number(compact_flag(one), compact_flag(other));
}

/// Cuts an integer to its lowest 32 bits.
fn cut_to_32_bits(n: i64) -> (low: u32)
    ensures
        low == low_32_bits(n),
{
    let bits = n as u64;
    assert(n as u32 == bits % 0x1_0000_0000) by (bit_vector)
        requires
            bits == n as u64,
    ;
    assert(n < 0 ==> bits == n + 0x1_0000_0000_0000_0000) by (bit_vector)
        requires
            bits == n as u64,
    ;
    n as u32
}

/// What stands in a URL for octets is told octet by octet. Letters, digits and the marks
/// `-`, `_`, `.` and `~` stand for themselves; any other octet is a percent sign and two
/// hexadecimal digits, the higher first, with letters in upper case.
pub proof fn octets_are_escaped_one_by_one(first: Seq<u8>, second: Seq<u8>, octet: u8)
    ensures
        url_encoded(first + second) == url_encoded(first) + url_encoded(second),
        ({
            let text = url_encoded(seq![octet]);
            let itself = {
                ||| 'A' as int <= octet <= 'Z' as int
                ||| 'a' as int <= octet <= 'z' as int
                ||| '0' as int <= octet <= '9' as int
                ||| octet == '-' as int
                ||| octet == '_' as int
                ||| octet == '.' as int
                ||| octet == '~' as int
            };
            &&& itself ==> text.len() == 1 && text[0] as int == octet
            &&& !itself ==> {
                &&& text.len() == 3
                &&& text[0] == '%'
                &&& hex_value(text[1]) matches Some(high)
                &&& hex_value(text[2]) matches Some(low)
                &&& 16 * high + low == octet
            }
        }),
        url_encoded(Seq::empty()) == Seq::<char>::empty(),
    decreases first.len(),
{
    let one = seq![octet];
    assert(one.drop_first() =~= Seq::empty());
    assert(url_encoded(one.drop_first()) == Seq::<char>::empty());
    assert(url_encoded(one) =~= escaped(octet));
    let both = first + second;
    if first.len() == 0 {
        assert(both =~= second);
    } else {
        octets_are_escaped_one_by_one(first.drop_first(), second, octet);
        assert(both.drop_first() =~= first.drop_first() + second);
        assert(both[0] == first[0]);
    }
    assert(url_encoded(both) =~= url_encoded(first) + url_encoded(second));
}

/// A hexadecimal digit stands for the number that it is worth, and nothing else is one.
pub proof fn hex_digits_are_worth_their_number(digit: char)
    ensures
        match hex_value(digit) {
            Some(n) => ('0' <= digit <= '9' && n == digit as int - '0' as int) || ('A' <= digit
                <= 'F' && n == digit as int - 'A' as int + 10),
            None => !('0' <= digit <= '9') && !('A' <= digit <= 'F'),
        },
{
}

/// The URL that carries a request is that of the tracker, with the parameters of the request
/// behind it: each of them a name, an equals sign and a value, with ampersands between them.
/// They are set off by an ampersand where the URL has parameters already, else by a question
/// mark.
pub proof fn requests_are_carried_by_parameters(url: Seq<char>, request: AnnounceRequest)
    ensures
        ({
            let whole = announce_url_of(url, request);
            let parameters = seq![
                "info_hash"@ + seq!['='] + url_encoded(request.info_hash@),
                "peer_id"@ + seq!['='] + url_encoded(request.peer_id@),
                "port"@ + seq!['='] + decimal(request.port as nat),
                "uploaded"@ + seq!['='] + decimal(request.uploaded as nat),
                "downloaded"@ + seq!['='] + decimal(request.downloaded as nat),
                "left"@ + seq!['='] + decimal(request.left as nat),
                "compact"@ + seq!['='] + (if request.compact {
                    seq!['1']
                } else {
                    seq!['0']
                }),
            ];
            &&& url.contains('?') ==> whole == url + seq!['&'] + joined(parameters, '&')
            &&& !url.contains('?') ==> whole == url + seq!['?'] + joined(parameters, '&')
        }),
{
    let empty = Seq::<char>::empty();
    let info_hash = "info_hash"@ + seq!['='] + url_encoded(request.info_hash@);
    let peer_id = "peer_id"@ + seq!['='] + url_encoded(request.peer_id@);
    let port = "port"@ + seq!['='] + decimal(request.port as nat);
    let uploaded = "uploaded"@ + seq!['='] + decimal(request.uploaded as nat);
    let downloaded = "downloaded"@ + seq!['='] + decimal(request.downloaded as nat);
    let left = "left"@ + seq!['='] + decimal(request.left as nat);
    let flag = if request.compact {
        seq!['1']
    } else {
        seq!['0']
    };
    let compact = "compact"@ + seq!['='] + flag;
    assert(decimal(compact_flag(request)) =~= flag);
    reveal_strlit("info_hash");
    reveal_strlit("peer_id");
    reveal_strlit("port");
    reveal_strlit("uploaded");
    reveal_strlit("downloaded");
    reveal_strlit("left");
    reveal_strlit("compact");
    reveal_strlit("info_hash=");
    reveal_strlit("&peer_id=");
    reveal_strlit("&port=");
    reveal_strlit("&uploaded=");
    reveal_strlit("&downloaded=");
    reveal_strlit("&left=");
    reveal_strlit("&compact=");
    reveal_strlit("&");
    reveal_strlit("?");
    let p7 = seq![compact];
    let p6 = seq![left, compact];
    let p5 = seq![downloaded, left, compact];
    let p4 = seq![uploaded, downloaded, left, compact];
    let p3 = seq![port, uploaded, downloaded, left, compact];
    let p2 = seq![peer_id, port, uploaded, downloaded, left, compact];
    let p1 = seq![info_hash, peer_id, port, uploaded, downloaded, left, compact];
    assert(p1.drop_first() =~= p2);
    assert(p2.drop_first() =~= p3);
    assert(p3.drop_first() =~= p4);
    assert(p4.drop_first() =~= p5);
    assert(p5.drop_first() =~= p6);
    assert(p6.drop_first() =~= p7);
    assert(joined(p7, '&') == compact);
    assert("&compact="@ =~= seq!['&'] + "compact"@ + seq!['=']);
    parameter_is_set_off("compact"@, flag, empty, "&compact="@);
    assert(compact_onwards(request) =~= seq!['&'] + joined(p7, '&'));
    assert("&left="@ =~= seq!['&'] + "left"@ + seq!['=']);
    parameter_is_set_off("left"@, decimal(request.left as nat), compact_onwards(request), "&left="@);
    parameters_go_on(left, joined(p7, '&'));
    assert(left_onwards(request) == seq!['&'] + joined(p6, '&'));
    assert("&downloaded="@ =~= seq!['&'] + "downloaded"@ + seq!['=']);
    parameter_is_set_off(
        "downloaded"@,
        decimal(request.downloaded as nat),
        left_onwards(request),
        "&downloaded="@,
    );
    parameters_go_on(downloaded, joined(p6, '&'));
    assert(downloaded_onwards(request) == seq!['&'] + joined(p5, '&'));
    assert("&uploaded="@ =~= seq!['&'] + "uploaded"@ + seq!['=']);
    parameter_is_set_off(
        "uploaded"@,
        decimal(request.uploaded as nat),
        downloaded_onwards(request),
        "&uploaded="@,
    );
    parameters_go_on(uploaded, joined(p5, '&'));
    assert(uploaded_onwards(request) == seq!['&'] + joined(p4, '&'));
    assert("&port="@ =~= seq!['&'] + "port"@ + seq!['=']);
    parameter_is_set_off(
        "port"@,
        decimal(request.port as nat),
        uploaded_onwards(request),
        "&port="@,
    );
    parameters_go_on(port, joined(p4, '&'));
    assert(port_onwards(request) == seq!['&'] + joined(p3, '&'));
    assert("&peer_id="@ =~= seq!['&'] + "peer_id"@ + seq!['=']);
    parameter_is_set_off(
        "peer_id"@,
        url_encoded(request.peer_id@),
        port_onwards(request),
        "&peer_id="@,
    );
    parameters_go_on(peer_id, joined(p3, '&'));
    assert(peer_id_onwards(request) == seq!['&'] + joined(p2, '&'));
    query_regroups(request);
    assert("info_hash="@ =~= "info_hash"@ + seq!['=']);
    assert("info_hash="@ + (url_encoded(request.info_hash@) + peer_id_onwards(request))
        =~= info_hash + peer_id_onwards(request));
    parameters_go_on(info_hash, joined(p2, '&'));
    assert(query(request) =~= joined(p1, '&'));
    assert("&"@ =~= seq!['&']);
    assert("?"@ =~= seq!['?']);
}

/// A parameter that is set off by an ampersand is the ampersand and the parameter.
proof fn parameter_is_set_off(
    name: Seq<char>,
    value: Seq<char>,
    rest: Seq<char>,
    set_off: Seq<char>,
)
    requires
        set_off == seq!['&'] + name + seq!['='],
    ensures
        set_off + (value + rest) == seq!['&'] + ((name + seq!['='] + value) + rest),
{
    assert(set_off + (value + rest) =~= seq!['&'] + ((name + seq!['='] + value) + rest));
}

/// An ampersand may be put together with what goes before it or with what follows.
proof fn parameters_go_on(first: Seq<char>, others: Seq<char>)
    ensures
        first + seq!['&'] + others == first + (seq!['&'] + others),
{
    assert(first + seq!['&'] + others =~= first + (seq!['&'] + others));
}

/// What a dictionary says as the reply of a tracker, by the names of its entries. A byte
/// string under `failure reason` is a failure. Otherwise the interval is the integer under
/// `interval`, cut to 32 bits, or 1800; and the peers are those that the octets under `peers`
/// spell, six for each, all of them and in their order, or none. Nothing else matters.
pub proof fn replies_are_read_by_name(dict: Map<Seq<u8>, Term>)
    ensures
        ({
            let reason = encode_utf8("failure reason"@);
            let fails = dict.dom().contains(reason) && dict[reason] is String;
            let named = encode_utf8("interval"@);
            let listed = encode_utf8("peers"@);
            let lists = dict.dom().contains(listed) && dict[listed] is String;
            let octets = dict[listed]->String_0;
            match reply_of(Term::Dict(dict)) {
                Err(Fault::TrackerFailure(text)) => fails && text == utf8_lossy(
                    dict[reason]->String_0,
                ),
                Err(Fault::Parse(text)) => {
                    &&& !fails
                    &&& lists
                    &&& octets.len() % 6 != 0
                    &&& text == "Invalid compact peers string"@
                },
                Err(_) => false,
                Ok(reply) => {
                    &&& !fails
                    &&& if dict.dom().contains(named) && dict[named] is Integer {
                        (dict[named]->Integer_0 - reply.interval) % 0x1_0000_0000 == 0
                    } else {
                        reply.interval == 1800
                    }
                    &&& !lists ==> reply.peers.len() == 0
                    &&& lists ==> octets.len() == 6 * reply.peers.len()
                    &&& lists ==> forall|i: int|
                        0 <= i < reply.peers.len() ==> {
                            let peer = #[trigger] reply.peers[i];
                            &&& peer.ip.0 == octets[6 * i]
                            &&& peer.ip.1 == octets[6 * i + 1]
                            &&& peer.ip.2 == octets[6 * i + 2]
                            &&& peer.ip.3 == octets[6 * i + 3]
                            &&& peer.port == octets[6 * i + 4] * 0x100 + octets[6 * i + 5]
                        }
                },
            }
        }),
{
    let octets = dict[encode_utf8("peers"@)]->String_0;
    super::addresses_are_laid_out(octets);
    let n = dict[encode_utf8("interval"@)]->Integer_0;
    low_bits_are_congruent(n);
}

/// An integer and its lowest 32 bits differ by a multiple of two to the 32nd.
pub proof fn low_bits_are_congruent(n: i64)
    ensures
        (n - low_32_bits(n)) % 0x1_0000_0000 == 0,
        0 <= n < 0x1_0000_0000 ==> low_32_bits(n) == n,
{
}

/// The interval and the peers that a tracker names are read back from its reply, whatever
/// else it says, as long as it is no failure.
pub proof fn http_peers_are_read_back(
    dict: Map<Seq<u8>, Term>,
    interval: u32,
    peers: Seq<PeerAddr>,
)
    requires
        !dict.dom().contains(encode_utf8("failure reason"@)),
        dict.dom().contains(encode_utf8("interval"@)),
        dict[encode_utf8("interval"@)] == Term::Integer(interval as i64),
        dict.dom().contains(encode_utf8("peers"@)),
        dict[encode_utf8("peers"@)] == Term::String(compact(peers)),
    ensures
        reply_of(Term::Dict(dict)) == Ok::<Reply, Fault>(Reply { interval, peers }),
{
    addrs_are_read_back(peers);
    low_bits_are_congruent(interval as i64);
}

/// A reply that is no dictionary, and one that is not bencoded, are refused.
pub proof fn other_replies_are_refused(term: Term, octets: Seq<u8>)
    ensures
        !(term is Dict) ==> reply_of(term) == Err::<Reply, Fault>(
            Fault::Parse("Expected bencode dict"@),
        ),
        bencode_of(octets) matches Ok(read) ==> reply_in(octets) == reply_of(read),
        bencode_of(octets) matches Err(text) ==> reply_in(octets) == Err::<Reply, Fault>(
            Fault::Parse("Bencode parse error: "@ + text),
        ),
{
}

} // verus!
