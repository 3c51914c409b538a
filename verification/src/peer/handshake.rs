//! The handshake that opens a connection: 68 octets each way.
use crate::io_error::{IoError, IoErrorKind, Timed};
use crate::octets::same_octets;
use vstd::prelude::*;

verus! {

/// The name of the protocol, as the handshake spells it.
pub open spec fn protocol_string() -> Seq<u8> {
    vstd::utf8::encode_utf8("BitTorrent protocol"@)
}

/// The handshake of a peer: the length of the protocol's name, the name, eight reserved
/// octets that are all zero, the info-hash and the peer's id.
pub open spec fn handshake_octets(info_hash: Seq<u8>, peer_id: Seq<u8>) -> Seq<u8> {
    seq![19u8] + protocol_string() + Seq::new(8, |i: int| 0u8) + info_hash + peer_id
}

/// What a handshake that a peer has sent is taken for: the peer's id, where the protocol
/// and the info-hash are the expected ones.
pub open spec fn accepted(response: Seq<u8>, info_hash: Seq<u8>) -> Result<Seq<u8>, Seq<char>> {
    if response[0] != 19 || response.subrange(1, 20) != protocol_string() {
        Err("Invalid protocol string from peer"@)
    } else if response.subrange(28, 48) != info_hash {
        Err("Info hash mismatch"@)
    } else {
        Ok(response.subrange(48, 68))
    }
}

/// The name of the protocol takes 19 octets.
pub proof fn protocol_string_length()
    ensures
        protocol_string().len() == 19,
{
    reveal_strlit("BitTorrent protocol");
    vstd::string::is_ascii_spec_bytes("BitTorrent protocol");
}

/// The handshake to send.
pub fn opening(info_hash: &[u8; 20], peer_id: &[u8; 20]) -> (octets: Vec<u8>)
    ensures
        octets@ == handshake_octets(info_hash@, peer_id@),
        octets@.len() == 68,
{
    proof {
        protocol_string_length();
    }
    let mut octets: Vec<u8> = Vec::with_capacity(68);
    octets.push(19);
    octets.extend_from_slice("BitTorrent protocol".as_bytes());
    let zeros: [u8; 8] = [0, 0, 0, 0, 0, 0, 0, 0];
    octets.extend_from_slice(&zeros);
    octets.extend_from_slice(info_hash);
    octets.extend_from_slice(peer_id);
    assert(octets@ =~= handshake_octets(info_hash@, peer_id@));
    octets
}

/// The twenty octets of a handshake from `at` on.
fn twenty_from(response: &[u8; 68], at: usize) -> (part: [u8; 20])
    requires
        at + 20 <= 68,
    ensures
        part@ == response@.subrange(at as int, at + 20),
{
    let mut part: [u8; 20] = [0; 20];
    let mut i: usize = 0;
    while i < 20
        invariant
            i <= 20,
            at + 20 <= 68,
            forall|j: int| 0 <= j < i ==> part@[j] == response@[at + j],
        decreases 20 - i,
    {
        part[i] = response[at + i];
        i += 1;
    }
    assert(part@ =~= response@.subrange(at as int, at + 20));
    part
}

/// What comes of sending the handshake.
pub fn sent(outcome: Timed<()>) -> (result: Result<(), IoError>)
    ensures
        match outcome {
            Timed::Done(_) => result == Ok::<(), IoError>(()),
            Timed::Failed(error) => result == Err::<(), IoError>(error),
            Timed::TimedOut => result matches Err(error) && error@ == (
                IoErrorKind::TimedOut,
                "Handshake write timed out"@,
            ),
        },
{
    match outcome {
        Timed::Done(_) => Ok(()),
        Timed::Failed(error) => Err(error),
        Timed::TimedOut => Err(IoError::new(IoErrorKind::TimedOut, "Handshake write timed out")),
    }
}

/// What comes of waiting for the peer's handshake: the peer's id.
pub fn answered(outcome: Timed<[u8; 68]>, info_hash: &[u8; 20]) -> (result: Result<
    [u8; 20],
    IoError,
>)
    ensures
        match outcome {
            Timed::Done(response) => match accepted(response@, info_hash@) {
                Ok(peer_id) => result matches Ok(id) && id@ == peer_id,
                Err(text) => result matches Err(error) && error@ == (
                    IoErrorKind::InvalidData,
                    text,
                ),
            },
            Timed::Failed(error) => result == Err::<[u8; 20], IoError>(error),
            Timed::TimedOut => result matches Err(error) && error@ == (
                IoErrorKind::TimedOut,
                "Handshake read timed out"@,
            ),
        },
{
    let response = match outcome {
        Timed::Done(response) => response,
        Timed::Failed(error) => return Err(error),
        Timed::TimedOut => return Err(
            IoError::new(IoErrorKind::TimedOut, "Handshake read timed out"),
        ),
    };
    if response[0] != 19 || !same_octets(&response[1..20], "BitTorrent protocol".as_bytes()) {
        return Err(IoError::new(IoErrorKind::InvalidData, "Invalid protocol string from peer"));
    }
    let answer = twenty_from(&response, 28);
    if !same_octets(&answer, info_hash) {
        return Err(IoError::new(IoErrorKind::InvalidData, "Info hash mismatch"));
    }
    Ok(twenty_from(&response, 48))
}

/// A peer that sends the handshake of its id for an info-hash is accepted under that id
/// by one who expects that info-hash, and by nobody else.
pub proof fn handshakes_agree(info_hash: Seq<u8>, expected: Seq<u8>, peer_id: Seq<u8>)
    requires
        info_hash.len() == 20,
        expected.len() == 20,
        peer_id.len() == 20,
    ensures
        accepted(handshake_octets(info_hash, peer_id), expected) == if info_hash == expected {
            Ok::<Seq<u8>, Seq<char>>(peer_id)
        } else {
            Err::<Seq<u8>, Seq<char>>("Info hash mismatch"@)
        },
{
    protocol_string_length();
    let octets = handshake_octets(info_hash, peer_id);
    assert(octets.subrange(1, 20) =~= protocol_string());
    assert(octets.subrange(28, 48) =~= info_hash);
    assert(octets.subrange(48, 68) =~= peer_id);
}

/// The octets that spell the name of the protocol.
pub proof fn protocol_is_spelled()
    ensures
        protocol_string() == seq![
        0x42u8, 0x69, 0x74, 0x54, 0x6f, 0x72, 0x72, 0x65, 0x6e, 0x74, 0x20,
        0x70, 0x72, 0x6f, 0x74, 0x6f, 0x63, 0x6f, 0x6c,
    ],
{
    reveal_strlit("BitTorrent protocol");
    vstd::string::is_ascii_spec_bytes("BitTorrent protocol");
    assert(protocol_string() =~= seq![
        0x42u8, 0x69, 0x74, 0x54, 0x6f, 0x72, 0x72, 0x65, 0x6e, 0x74, 0x20,
        0x70, 0x72, 0x6f, 0x74, 0x6f, 0x63, 0x6f, 0x6c,
    ]);
}

/// How a handshake is laid out: 19, the name of the protocol, eight zeros, the info-hash and
/// the peer's id, 68 octets in all.
pub proof fn handshakes_are_laid_out(info_hash: Seq<u8>, peer_id: Seq<u8>)
    requires
        info_hash.len() == 20,
        peer_id.len() == 20,
    ensures
        ({
            let octets = handshake_octets(info_hash, peer_id);
            &&& octets.len() == 68
            &&& octets[0] == 19
            &&& octets.subrange(1, 20) == seq![
        0x42u8, 0x69, 0x74, 0x54, 0x6f, 0x72, 0x72, 0x65, 0x6e, 0x74, 0x20,
        0x70, 0x72, 0x6f, 0x74, 0x6f, 0x63, 0x6f, 0x6c,
    ]
            &&& forall|i: int| 20 <= i < 28 ==> #[trigger] octets[i] == 0
            &&& forall|i: int| 0 <= i < 20 ==> octets[28 + i] == #[trigger] info_hash[i]
            &&& forall|i: int| 0 <= i < 20 ==> octets[48 + i] == #[trigger] peer_id[i]
        }),
{
    protocol_string_length();
    protocol_is_spelled();
    assert(handshake_octets(info_hash, peer_id).subrange(1, 20) =~= protocol_string());
}

/// A peer's handshake is judged by its first twenty octets and its info-hash alone, the
/// former first; what is learned from it is the id at its end.
pub proof fn handshakes_are_judged(response: Seq<u8>, info_hash: Seq<u8>)
    requires
        response.len() == 68,
        info_hash.len() == 20,
    ensures
        ({
            let named = response[0] == 19 && response.subrange(1, 20) == seq![
        0x42u8, 0x69, 0x74, 0x54, 0x6f, 0x72, 0x72, 0x65, 0x6e, 0x74, 0x20,
        0x70, 0x72, 0x6f, 0x74, 0x6f, 0x63, 0x6f, 0x6c,
    ];
            let same_torrent = forall|i: int|
                0 <= i < 20 ==> response[28 + i] == #[trigger] info_hash[i];
            match accepted(response, info_hash) {
                Ok(peer_id) => {
                    &&& named
                    &&& same_torrent
                    &&& peer_id.len() == 20
                    &&& forall|i: int| 0 <= i < 20 ==> #[trigger] peer_id[i] == response[48 + i]
                },
                Err(text) => {
                    ||| !named && text == "Invalid protocol string from peer"@
                    ||| named && !same_torrent && text == "Info hash mismatch"@
                },
            }
        }),
{
    protocol_is_spelled();
    let answer = response.subrange(28, 48);
    if forall|i: int| 0 <= i < 20 ==> response[28 + i] == #[trigger] info_hash[i] {
        assert(answer =~= info_hash);
    } else {
        let i = choose|i: int| 0 <= i < 20 && response[28 + i] != #[trigger] info_hash[i];
        assert(answer[i] == response[28 + i]);
    }
}

/// The reserved octets of a peer's handshake do not matter: whatever they are, a handshake
/// for the expected info-hash is accepted under the peer's id.
pub proof fn reserved_octets_do_not_matter(
    reserved: Seq<u8>,
    info_hash: Seq<u8>,
    peer_id: Seq<u8>,
)
    requires
        reserved.len() == 8,
        info_hash.len() == 20,
        peer_id.len() == 20,
    ensures
        accepted(
            seq![19u8] + seq![
        0x42u8, 0x69, 0x74, 0x54, 0x6f, 0x72, 0x72, 0x65, 0x6e, 0x74, 0x20,
        0x70, 0x72, 0x6f, 0x74, 0x6f, 0x63, 0x6f, 0x6c,
    ] + reserved + info_hash + peer_id,
            info_hash,
        ) == Ok::<Seq<u8>, Seq<char>>(peer_id),
{
    protocol_is_spelled();
    protocol_string_length();
    let response = seq![19u8] + protocol_string() + reserved + info_hash + peer_id;
    assert(response.subrange(1, 20) =~= protocol_string());
    assert(response.subrange(28, 48) =~= info_hash);
    assert(response.subrange(48, 68) =~= peer_id);
}

} // verus!
