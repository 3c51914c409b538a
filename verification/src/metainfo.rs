//! Torrent metainfo: what a torrent file says, and the hash that names the torrent.
use crate::bencode::{Bencode, BencodeDict};
#[allow(unused_imports)]
use crate::bencode::{
    bencode_octets, bencode_of, bindings, entry_stands_in, stands_in, string_octets, terms, Term,
};
use crate::octets::{bytes_copy, bytes_slice, copy_octets};
#[allow(unused_imports)]
use crate::octets::bytes_contents;
use crate::text::utf8_text;
use bytes::Bytes;
use sha1::{Digest, Sha1};
use vstd::prelude::*;
#[allow(unused_imports)]
use vstd::utf8::{decode_utf8, encode_utf8, valid_utf8};

verus! {

/// Why octets are not taken for torrent metainfo.
#[derive(Debug, Clone, Copy, PartialEq, Eq, Structural)]
pub enum MetainfoError {
    Bencode(Refusal),
}

/// What is wrong with octets that are not torrent metainfo.
#[derive(Debug, Clone, Copy, PartialEq, Eq, Structural)]
pub enum Refusal {
    /// They are not bencoded.
    NotBencoded,
    /// They are bencoded, and say something else.
    NotMetainfo,
}

impl MetainfoError {
    /// The error in words, where `details` is what a reader of bencode has to say.
    pub fn message(&self, details: &str) -> (text: String)
        ensures
            text@ == "Bencode deserialization failed: "@ + details@,
    {
        "Bencode deserialization failed: ".to_owned().concat(details)
    }
}

/// The part of the metainfo that the info-hash is taken of.
#[derive(Debug)]
pub struct TorrentInfo {
    pub name: String,
    pub piece_length: i64,
    pub pieces: Bytes,
    /// Length field for single-file mode
    pub length: Option<i64>,
}

/// What a torrent file says.
#[derive(Debug)]
pub struct Metainfo {
    pub announce: String,
    pub info: TorrentInfo,
}

/// What a torrent file says, and the torrent's info-hash.
#[derive(Debug)]
pub struct TorrentMetadata {
    pub meta: Metainfo,
    pub info_hash: [u8; 20],
}

/// What a [`TorrentInfo`] says.
#[verifier::ext_equal]
pub struct Info {
    pub name: Seq<char>,
    pub piece_length: i64,
    pub pieces: Seq<u8>,
    pub length: Option<i64>,
}

/// What a [`Metainfo`] says.
#[verifier::ext_equal]
pub struct Meta {
    pub announce: Seq<char>,
    pub info: Info,
}

impl View for TorrentInfo {
    type V = Info;

    open spec fn view(&self) -> Info {
        Info {
            name: self.name@,
            piece_length: self.piece_length,
            pieces: bytes_contents(self.pieces),
            length: self.length,
        }
    }
}

impl View for Metainfo {
    type V = Meta;

    open spec fn view(&self) -> Meta {
        Meta { announce: self.announce@, info: self.info@ }
    }
}

impl Clone for TorrentInfo {
    fn clone(&self) -> (copy: Self)
        ensures
            copy@ == self@,
    {
        TorrentInfo {
            name: self.name.clone(),
            piece_length: self.piece_length,
            pieces: self.pieces.clone(),
            length: self.length,
        }
    }
}

impl Clone for Metainfo {
    fn clone(&self) -> (copy: Self)
        ensures
            copy@ == self@,
    {
        Metainfo { announce: self.announce.clone(), info: self.info.clone() }
    }
}

impl Clone for TorrentMetadata {
    fn clone(&self) -> (copy: Self)
        ensures
            copy.meta@ == self.meta@,
            copy.info_hash == self.info_hash,
    {
        TorrentMetadata { meta: self.meta.clone(), info_hash: self.info_hash }
    }
}

/// The text that a dictionary holds under a name.
pub open spec fn text_at(dict: Map<Seq<u8>, Term>, name: Seq<char>) -> Option<Seq<char>> {
    match octets_at(dict, name) {
        Some(octets) => if valid_utf8(octets) {
            Some(decode_utf8(octets))
        } else {
            None
        },
        None => None,
    }
}

/// The byte string that a dictionary holds under a name.
pub open spec fn octets_at(dict: Map<Seq<u8>, Term>, name: Seq<char>) -> Option<Seq<u8>> {
    if dict.dom().contains(encode_utf8(name)) {
        match dict[encode_utf8(name)] {
            Term::String(octets) => Some(octets),
            _ => None,
        }
    } else {
        None
    }
}

/// The integer that a dictionary holds under a name.
pub open spec fn integer_at(dict: Map<Seq<u8>, Term>, name: Seq<char>) -> Option<i64> {
    if dict.dom().contains(encode_utf8(name)) {
        match dict[encode_utf8(name)] {
            Term::Integer(n) => Some(n),
            _ => None,
        }
    } else {
        None
    }
}

/// The integer that a dictionary may hold under a name. A list with one integer says as much
/// as the integer, an empty list as much as no entry.
pub open spec fn optional_integer_at(dict: Map<Seq<u8>, Term>, name: Seq<char>) -> Option<
    Option<i64>,
> {
    if dict.dom().contains(encode_utf8(name)) {
        match dict[encode_utf8(name)] {
            Term::Integer(n) => Some(Some(n)),
            Term::List(items) => if items.len() == 0 {
                Some(None)
            } else if items.len() == 1 {
                match items[0] {
                    Term::Integer(n) => Some(Some(n)),
                    _ => None,
                }
            } else {
                None
            },
            _ => None,
        }
    } else {
        Some(None)
    }
}

/// Whether all keys of a dictionary are text.
pub open spec fn keys_are_text(dict: Map<Seq<u8>, Term>) -> bool {
    forall|key: Seq<u8>| #[trigger] dict.dom().contains(key) ==> valid_utf8(key)
}

/// What a bencoded value says as the info part of metainfo. Entries of other names are
/// passed over.
pub open spec fn info_of(term: Term) -> Option<Info> {
    match term {
        Term::Dict(dict) => if keys_are_text(dict) {
            match (
                text_at(dict, "name"@),
                integer_at(dict, "piece length"@),
                octets_at(dict, "pieces"@),
                optional_integer_at(dict, "length"@),
            ) {
                (Some(name), Some(piece_length), Some(pieces), Some(length)) => Some(
                    Info { name, piece_length, pieces, length },
                ),
                _ => None,
            }
        } else {
            None
        },
        _ => None,
    }
}

/// What a bencoded value says as metainfo. Entries of other names are passed over.
pub open spec fn meta_of(term: Term) -> Option<Meta> {
    match term {
        Term::Dict(dict) => if keys_are_text(dict) && dict.dom().contains(encode_utf8("info"@)) {
            match (text_at(dict, "announce"@), info_of(dict[encode_utf8("info"@)])) {
                (Some(announce), Some(info)) => Some(Meta { announce, info }),
                _ => None,
            }
        } else {
            None
        },
        _ => None,
    }
}

impl Info {
    /// The bencoded value that says it.
    pub open spec fn term(self) -> Term {
        let none = Map::<Seq<u8>, Term>::empty();
        Term::Dict(
            (match self.length {
                Some(length) => none.insert(encode_utf8("length"@), Term::Integer(length)),
                None => none,
            }).insert(encode_utf8("name"@), Term::String(encode_utf8(self.name))).insert(
                encode_utf8("piece length"@),
                Term::Integer(self.piece_length),
            ).insert(encode_utf8("pieces"@), Term::String(self.pieces)),
        )
    }
}

/// The SHA-1 hash of octets.
pub uninterp spec fn sha1_of(octets: Seq<u8>) -> Seq<u8>;

/// The value that stands under `info` in a torrent file.
pub open spec fn info_value(term: Term) -> Term {
    term->Dict_0[encode_utf8("info"@)]
}

/// What octets say as a torrent file, with the torrent's info-hash: the SHA-1 hash of the
/// value that stands under `info`, with all of its entries.
pub open spec fn metadata_of(octets: Seq<u8>) -> Result<(Meta, Seq<u8>), Refusal> {
    match bencode_of(octets) {
        Ok(term) => match meta_of(term) {
            Some(meta) => match bencode_octets(info_value(term)) {
                Ok(raw_info) => Ok((meta, sha1_of(raw_info))),
                Err(_) => Err(Refusal::NotMetainfo),
            },
            None => Err(Refusal::NotMetainfo),
        },
        Err(_) => Err(Refusal::NotBencoded),
    }
}

/// Whether a hash is the SHA-1 hash of octets that stand in a file right behind the key
/// `info`, and that are all that is written for the value there.
pub open spec fn info_hash_is_of_file(info_hash: Seq<u8>, octets: Seq<u8>) -> bool {
    &&& bencode_of(octets) matches Ok(term)
    &&& bencode_octets(info_value(term)) matches Ok(raw_info)
    &&& info_hash == sha1_of(raw_info)
    &&& stands_in(string_octets(encode_utf8("info"@)) + raw_info, octets)
}

/// The SHA-1 hash of octets, by the hasher of the `sha1` crate: `Sha1::new`, one `update`,
/// `finalize`. It depends on nothing but the octets; what it is is left to the name.
#[verifier::external_body]
fn sha1_hash(octets: &[u8]) -> (hash: [u8; 20])
    ensures
        hash@ == sha1_of(octets@),
{
    let mut hasher = Sha1::new();
    hasher.update(octets);
    hasher.finalize().into()
}

fn get_octets<'a>(dict: &'a BencodeDict, name: &str) -> (octets: Option<&'a Vec<u8>>)
    ensures
        match octets_at(dict@, name@) {
            Some(wanted) => octets matches Some(found) && found@ == wanted,
            None => octets is None,
        },
{
    match dict.get(name.as_bytes()) {
        Some(Bencode::String(octets)) => Some(octets),
        _ => None,
    }
}

fn get_text(dict: &BencodeDict, name: &str) -> (text: Option<String>)
    ensures
        match text_at(dict@, name@) {
            Some(wanted) => text matches Some(found) && found@ == wanted,
            None => text is None,
        },
{
    match get_octets(dict, name) {
        Some(octets) => match utf8_text(octets.as_slice()) {
            Some(text) => Some(text.to_owned()),
            None => None,
        },
        None => None,
    }
}

fn get_integer(dict: &BencodeDict, name: &str) -> (n: Option<i64>)
    ensures
        n == integer_at(dict@, name@),
{
    match dict.get(name.as_bytes()) {
        Some(Bencode::Integer(n)) => Some(*n),
        _ => None,
    }
}

fn get_optional_integer(dict: &BencodeDict, name: &str) -> (n: Option<Option<i64>>)
    ensures
        n == optional_integer_at(dict@, name@),
{
    match dict.get(name.as_bytes()) {
        None => Some(None),
        Some(Bencode::Integer(n)) => Some(Some(*n)),
        Some(Bencode::List(items)) => {
            proof {
                reveal_with_fuel(terms, 3);
                crate::bencode::terms_are_theirs(items@);
            }
            if items.len() == 0 {
                Some(None)
            } else if items.len() == 1 {
                match &items[0] {
                    Bencode::Integer(n) => Some(Some(*n)),
                    _ => None,
                }
            } else {
                None
            }
        },
        _ => None,
    }
}

fn has_text_keys(dict: &BencodeDict) -> (all: bool)
    ensures
        all == keys_are_text(dict@),
{
    let mut i: usize = 0;
    while i < dict.entries.len()
        invariant
            i <= dict.entries@.len(),
            forall|j: int| 0 <= j < i ==> valid_utf8((#[trigger] dict.entries@[j]).0@),
        decreases dict.entries@.len() - i,
    {
        if utf8_text(dict.entries[i].0.as_slice()).is_none() {
            proof {
                keys_are_those_of_entries(dict.entries@);
                assert(dict@.dom().contains(dict.entries@[i as int].0@));
            }
            return false;
        }
        i += 1;
    }
    proof {
        keys_are_those_of_entries(dict.entries@);
        assert forall|key: Seq<u8>| #[trigger] dict@.dom().contains(key) implies valid_utf8(
            key,
        ) by {
            let j = choose|j: int|
                0 <= j < dict.entries@.len() && (#[trigger] dict.entries@[j]).0@ == key;
            assert(valid_utf8(dict.entries@[j].0@));
        }
    }
    true
}

/// The keys of a dictionary are the keys of its entries.
proof fn keys_are_those_of_entries(entries: Seq<(Vec<u8>, Bencode)>)
    ensures
        forall|i: int|
            0 <= i < entries.len() ==> bindings(entries).dom().contains(
                (#[trigger] entries[i]).0@,
            ),
        forall|key: Seq<u8>| #[trigger]
            bindings(entries).dom().contains(key) ==> exists|i: int|
                0 <= i < entries.len() && (#[trigger] entries[i]).0@ == key,
    decreases entries.len(),
{
    if entries.len() > 0 {
        let earlier = entries.drop_last();
        keys_are_those_of_entries(earlier);
        assert forall|i: int| 0 <= i < entries.len() implies bindings(entries).dom().contains(
            (#[trigger] entries[i]).0@,
        ) by {
            if i < earlier.len() {
                assert(earlier[i] == entries[i]);
            }
        }
        assert forall|key: Seq<u8>| #[trigger] bindings(entries).dom().contains(key) implies exists|
            i: int,
        | 0 <= i < entries.len() && (#[trigger] entries[i]).0@ == key by {
            if key != entries.last().0@ {
                assert(bindings(earlier).dom().contains(key));
                let i = choose|i: int|
                    0 <= i < earlier.len() && (#[trigger] earlier[i]).0@ == key;
                assert(entries[i].0@ == key);
            } else {
                assert(entries[entries.len() - 1].0@ == key);
            }
        }
    }
}

impl TorrentInfo {
    /// Reads the info part of metainfo.
    pub fn from_bencode(bencode: &Bencode) -> (info: Option<TorrentInfo>)
        ensures
            match info_of(bencode@) {
                Some(wanted) => info matches Some(found) && found@ == wanted,
                None => info is None,
            },
    {
        let dict = match bencode {
            Bencode::Dict(dict) => dict,
            _ => return None,
        };
        if !has_text_keys(dict) {
            return None;
        }
        let name = match get_text(dict, "name") {
            Some(name) => name,
            None => return None,
        };
        let piece_length = match get_integer(dict, "piece length") {
            Some(piece_length) => piece_length,
            None => return None,
        };
        let pieces = match get_octets(dict, "pieces") {
            Some(pieces) => bytes_copy(pieces.as_slice()),
            None => return None,
        };
        let length = match get_optional_integer(dict, "length") {
            Some(length) => length,
            None => return None,
        };
        Some(TorrentInfo { name, piece_length, pieces, length })
    }

    /// Writes the info part of metainfo.
    pub fn to_bencode(&self) -> (bencode: Bencode)
        ensures
            bencode@ == self@.term(),
    {
        let mut entries: Vec<(Vec<u8>, Bencode)> = Vec::new();
        let ghost e0 = entries@;
        if let Some(n) = self.length {
            entries.push((copy_octets("length".as_bytes()), Bencode::Integer(n)));
        }
        let ghost e1 = entries@;
        entries.push(
            (
                copy_octets("name".as_bytes()),
                Bencode::String(copy_octets(self.name.as_str().as_bytes())),
            ),
        );
        let ghost e2 = entries@;
        entries.push((copy_octets("piece length".as_bytes()), Bencode::Integer(self.piece_length)));
        let ghost e3 = entries@;
        entries.push(
            (
                copy_octets("pieces".as_bytes()),
                Bencode::String(copy_octets(bytes_slice(&self.pieces))),
            ),
        );
        proof {
            assert(e2.drop_last() =~= e1);
            assert(e3.drop_last() =~= e2);
            assert(entries@.drop_last() =~= e3);
            let none = Map::<Seq<u8>, Term>::empty();
            assert(bindings(e0) == none);
            let one = match self.length {
                Some(n) => none.insert(encode_utf8("length"@), Term::Integer(n)),
                None => none,
            };
            if let Some(n) = self.length {
                assert(e1.drop_last() =~= e0);
                assert(e1.last().1.term() == Term::Integer(n));
            }
            assert(bindings(e1) == one);
            let two = one.insert(encode_utf8("name"@), Term::String(encode_utf8(self.name@)));
            assert(e2.last().1.term() == Term::String(encode_utf8(self.name@)));
            assert(bindings(e2) == two);
            let three = two.insert(
                encode_utf8("piece length"@),
                Term::Integer(self.piece_length),
            );
            assert(e3.last().1.term() == Term::Integer(self.piece_length));
            assert(bindings(e3) == three);
            assert(entries@.last().1.term() == Term::String(bytes_contents(self.pieces)));
            assert(bindings(entries@) == three.insert(
                encode_utf8("pieces"@),
                Term::String(bytes_contents(self.pieces)),
            ));
        }
        Bencode::Dict(BencodeDict { entries })
    }
}

impl Metainfo {
    /// Reads metainfo.
    pub fn from_bencode(bencode: &Bencode) -> (meta: Option<Metainfo>)
        ensures
            match meta_of(bencode@) {
                Some(wanted) => meta matches Some(found) && found@ == wanted,
                None => meta is None,
            },
    {
        let dict = match bencode {
            Bencode::Dict(dict) => dict,
            _ => return None,
        };
        if !has_text_keys(dict) {
            return None;
        }
        let announce = match get_text(dict, "announce") {
            Some(announce) => announce,
            None => return None,
        };
        match dict.get("info".as_bytes()) {
            Some(part) => match TorrentInfo::from_bencode(part) {
                Some(info) => Some(Metainfo { announce, info }),
                None => None,
            },
            None => None,
        }
    }
}

impl TorrentMetadata {
    /// Deserializes raw torrent file bytes and derives the definitive Info-Hash
    pub fn from_bytes(bytes: &[u8]) -> (result: Result<Self, MetainfoError>)
        ensures
            match metadata_of(bytes@) {
                Ok((meta, info_hash)) => result matches Ok(metadata) && metadata.meta@ == meta
                    && metadata.info_hash@ == info_hash,
                Err(refusal) => result matches Err(MetainfoError::Bencode(found)) && found
                    == refusal,
            },
            result is Ok <==> (bencode_of(bytes@) matches Ok(term) && meta_of(term) is Some),
            // The info-hash is that of the octets that stand in the file behind the key `info`.
            result matches Ok(metadata) ==> info_hash_is_of_file(metadata.info_hash@, bytes@),
    {
        let bencode = match Bencode::from_bytes(bytes) {
            Ok(bencode) => bencode,
            Err(_) => return Err(MetainfoError::Bencode(Refusal::NotBencoded)),
        };
        let meta = match Metainfo::from_bencode(&bencode) {
            Some(meta) => meta,
            None => return Err(MetainfoError::Bencode(Refusal::NotMetainfo)),
        };
        let part = match &bencode {
            Bencode::Dict(dict) => dict.get("info".as_bytes()),
            _ => None,
        };
        let part = match part {
            Some(part) => part,
            None => return Err(MetainfoError::Bencode(Refusal::NotMetainfo)),
        };
        assert(entry_stands_in(encode_utf8("info"@), part@, bytes@));
        match part.to_bytes() {
            Ok(raw_info) => {
                let info_hash = sha1_hash(raw_info.as_slice());
                Ok(TorrentMetadata { meta, info_hash })
            },
            Err(_) => Err(MetainfoError::Bencode(Refusal::NotMetainfo)),
        }
    }
}

/// The names of the entries of the info part are four different keys, all of them text.
proof fn info_keys_differ()
    ensures
        encode_utf8("length"@) != encode_utf8("name"@),
        encode_utf8("length"@) != encode_utf8("piece length"@),
        encode_utf8("length"@) != encode_utf8("pieces"@),
        encode_utf8("name"@) != encode_utf8("piece length"@),
        encode_utf8("name"@) != encode_utf8("pieces"@),
        encode_utf8("piece length"@) != encode_utf8("pieces"@),
        valid_utf8(encode_utf8("length"@)),
        valid_utf8(encode_utf8("name"@)),
        valid_utf8(encode_utf8("piece length"@)),
        valid_utf8(encode_utf8("pieces"@)),
{
    reveal_strlit("length");
    reveal_strlit("name");
    reveal_strlit("piece length");
    reveal_strlit("pieces");
    vstd::string::is_ascii_spec_bytes("length");
    vstd::string::is_ascii_spec_bytes("name");
    vstd::string::is_ascii_spec_bytes("piece length");
    vstd::string::is_ascii_spec_bytes("pieces");
    vstd::utf8::encode_utf8_valid_utf8("length"@);
    vstd::utf8::encode_utf8_valid_utf8("name"@);
    vstd::utf8::encode_utf8_valid_utf8("piece length"@);
    vstd::utf8::encode_utf8_valid_utf8("pieces"@);
    assert(encode_utf8("length"@)[0] != encode_utf8("pieces"@)[0]);
}

/// The value that is written for the info part says, read again, what the info part says.
pub proof fn info_is_read_back(info: Info)
    ensures
        info_of(info.term()) == Some(info),
{
    info_keys_differ();
    vstd::utf8::encode_utf8_valid_utf8(info.name);
    vstd::utf8::encode_utf8_decode_utf8(info.name);
}

/// The info-hash is that of the value under `info` alone: torrent files that hold the same
/// value there have the same info-hash, whatever else they say.
pub proof fn same_info_same_hash(one: Seq<u8>, other: Seq<u8>)
    requires
        metadata_of(one) is Ok,
        metadata_of(other) is Ok,
        info_value(bencode_of(one)->Ok_0) == info_value(bencode_of(other)->Ok_0),
    ensures
        metadata_of(one)->Ok_0.1 == metadata_of(other)->Ok_0.1,
        metadata_of(one)->Ok_0.0.info == metadata_of(other)->Ok_0.0.info,
{
}

/// What a dictionary says as the info part of metainfo, by the names of its entries: it is
/// one exactly where all keys are text, a text stands under `name`, an integer under
/// `piece length`, a byte string under `pieces`, and under `length`, if anything, an integer,
/// alone or in a list, or an empty list. Those entries are then what it says.
pub proof fn info_is_read_by_name(dict: Map<Seq<u8>, Term>)
    ensures
        ({
            let name = encode_utf8("name"@);
            let piece_length = encode_utf8("piece length"@);
            let pieces = encode_utf8("pieces"@);
            let length = encode_utf8("length"@);
            let texts = forall|key: Seq<u8>| #[trigger]
                dict.dom().contains(key) ==> valid_utf8(key);
            let named = dict.dom().contains(name) && (dict[name] matches Term::String(octets)
                && valid_utf8(octets));
            let sized = dict.dom().contains(piece_length) && dict[piece_length] is Integer;
            let hashed = dict.dom().contains(pieces) && dict[pieces] is String;
            let single = dict.dom().contains(length) && dict[length] is Integer;
            let boxed = dict.dom().contains(length) && (dict[length] matches Term::List(items)
                && items.len() == 1 && items[0] is Integer);
            let absent = !dict.dom().contains(length) || (dict[length] matches Term::List(items)
                && items.len() == 0);
            match info_of(Term::Dict(dict)) {
                Some(info) => {
                    &&& texts && named && sized && hashed
                    &&& single || boxed || absent
                    &&& info.name == decode_utf8(dict[name]->String_0)
                    &&& info.piece_length == dict[piece_length]->Integer_0
                    &&& info.pieces == dict[pieces]->String_0
                    &&& single ==> info.length == Some(dict[length]->Integer_0)
                    &&& boxed ==> info.length == Some(dict[length]->List_0[0]->Integer_0)
                    &&& absent ==> info.length is None
                },
                None => !(texts && named && sized && hashed && (single || boxed || absent)),
            }
        }),
{
}

/// What a dictionary says as metainfo, by the names of its entries: it is metainfo exactly
/// where all keys are text, a text stands under `announce`, and under `info` a value that is
/// read as an info part. Those two are then what it says.
pub proof fn metainfo_is_read_by_name(dict: Map<Seq<u8>, Term>)
    ensures
        ({
            let announce = encode_utf8("announce"@);
            let info = encode_utf8("info"@);
            let texts = forall|key: Seq<u8>| #[trigger]
                dict.dom().contains(key) ==> valid_utf8(key);
            let announced = dict.dom().contains(announce) && (dict[announce] matches Term::String(
                octets,
            ) && valid_utf8(octets));
            let told = dict.dom().contains(info) && info_of(dict[info]) is Some;
            match meta_of(Term::Dict(dict)) {
                Some(meta) => {
                    &&& texts && announced && told
                    &&& meta.announce == decode_utf8(dict[announce]->String_0)
                    &&& Some(meta.info) == info_of(dict[info])
                },
                None => !(texts && announced && told),
            }
        }),
{
}

/// A value that is no dictionary is neither metainfo nor an info part.
pub proof fn other_values_say_nothing(term: Term)
    requires
        !(term is Dict),
    ensures
        meta_of(term) is None,
        info_of(term) is None,
{
}

/// Entries of other names are passed over: with one more of them a dictionary is read as the
/// same metainfo, or as none all the same.
pub proof fn other_entries_are_passed_over(dict: Map<Seq<u8>, Term>, key: Seq<u8>, value: Term)
    requires
        valid_utf8(key),
        key != encode_utf8("announce"@),
        key != encode_utf8("info"@),
        !dict.dom().contains(key),
    ensures
        meta_of(Term::Dict(dict.insert(key, value))) == meta_of(Term::Dict(dict)),
{
    same_text_keys(dict, key, value);
}

/// Entries of other names are passed over in an info part too.
pub proof fn other_info_entries_are_passed_over(
    dict: Map<Seq<u8>, Term>,
    key: Seq<u8>,
    value: Term,
)
    requires
        valid_utf8(key),
        key != encode_utf8("name"@),
        key != encode_utf8("piece length"@),
        key != encode_utf8("pieces"@),
        key != encode_utf8("length"@),
        !dict.dom().contains(key),
    ensures
        info_of(Term::Dict(dict.insert(key, value))) == info_of(Term::Dict(dict)),
{
    same_text_keys(dict, key, value);
}

/// One more key that is text does not change whether all keys are.
proof fn same_text_keys(dict: Map<Seq<u8>, Term>, key: Seq<u8>, value: Term)
    requires
        valid_utf8(key),
        !dict.dom().contains(key),
    ensures
        keys_are_text(dict.insert(key, value)) == keys_are_text(dict),
{
    let more = dict.insert(key, value);
    if keys_are_text(more) {
        assert forall|other: Seq<u8>| #[trigger] dict.dom().contains(other) implies valid_utf8(
            other,
        ) by {
            assert(more.dom().contains(other));
        }
    }
}

/// Any text, info part and further entries make up a torrent file that is read: the text is
/// its `announce`, and its info-hash is the hash of what is written for its `info`, whatever
/// the info part holds besides.
pub proof fn torrent_files_are_read(
    octets: Seq<u8>,
    dict: Map<Seq<u8>, Term>,
    announce: Seq<char>,
    info: Info,
    raw_info: Seq<u8>,
)
    requires
        bencode_of(octets) == Ok::<Term, Seq<char>>(Term::Dict(dict)),
        forall|key: Seq<u8>| #[trigger] dict.dom().contains(key) ==> valid_utf8(key),
        dict.dom().contains(encode_utf8("announce"@)),
        dict[encode_utf8("announce"@)] == Term::String(encode_utf8(announce)),
        dict.dom().contains(encode_utf8("info"@)),
        info_of(dict[encode_utf8("info"@)]) == Some(info),
        bencode_octets(dict[encode_utf8("info"@)]) == Ok::<Seq<u8>, Seq<char>>(raw_info),
    ensures
        metadata_of(octets) == Ok::<(Meta, Seq<u8>), Refusal>(
            (Meta { announce, info }, sha1_of(raw_info)),
        ),
{
    vstd::utf8::encode_utf8_valid_utf8(announce);
    vstd::utf8::encode_utf8_decode_utf8(announce);
}

/// Octets that are not bencoded, and bencoded values that are not metainfo, are told apart.
pub proof fn other_files_are_refused(octets: Seq<u8>)
    ensures
        bencode_of(octets) is Err ==> metadata_of(octets) == Err::<(Meta, Seq<u8>), Refusal>(
            Refusal::NotBencoded,
        ),
        bencode_of(octets) matches Ok(term) && meta_of(term) is None ==> metadata_of(octets)
            == Err::<(Meta, Seq<u8>), Refusal>(Refusal::NotMetainfo),
{
}

/// What is written for an info part has an entry for each thing that it says, under its name,
/// and no other.
pub proof fn info_is_written_by_name(info: Info, key: Seq<u8>)
    ensures
        ({
            let dict = info.term()->Dict_0;
            &&& info.term() is Dict
            &&& dict.dom().contains(key) ==> {
                ||| key == encode_utf8("name"@)
                ||| key == encode_utf8("piece length"@)
                ||| key == encode_utf8("pieces"@)
                ||| key == encode_utf8("length"@) && info.length is Some
            }
            &&& dict.dom().contains(encode_utf8("name"@))
            &&& dict[encode_utf8("name"@)] == Term::String(encode_utf8(info.name))
            &&& dict.dom().contains(encode_utf8("piece length"@))
            &&& dict[encode_utf8("piece length"@)] == Term::Integer(info.piece_length)
            &&& dict.dom().contains(encode_utf8("pieces"@))
            &&& dict[encode_utf8("pieces"@)] == Term::String(info.pieces)
            &&& info.length matches Some(length) ==> dict.dom().contains(encode_utf8("length"@))
                && dict[encode_utf8("length"@)] == Term::Integer(length)
        }),
{
    info_keys_differ();
}

/// An info part and metainfo are seen with all that they hold.
pub proof fn metainfo_is_seen_whole(meta: Metainfo)
    ensures
        meta@.announce == meta.announce@,
        meta@.info.name == meta.info.name@,
        meta@.info.piece_length == meta.info.piece_length,
        meta@.info.pieces == bytes_contents(meta.info.pieces),
        meta@.info.length == meta.info.length,
        meta@.info == meta.info@,
{
}

} // verus!
