//! The state of the daemon: the downloads that it runs.
use crate::text::chars_of;
#[allow(unused_imports)]
use crate::text::joined;
#[allow(unused_imports)]
use vstd::arithmetic::power2::{
    lemma2_to64, lemma_pow2_adds, lemma_pow2_pos, lemma_pow2_strictly_increases, pow2,
};
use vstd::prelude::*;

verus! {

/// How a download stands.
#[derive(Debug)]
pub struct TorrentStatus {
    pub name: String,
    pub info_hash: String,
    /// The part of the download that is done, from zero to one: the bits of a
    /// single-precision number.
    pub progress: u32,
    pub download_speed: u64,
    pub upload_speed: u64,
    pub peer_count: u32,
}

/// What a [`TorrentStatus`] says.
#[verifier::ext_equal]
pub struct Status {
    pub name: Seq<char>,
    pub info_hash: Seq<char>,
    pub progress: u32,
    pub download_speed: u64,
    pub upload_speed: u64,
    pub peer_count: u32,
}

impl View for TorrentStatus {
    type V = Status;

    open spec fn view(&self) -> Status {
        Status {
            name: self.name@,
            info_hash: self.info_hash@,
            progress: self.progress,
            download_speed: self.download_speed,
            upload_speed: self.upload_speed,
            peer_count: self.peer_count,
        }
    }
}

impl Clone for TorrentStatus {
    fn clone(&self) -> (copy: Self)
        ensures
            copy@ == self@,
    {
        TorrentStatus {
            name: self.name.clone(),
            info_hash: self.info_hash.clone(),
            progress: self.progress,
            download_speed: self.download_speed,
            upload_speed: self.upload_speed,
            peer_count: self.peer_count,
        }
    }
}

/// What several statuses say.
pub open spec fn statuses(torrents: Seq<TorrentStatus>) -> Seq<Status> {
    torrents.map_values(|torrent: TorrentStatus| torrent@)
}

/// A copy of several statuses.
pub(crate) fn copy_statuses(torrents: &Vec<TorrentStatus>) -> (copy: Vec<TorrentStatus>)
    ensures
        statuses(copy@) == statuses(torrents@),
{
    let mut copy: Vec<TorrentStatus> = Vec::new();
    let mut i: usize = 0;
    while i < torrents.len()
        invariant
            i <= torrents@.len(),
            copy@.len() == i,
            forall|j: int| 0 <= j < i ==> (#[trigger] copy@[j])@ == torrents@[j]@,
        decreases torrents@.len() - i,
    {
        copy.push(torrents[i].clone());
        i += 1;
    }
    assert(statuses(copy@) =~= statuses(torrents@));
    copy
}

/// What the daemon is asked to download: a torrent file, or a magnet link, which is
/// preferred.
#[derive(Debug)]
pub struct AddTorrentRequest {
    pub target: String,
    pub magnet: String,
    pub sequential: bool,
}

/// What the daemon says to a request.
#[derive(Debug)]
pub struct AddTorrentResponse {
    pub info_hash: String,
    pub success: bool,
}

/// The parts of a text between ampersands.
pub open spec fn pairs(query: Seq<char>) -> Seq<Seq<char>>
    decreases query.len(),
{
    match query.index_of_first('&') {
        Some(at) => if 0 <= at < query.len() {
            seq![query.take(at)] + pairs(query.skip(at + 1))
        } else {
            seq![query]
        },
        None => seq![query],
    }
}

/// What follows `xt=urn:btih:` in the first of several texts that starts with it.
pub open spec fn hash_among(pairs: Seq<Seq<char>>) -> Seq<char>
    decreases pairs.len(),
{
    if pairs.len() == 0 {
        "invalid"@
    } else if "xt=urn:btih:"@.is_prefix_of(pairs[0]) {
        pairs[0].skip("xt=urn:btih:"@.len() as int)
    } else {
        hash_among(pairs.drop_first())
    }
}

/// The info-hash that a magnet link names.
pub open spec fn hash_of_magnet(magnet: Seq<char>) -> Seq<char> {
    if "magnet:?"@.is_prefix_of(magnet) {
        hash_among(pairs(magnet.skip("magnet:?"@.len() as int)))
    } else {
        "invalid"@
    }
}

/// Stands for the info-hash of a torrent that is not given by a magnet link.
pub open spec fn placeholder_hash() -> Seq<char> {
    "a1b2c3d4e5f67890"@
}

/// How a download stands that was just asked for.
pub open spec fn new_status(target: Seq<char>, magnet: Seq<char>) -> Status {
    Status {
        name: if magnet.len() == 0 {
            target
        } else {
            magnet
        },
        info_hash: if magnet.len() == 0 {
            placeholder_hash()
        } else {
            hash_of_magnet(magnet)
        },
        progress: 0,
        download_speed: 0,
        upload_speed: 0,
        peer_count: 0,
    }
}

/// Whether the characters from `at` on start with a text.
fn starts_with(chars: &Vec<char>, at: usize, end: usize, prefix: &str) -> (starts: bool)
    requires
        at <= end <= chars@.len(),
    ensures
        starts == prefix@.is_prefix_of(chars@.subrange(at as int, end as int)),
{
    let wanted = chars_of(prefix);
    let ghost part = chars@.subrange(at as int, end as int);
    if wanted.len() > end - at {
        return false;
    }
    let mut i: usize = 0;
    while i < wanted.len()
        invariant
            wanted@ == prefix@,
            part == chars@.subrange(at as int, end as int),
            at <= end <= chars@.len(),
            wanted@.len() <= end - at,
            i <= wanted@.len(),
            forall|j: int| 0 <= j < i ==> part[j] == wanted@[j],
        decreases wanted@.len() - i,
    {
        if chars[at + i] != wanted[i] {
            assert(part[i as int] != wanted@[i as int]);
            assert(prefix@.is_prefix_of(part) ==> prefix@[i as int] == part[i as int]);
            return false;
        }
        i += 1;
    }
    assert(part.subrange(0, prefix@.len() as int) =~= prefix@);
    true
}

/// The text of the characters from `at` to `end`.
fn text_between(chars: &Vec<char>, at: usize, end: usize) -> (text: String)
    requires
        at <= end <= chars@.len(),
    ensures
        text@ == chars@.subrange(at as int, end as int),
{
    let mut text = String::new();
    let mut i: usize = at;
    while i < end
        invariant
            at <= i <= end <= chars@.len(),
            text@ == chars@.subrange(at as int, i as int),
        decreases end - i,
    {
        text.push(chars[i]);
        i += 1;
        assert(text@ =~= chars@.subrange(at as int, i as int));
    }
    text
}

/// Where the next ampersand stands from `at` on, or the end.
fn end_of_pair(chars: &Vec<char>, at: usize) -> (end: usize)
    requires
        at <= chars@.len(),
    ensures
        at <= end <= chars@.len(),
        end < chars@.len() ==> chars@[end as int] == '&',
        forall|i: int| at <= i < end ==> chars@[i] != '&',
{
    let mut end: usize = at;
    while end < chars.len()
        invariant
            at <= end <= chars@.len(),
            forall|i: int| at <= i < end ==> chars@[i] != '&',
        decreases chars@.len() - end,
    {
        if chars[end] == '&' {
            return end;
        }
        end += 1;
    }
    end
}

/// The info-hash that a magnet link names: what follows `xt=urn:btih:` in the first part of
/// its query that starts so. A link that names none names `invalid`.
pub fn magnet_info_hash(magnet: &str) -> (hash: String)
    ensures
        hash@ == hash_of_magnet(magnet@),
{
    let chars = chars_of(magnet);
    assert(chars@.subrange(0, chars@.len() as int) =~= chars@);
    if !starts_with(&chars, 0, chars.len(), "magnet:?") {
        return "invalid".to_owned();
    }
    proof {
        reveal_strlit("magnet:?");
        reveal_strlit("xt=urn:btih:");
    }
    let ghost query = chars@.skip(8);
    let mut at: usize = 8;
    loop
        invariant
            "magnet:?"@.is_prefix_of(magnet@),
            "magnet:?"@.len() == 8,
            "xt=urn:btih:"@.len() == 12,
            chars@ == magnet@,
            query == chars@.skip(8),
            8 <= at <= chars@.len(),
            hash_among(pairs(chars@.skip(at as int))) == hash_among(pairs(query)),
        decreases chars@.len() - at,
    {
        let end = end_of_pair(&chars, at);
        let ghost rest = chars@.skip(at as int);
        let ghost pair = chars@.subrange(at as int, end as int);
        proof {
            first_pair(rest, end - at);
            assert(rest.take(end - at) =~= pair);
            if end < chars@.len() {
                assert(rest.skip(end - at + 1) =~= chars@.skip(end + 1));
            }
        }
        if starts_with(&chars, at, end, "xt=urn:btih:") {
            assert(pair.skip(12) =~= chars@.subrange(at + 12, end as int));
            return text_between(&chars, at + 12, end);
        }
        if end == chars.len() {
            assert(hash_among(pairs(rest).drop_first()) == "invalid"@);
            return "invalid".to_owned();
        }
        assert(pairs(rest).drop_first() =~= pairs(chars@.skip(end + 1)));
        at = end + 1;
    }
}

/// The first part of a text between ampersands ends at the first ampersand, or where the
/// text does.
proof fn first_pair(query: Seq<char>, end: int)
    requires
        0 <= end <= query.len(),
        forall|i: int| 0 <= i < end ==> query[i] != '&',
        end < query.len() ==> query[end] == '&',
    ensures
        pairs(query).len() > 0,
        pairs(query)[0] == query.take(end),
        end == query.len() ==> pairs(query) == seq![query],
        end < query.len() ==> pairs(query) == seq![query.take(end)] + pairs(query.skip(end + 1)),
{
    query.index_of_first_ensures('&');
    if end == query.len() {
        assert(!query.contains('&'));
        assert(query.take(end) =~= query);
    } else {
        assert(query.contains('&'));
    }
}

/// The bits of the single-precision number one.
pub const ONE: u32 = 0x3f80_0000;

/// How fast a download runs that is not done, in octets per second.
pub const DOWNLOAD_SPEED: u64 = 350_208;

/// How fast a download that is not done is shared, in octets per second.
pub const UPLOAD_SPEED: u64 = 32_768;

/// Whether bits are those of a single-precision number below one. Without the sign bit a
/// number is the larger, the larger its bits are. With it they are those of a number that is
/// not above zero, up to the bits of minus infinity; what follows is no number.
pub open spec fn below_one(bits: u32) -> bool {
    if bits < 0x8000_0000 {
        bits < ONE
    } else {
        bits <= 0xff80_0000
    }
}

/// How a download stands a second later, where `advanced` is how far it comes in a second.
pub open spec fn second_later(status: Status, advanced: u32) -> Status {
    if below_one(status.progress) {
        Status {
            progress: advanced,
            download_speed: DOWNLOAD_SPEED,
            upload_speed: UPLOAD_SPEED,
            peer_count: 14,
            ..status
        }
    } else {
        Status { download_speed: 0, upload_speed: 0, ..status }
    }
}

/// The daemon's downloads.
#[derive(Debug)]
pub struct DaemonState {
    pub active_downloads: Vec<TorrentStatus>,
}

impl View for DaemonState {
    type V = Seq<Status>;

    open spec fn view(&self) -> Seq<Status> {
        statuses(self.active_downloads@)
    }
}

impl DaemonState {
    /// A daemon without downloads.
    pub fn new() -> (state: Self)
        ensures
            state@ == Seq::<Status>::empty(),
    {
        let state = DaemonState { active_downloads: Vec::new() };
        assert(state@ =~= Seq::<Status>::empty());
        state
    }

    /// Adds a download behind the others.
    pub fn add_torrent(&mut self, request: AddTorrentRequest) -> (response: AddTorrentResponse)
        ensures
            final(self)@ == old(self)@.push(new_status(request.target@, request.magnet@)),
            response.info_hash@ == placeholder_hash(),
            response.success,
    {
        let by_magnet = !request.magnet.as_str().is_empty();
        let info_hash = if by_magnet {
            magnet_info_hash(request.magnet.as_str())
        } else {
            "a1b2c3d4e5f67890".to_owned()
        };
        let name = if by_magnet {
            request.magnet
        } else {
            request.target
        };
        let status = TorrentStatus {
            name,
            info_hash,
            progress: 0,
            download_speed: 0,
            upload_speed: 0,
            peer_count: 0,
        };
        self.active_downloads.push(status);
        assert(self@ =~= old(self)@.push(status@));
        AddTorrentResponse { info_hash: "a1b2c3d4e5f67890".to_owned(), success: true }
    }

    /// How all downloads stand.
    pub fn list_torrents(&self) -> (torrents: Vec<TorrentStatus>)
        ensures
            statuses(torrents@) == self@,
    {
        copy_statuses(&self.active_downloads)
    }

    /// Lets a second pass. `advanced` holds how far each download comes in a second; it
    /// counts for those that are not done.
    pub fn tick(&mut self, advanced: &Vec<u32>)
        requires
            advanced@.len() == old(self)@.len(),
        ensures
            final(self)@ == Seq::new(
                old(self)@.len(),
                |i: int| second_later(old(self)@[i], advanced@[i]),
            ),
    {
        let ghost before = self@;
        let mut i: usize = 0;
        while i < self.active_downloads.len()
            invariant
                self@.len() == before.len(),
                advanced@.len() == before.len(),
                i <= before.len(),
                forall|j: int|
                    0 <= j < i ==> (#[trigger] self@[j]) == second_later(before[j], advanced@[j]),
                forall|j: int| i <= j < before.len() ==> (#[trigger] self@[j]) == before[j],
            decreases before.len() - i,
        {
            let ghost earlier = self@;
            let progress = self.active_downloads[i].progress;
            assert(self@[i as int] == before[i as int]);
            if (progress < 0x8000_0000 && progress < ONE) || (progress >= 0x8000_0000 && progress
                <= 0xff80_0000) {
                self.active_downloads[i].progress = advanced[i];
                self.active_downloads[i].download_speed = DOWNLOAD_SPEED;
                self.active_downloads[i].upload_speed = UPLOAD_SPEED;
                self.active_downloads[i].peer_count = 14;
            } else {
                self.active_downloads[i].download_speed = 0;
                self.active_downloads[i].upload_speed = 0;
            }
            assert(self@ =~= earlier.update(
                i as int,
                second_later(before[i as int], advanced@[i as int]),
            ));
            i += 1;
        }
        assert(self@ =~= Seq::new(
            before.len(),
            |i: int| second_later(before[i], advanced@[i]),
        ));
    }
}

/// A download that is done stays as far as it is.
pub proof fn done_stays_done(status: Status, advanced: u32)
    requires
        !below_one(status.progress),
    ensures
        second_later(status, advanced).progress == status.progress,
        second_later(second_later(status, advanced), advanced) == second_later(status, advanced),
{
}

/// A magnet link whose query starts with the info-hash names that info-hash, whatever
/// follows behind an ampersand.
pub proof fn magnet_names_its_hash(hash: Seq<char>, others: Seq<char>)
    requires
        !hash.contains('&'),
    ensures
        hash_of_magnet("magnet:?xt=urn:btih:"@ + hash) == hash,
        hash_of_magnet("magnet:?xt=urn:btih:"@ + hash + "&"@ + others) == hash,
{
    reveal_strlit("magnet:?xt=urn:btih:");
    reveal_strlit("magnet:?");
    reveal_strlit("xt=urn:btih:");
    reveal_strlit("&");
    let pair = "xt=urn:btih:"@ + hash;
    assert forall|i: int| 0 <= i < pair.len() implies pair[i] != '&' by {
        if i >= 12 {
            assert(pair[i] == hash[i - 12]);
            assert(hash.contains(hash[i - 12]));
        }
    }
    named_first(pair, hash);
    let alone = "magnet:?xt=urn:btih:"@ + hash;
    assert(alone.subrange(0, 8) =~= "magnet:?"@);
    assert(alone.skip(8) =~= pair);
    first_pair(pair, pair.len() as int);
    assert(pair.take(pair.len() as int) =~= pair);
    let link = alone + "&"@ + others;
    assert(link.subrange(0, 8) =~= "magnet:?"@);
    let query = link.skip(8);
    assert(query =~= pair + "&"@ + others);
    assert forall|i: int| 0 <= i < pair.len() implies query[i] != '&' by {
        assert(query[i] == pair[i]);
    }
    first_pair(query, pair.len() as int);
    assert(query.take(pair.len() as int) =~= pair);
}

/// The first part of a query that starts with `xt=urn:btih:` tells the info-hash.
proof fn named_first(pair: Seq<char>, hash: Seq<char>)
    requires
        pair == "xt=urn:btih:"@ + hash,
    ensures
        forall|all: Seq<Seq<char>>|
            all.len() > 0 && all[0] == pair ==> #[trigger] hash_among(all) == hash,
{
    let prefix = "xt=urn:btih:"@;
    assert(pair.subrange(0, prefix.len() as int) =~= prefix);
    assert(pair.skip(prefix.len() as int) =~= hash);
}

/// The parts of a text between ampersands hold none, and with ampersands between them they
/// are the text again.
pub proof fn pairs_make_up_the_text(query: Seq<char>)
    ensures
        pairs(query).len() > 0,
        forall|i: int| 0 <= i < pairs(query).len() ==> !(#[trigger] pairs(query)[i]).contains('&'),
        joined(pairs(query), '&') == query,
    decreases query.len(),
{
    query.index_of_first_ensures('&');
    if query.contains('&') {
        let end = query.index_of_first('&')->0;
        let rest = query.skip(end + 1);
        first_pair(query, end);
        pairs_make_up_the_text(rest);
        let all = pairs(query);
        assert(all.drop_first() =~= pairs(rest));
        assert(!query.take(end).contains('&'));
        assert forall|i: int| 0 <= i < all.len() implies !(#[trigger] all[i]).contains('&') by {
            if i > 0 {
                assert(all[i] == pairs(rest)[i - 1]);
            }
        }
        assert(query.take(end) + seq!['&'] + rest =~= query);
    } else {
        let end = query.len() as int;
        assert forall|i: int| 0 <= i < end implies query[i] != '&' by {
            if query[i] == '&' {
                assert(query.contains('&'));
            }
        }
        first_pair(query, end);
    }
}

/// Texts without ampersands are the parts of what they make up with ampersands between them.
pub proof fn joined_parts_are_the_pairs(parts: Seq<Seq<char>>)
    requires
        parts.len() > 0,
        forall|i: int| 0 <= i < parts.len() ==> !(#[trigger] parts[i]).contains('&'),
    ensures
        pairs(joined(parts, '&')) == parts,
    decreases parts.len(),
{
    let query = joined(parts, '&');
    let first = parts[0];
    let end = first.len() as int;
    assert forall|i: int| 0 <= i < end implies query[i] != '&' by {
        assert(query[i] == first[i]);
        if first[i] == '&' {
            assert(first.contains('&'));
        }
    }
    first_pair(query, end);
    assert(query.take(end) =~= first);
    if parts.len() == 1 {
        assert(pairs(query) =~= parts);
    } else {
        let others = parts.drop_first();
        assert forall|i: int| 0 <= i < others.len() implies !(#[trigger] others[i]).contains(
            '&',
        ) by {
            assert(others[i] == parts[i + 1]);
        }
        joined_parts_are_the_pairs(others);
        assert(query.skip(end + 1) =~= joined(others, '&'));
        assert(pairs(query) =~= parts);
    }
}

/// Of several texts the first one that starts with `xt=urn:btih:` tells the info-hash.
proof fn first_named_counts(parts: Seq<Seq<char>>, at: int)
    requires
        0 <= at <= parts.len(),
        forall|i: int|
            0 <= i < at ==> !"xt=urn:btih:"@.is_prefix_of(#[trigger] parts[i]),
        at < parts.len() ==> "xt=urn:btih:"@.is_prefix_of(parts[at]),
    ensures
        at == parts.len() ==> hash_among(parts) == "invalid"@,
        at < parts.len() ==> hash_among(parts) == parts[at].skip("xt=urn:btih:"@.len() as int),
    decreases at,
{
    if at > 0 {
        let others = parts.drop_first();
        assert(!"xt=urn:btih:"@.is_prefix_of(parts[0]));
        assert forall|i: int| 0 <= i < at - 1 implies !"xt=urn:btih:"@.is_prefix_of(
            #[trigger] others[i],
        ) by {
            assert(others[i] == parts[i + 1]);
        }
        first_named_counts(others, at - 1);
    }
}

/// A magnet link names what follows `xt=urn:btih:` in the first of its parameters that
/// starts so, wherever it stands.
pub proof fn magnet_names_the_first_hash(parameters: Seq<Seq<char>>, at: int, hash: Seq<char>)
    requires
        0 <= at < parameters.len(),
        forall|i: int| 0 <= i < parameters.len() ==> !(#[trigger] parameters[i]).contains('&'),
        forall|i: int|
            0 <= i < at ==> !"xt=urn:btih:"@.is_prefix_of(#[trigger] parameters[i]),
        parameters[at] == "xt=urn:btih:"@ + hash,
    ensures
        hash_of_magnet("magnet:?"@ + joined(parameters, '&')) == hash,
{
    let link = "magnet:?"@ + joined(parameters, '&');
    let prefix = "xt=urn:btih:"@;
    joined_parts_are_the_pairs(parameters);
    assert(link.subrange(0, "magnet:?"@.len() as int) =~= "magnet:?"@);
    assert(link.skip("magnet:?"@.len() as int) =~= joined(parameters, '&'));
    assert(parameters[at].subrange(0, prefix.len() as int) =~= prefix);
    first_named_counts(parameters, at);
    assert(parameters[at].skip(prefix.len() as int) =~= hash);
}

/// A text that is no magnet link names no info-hash.
pub proof fn other_texts_name_no_hash(text: Seq<char>)
    requires
        !"magnet:?"@.is_prefix_of(text),
    ensures
        hash_of_magnet(text) == "invalid"@,
{
}

/// A magnet link none of whose parameters starts with `xt=urn:btih:` names no info-hash.
pub proof fn magnet_without_a_hash_names_none(parameters: Seq<Seq<char>>)
    requires
        parameters.len() > 0,
        forall|i: int|
            0 <= i < parameters.len() ==> !(#[trigger] parameters[i]).contains('&')
                && !"xt=urn:btih:"@.is_prefix_of(parameters[i]),
    ensures
        hash_of_magnet("magnet:?"@ + joined(parameters, '&')) == "invalid"@,
{
    let link = "magnet:?"@ + joined(parameters, '&');
    joined_parts_are_the_pairs(parameters);
    assert(link.subrange(0, "magnet:?"@.len() as int) =~= "magnet:?"@);
    assert(link.skip("magnet:?"@.len() as int) =~= joined(parameters, '&'));
    first_named_counts(parameters, parameters.len() as int);
}

/// A download that is added for a magnet link has the link as its name and the info-hash
/// that the link names. One that is added without a magnet link has the target as its name,
/// and it alone has the placeholder in place of an info-hash. Neither has come anywhere yet.
pub proof fn downloads_are_added_under_their_hash(
    target: Seq<char>,
    hash: Seq<char>,
    others: Seq<char>,
)
    requires
        !hash.contains('&'),
    ensures
        ({
            let alone = "magnet:?xt=urn:btih:"@ + hash;
            let status = new_status(target, alone);
            &&& status.name == alone
            &&& status.info_hash == hash
        }),
        ({
            let link = "magnet:?xt=urn:btih:"@ + hash + "&"@ + others;
            let status = new_status(target, link);
            &&& status.name == link
            &&& status.info_hash == hash
        }),
        ({
            let status = new_status(target, Seq::empty());
            &&& status.name == target
            &&& status.info_hash == "a1b2c3d4e5f67890"@
        }),
{
    reveal_strlit("magnet:?xt=urn:btih:");
    magnet_names_its_hash(hash, others);
}

/// Whatever was asked for, a download has come nowhere when it is added; its name is the
/// magnet link where there is one, and its info-hash is then the one that the link names.
pub proof fn added_downloads_start_at_nothing(target: Seq<char>, magnet: Seq<char>)
    ensures
        ({
            let status = new_status(target, magnet);
            &&& status.progress == 0
            &&& status.download_speed == 0
            &&& status.upload_speed == 0
            &&& status.peer_count == 0
            &&& magnet.len() > 0 ==> status.name == magnet && status.info_hash == hash_of_magnet(
                magnet,
            )
            &&& magnet.len() == 0 ==> status.name == target && status.info_hash
                == "a1b2c3d4e5f67890"@
        }),
{
}

/// A single-precision number that is finite, times two to the 149th: the lowest 23 bits are
/// its fraction, the eight above them its exponent, and the highest its sign.
pub open spec fn scaled(bits: u32) -> int {
    let exponent = (bits / 0x80_0000) % 0x100;
    let fraction = (bits % 0x80_0000) as int;
    let magnitude = if exponent == 0 {
        fraction
    } else {
        (0x80_0000 + fraction) * pow2((exponent - 1) as nat)
    };
    if bits < 0x8000_0000 {
        magnitude
    } else {
        -magnitude
    }
}

/// A finite number is taken to be below one exactly where it is. Of the others minus infinity
/// alone is.
pub proof fn below_one_is_below_one(bits: u32)
    ensures
        (bits / 0x80_0000) % 0x100 < 0xff ==> (below_one(bits) <==> scaled(bits) < pow2(149)),
        (bits / 0x80_0000) % 0x100 == 0xff ==> (below_one(bits) <==> bits == 0xff80_0000),
{
    let exponent = (bits / 0x80_0000) % 0x100;
    let fraction = (bits % 0x80_0000) as int;
    lemma_pow2_pos(149);
    lemma_pow2_adds(23, 126);
    lemma_pow2_adds(24, 125);
    lemma2_to64();
    if exponent == 0 {
        assert(fraction < 0x80_0000);
        lemma_pow2_strictly_increases(23, 149);
    } else if exponent <= 126 {
        let scale = pow2((exponent - 1) as nat) as int;
        lemma_pow2_pos((exponent - 1) as nat);
        if exponent < 126 {
            lemma_pow2_strictly_increases((exponent - 1) as nat, 125);
        }
        assert((0x80_0000 + fraction) * scale < 0x100_0000 * pow2(125)) by (nonlinear_arith)
            requires
                0 <= fraction < 0x80_0000,
                0 < scale <= pow2(125),
        ;
        assert((0x80_0000 + fraction) * scale > 0) by (nonlinear_arith)
            requires
                0 <= fraction,
                0 < scale,
        ;
    } else if exponent < 0xff {
        let scale = pow2((exponent - 1) as nat) as int;
        lemma_pow2_pos(126);
        if exponent > 127 {
            lemma_pow2_strictly_increases(126, (exponent - 1) as nat);
        }
        assert((0x80_0000 + fraction) * scale >= 0x80_0000 * pow2(126)) by (nonlinear_arith)
            requires
                0 <= fraction,
                scale >= pow2(126) > 0,
        ;
    }
}

/// In a second a download that is not done comes as far as it is told, at 342 kilobytes a
/// second in, 32 out, and with fourteen peers; one that is done stands still and keeps its
/// peers. What it is called never changes.
pub proof fn a_second_changes_what_it_should(status: Status, advanced: u32)
    ensures
        ({
            let after = second_later(status, advanced);
            &&& after.name == status.name
            &&& after.info_hash == status.info_hash
            &&& below_one(status.progress) ==> {
                &&& after.progress == advanced
                &&& after.download_speed == 342 * 1024
                &&& after.upload_speed == 32 * 1024
                &&& after.peer_count == 14
            }
            &&& !below_one(status.progress) ==> {
                &&& after.progress == status.progress
                &&& after.download_speed == 0
                &&& after.upload_speed == 0
                &&& after.peer_count == status.peer_count
            }
        }),
{
}

/// A status is seen with all that it holds, and so is each of several, in their order.
pub proof fn statuses_are_seen_whole(state: DaemonState, at: int)
    ensures
        state@.len() == state.active_downloads@.len(),
        0 <= at < state@.len() ==> {
            let torrent = state.active_downloads@[at];
            &&& state@[at].name == torrent.name@
            &&& state@[at].info_hash == torrent.info_hash@
            &&& state@[at].progress == torrent.progress
            &&& state@[at].download_speed == torrent.download_speed
            &&& state@[at].upload_speed == torrent.upload_speed
            &&& state@[at].peer_count == torrent.peer_count
        },
        state@ == statuses(state.active_downloads@),
{
}

/// The placeholder is the same wherever it stands: in what the daemon answers, and in place
/// of the info-hash of a download without a magnet link.
pub proof fn placeholder_is_the_same(target: Seq<char>)
    ensures
        placeholder_hash() == "a1b2c3d4e5f67890"@,
        new_status(target, Seq::empty()).info_hash == placeholder_hash(),
{
}

} // verus!
