//! What the command line asks of the daemon, and what the dashboard shows and does.
use crate::daemon::{AddTorrentRequest, TorrentStatus};
use crate::text::push_decimal;
#[allow(unused_imports)]
use crate::text::{decimal, joined};
use vstd::prelude::*;

verus! {

/// What the command line can ask for.
#[derive(Debug)]
pub enum Command {
    Add { target: String, magnet: Option<String> },
    List,
    Tui,
}

/// What is asked for: the dashboard, where nothing else is.
pub fn command_or_default(command: Option<Command>) -> (chosen: Command)
    ensures
        chosen == match command {
            Some(command) => command,
            None => Command::Tui,
        },
{
    match command {
        Some(command) => command,
        None => Command::Tui,
    }
}

/// The request for a download. Without a magnet link its text is empty.
pub fn add_request(target: String, magnet: Option<String>) -> (request: AddTorrentRequest)
    ensures
        request.target == target,
        request.magnet@ == match magnet {
            Some(magnet) => magnet@,
            None => Seq::empty(),
        },
        !request.sequential,
{
    AddTorrentRequest {
        target,
        magnet: match magnet {
            Some(magnet) => magnet,
            None => String::new(),
        },
        sequential: false,
    }
}

/// What is said of a download that was added.
pub fn added_line(info_hash: &str) -> (line: String)
    ensures
        line@ == "Torrent added. InfoHash: "@ + info_hash@,
{
    "Torrent added. InfoHash: ".to_owned().concat(info_hash)
}

/// The line that a list has for a download, where `percent` says how much of it is done.
pub fn list_line(torrent: &TorrentStatus, percent: &str) -> (line: String)
    ensures
        line@ == "- "@ + torrent.name@ + ": ["@ + torrent.info_hash@ + "] Progress: "@ + percent@
            + "%"@,
{
    let mut line = "- ".to_owned();
    line.append(torrent.name.as_str());
    line.append(": [");
    line.append(torrent.info_hash.as_str());
    line.append("] Progress: ");
    line.append(percent);
    line.append("%");
    line
}

/// What the dashboard says of a download.
pub open spec fn details_of(torrent: TorrentStatus, download: Seq<char>, upload: Seq<char>) -> Seq<
    char,
> {
    "Name: "@ + torrent.name@ + "\nHash: "@ + torrent.info_hash@ + "\nDownload Speed: "@ + download
        + " KB/s\nUpload Speed: "@ + upload + " KB/s\nPeers: "@ + decimal(torrent.peer_count as nat)
}

/// What the dashboard says of a download, where `download` and `upload` say how many
/// kilobytes come in and go out in a second.
pub fn details(torrent: &TorrentStatus, download: &str, upload: &str) -> (text: String)
    ensures
        text@ == details_of(*torrent, download@, upload@),
{
    let mut text = "Name: ".to_owned();
    text.append(torrent.name.as_str());
    text.append("\nHash: ");
    text.append(torrent.info_hash.as_str());
    text.append("\nDownload Speed: ");
    text.append(download);
    text.append(" KB/s\nUpload Speed: ");
    text.append(upload);
    text.append(" KB/s\nPeers: ");
    push_decimal(&mut text, torrent.peer_count as u64);
    text
}

/// What the dashboard says where there are no downloads.
pub fn empty_text() -> (text: &'static str)
    ensures
        text@ == "No torrents active. Try adding a torrent using the CLI."@,
{
    "No torrents active. Try adding a torrent using the CLI."
}

/// What has happened while the dashboard waited for the daemon.
#[derive(Debug)]
pub enum StreamEvent {
    /// The daemon has told how all downloads stand.
    Status(Vec<TorrentStatus>),
    /// The daemon tells nothing more.
    Ended,
    /// Nothing came in time.
    Idle,
}

/// What the dashboard does next.
#[derive(Debug)]
pub enum DashboardAction {
    /// Say a text in place of a download, then look at the keyboard.
    DrawText(&'static str),
    /// Show a download, then look at the keyboard.
    Draw(TorrentStatus),
    /// Wait for the daemon.
    Wait,
    /// Stop.
    Quit,
}

/// What the dashboard does on what has happened. Of several downloads it shows the first.
pub fn on_stream(event: StreamEvent) -> (action: DashboardAction)
    ensures
        match event {
            StreamEvent::Status(torrents) => if torrents@.len() == 0 {
                action matches DashboardAction::DrawText(text) && text@
                    == "No torrents active. Try adding a torrent using the CLI."@
            } else {
                action matches DashboardAction::Draw(shown) && shown@ == torrents@[0]@
            },
            StreamEvent::Ended => action == DashboardAction::Quit,
            StreamEvent::Idle => action == DashboardAction::Wait,
        },
{
    match event {
        StreamEvent::Status(torrents) => if torrents.len() == 0 {
            DashboardAction::DrawText(empty_text())
        } else {
            DashboardAction::Draw(torrents[0].clone())
        },
        StreamEvent::Ended => DashboardAction::Quit,
        StreamEvent::Idle => DashboardAction::Wait,
    }
}

/// What the dashboard does once it has drawn, on the character of a key that was pressed, if
/// any was: `q` stops it.
pub fn on_key(key: Option<char>) -> (action: DashboardAction)
    ensures
        action == if key == Some('q') {
            DashboardAction::Quit
        } else {
            DashboardAction::Wait
        },
{
    match key {
        Some(c) => if c == 'q' {
            DashboardAction::Quit
        } else {
            DashboardAction::Wait
        },
        None => DashboardAction::Wait,
    }
}

/// What the dashboard says of a download are five lines: its name, its info-hash, how fast it
/// comes in, how fast it goes out, and how many peers it has.
pub proof fn details_are_five_lines(
    torrent: TorrentStatus,
    download: Seq<char>,
    upload: Seq<char>,
)
    ensures
        details_of(torrent, download, upload) == joined(
            seq![
                "Name: "@ + torrent.name@,
                "Hash: "@ + torrent.info_hash@,
                "Download Speed: "@ + download + " KB/s"@,
                "Upload Speed: "@ + upload + " KB/s"@,
                "Peers: "@ + decimal(torrent.peer_count as nat),
            ],
            '\n',
        ),
{
    reveal_strlit("\nHash: ");
    reveal_strlit("Hash: ");
    reveal_strlit("\nDownload Speed: ");
    reveal_strlit("Download Speed: ");
    reveal_strlit(" KB/s\nUpload Speed: ");
    reveal_strlit(" KB/s");
    reveal_strlit("Upload Speed: ");
    reveal_strlit(" KB/s\nPeers: ");
    reveal_strlit("Peers: ");
    let line = seq!['\n'];
    assert("\nHash: "@ =~= line + "Hash: "@);
    assert("\nDownload Speed: "@ =~= line + "Download Speed: "@);
    assert(" KB/s\nUpload Speed: "@ =~= " KB/s"@ + line + "Upload Speed: "@);
    assert(" KB/s\nPeers: "@ =~= " KB/s"@ + line + "Peers: "@);
    let name = "Name: "@ + torrent.name@;
    let hash = "Hash: "@ + torrent.info_hash@;
    let incoming = "Download Speed: "@ + download + " KB/s"@;
    let outgoing = "Upload Speed: "@ + upload + " KB/s"@;
    let peers = "Peers: "@ + decimal(torrent.peer_count as nat);
    let l5 = seq![peers];
    let l4 = seq![outgoing, peers];
    let l3 = seq![incoming, outgoing, peers];
    let l2 = seq![hash, incoming, outgoing, peers];
    let l1 = seq![name, hash, incoming, outgoing, peers];
    assert(l1.drop_first() =~= l2);
    assert(l2.drop_first() =~= l3);
    assert(l3.drop_first() =~= l4);
    assert(l4.drop_first() =~= l5);
    assert(joined(l5, '\n') == peers);
    assert(joined(l4, '\n') == outgoing + line + peers);
    assert(joined(l3, '\n') == incoming + line + joined(l4, '\n'));
    assert(joined(l2, '\n') == hash + line + joined(l3, '\n'));
    assert(joined(l1, '\n') == name + line + joined(l2, '\n'));
    lines_regroup(
        name,
        hash,
        "Download Speed: "@,
        download,
        " KB/s"@,
        "Upload Speed: "@,
        upload,
        "Peers: "@,
        decimal(torrent.peer_count as nat),
        torrent.info_hash@,
        "Hash: "@,
        line,
    );
}

/// Lines may be put together piece by piece or as a whole.
proof fn lines_regroup(
    name: Seq<char>,
    hash: Seq<char>,
    incoming: Seq<char>,
    download: Seq<char>,
    unit: Seq<char>,
    outgoing: Seq<char>,
    upload: Seq<char>,
    peers: Seq<char>,
    count: Seq<char>,
    info_hash: Seq<char>,
    hash_name: Seq<char>,
    line: Seq<char>,
)
    requires
        hash == hash_name + info_hash,
    ensures
        name + (line + hash_name) + info_hash + (line + incoming) + download + (unit + line
            + outgoing) + upload + (unit + line + peers) + count == name + line + (hash + line + (
        incoming + download + unit + line + (outgoing + upload + unit + line + (peers + count)))),
{
    assert(name + (line + hash_name) + info_hash + (line + incoming) + download + (unit + line
        + outgoing) + upload + (unit + line + peers) + count =~= name + line + (hash + line + (
    incoming + download + unit + line + (outgoing + upload + unit + line + (peers + count)))));
}

} // verus!
