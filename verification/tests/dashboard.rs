use rektorrent::daemon::TorrentStatus;
use rektorrent::dashboard::{
    add_request, added_line, command_or_default, details, empty_text, list_line, on_key, on_stream,
    Command, DashboardAction, StreamEvent,
};

fn torrent(name: &str) -> TorrentStatus {
    TorrentStatus {
        name: name.to_string(),
        info_hash: "abc".to_string(),
        progress: 0.25f32.to_bits(),
        download_speed: 350208,
        upload_speed: 32768,
        peer_count: 14,
    }
}

#[test]
fn the_dashboard_is_the_default() {
    assert!(matches!(command_or_default(None), Command::Tui));
    assert!(matches!(command_or_default(Some(Command::List)), Command::List));
}

#[test]
fn downloads_are_asked_for() {
    let request = add_request("file".to_string(), None);
    assert_eq!(request.target, "file");
    assert_eq!(request.magnet, "");
    assert!(!request.sequential);
    let request = add_request("file".to_string(), Some("magnet:?".to_string()));
    assert_eq!(request.magnet, "magnet:?");
}

#[test]
fn added_downloads_are_confirmed() {
    assert_eq!(added_line("abc"), "Torrent added. InfoHash: abc");
}

#[test]
fn downloads_are_listed() {
    let torrent = torrent("file");
    let percent = format!("{:.2}", f32::from_bits(torrent.progress) * 100.0);
    assert_eq!(list_line(&torrent, &percent), "- file: [abc] Progress: 25.00%");
}

#[test]
fn downloads_are_described() {
    assert_eq!(
        details(&torrent("file"), "342.00", "32.00"),
        "Name: file\nHash: abc\nDownload Speed: 342.00 KB/s\nUpload Speed: 32.00 KB/s\nPeers: 14"
    );
}

#[test]
fn the_dashboard_shows_the_first_download() {
    let both = StreamEvent::Status(vec![torrent("one"), torrent("two")]);
    match on_stream(both) {
        DashboardAction::Draw(shown) => assert_eq!(shown.name, "one"),
        other => panic!("{:?}", other),
    }
    match on_stream(StreamEvent::Status(vec![])) {
        DashboardAction::DrawText(text) => {
            assert_eq!(text, "No torrents active. Try adding a torrent using the CLI.");
            assert_eq!(text, empty_text());
        }
        other => panic!("{:?}", other),
    }
    assert!(matches!(on_stream(StreamEvent::Idle), DashboardAction::Wait));
    assert!(matches!(on_stream(StreamEvent::Ended), DashboardAction::Quit));
}

#[test]
fn the_dashboard_stops_on_q() {
    assert!(matches!(on_key(Some('q')), DashboardAction::Quit));
    assert!(matches!(on_key(Some('Q')), DashboardAction::Wait));
    assert!(matches!(on_key(None), DashboardAction::Wait));
}
