use rektorrent::daemon::{magnet_info_hash, AddTorrentRequest, DaemonState, TorrentStatus};

fn ask(target: &str, magnet: &str) -> AddTorrentRequest {
    AddTorrentRequest {
        target: target.to_string(),
        magnet: magnet.to_string(),
        sequential: false,
    }
}

fn advance(state: &DaemonState) -> Vec<u32> {
    state
        .active_downloads
        .iter()
        .map(|torrent| (f32::from_bits(torrent.progress) + 0.05).min(1.0).to_bits())
        .collect()
}

fn at(progress: u32) -> DaemonState {
    DaemonState {
        active_downloads: vec![TorrentStatus {
            name: "n".to_string(),
            info_hash: "h".to_string(),
            progress,
            download_speed: 1,
            upload_speed: 2,
            peer_count: 3,
        }],
    }
}

#[test]
fn magnet_links_name_their_hash() {
    assert_eq!(magnet_info_hash("magnet:?xt=urn:btih:abc"), "abc");
    assert_eq!(magnet_info_hash("magnet:?xt=urn:btih:abc&dn=x"), "abc");
    assert_eq!(magnet_info_hash("magnet:?dn=x&xt=urn:btih:abc&xt=urn:btih:def"), "abc");
    assert_eq!(magnet_info_hash("magnet:?xt=urn:btih:"), "");
    assert_eq!(magnet_info_hash("magnet:?&&xt=urn:btih:\u{e9}&"), "\u{e9}");
}

#[test]
fn other_links_name_no_hash() {
    for magnet in [
        "magnet:?",
        "magnet:",
        "x",
        "magnet:?dn=xt=urn:btih:abc",
        "xt=urn:btih:abc",
        "Magnet:?xt=urn:btih:abc",
        "magnet:?xt=urn:sha1:abc",
    ] {
        assert_eq!(magnet_info_hash(magnet), "invalid");
    }
}

#[test]
fn downloads_are_added_behind_the_others() {
    let mut state = DaemonState::new();
    assert!(state.list_torrents().is_empty());
    let response = state.add_torrent(ask("file.torrent", ""));
    assert_eq!(response.info_hash, "a1b2c3d4e5f67890");
    assert!(response.success);
    let response = state.add_torrent(ask("ignored", "magnet:?xt=urn:btih:abc"));
    assert_eq!(response.info_hash, "a1b2c3d4e5f67890");
    let torrents = state.list_torrents();
    assert_eq!(torrents.len(), 2);
    assert_eq!(torrents[0].name, "file.torrent");
    assert_eq!(torrents[0].info_hash, "a1b2c3d4e5f67890");
    assert_eq!(torrents[1].name, "magnet:?xt=urn:btih:abc");
    assert_eq!(torrents[1].info_hash, "abc");
    for torrent in torrents {
        assert_eq!(f32::from_bits(torrent.progress), 0.0);
        assert_eq!(torrent.download_speed, 0);
        assert_eq!(torrent.upload_speed, 0);
        assert_eq!(torrent.peer_count, 0);
    }
}

#[test]
fn a_second_passes() {
    let mut state = DaemonState::new();
    state.add_torrent(ask("file.torrent", ""));
    state.tick(&advance(&state));
    let torrent = &state.active_downloads[0];
    assert_eq!(f32::from_bits(torrent.progress), 0.05);
    assert_eq!(torrent.download_speed, 1024 * 342);
    assert_eq!(torrent.upload_speed, 1024 * 32);
    assert_eq!(torrent.peer_count, 14);
    assert_eq!(torrent.name, "file.torrent");
}

#[test]
fn downloads_come_to_an_end() {
    let mut state = DaemonState::new();
    state.add_torrent(ask("file.torrent", ""));
    for _ in 0..25 {
        state.tick(&advance(&state));
    }
    let torrent = &state.active_downloads[0];
    assert_eq!(f32::from_bits(torrent.progress), 1.0);
    assert_eq!(torrent.download_speed, 0);
    assert_eq!(torrent.upload_speed, 0);
    assert_eq!(torrent.peer_count, 14);
}

#[test]
fn a_download_runs_while_its_progress_is_below_one() {
    for progress in [
        0.0f32,
        -0.0,
        0.5,
        0.99999994,
        1.0,
        1.0000001,
        -1.0,
        f32::MAX,
        f32::MIN,
        f32::INFINITY,
        f32::NEG_INFINITY,
        f32::NAN,
        -f32::NAN,
    ] {
        let mut state = at(progress.to_bits());
        state.tick(&vec![7]);
        let torrent = &state.active_downloads[0];
        if progress < 1.0 {
            assert_eq!(torrent.progress, 7);
            assert_eq!(torrent.download_speed, 350208);
            assert_eq!(torrent.upload_speed, 32768);
            assert_eq!(torrent.peer_count, 14);
        } else {
            assert_eq!(torrent.progress, progress.to_bits());
            assert_eq!(torrent.download_speed, 0);
            assert_eq!(torrent.upload_speed, 0);
            assert_eq!(torrent.peer_count, 3);
        }
    }
}
