use spyparty::{Error, GameMap, GameMode, GameResult, Mission, Replay};

/// Builds the bytes of a replay header.
fn header_bytes(version: u32, spy: &[u8], sniper: &[u8], spy_display: &[u8], sniper_display: &[u8]) -> Vec<u8> {
    let mut b = b"RPLY".to_vec();
    b.extend_from_slice(&version.to_le_bytes());
    b.extend_from_slice(&23u32.to_le_bytes());
    b.extend_from_slice(&6134u32.to_le_bytes());
    b.extend_from_slice(&0u32.to_le_bytes());
    b.extend_from_slice(&125.3125f32.to_le_bytes());
    b.extend_from_slice(&0x9dca1e19a581d2af884a4ff7b686b532u128.to_le_bytes());
    b.extend_from_slice(&1534431629u32.to_le_bytes());
    b.extend_from_slice(&1u16.to_le_bytes());
    b.push(spy.len() as u8);
    b.push(sniper.len() as u8);
    if version == 5 {
        b.push(spy_display.len() as u8);
        b.push(sniper_display.len() as u8);
        b.extend_from_slice(&[0xaa, 0xbb]);
    }
    if version > 3 {
        b.extend_from_slice(&0x02u32.to_le_bytes());
    }
    for w in [2u32, 0x20_01c0_04, 0x9dc5bb5e, 0x7b, 0x7b, 0x42] {
        b.extend_from_slice(&w.to_le_bytes());
    }
    if version > 3 {
        b.extend_from_slice(&16u32.to_le_bytes());
        b.extend_from_slice(&180u32.to_le_bytes());
    }
    b.extend_from_slice(&0.75f32.to_le_bytes());
    b.extend_from_slice(&92399u32.to_le_bytes());
    b.extend_from_slice(spy);
    b.extend_from_slice(sniper);
    b.extend_from_slice(spy_display);
    b.extend_from_slice(sniper_display);
    b
}

#[test]
fn decodes_a_version_five_header() {
    let bytes = header_bytes(5, b"turnipboy", b"plastikqs", b"Turnip", b"");
    let replay = Replay::from_bytes(&bytes).unwrap();
    let h = &replay.header;
    assert_eq!(h.replay_version, 5);
    assert_eq!(h.protocol_version, 23);
    assert_eq!(h.spyparty_version, 6134);
    assert_eq!(h.flags, 0);
    assert_eq!(f32::from_bits(h.duration_bits), 125.3125);
    assert_eq!(h.game_id, 0x9dca1e19a581d2af884a4ff7b686b532);
    assert_eq!(h.start_time, 1534431629);
    assert_eq!(h.play_id, 1);
    assert_eq!(h.spy_user_len, 9);
    assert_eq!(h.sniper_user_len, 9);
    assert_eq!(h.spy_display_len, 6);
    assert_eq!(h.sniper_display_len, 0);
    assert_eq!(f32::from_bits(h.latency_bits), 0.75);
    assert_eq!(h.data_size, 92399);
    assert_eq!(h.spy_user_name, "turnipboy");
    assert_eq!(h.sniper_user_name, "plastikqs");
    assert_eq!(h.spy_display_name, Some("Turnip".to_string()));
    assert_eq!(h.sniper_display_name, None);
    let r = &h.result_data;
    assert_eq!(r.version, 2);
    assert_eq!(r.simple_rules, Some(false));
    assert_eq!(r.game_result, GameResult::SpyShot);
    assert_eq!(r.game_mode, GameMode::Any(4, 7));
    assert_eq!(r.map, GameMap::Courtyard);
    assert_eq!(
        r.selected_missions,
        vec![
            Mission::BugAmbassador,
            Mission::ContactDoubleAgent,
            Mission::SwapStatue,
            Mission::InspectStatues,
            Mission::SeduceTarget,
            Mission::PurloinGuestList
        ]
    );
    assert_eq!(r.completed_missions, vec![Mission::ContactDoubleAgent, Mission::PurloinGuestList]);
    assert_eq!(r.completed_missions_raw, 0x42);
    assert_eq!(r.guests, Some(16));
    assert_eq!(r.clock_start, Some(180));
}

#[test]
fn display_name_is_the_bytes_at_its_place() {
    let bytes = header_bytes(5, b"a", b"b", "Zoë".as_bytes(), b"sniper name");
    let replay = Replay::from_bytes(&bytes).unwrap();
    assert_eq!(replay.header.spy_display_name, Some("Zoë".to_string()));
    assert_eq!(replay.header.sniper_display_name, Some("sniper name".to_string()));
}

#[test]
fn version_three_header_has_no_result_flags() {
    let bytes = header_bytes(3, b"canadianbacon", b"krazycaley", b"", b"");
    let replay = Replay::from_bytes(&bytes).unwrap();
    let r = &replay.header.result_data;
    assert_eq!(r.version, 0);
    assert_eq!(r.simple_rules, None);
    assert_eq!(r.game_result, GameResult::SpyShot);
    assert_eq!(r.guests, None);
    assert_eq!(replay.header.spy_display_name, None);
    assert_eq!(replay.header.sniper_user_name, "krazycaley");
}

#[test]
fn header_with_wrong_identifier() {
    match Replay::from_bytes(b"NOPE") {
        Err(Error::InvalidIdentifier) => {}
        _ => panic!("expected an invalid identifier"),
    }
}

#[test]
fn header_truncated_to_three_bytes() {
    match Replay::from_bytes(b"RPL") {
        Err(Error::Io(e)) => {
            assert_eq!(e.offset, 0);
            assert_eq!(e.wanted, 4);
        }
        _ => panic!("expected an I/O error"),
    }
}

#[test]
fn header_with_unsupported_version() {
    let bytes = header_bytes(2, b"a", b"b", b"", b"");
    match Replay::from_bytes(&bytes) {
        Err(Error::UnsupportedReplayVersion(2)) => {}
        _ => panic!("expected an unsupported version"),
    }
}

#[test]
fn header_cut_inside_the_names() {
    let bytes = header_bytes(4, b"turnipboy", b"plastikqs", b"", b"");
    let cut = &bytes[..bytes.len() - 3];
    match Replay::from_bytes(cut) {
        Err(Error::Io(e)) => {
            assert_eq!(e.offset, bytes.len() - 9);
            assert_eq!(e.wanted, 9);
        }
        _ => panic!("expected an I/O error"),
    }
}

#[test]
fn header_with_empty_spy_name() {
    let bytes = header_bytes(4, b"", b"b", b"", b"");
    match Replay::from_bytes(&bytes) {
        Err(Error::MissingSpyUsername) => {}
        _ => panic!("expected a missing spy username"),
    }
}

#[test]
fn header_with_invalid_utf8_name() {
    let bytes = header_bytes(4, b"\xF0\x90\x80", b"b", b"", b"");
    match Replay::from_bytes(&bytes) {
        Err(Error::InvalidString(_)) => {}
        _ => panic!("expected an invalid string"),
    }
}

#[test]
fn has_player_spy_user_name() {
    let mut replay: Replay = Default::default();
    replay.header.spy_user_name = "test".to_string();

    assert!(replay.has_player("test"));
}

#[test]
fn has_player_spy_display_name() {
    let mut replay: Replay = Default::default();
    replay.header.spy_display_name = Some("test".to_string());

    assert!(replay.has_player("test"));
}

#[test]
fn has_player_sniper_user_name() {
    let mut replay: Replay = Default::default();
    replay.header.sniper_user_name = "test".to_string();

    assert!(replay.has_player("test"));
}

#[test]
fn has_player_sniper_display_name() {
    let mut replay: Replay = Default::default();
    replay.header.sniper_display_name = Some("test".to_string());

    assert!(replay.has_player("test"));
}

#[test]
fn has_spy_user_name() {
    let mut replay: Replay = Default::default();
    replay.header.spy_user_name = "test".to_string();

    assert!(replay.has_spy("test"));
}

#[test]
fn has_spy_display_name() {
    let mut replay: Replay = Default::default();
    replay.header.spy_display_name = Some("test".to_string());

    assert!(replay.has_spy("test"));
}

#[test]
fn has_spy_not_sniper() {
    let mut replay: Replay = Default::default();
    replay.header.sniper_display_name = Some("test".to_string());

    assert!(!replay.has_spy("test"));
}

#[test]
fn has_sniper_user_name() {
    let mut replay: Replay = Default::default();
    replay.header.sniper_user_name = "test".to_string();

    assert!(replay.has_sniper("test"));
}

#[test]
fn has_sniper_display_name() {
    let mut replay: Replay = Default::default();
    replay.header.sniper_display_name = Some("test".to_string());

    assert!(replay.has_sniper("test"));
}

#[test]
fn has_sniper_not_spy() {
    let mut replay: Replay = Default::default();
    replay.header.spy_display_name = Some("test".to_string());

    assert!(!replay.has_sniper("test"));
}

#[test]
fn is_spy_win() {
    let mut replay: Replay = Default::default();
    replay.header.result_data.game_result = GameResult::MissionsWin;

    assert!(replay.is_spy_win());
}

#[test]
fn is_sniper_win() {
    let mut replay: Replay = Default::default();
    replay.header.result_data.game_result = GameResult::SpyTimeout;

    assert!(replay.is_sniper_win());
}

#[test]
fn is_win_for_spy() {
    let mut replay: Replay = Default::default();
    replay.header.spy_user_name = "test".to_string();
    replay.header.result_data.game_result = GameResult::MissionsWin;

    assert!(replay.is_win_for("test"));
}

#[test]
fn is_win_for_sniper() {
    let mut replay: Replay = Default::default();
    replay.header.sniper_user_name = "test".to_string();
    replay.header.result_data.game_result = GameResult::SpyShot;

    assert!(replay.is_win_for("test"));
}

#[test]
fn unfinished_game_is_neither_win_nor_loss() {
    let mut replay: Replay = Default::default();
    replay.header.spy_user_name = "test".to_string();
    assert!(!replay.is_win_for("test"));
    assert!(!replay.is_loss_for("test"));
    replay.header.result_data.game_result = GameResult::SpyShot;
    assert!(replay.is_loss_for("test"));
}
