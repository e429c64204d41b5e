use spyparty::{Error, GameResult, Reader, ResultData};

#[test]
fn mod_flags_version_not_simple() {
    let input: &[u8] = &[0x01, 0, 0, 0];
    let mut reader = Reader::new(input);
    let (version, simple_rules) = ResultData::read_flags(&mut reader).unwrap();

    assert_eq!(version, 1);
    assert_eq!(Some(simple_rules), Some(false));
}

#[test]
fn mod_flags_version_simple() {
    let input: &[u8] = &[0x11, 0, 0, 0];
    let mut reader = Reader::new(input);
    let (version, simple_rules) = ResultData::read_flags(&mut reader).unwrap();

    assert_eq!(version, 1);
    assert_eq!(Some(simple_rules), Some(true));
}

#[test]
fn result_data_unsupported_version() {
    let input: &[u8] = &[0x03, 0, 0, 0];
    let mut reader = Reader::new(input);
    let validated = ResultData::read_flags(&mut reader);

    match validated {
        Err(Error::UnsupportedResultVersion(3)) => assert!(true),
        _ => assert!(false),
    }
}

#[test]
fn result_data_flags_version_not_simple() {
    let input: &[u8] = &[0x01, 0, 0, 0];
    let mut reader = Reader::new(input);
    let (version, simple_rules) = ResultData::read_flags(&mut reader).unwrap();

    assert_eq!(version, 1);
    assert_eq!(simple_rules, false);
}

#[test]
fn result_data_flags_version_simple() {
    let input: &[u8] = &[0x11, 0, 0, 0];
    let mut reader = Reader::new(input);
    let (version, simple_rules) = ResultData::read_flags(&mut reader).unwrap();

    assert_eq!(version, 1);
    assert_eq!(simple_rules, true);
}

#[test]
fn result_data_valid_game_result() {
    let input: &[u8] = &[0, 0, 0, 0];
    let mut reader = Reader::new(input);
    let result = ResultData::read_game_result(&mut reader).unwrap();

    assert_eq!(result, GameResult::MissionsWin);
}

#[test]
fn result_data_invalid_game_result() {
    let input: &[u8] = &[5, 0, 0, 0];
    let mut reader = Reader::new(input);
    let validated = ResultData::read_game_result(&mut reader);

    match validated {
        Err(Error::InvalidGameResult(5)) => assert!(true),
        _ => assert!(false),
    }
}

#[test]
fn flags_word_of_version_two_without_simple_rules() {
    let input: &[u8] = &[0x02, 0, 0, 0];
    let mut reader = Reader::new(input);
    assert_eq!(ResultData::read_flags(&mut reader).unwrap(), (2, false));
    assert_eq!(reader.pos, 4);
}

#[test]
fn truncated_flags_word_is_io() {
    let input: &[u8] = &[0x11, 0];
    let mut reader = Reader::new(input);
    match ResultData::read_flags(&mut reader) {
        Err(Error::Io(e)) => {
            assert_eq!(e.offset, 0);
            assert_eq!(e.wanted, 4);
        }
        _ => panic!("expected an I/O error"),
    }
}

#[test]
fn result_block_without_flags_for_version_three() {
    // The first word would read as flags (0x13, version 3) if it were read.
    let mut input: Vec<u8> = vec![];
    for w in [1u32, 0x20_01c0_04, 0x1dbd8e41, 0xff, 0x0f, 0x05] {
        input.extend_from_slice(&w.to_le_bytes());
    }
    let mut reader = Reader::new(&input);
    let data = ResultData::from_reader(&mut reader, 3).unwrap();
    assert_eq!(data.version, 0);
    assert_eq!(data.simple_rules, None);
    assert_eq!(data.game_result, GameResult::SpyTimeout);
    assert_eq!(reader.pos, 24);
    assert_eq!(data.completed_missions_raw, 5);
    assert_eq!(data.guests, None);
    assert_eq!(data.clock_start, None);
}

#[test]
fn simple_rules_is_bit_0x10_of_the_flags() {
    let input: &[u8] = &[0x31, 0, 0, 0];
    let mut reader = Reader::new(input);
    let (version, simple_rules) = ResultData::read_flags(&mut reader).unwrap();

    assert_eq!(version, 1);
    assert_eq!(simple_rules, true);

    let input: &[u8] = &[0x22, 0, 0, 0];
    let mut reader = Reader::new(input);
    assert_eq!(ResultData::read_flags(&mut reader).unwrap(), (2, false));
}
