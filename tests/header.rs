use spyparty::{Error, Header, Reader};

#[test]
fn mod_valid_identifier() {
    let input: &[u8] = b"RPLY";
    let mut reader = Reader::new(input);
    let validated = Header::validate_identifier(&mut reader);

    assert!(validated.is_ok());
}

#[test]
fn mod_invalid_identifier() {
    let input: &[u8] = b"NOPE";
    let mut reader = Reader::new(input);
    let validated = Header::validate_identifier(&mut reader);

    match validated {
        Err(Error::InvalidIdentifier) => assert!(true),
        _ => assert!(false),
    }
}

#[test]
fn mod_fail_read_identifier() {
    let input: &[u8] = b"RPL";
    let mut reader = Reader::new(input);
    let validated = Header::validate_identifier(&mut reader);

    match validated {
        Err(Error::Io(_)) => assert!(true),
        _ => assert!(false),
    }
}

#[test]
fn mod_unsupported_version() {
    let input: &[u8] = &[2, 0, 0, 0];
    let mut reader = Reader::new(input);
    let validated = Header::read_replay_version(&mut reader);

    match validated {
        Err(Error::UnsupportedReplayVersion(2)) => assert!(true),
        _ => assert!(false),
    }
}

#[test]
fn missing_spy_user_name() {
    let input: &[u8] = &[0];
    let mut reader = Reader::new(input);
    let validated = Header::read_spy_user_len(&mut reader);

    match validated {
        Err(Error::MissingSpyUsername) => assert!(true),
        _ => assert!(false),
    }
}

#[test]
fn missing_sniper_user_name() {
    let input: &[u8] = &[0];
    let mut reader = Reader::new(input);
    let validated = Header::read_sniper_user_len(&mut reader);

    match validated {
        Err(Error::MissingSniperUsername) => assert!(true),
        _ => assert!(false),
    }
}

#[test]
fn valid_spy_user_name() {
    let input: &[u8] = b"adam";
    let mut reader = Reader::new(input);
    let name = Header::read_user_name(&mut reader, input.len() as u8).unwrap();

    assert_eq!(name, "adam");
}

#[test]
fn valid_sniper_user_name() {
    let input: &[u8] = b"adam";
    let mut reader = Reader::new(input);
    let name = Header::read_user_name(&mut reader, input.len() as u8).unwrap();

    assert_eq!(name, "adam");
}

#[test]
fn invalid_spy_user_name() {
    let input: &[u8] = b"Hello \xF0\x90\x80World";
    let mut reader = Reader::new(input);
    let validated = Header::read_user_name(&mut reader, input.len() as u8);

    match validated {
        Err(Error::InvalidString(_)) => assert!(true),
        _ => assert!(false),
    }
}

#[test]
fn invalid_sniper_user_name() {
    let input: &[u8] = b"Hello \xF0\x90\x80World";
    let mut reader = Reader::new(input);
    let validated = Header::read_user_name(&mut reader, input.len() as u8);

    match validated {
        Err(Error::InvalidString(_)) => assert!(true),
        _ => assert!(false),
    }
}

#[test]
fn mod_has_spy_display_name() {
    let input: &[u8] = b"adam";
    let mut reader = Reader::new(input);
    let name = Header::read_display_name(&mut reader, 4).unwrap();

    assert_eq!(name, Some("adam".to_string()));
}

#[test]
fn no_spy_display_name() {
    let input: &[u8] = &[];
    let mut reader = Reader::new(input);
    let name = Header::read_display_name(&mut reader, 0).unwrap();

    assert_eq!(name, None);
}

#[test]
fn invalid_spy_display_name() {
    let input: &[u8] = b"Hello \xF0\x90\x80World";
    let mut reader = Reader::new(input);
    let validated = Header::read_display_name(&mut reader, input.len() as u8);

    match validated {
        Err(Error::InvalidString(_)) => assert!(true),
        _ => assert!(false),
    }
}

#[test]
fn mod_has_sniper_display_name() {
    let input: &[u8] = b"adam";
    let mut reader = Reader::new(input);
    let name = Header::read_display_name(&mut reader, 4).unwrap();

    assert_eq!(name, Some("adam".to_string()));
}

#[test]
fn no_sniper_display_name() {
    let input: &[u8] = &[];
    let mut reader = Reader::new(input);
    let name = Header::read_display_name(&mut reader, 0).unwrap();

    assert_eq!(name, None);
}

#[test]
fn invalid_sniper_display_name() {
    let input: &[u8] = b"Hello \xF0\x90\x80World";
    let mut reader = Reader::new(input);
    let validated = Header::read_display_name(&mut reader, input.len() as u8);

    match validated {
        Err(Error::InvalidString(_)) => assert!(true),
        _ => assert!(false),
    }
}
