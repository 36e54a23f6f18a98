use desktop_gpui::ipc::{
    authenticate, check_token, create_magnet_outcome, decide_request, decode_secret,
    error_reply, expected_token, parse_request, route_command, secret_from_toml,
    seed_magnet_outcome, tid_reply, AddTorrentReply, IpcCommand, IpcError, IpcRequest,
    SecretError,
};

const SECRET_HEX: &str = "deadbeefcafebabe";

fn secret() -> Vec<u8> {
    vec![0xde, 0xad, 0xbe, 0xef, 0xca, 0xfe, 0xba, 0xbe]
}

fn request(cmd: Option<&str>, token: Option<String>, payload_json: &[u8]) -> IpcRequest {
    IpcRequest {
        cmd: cmd.map(|c| c.to_string()),
        auth_token: token,
        payload_json: payload_json.to_vec(),
        payload_magnet: None,
        payload_tid: None,
    }
}

#[test]
fn secret_is_decoded_from_hex() {
    assert_eq!(decode_secret(Some(SECRET_HEX)), Ok(secret()));
    assert_eq!(decode_secret(Some("DEADbeef")), Ok(vec![0xde, 0xad, 0xbe, 0xef]));
    assert_eq!(decode_secret(Some("")), Ok(vec![]));
}

#[test]
fn secret_errors() {
    assert_eq!(decode_secret(None), Err(SecretError::Missing));
    assert_eq!(decode_secret(Some("abc")), Err(SecretError::NotHex));
    assert_eq!(decode_secret(Some("zz")), Err(SecretError::NotHex));
    assert_eq!(decode_secret(Some("de ad")), Err(SecretError::NotHex));
}

#[test]
fn expected_token_is_hex_of_hmac_sha256() {
    // RFC 4231, test case 2.
    let token = expected_token(b"Jefe", b"what do ya want for nothing?");
    assert_eq!(
        token,
        "5bdcc146bf60754e6a042426089575c75a003f089d2739839dec58b964ec3843"
    );
    // RFC 4231, test case 1.
    let key = [0x0bu8; 20];
    assert_eq!(
        expected_token(&key, b"Hi There"),
        "b0344c61d8db38535ca8afceaf0bf12b881dc200c9833da726e9376c2e32cff7"
    );
}

#[test]
fn signed_request_is_accepted() {
    let payload = br#"{"magnet":"magnet:?xt=urn:btih:1234"}"#;
    let token = expected_token(&secret(), payload);
    assert_eq!(authenticate(&secret(), Some(token.as_str()), payload), Ok(()));
}

#[test]
fn unauthenticated_token_is_refused() {
    let payload = br#"{"magnet":"magnet:?xt=urn:btih:1234"}"#;
    let r = authenticate(&secret(), Some("badtoken"), payload);
    assert_eq!(r, Err(IpcError::Unauthenticated));
    assert_eq!(IpcError::Unauthenticated.message(), "unauthenticated");
    // A token for another payload does not sign this one.
    let other = expected_token(&secret(), b"{}");
    assert_eq!(
        authenticate(&secret(), Some(other.as_str()), payload),
        Err(IpcError::Unauthenticated)
    );
}

#[test]
fn missing_token_is_refused() {
    assert_eq!(authenticate(&secret(), None, b"null"), Err(IpcError::MissingAuthToken));
    assert_eq!(IpcError::MissingAuthToken.message(), "missing auth_token");
    assert_eq!(check_token(None, "x"), Err(IpcError::MissingAuthToken));
}

#[test]
fn check_token_compares_exactly() {
    assert_eq!(check_token(Some("abc"), "abc"), Ok(()));
    assert_eq!(check_token(Some("ABC"), "abc"), Err(IpcError::Unauthenticated));
    assert_eq!(check_token(Some("abc "), "abc"), Err(IpcError::Unauthenticated));
}

#[test]
fn commands_are_routed() {
    match route_command("create_magnet", Some("magnet:?xt=urn:btih:1234"), None) {
        Ok(IpcCommand::CreateMagnet(m)) => assert_eq!(m, "magnet:?xt=urn:btih:1234"),
        other => panic!("unexpected {:?}", other),
    }
    match route_command("create_magnet", None, Some(3)) {
        Ok(IpcCommand::CreateMagnet(m)) => assert_eq!(m, ""),
        other => panic!("unexpected {:?}", other),
    }
    match route_command("get_state", None, Some(42)) {
        Ok(IpcCommand::GetState(id)) => assert_eq!(id, 42),
        other => panic!("unexpected {:?}", other),
    }
    match route_command("get_state", Some("7"), None) {
        Ok(IpcCommand::GetState(id)) => assert_eq!(id, 0),
        other => panic!("unexpected {:?}", other),
    }
    assert!(matches!(route_command("stats", None, None), Err(IpcError::UnknownCommand)));
    assert_eq!(IpcError::UnknownCommand.message(), "unknown cmd");
}

#[test]
fn decide_request_checks_then_routes() {
    let payload = b"5";
    let token = expected_token(&secret(), payload);
    let mut req = request(Some("get_state"), Some(token.clone()), payload);
    req.payload_tid = Some(5);
    match decide_request(&req, &secret()) {
        Ok(IpcCommand::GetState(id)) => assert_eq!(id, 5),
        other => panic!("unexpected {:?}", other),
    }

    let unsigned = request(Some("get_state"), None, payload);
    assert!(matches!(decide_request(&unsigned, &secret()), Err(IpcError::MissingAuthToken)));

    let forged = request(Some("get_state"), Some("00".to_string()), payload);
    assert!(matches!(decide_request(&forged, &secret()), Err(IpcError::Unauthenticated)));

    let no_cmd = request(None, Some(token), payload);
    assert!(matches!(decide_request(&no_cmd, &secret()), Err(IpcError::UnknownCommand)));
}

#[test]
fn add_replies_become_ids_or_errors() {
    assert_eq!(create_magnet_outcome(AddTorrentReply::Added(9)), Ok(9));
    assert_eq!(
        create_magnet_outcome(AddTorrentReply::AlreadyManaged(9)),
        Err(IpcError::AddFailed)
    );
    assert_eq!(create_magnet_outcome(AddTorrentReply::ListOnly), Err(IpcError::AddFailed));
    assert_eq!(seed_magnet_outcome(AddTorrentReply::Added(3)), Ok(3));
    assert_eq!(seed_magnet_outcome(AddTorrentReply::ListOnly), Err(IpcError::SeedFailed));
    assert_eq!(IpcError::AddFailed.message(), "Failed to add torrent");
    assert_eq!(IpcError::SeedFailed.message(), "Failed to seed torrent");
    assert_eq!(IpcError::TorrentNotFound.message(), "Torrent not found");
    assert_eq!(IpcError::TorrentNotLive.message(), "Torrent is not live");
}

#[test]
fn secret_is_read_from_the_toml_file() {
    assert_eq!(secret_from_toml(b"secret = \"deadbeefcafebabe\"\n"), Ok(secret()));
    assert_eq!(secret_from_toml(b"other = 1\n"), Err(SecretError::Missing));
    assert_eq!(secret_from_toml(b"secret = 7\n"), Err(SecretError::Missing));
    assert_eq!(secret_from_toml(b"secret = \"xyz\"\n"), Err(SecretError::NotHex));
    assert_eq!(secret_from_toml(b"secret = = ="), Err(SecretError::NotToml));
}

#[test]
fn requests_are_read_from_json() {
    let body = br#"{"cmd":"create_magnet","payload":{"magnet":"magnet:?xt=urn:btih:1234"},"auth_token":"ab"}"#;
    let r = parse_request(body);
    assert_eq!(r.cmd.as_deref(), Some("create_magnet"));
    assert_eq!(r.auth_token.as_deref(), Some("ab"));
    assert_eq!(r.payload_json, br#"{"magnet":"magnet:?xt=urn:btih:1234"}"#.to_vec());
    assert_eq!(r.payload_magnet.as_deref(), Some("magnet:?xt=urn:btih:1234"));
    assert_eq!(r.payload_tid, None);

    let r = parse_request(br#"{"cmd":"get_state","payload":{"tid":17}}"#);
    assert_eq!(r.payload_tid, Some(17));
    assert_eq!(r.auth_token, None);
    assert_eq!(r.payload_json, br#"{"tid":17}"#.to_vec());

    let r = parse_request(b"not json");
    assert_eq!(r.cmd, None);
    assert_eq!(r.payload_json, b"null".to_vec());
    let r = parse_request(br#"{"cmd":5}"#);
    assert_eq!(r.cmd, None);
    assert_eq!(r.payload_json, b"null".to_vec());
}

#[test]
fn create_magnet_reads_the_magnet_member() {
    let payload = br#"{"magnet":"magnet:?xt=urn:btih:1234"}"#;
    let token = expected_token(&secret(), payload);
    let body = format!(
        r#"{{"cmd":"create_magnet","payload":{{"magnet":"magnet:?xt=urn:btih:1234"}},"auth_token":"{}"}}"#,
        token
    );
    match decide_request(&parse_request(body.as_bytes()), &secret()) {
        Ok(IpcCommand::CreateMagnet(m)) => assert_eq!(m, "magnet:?xt=urn:btih:1234"),
        other => panic!("unexpected {:?}", other),
    }
    let bad = br#"{"cmd":"create_magnet","payload":{"magnet":"magnet:?xt=urn:btih:1234"},"auth_token":"badtoken"}"#;
    assert!(matches!(decide_request(&parse_request(bad), &secret()), Err(IpcError::Unauthenticated)));
    assert_eq!(error_reply(IpcError::Unauthenticated), r#"{"error":"unauthenticated"}"#);
}

#[test]
fn get_state_reads_the_tid_member() {
    let payload = br#"{"tid":3}"#;
    let token = expected_token(&secret(), payload);
    let body = format!(r#"{{"cmd":"get_state","payload":{{"tid":3}},"auth_token":"{}"}}"#, token);
    match decide_request(&parse_request(body.as_bytes()), &secret()) {
        Ok(IpcCommand::GetState(id)) => assert_eq!(id, 3),
        other => panic!("unexpected {:?}", other),
    }
}

#[test]
fn replies() {
    assert_eq!(tid_reply(42), r#"{"tid":42}"#);
    assert_eq!(error_reply(IpcError::MissingAuthToken), r#"{"error":"missing auth_token"}"#);
    assert_eq!(error_reply(IpcError::UnknownCommand), r#"{"error":"unknown cmd"}"#);
}

#[test]
fn deeply_nested_secrets_file_is_refused() {
    let mut doc = b"secret = ".to_vec();
    doc.extend(std::iter::repeat(b'[').take(1001));
    assert_eq!(secret_from_toml(&doc), Err(SecretError::TooNested));
    let mut dotted = b"a".to_vec();
    for _ in 0..1001 {
        dotted.extend_from_slice(b".a");
    }
    dotted.extend_from_slice(b" = 1\nsecret = \"00\"\n");
    assert_eq!(secret_from_toml(&dotted), Err(SecretError::TooNested));
    let shallow = b"[ipc]\nx = [[1], [2]]\n";
    assert_eq!(secret_from_toml(shallow), Err(SecretError::Missing));
}
