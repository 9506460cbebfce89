use shvbroker::client::{client_start, client_step, check_login, ClientState, ClientInput, ClientAction};
use shvbroker::broker::ClientEvent;
use shvbroker::frame::{Frame, FrameKind};
use shvbroker::value::{Value, RpcErrorCode};
use sha1::Digest;

fn request(method: &[u8], rid: i64, param: Option<Value>) -> Frame {
    Frame::new_request(Vec::new(), method.to_vec(), rid, param)
}

fn login_param(user: &[u8], password: &[u8], login_type: &[u8]) -> Value {
    let login = Value::Dict(vec![
        (b"user".to_vec(), Value::Bytes(user.to_vec())),
        (b"password".to_vec(), Value::Bytes(password.to_vec())),
        (b"type".to_vec(), Value::Bytes(login_type.to_vec())),
    ]);
    Value::Dict(vec![(b"login".to_vec(), login)])
}

fn login_param_with_device(user: &[u8], password: &[u8], login_type: &[u8], device_id: &[u8]) -> Value {
    let login = Value::Dict(vec![
        (b"user".to_vec(), Value::Bytes(user.to_vec())),
        (b"password".to_vec(), Value::Bytes(password.to_vec())),
        (b"type".to_vec(), Value::Bytes(login_type.to_vec())),
    ]);
    let device = Value::Dict(vec![(b"deviceId".to_vec(), Value::Bytes(device_id.to_vec()))]);
    let options = Value::Dict(vec![(b"device".to_vec(), device)]);
    Value::Dict(vec![(b"login".to_vec(), login), (b"options".to_vec(), options)])
}

fn run_hello(client_id: i32) -> (ClientState, Vec<u8>) {
    let (state, actions) = client_start(client_id);
    assert_eq!(actions.len(), 1);
    assert!(matches!(
        actions[0],
        ClientAction::ToBroker(ClientEvent::NewClient { client_id: c }) if c == client_id
    ));
    let (state, actions) = client_step(client_id, state, ClientInput::Frame(request(b"hello", 1, None)));
    let nonce = match &state {
        ClientState::AwaitLogin { nonce } => nonce.clone(),
        _ => panic!("expected the login wait state"),
    };
    assert_eq!(actions.len(), 1);
    match &actions[0] {
        ClientAction::SendMessage(m) => {
            assert_eq!(m.kind, FrameKind::Response);
            assert_eq!(m.request_id, Some(1));
            match &m.result {
                Some(Value::Dict(entries)) => {
                    assert_eq!(entries.len(), 1);
                    assert_eq!(entries[0].0, b"nonce".to_vec());
                    match &entries[0].1 {
                        Value::Bytes(n) => assert_eq!(n, &nonce),
                        _ => panic!("expected the nonce bytes"),
                    }
                }
                _ => panic!("expected a nonce map"),
            }
        }
        _ => panic!("expected the nonce response"),
    }
    (state, nonce)
}

#[test]
fn nonce_is_sixteen_alphanumeric_bytes() {
    let (_state, nonce) = run_hello(5);
    assert_eq!(nonce.len(), 16);
    for b in nonce {
        assert!(b.is_ascii_alphanumeric());
    }
}

#[test]
fn plain_login_success_yields_client_id_and_operational() {
    let client_id = 7;
    let (state, _nonce) = run_hello(client_id);
    let param = login_param(b"u", b"u", b"PLAIN");
    let (state, actions) = client_step(client_id, state, ClientInput::Frame(request(b"login", 2, Some(param))));
    assert!(matches!(state, ClientState::AwaitPassword { .. }));
    assert_eq!(actions.len(), 1);
    match &actions[0] {
        ClientAction::ToBroker(ClientEvent::GetPassword { client_id: c, user }) => {
            assert_eq!(*c, client_id);
            assert_eq!(user, &b"u".to_vec());
        }
        _ => panic!("expected the password request"),
    }
    let stored = sha1::Sha1::digest(b"u").to_vec();
    let (state, actions) = client_step(client_id, state, ClientInput::PasswordSha1(stored));
    assert!(matches!(state, ClientState::Operational));
    assert_eq!(actions.len(), 2);
    match &actions[0] {
        ClientAction::SendMessage(m) => {
            assert_eq!(m.request_id, Some(2));
            assert!(m.error.is_none());
            match &m.result {
                Some(Value::Dict(entries)) => {
                    assert_eq!(entries.len(), 1);
                    assert_eq!(entries[0].0, b"clientId".to_vec());
                    assert!(matches!(entries[0].1, Value::Int(x) if x == client_id as i64));
                }
                _ => panic!("expected the client id map"),
            }
        }
        _ => panic!("expected the confirmation"),
    }
    assert!(matches!(
        actions[1],
        ClientAction::ToBroker(ClientEvent::RegisterDevice { client_id: c, .. }) if c == client_id
    ));
}

#[test]
fn plain_login_with_empty_password_fails() {
    let client_id = 3;
    let (state, _nonce) = run_hello(client_id);
    let param = login_param(b"u", b"", b"PLAIN");
    let (state, _actions) = client_step(client_id, state, ClientInput::Frame(request(b"login", 2, Some(param))));
    let stored = sha1::Sha1::digest(b"u").to_vec();
    let (state, actions) = client_step(client_id, state, ClientInput::PasswordSha1(stored));
    assert!(matches!(state, ClientState::Closed));
    assert_eq!(actions.len(), 3);
    match &actions[0] {
        ClientAction::SendMessage(m) => match &m.error {
            Some(e) => {
                assert_eq!(e.code, RpcErrorCode::MethodCallException);
                assert_eq!(e.message, b"Invalid login credentials received.".to_vec());
            }
            None => panic!("expected the fixed error"),
        },
        _ => panic!("expected the error response"),
    }
    assert!(matches!(
        actions[1],
        ClientAction::ToBroker(ClientEvent::ClientGone { client_id: c }) if c == client_id
    ));
    assert!(matches!(actions[2], ClientAction::Close));
}

#[test]
fn device_login_carries_device_id_to_registration() {
    let client_id = 9;
    let (state, _nonce) = run_hello(client_id);
    let param = login_param_with_device(b"u", b"u", b"PLAIN", b"d1");
    let (state, _actions) = client_step(client_id, state, ClientInput::Frame(request(b"login", 2, Some(param))));
    let stored = sha1::Sha1::digest(b"u").to_vec();
    let (_state, actions) = client_step(client_id, state, ClientInput::PasswordSha1(stored));
    match &actions[1] {
        ClientAction::ToBroker(ClientEvent::RegisterDevice { device_id, mount_point, .. }) => {
            assert_eq!(device_id.as_deref(), Some(b"d1".as_slice()));
            assert!(mount_point.is_none());
        }
        _ => panic!("expected the device registration"),
    }
}

#[test]
fn wrong_first_method_closes_with_hello_expected() {
    let client_id = 4;
    let (state, _actions) = client_start(client_id);
    let (state, actions) = client_step(client_id, state, ClientInput::Frame(request(b"login", 1, None)));
    assert!(matches!(state, ClientState::Closed));
    assert_eq!(actions.len(), 3);
    match &actions[0] {
        ClientAction::SendMessage(m) => match &m.error {
            Some(e) => assert_eq!(e.message, b"hello message expected.".to_vec()),
            None => panic!("expected the fixed error"),
        },
        _ => panic!("expected the error response"),
    }
}

#[test]
fn wrong_second_method_closes_with_login_expected() {
    let client_id = 4;
    let (state, _nonce) = run_hello(client_id);
    let (state, actions) = client_step(client_id, state, ClientInput::Frame(request(b"get", 2, None)));
    assert!(matches!(state, ClientState::Closed));
    match &actions[0] {
        ClientAction::SendMessage(m) => match &m.error {
            Some(e) => assert_eq!(e.message, b"login message expected.".to_vec()),
            None => panic!("expected the fixed error"),
        },
        _ => panic!("expected the error response"),
    }
}

#[test]
fn malformed_login_params_restart_the_handshake() {
    let client_id = 4;
    let (state, _nonce) = run_hello(client_id);
    let param = Value::Dict(vec![(b"login".to_vec(), Value::Dict(vec![]))]);
    let (state, actions) = client_step(client_id, state, ClientInput::Frame(request(b"login", 2, Some(param))));
    assert!(matches!(state, ClientState::AwaitHello));
    assert!(actions.is_empty());
}

#[test]
fn eof_emits_client_gone_once() {
    let client_id = 6;
    let (state, _actions) = client_start(client_id);
    let (state, actions) = client_step(client_id, state, ClientInput::Eof);
    assert!(matches!(state, ClientState::Closed));
    assert_eq!(actions.len(), 2);
    assert!(matches!(
        actions[0],
        ClientAction::ToBroker(ClientEvent::ClientGone { client_id: c }) if c == client_id
    ));
    assert!(matches!(actions[1], ClientAction::Close));
}

#[test]
fn sha_login_succeeds_only_on_exact_digest() {
    let stored = sha1::Sha1::digest(b"secret").to_vec();
    let nonce = b"0123456789abcdef".to_vec();
    let mut data = nonce.clone();
    data.extend_from_slice(&stored);
    let good = sha1::Sha1::digest(&data).to_vec();
    assert!(check_login(b"SHA", &good, &nonce, &stored));

    let mut bad_password = good.clone();
    bad_password[0] ^= 1;
    assert!(!check_login(b"SHA", &bad_password, &nonce, &stored));

    let mut bad_nonce = nonce.clone();
    bad_nonce[3] ^= 1;
    assert!(!check_login(b"SHA", &good, &bad_nonce, &stored));

    let mut bad_stored = stored.clone();
    bad_stored[19] ^= 1;
    assert!(!check_login(b"SHA", &good, &nonce, &bad_stored));
}

#[test]
fn plain_login_compares_digest_of_password() {
    let stored = sha1::Sha1::digest(b"pw").to_vec();
    assert!(check_login(b"PLAIN", b"pw", b"whatever-nonce-ok", &stored));
    assert!(!check_login(b"PLAIN", b"pW", b"whatever-nonce-ok", &stored));
}

#[test]
fn operational_frames_are_forwarded_to_broker() {
    let client_id = 8;
    let (state, _nonce) = run_hello(client_id);
    let param = login_param(b"u", b"u", b"PLAIN");
    let (state, _a) = client_step(client_id, state, ClientInput::Frame(request(b"login", 2, Some(param))));
    let stored = sha1::Sha1::digest(b"u").to_vec();
    let (state, _a) = client_step(client_id, state, ClientInput::PasswordSha1(stored));
    assert!(matches!(state, ClientState::Operational));
    let f = Frame::new_request(b"test/dev".to_vec(), b"get".to_vec(), 3, None);
    let (state, actions) = client_step(client_id, state, ClientInput::Frame(f));
    assert!(matches!(state, ClientState::Operational));
    assert_eq!(actions.len(), 1);
    match &actions[0] {
        ClientAction::ToBroker(ClientEvent::Frame { client_id: c, frame }) => {
            assert_eq!(*c, client_id);
            assert_eq!(frame.shv_path, b"test/dev".to_vec());
        }
        _ => panic!("expected the frame to go to the broker"),
    }
}

#[test]
fn missing_login_type_uses_challenge_scheme() {
    let stored = sha1::Sha1::digest(b"u").to_vec();
    let nonce = b"abcdefghijklmnop".to_vec();
    let mut data = nonce.clone();
    data.extend_from_slice(&stored);
    let challenge = sha1::Sha1::digest(&data).to_vec();
    // an absent type is not PLAIN: the challenge comparison applies
    assert!(check_login(b"", &challenge, &nonce, &stored));
    assert!(!check_login(b"", b"u", &nonce, &stored));
}
