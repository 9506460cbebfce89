//! The per-client connection state machine: hello/login handshake with
//! challenge-response password check, then the operational relay. The
//! surrounding task performs the socket and channel work; this module
//! decides every transition.

use vstd::prelude::*;
use crate::frame::{Frame, FrameKind, response_meta_for};
use crate::value::{Value, RpcError, RpcErrorCode, value_bytes, value_to_bytes, value_map_get,
    spec_as_map_get, assoc_get};
use crate::broker::{ClientEvent, response_head_ok};
use crate::crypto::{sha1_of, sha1_hash};
use crate::nonce::{is_nonce, gen_nonce};
use crate::words::{w_hello, w_login, w_user, w_password, w_login_type, w_plain, w_options,
    w_device, w_device_id, w_mount_point, w_nonce_key, w_client_id_key, w_msg_hello_expected,
    w_msg_login_expected, w_msg_invalid_login, hello_bytes, login_bytes, user_bytes,
    password_bytes, login_type_bytes, plain_bytes, options_bytes, device_bytes, device_id_bytes,
    mount_point_bytes, nonce_key_bytes, client_id_key_bytes, msg_hello_expected_bytes,
    msg_login_expected_bytes, msg_invalid_login_bytes};

verus! {

/// Where a client connection stands.
pub enum ClientState {
    AwaitHello,
    AwaitLogin { nonce: Vec<u8> },
    AwaitPassword {
        resp: Frame,
        password: Vec<u8>,
        login_type: Vec<u8>,
        nonce: Vec<u8>,
        device_id: Option<Vec<u8>>,
        mount_point: Option<Vec<u8>>,
    },
    Operational,
    Closed,
}

/// What the connection observes: a frame from the socket, the stored
/// password digest from the broker, or end of stream.
pub enum ClientInput {
    Frame(Frame),
    PasswordSha1(Vec<u8>),
    Eof,
}

/// What the surrounding task must do after a step, in order.
pub enum ClientAction {
    SendMessage(Frame),
    ToBroker(ClientEvent),
    Close,
}

/// The password check: `PLAIN` compares the digest of the presented
/// password with the stored digest; the challenge form compares the
/// presented bytes with the digest of nonce and stored digest.
pub open spec fn login_ok(login_type: Seq<u8>, password: Seq<u8>, nonce: Seq<u8>, stored: Seq<u8>) -> bool {
    if login_type == w_plain() {
        sha1_of(password) == stored
    } else {
        password == sha1_of(nonce + stored)
    }
}

/// Decides a login attempt against the stored password digest.
pub fn check_login(login_type: &[u8], password: &[u8], nonce: &[u8], stored: &[u8]) -> (r: bool)
    ensures
        r == login_ok(login_type@, password@, nonce@, stored@),
{
    if crate::bytes::bytes_eq(login_type, plain_bytes().as_slice()) {
        let client_sha = sha1_hash(password);
        crate::bytes::bytes_eq(client_sha.as_slice(), stored)
    } else {
        let data = crate::bytes::concat_bytes(nonce, stored);
        let expected = sha1_hash(data.as_slice());
        crate::bytes::bytes_eq(password, expected.as_slice())
    }
}

/// The field `key` of the `login` map of the frame's parameters.
pub open spec fn login_field(f: Frame, key: Seq<u8>) -> Option<Value> {
    match f.param {
        Some(p) => match spec_as_map_get(p, w_login()) {
            Some(lv) => spec_as_map_get(lv, key),
            None => None,
        },
        None => None,
    }
}

/// The login type named in the frame, empty when absent.
pub open spec fn login_type_of(f: Frame) -> Seq<u8> {
    match login_field(f, w_login_type()) {
        Some(v) => value_bytes(v),
        None => Seq::empty(),
    }
}

/// The `options.device` map of the frame's parameters.
pub open spec fn device_options_of(f: Frame) -> Option<Value> {
    match f.param {
        Some(p) => match spec_as_map_get(p, w_options()) {
            Some(ov) => spec_as_map_get(ov, w_device()),
            None => None,
        },
        None => None,
    }
}

/// The field `key` of the `options.device` map, as bytes.
pub open spec fn device_field_of(f: Frame, key: Seq<u8>) -> Option<Seq<u8>> {
    match device_options_of(f) {
        Some(dv) => match spec_as_map_get(dv, key) {
            Some(v) => Some(value_bytes(v)),
            None => None,
        },
        None => None,
    }
}

/// A login frame carries all the fields the handshake needs.
pub open spec fn login_parse_ok(f: Frame) -> bool {
    &&& f.param is Some
    &&& login_field(f, w_user()) is Some
    &&& login_field(f, w_password()) is Some
}

/// The bytes behind an optional byte vector.
pub open spec fn opt_bytes(o: Option<Vec<u8>>) -> Option<Seq<u8>> {
    match o {
        Some(v) => Some(v@),
        None => None,
    }
}

/// `m` answers request `f` with an error of the given message.
pub open spec fn error_response_for(f: Frame, msg: Seq<u8>, m: Frame) -> bool {
    &&& response_head_ok(f, m)
    &&& m.result is None
    &&& m.error matches Some(e)
    &&& e.code == RpcErrorCode::MethodCallException
    &&& e.message@ == msg
}

/// `m` is the response metadata `resp` with an error of the given
/// message filled in.
pub open spec fn error_set_on(resp: Frame, msg: Seq<u8>, m: Frame) -> bool {
    &&& m.kind == resp.kind
    &&& m.request_id == resp.request_id
    &&& m.caller_ids@ == resp.caller_ids@
    &&& m.result is None
    &&& m.error matches Some(e)
    &&& e.code == RpcErrorCode::MethodCallException
    &&& e.message@ == msg
}

/// `m` answers request `f` with the result `{ "nonce": n }`.
pub open spec fn nonce_response_for(f: Frame, n: Seq<u8>, m: Frame) -> bool {
    &&& response_head_ok(f, m)
    &&& m.error is None
    &&& m.result matches Some(v)
    &&& v matches Value::Dict(entries)
    &&& entries@.len() == 1
    &&& assoc_get(entries@, w_nonce_key()) matches Some(nv)
    &&& nv matches Value::Bytes(nb)
    &&& nb@ == n
}

/// `m` is the response metadata `resp` with the result
/// `{ "clientId": cid }` filled in.
pub open spec fn client_id_response_on(resp: Frame, cid: i32, m: Frame) -> bool {
    &&& m.kind == resp.kind
    &&& m.request_id == resp.request_id
    &&& m.caller_ids@ == resp.caller_ids@
    &&& m.error is None
    &&& m.result matches Some(v)
    &&& v matches Value::Dict(entries)
    &&& entries@.len() == 1
    &&& assoc_get(entries@, w_client_id_key()) matches Some(iv)
    &&& iv matches Value::Int(x)
    &&& x == cid as i64
}

/// The connection winds down: the broker learns the client is gone and
/// the socket closes.
pub open spec fn gone_post(cid: i32, post: ClientState, actions: Seq<ClientAction>) -> bool {
    &&& post is Closed
    &&& actions.len() == 2
    &&& actions[0] matches ClientAction::ToBroker(ev)
    &&& ev matches ClientEvent::ClientGone { client_id }
    &&& client_id == cid
    &&& actions[1] is Close
}

/// The connection fails the handshake: one error response for `f`, then
/// the wind-down.
pub open spec fn error_close_post(cid: i32, f: Frame, msg: Seq<u8>, post: ClientState, actions: Seq<ClientAction>) -> bool {
    &&& post is Closed
    &&& actions.len() == 3
    &&& actions[0] matches ClientAction::SendMessage(m)
    &&& error_response_for(f, msg, m)
    &&& actions[1] matches ClientAction::ToBroker(ev)
    &&& ev matches ClientEvent::ClientGone { client_id }
    &&& client_id == cid
    &&& actions[2] is Close
}

/// A frame in `AwaitHello`: a proper `hello` request is answered with a
/// fresh nonce; a frame without a request id is a transient fault and is
/// retried; anything else ends the handshake with an error.
pub open spec fn await_hello_frame_post(cid: i32, f: Frame, post: ClientState, actions: Seq<ClientAction>) -> bool {
    if f.request_id is None {
        post is AwaitHello && actions.len() == 0
    } else if f.kind == FrameKind::Request && f.method@ == w_hello() {
        &&& post matches ClientState::AwaitLogin { nonce }
        &&& is_nonce(nonce@)
        &&& actions.len() == 1
        &&& actions[0] matches ClientAction::SendMessage(m)
        &&& nonce_response_for(f, nonce@, m)
    } else {
        error_close_post(cid, f, w_msg_hello_expected(), post, actions)
    }
}

/// A frame in `AwaitLogin`: a well-formed `login` request asks the broker
/// for the stored password; a malformed one restarts the handshake; a
/// wrong method ends it with an error.
pub open spec fn await_login_frame_post(cid: i32, pre_nonce: Seq<u8>, f: Frame, post: ClientState, actions: Seq<ClientAction>) -> bool {
    if f.request_id is None {
        post is AwaitHello && actions.len() == 0
    } else if f.kind == FrameKind::Request && f.method@ == w_login() {
        if login_parse_ok(f) {
            &&& post matches ClientState::AwaitPassword { resp, password, login_type, nonce, device_id, mount_point }
            &&& response_meta_for(f, resp)
            &&& login_field(f, w_password()) matches Some(pv)
            &&& password@ == value_bytes(pv)
            &&& login_type@ == login_type_of(f)
            &&& nonce@ == pre_nonce
            &&& opt_bytes(device_id) == device_field_of(f, w_device_id())
            &&& opt_bytes(mount_point) == device_field_of(f, w_mount_point())
            &&& actions.len() == 1
            &&& actions[0] matches ClientAction::ToBroker(ev)
            &&& ev matches ClientEvent::GetPassword { client_id, user }
            &&& client_id == cid
            &&& login_field(f, w_user()) matches Some(uv)
            &&& user@ == value_bytes(uv)
        } else {
            post is AwaitHello && actions.len() == 0
        }
    } else {
        error_close_post(cid, f, w_msg_login_expected(), post, actions)
    }
}

/// The stored digest arrives in `AwaitPassword`: on a correct password
/// the client is confirmed and registered; otherwise the handshake ends
/// with the fixed error.
pub open spec fn await_password_post(cid: i32, resp: Frame, password: Seq<u8>, login_type: Seq<u8>, nonce: Seq<u8>, device_id: Option<Vec<u8>>, mount_point: Option<Vec<u8>>, stored: Seq<u8>, post: ClientState, actions: Seq<ClientAction>) -> bool {
    if login_ok(login_type, password, nonce, stored) {
        &&& post is Operational
        &&& actions.len() == 2
        &&& actions[0] matches ClientAction::SendMessage(m)
        &&& client_id_response_on(resp, cid, m)
        &&& actions[1] matches ClientAction::ToBroker(ev)
        &&& ev matches ClientEvent::RegisterDevice { client_id, device_id: d2, mount_point: mp2 }
        &&& client_id == cid
        &&& opt_bytes(d2) == opt_bytes(device_id)
        &&& opt_bytes(mp2) == opt_bytes(mount_point)
    } else {
        &&& post is Closed
        &&& actions.len() == 3
        &&& actions[0] matches ClientAction::SendMessage(m)
        &&& error_set_on(resp, w_msg_invalid_login(), m)
        &&& actions[1] matches ClientAction::ToBroker(ev)
        &&& ev matches ClientEvent::ClientGone { client_id }
        &&& client_id == cid
        &&& actions[2] is Close
    }
}

/// A frame in `Operational` is handed to the broker unchanged.
pub open spec fn operational_frame_post(cid: i32, f: Frame, post: ClientState, actions: Seq<ClientAction>) -> bool {
    &&& post is Operational
    &&& actions.len() == 1
    &&& actions[0] matches ClientAction::ToBroker(ev)
    &&& ev matches ClientEvent::Frame { client_id, frame }
    &&& client_id == cid
    &&& frame == f
}

/// Starting a connection: the broker learns of the new client and the
/// handshake awaits `hello`.
pub fn client_start(client_id: i32) -> (r: (ClientState, Vec<ClientAction>))
    ensures
        r.0 is AwaitHello,
        r.1@.len() == 1,
        r.1@[0] matches ClientAction::ToBroker(ev)
            && ev matches ClientEvent::NewClient { client_id: c } && c == client_id,
{
    let mut actions: Vec<ClientAction> = Vec::new();
    actions.push(ClientAction::ToBroker(ClientEvent::NewClient { client_id }));
    (ClientState::AwaitHello, actions)
}

/// One step of the connection state machine: from the current state and
/// one input to the next state and the actions the task must perform.
pub fn client_step(client_id: i32, state: ClientState, input: ClientInput) -> (r: (ClientState, Vec<ClientAction>))
    requires
        !(state is Closed),
        (state is AwaitPassword) <==> (input is PasswordSha1),
    ensures
        state is AwaitHello ==> (input matches ClientInput::Frame(f)
            ==> await_hello_frame_post(client_id, f, r.0, r.1@)),
        state is AwaitHello ==> (input is Eof ==> gone_post(client_id, r.0, r.1@)),
        state matches ClientState::AwaitLogin { nonce } ==> (input matches ClientInput::Frame(f)
            ==> await_login_frame_post(client_id, nonce@, f, r.0, r.1@)),
        state is AwaitLogin ==> (input is Eof ==> gone_post(client_id, r.0, r.1@)),
        state matches ClientState::AwaitPassword { resp, password, login_type, nonce, device_id, mount_point }
            ==> (input matches ClientInput::PasswordSha1(stored)
                ==> await_password_post(client_id, resp, password@, login_type@, nonce@,
                        device_id, mount_point, stored@, r.0, r.1@)),
        state is Operational ==> (input matches ClientInput::Frame(f)
            ==> operational_frame_post(client_id, f, r.0, r.1@)),
        state is Operational ==> (input is Eof ==> gone_post(client_id, r.0, r.1@)),
{
    let mut actions: Vec<ClientAction> = Vec::new();
    match state {
        ClientState::AwaitHello => {
            match input {
                ClientInput::Frame(f) => {
                    let resp0 = f.prepare_response_meta();
                    match resp0 {
                        None => (ClientState::AwaitHello, actions),
                        Some(mut m) => {
                            if f.is_request() && crate::bytes::bytes_eq(f.method.as_slice(), hello_bytes().as_slice()) {
                                let n = gen_nonce();
                                let n2 = crate::bytes::copy_bytes(n.as_slice());
                                let mut entries: Vec<(Vec<u8>, Value)> = Vec::new();
                                entries.push((nonce_key_bytes(), Value::Bytes(n2)));
                                assert(assoc_get(entries@, w_nonce_key()) == Some(entries@[0].1));
                                m.set_result(Value::Dict(entries));
                                actions.push(ClientAction::SendMessage(m));
                                assert(actions@[0] == ClientAction::SendMessage(m));
                                (ClientState::AwaitLogin { nonce: n }, actions)
                            } else {
                                m.set_error(RpcError {
                                    code: RpcErrorCode::MethodCallException,
                                    message: msg_hello_expected_bytes(),
                                });
                                actions.push(ClientAction::SendMessage(m));
                                actions.push(ClientAction::ToBroker(ClientEvent::ClientGone { client_id }));
                                actions.push(ClientAction::Close);
                                (ClientState::Closed, actions)
                            }
                        }
                    }
                }
                ClientInput::Eof => {
                    actions.push(ClientAction::ToBroker(ClientEvent::ClientGone { client_id }));
                    actions.push(ClientAction::Close);
                    (ClientState::Closed, actions)
                }
                ClientInput::PasswordSha1(_) => {
                    (ClientState::AwaitHello, actions)
                }
            }
        }
        ClientState::AwaitLogin { nonce } => {
            match input {
                ClientInput::Frame(f) => {
                    let resp0 = f.prepare_response_meta();
                    match resp0 {
                        None => (ClientState::AwaitHello, actions),
                        Some(mut m) => {
                            if f.is_request() && crate::bytes::bytes_eq(f.method.as_slice(), login_bytes().as_slice()) {
                                let parsed = parse_login(&f);
                                match parsed {
                                    Some((user, password, login_type, device_id, mount_point)) => {
                                        actions.push(ClientAction::ToBroker(ClientEvent::GetPassword { client_id, user }));
                                        (ClientState::AwaitPassword {
                                            resp: m,
                                            password,
                                            login_type,
                                            nonce,
                                            device_id,
                                            mount_point,
                                        }, actions)
                                    }
                                    None => (ClientState::AwaitHello, actions),
                                }
                            } else {
                                m.set_error(RpcError {
                                    code: RpcErrorCode::MethodCallException,
                                    message: msg_login_expected_bytes(),
                                });
                                actions.push(ClientAction::SendMessage(m));
                                actions.push(ClientAction::ToBroker(ClientEvent::ClientGone { client_id }));
                                actions.push(ClientAction::Close);
                                (ClientState::Closed, actions)
                            }
                        }
                    }
                }
                ClientInput::Eof => {
                    actions.push(ClientAction::ToBroker(ClientEvent::ClientGone { client_id }));
                    actions.push(ClientAction::Close);
                    (ClientState::Closed, actions)
                }
                ClientInput::PasswordSha1(_) => {
                    (ClientState::AwaitHello, actions)
                }
            }
        }
        ClientState::AwaitPassword { resp, password, login_type, nonce, device_id, mount_point } => {
            match input {
                ClientInput::PasswordSha1(stored) => {
                    if check_login(login_type.as_slice(), password.as_slice(), nonce.as_slice(), stored.as_slice()) {
                        let mut m = copy_response_meta(&resp);
                        let mut entries: Vec<(Vec<u8>, Value)> = Vec::new();
                        entries.push((client_id_key_bytes(), Value::Int(client_id as i64)));
                        assert(assoc_get(entries@, w_client_id_key()) == Some(entries@[0].1));
                        m.set_result(Value::Dict(entries));
                        actions.push(ClientAction::SendMessage(m));
                        actions.push(ClientAction::ToBroker(ClientEvent::RegisterDevice {
                            client_id,
                            device_id,
                            mount_point,
                        }));
                        (ClientState::Operational, actions)
                    } else {
                        let mut m = copy_response_meta(&resp);
                        m.set_error(RpcError {
                            code: RpcErrorCode::MethodCallException,
                            message: msg_invalid_login_bytes(),
                        });
                        actions.push(ClientAction::SendMessage(m));
                        actions.push(ClientAction::ToBroker(ClientEvent::ClientGone { client_id }));
                        actions.push(ClientAction::Close);
                        (ClientState::Closed, actions)
                    }
                }
                _ => (ClientState::Closed, actions),
            }
        }
        ClientState::Operational => {
            match input {
                ClientInput::Frame(f) => {
                    actions.push(ClientAction::ToBroker(ClientEvent::Frame { client_id, frame: f }));
                    (ClientState::Operational, actions)
                }
                ClientInput::Eof => {
                    actions.push(ClientAction::ToBroker(ClientEvent::ClientGone { client_id }));
                    actions.push(ClientAction::Close);
                    (ClientState::Closed, actions)
                }
                ClientInput::PasswordSha1(_) => {
                    (ClientState::Operational, actions)
                }
            }
        }
        ClientState::Closed => {
            (ClientState::Closed, actions)
        }
    }
}

/// Pulls user, password, login type and the optional device fields out of
/// a login request's parameters; nothing when a required field is absent.
fn parse_login(f: &Frame) -> (r: Option<(Vec<u8>, Vec<u8>, Vec<u8>, Option<Vec<u8>>, Option<Vec<u8>>)>)
    ensures
        match r {
            Some((user, password, login_type, device_id, mount_point)) => {
                &&& login_parse_ok(*f)
                &&& login_field(*f, w_user()) matches Some(uv)
                &&& user@ == value_bytes(uv)
                &&& login_field(*f, w_password()) matches Some(pv)
                &&& password@ == value_bytes(pv)
                &&& login_type@ == login_type_of(*f)
                &&& opt_bytes(device_id) == device_field_of(*f, w_device_id())
                &&& opt_bytes(mount_point) == device_field_of(*f, w_mount_point())
            },
            None => !login_parse_ok(*f),
        },
{
    match &f.param {
        None => None,
        Some(p) => {
            match value_map_get(p, login_bytes().as_slice()) {
                None => None,
                Some(lv) => {
                    let uopt = value_map_get(lv, user_bytes().as_slice());
                    let popt = value_map_get(lv, password_bytes().as_slice());
                    match (uopt, popt) {
                        (Some(uv), Some(pv)) => {
                            let user = value_to_bytes(uv);
                            let password = value_to_bytes(pv);
                            let login_type = match value_map_get(lv, login_type_bytes().as_slice()) {
                                Some(tv) => value_to_bytes(tv),
                                None => Vec::new(),
                            };
                            let devopt = match value_map_get(p, options_bytes().as_slice()) {
                                Some(ov) => value_map_get(ov, device_bytes().as_slice()),
                                None => None,
                            };
                            let (device_id, mount_point) = match devopt {
                                Some(dv) => {
                                    let d = match value_map_get(dv, device_id_bytes().as_slice()) {
                                        Some(v) => Some(value_to_bytes(v)),
                                        None => None,
                                    };
                                    let mp = match value_map_get(dv, mount_point_bytes().as_slice()) {
                                        Some(v) => Some(value_to_bytes(v)),
                                        None => None,
                                    };
                                    (d, mp)
                                }
                                None => (None, None),
                            };
                            Some((user, password, login_type, device_id, mount_point))
                        }
                        _ => None,
                    }
                }
            }
        }
    }
}

/// A fresh frame holding the same metadata as a prepared response.
fn copy_response_meta(resp: &Frame) -> (r: Frame)
    ensures
        r.kind == resp.kind,
        r.request_id == resp.request_id,
        r.caller_ids@ == resp.caller_ids@,
        r.result is None,
        r.error is None,
        r.shv_path@ == resp.shv_path@,
        r.method@ == resp.method@,
        r.param is None,
{
    Frame {
        kind: resp.kind,
        request_id: resp.request_id,
        shv_path: crate::bytes::copy_bytes(resp.shv_path.as_slice()),
        method: crate::bytes::copy_bytes(resp.method.as_slice()),
        caller_ids: crate::frame::copy_caller_ids(&resp.caller_ids),
        param: None,
        result: None,
        error: None,
    }
}

} // verus!
