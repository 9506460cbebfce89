use shvbroker::broker::{Broker, ClientEvent, PeerEvent};
use shvbroker::frame::{Frame, FrameKind};
use shvbroker::value::{Value, RpcErrorCode};
use sha1::Digest;

fn request(path: &[u8], method: &[u8], rid: i64) -> Frame {
    Frame::new_request(path.to_vec(), method.to_vec(), rid, None)
}

fn broker_with_peers(ids: &[i32]) -> Broker {
    let mut b = Broker::new();
    for id in ids {
        let out = b.process_event(ClientEvent::NewClient { client_id: *id });
        assert!(out.is_empty());
    }
    b
}

#[test]
fn request_to_device_rewrites_path_and_pushes_caller() {
    let mut b = broker_with_peers(&[1, 2]);
    b.process_event(ClientEvent::RegisterDevice {
        client_id: 2,
        device_id: None,
        mount_point: Some(b"test/dev".to_vec()),
    });
    let out = b.process_event(ClientEvent::Frame {
        client_id: 1,
        frame: request(b"test/dev/sub", b"get", 7),
    });
    assert_eq!(out.len(), 1);
    let (dest, ev) = &out[0];
    assert_eq!(*dest, 2);
    match ev {
        PeerEvent::Frame(g) => {
            assert_eq!(g.shv_path, b"sub".to_vec());
            assert_eq!(g.caller_ids, vec![1]);
            assert_eq!(g.request_id, Some(7));
            assert_eq!(g.method, b"get".to_vec());
        }
        _ => panic!("expected a forwarded frame"),
    }
}

#[test]
fn response_routes_back_by_caller_id_stack() {
    let mut b = broker_with_peers(&[1, 2]);
    let resp = Frame {
        kind: FrameKind::Response,
        request_id: Some(7),
        shv_path: Vec::new(),
        method: Vec::new(),
        caller_ids: vec![1],
        param: None,
        result: Some(Value::Int(42)),
        error: None,
    };
    let out = b.process_event(ClientEvent::Frame { client_id: 2, frame: resp });
    assert_eq!(out.len(), 1);
    let (dest, ev) = &out[0];
    assert_eq!(*dest, 1);
    match ev {
        PeerEvent::Frame(g) => {
            assert!(g.caller_ids.is_empty());
            assert_eq!(g.request_id, Some(7));
            match &g.result {
                Some(Value::Int(x)) => assert_eq!(*x, 42),
                _ => panic!("expected the result to survive"),
            }
        }
        _ => panic!("expected a forwarded frame"),
    }
}

#[test]
fn app_node_answers_app_name() {
    let mut b = broker_with_peers(&[1]);
    let out = b.process_event(ClientEvent::Frame {
        client_id: 1,
        frame: request(b".app", b"appName", 1),
    });
    assert_eq!(out.len(), 1);
    let (dest, ev) = &out[0];
    assert_eq!(*dest, 1);
    match ev {
        PeerEvent::Message(m) => {
            assert_eq!(m.kind, FrameKind::Response);
            assert_eq!(m.request_id, Some(1));
            match &m.result {
                Some(Value::Bytes(name)) => assert_eq!(name, &b"shvbroker".to_vec()),
                _ => panic!("expected the app name"),
            }
            assert!(m.error.is_none());
        }
        _ => panic!("expected an in-process answer"),
    }
}

#[test]
fn unknown_path_dir_yields_method_call_exception() {
    let mut b = broker_with_peers(&[1]);
    let out = b.process_event(ClientEvent::Frame {
        client_id: 1,
        frame: request(b"nope", b"dir", 3),
    });
    assert_eq!(out.len(), 1);
    match &out[0].1 {
        PeerEvent::Message(m) => {
            assert!(m.result.is_none());
            match &m.error {
                Some(e) => assert_eq!(e.code, RpcErrorCode::MethodCallException),
                None => panic!("expected an error"),
            }
        }
        _ => panic!("expected an in-process answer"),
    }
}

#[test]
fn device_disconnect_unmounts() {
    let mut b = broker_with_peers(&[1, 2]);
    b.process_event(ClientEvent::RegisterDevice {
        client_id: 2,
        device_id: Some(b"d1".to_vec()),
        mount_point: None,
    });
    assert!(b.find_mount(b"test/d1").is_some());
    b.process_event(ClientEvent::ClientGone { client_id: 2 });
    assert!(b.find_mount(b"test/d1").is_none());
    assert!(!b.peer_live(2));
}

#[test]
fn response_after_caller_disconnect_is_dropped() {
    let mut b = broker_with_peers(&[1, 2]);
    b.process_event(ClientEvent::RegisterDevice {
        client_id: 2,
        device_id: None,
        mount_point: Some(b"test/dev".to_vec()),
    });
    let out = b.process_event(ClientEvent::Frame {
        client_id: 1,
        frame: request(b"test/dev", b"get", 9),
    });
    assert_eq!(out.len(), 1);
    b.process_event(ClientEvent::ClientGone { client_id: 1 });
    let resp = Frame {
        kind: FrameKind::Response,
        request_id: Some(9),
        shv_path: Vec::new(),
        method: Vec::new(),
        caller_ids: vec![1],
        param: None,
        result: Some(Value::Int(1)),
        error: None,
    };
    let out = b.process_event(ClientEvent::Frame { client_id: 2, frame: resp });
    assert!(out.is_empty());
}

#[test]
fn register_device_twice_is_idempotent() {
    let mut b = broker_with_peers(&[2]);
    for _ in 0..2 {
        b.process_event(ClientEvent::RegisterDevice {
            client_id: 2,
            device_id: Some(b"d1".to_vec()),
            mount_point: None,
        });
    }
    let hit = b.find_mount(b"test/d1").expect("mounted");
    assert!(hit.1.is_empty());
    b.process_event(ClientEvent::ClientGone { client_id: 2 });
    assert!(b.find_mount(b"test/d1").is_none());
}

#[test]
fn mount_point_outside_reserved_prefix_is_refused() {
    let mut b = broker_with_peers(&[2]);
    b.process_event(ClientEvent::RegisterDevice {
        client_id: 2,
        device_id: None,
        mount_point: Some(b".app/evil".to_vec()),
    });
    match b.find_mount(b".app/evil") {
        Some((i, rem)) => {
            // the .app node still answers; nothing was mounted over it
            assert_eq!(rem, b"evil".to_vec());
            let _ = i;
        }
        None => panic!(".app itself should still match"),
    }
}

#[test]
fn empty_path_ls_lists_mount_children() {
    let mut b = broker_with_peers(&[1]);
    let out = b.process_event(ClientEvent::Frame {
        client_id: 1,
        frame: request(b"", b"ls", 4),
    });
    assert_eq!(out.len(), 1);
    match &out[0].1 {
        PeerEvent::Message(m) => match &m.result {
            Some(Value::List(children)) => {
                assert_eq!(children.len(), 1);
                match &children[0] {
                    Value::Bytes(c) => assert_eq!(c, &b".app".to_vec()),
                    _ => panic!("expected a name"),
                }
            }
            _ => panic!("expected a listing"),
        },
        _ => panic!("expected an in-process answer"),
    }
}

#[test]
fn empty_path_routes_to_empty_key_mount_when_present() {
    let mut b = broker_with_peers(&[1, 2]);
    b.process_event(ClientEvent::RegisterDevice {
        client_id: 2,
        device_id: None,
        mount_point: Some(b"test/root".to_vec()),
    });
    // no empty-key mount: the fallback answers
    let out = b.process_event(ClientEvent::Frame { client_id: 1, frame: request(b"", b"dir", 5) });
    assert_eq!(out.len(), 1);
    assert!(matches!(out[0].1, PeerEvent::Message(_)));
}

#[test]
fn signal_frames_are_dropped() {
    let mut b = broker_with_peers(&[1, 2]);
    let sig = Frame {
        kind: FrameKind::Signal,
        request_id: None,
        shv_path: b"test".to_vec(),
        method: b"chng".to_vec(),
        caller_ids: Vec::new(),
        param: None,
        result: None,
        error: None,
    };
    let out = b.process_event(ClientEvent::Frame { client_id: 1, frame: sig });
    assert!(out.is_empty());
}

#[test]
fn get_password_returns_stored_digest() {
    let mut b = broker_with_peers(&[1]);
    let out = b.process_event(ClientEvent::GetPassword { client_id: 1, user: b"alice".to_vec() });
    assert_eq!(out.len(), 1);
    assert_eq!(out[0].0, 1);
    match &out[0].1 {
        PeerEvent::PasswordSha1(pw) => {
            let expected = sha1::Sha1::digest(b"alice").to_vec();
            assert_eq!(pw, &expected);
        }
        _ => panic!("expected the stored digest"),
    }
}

#[test]
fn explicit_test_mount_point_is_used_verbatim() {
    let mut b = broker_with_peers(&[1, 2]);
    b.process_event(ClientEvent::RegisterDevice {
        client_id: 2,
        device_id: Some(b"ignored".to_vec()),
        mount_point: Some(b"test/here".to_vec()),
    });
    assert!(b.find_mount(b"test/here").is_some());
    assert!(b.find_mount(b"test/ignored").is_none());
}

#[test]
fn ls_between_mounts_lists_child_segments() {
    let mut b = broker_with_peers(&[1, 2]);
    b.process_event(ClientEvent::RegisterDevice {
        client_id: 2,
        device_id: None,
        mount_point: Some(b"test/dev".to_vec()),
    });
    let out = b.process_event(ClientEvent::Frame {
        client_id: 1,
        frame: request(b"test", b"ls", 6),
    });
    assert_eq!(out.len(), 1);
    match &out[0].1 {
        PeerEvent::Message(m) => match &m.result {
            Some(Value::List(children)) => {
                assert_eq!(children.len(), 1);
                assert!(matches!(&children[0], Value::Bytes(c) if c == &b"dev".to_vec()));
            }
            _ => panic!("expected a listing"),
        },
        _ => panic!("expected an in-process answer"),
    }
}

#[test]
fn request_without_request_id_gets_no_answer_on_miss() {
    let mut b = broker_with_peers(&[1]);
    let mut f = request(b"nope", b"dir", 1);
    f.request_id = None;
    let out = b.process_event(ClientEvent::Frame { client_id: 1, frame: f });
    assert!(out.is_empty());
}

#[test]
fn ls_deduplicates_shared_child_segments() {
    let mut b = broker_with_peers(&[1, 2, 3]);
    b.process_event(ClientEvent::RegisterDevice {
        client_id: 2,
        device_id: Some(b"a".to_vec()),
        mount_point: None,
    });
    b.process_event(ClientEvent::RegisterDevice {
        client_id: 3,
        device_id: Some(b"b".to_vec()),
        mount_point: None,
    });
    let out = b.process_event(ClientEvent::Frame { client_id: 1, frame: request(b"", b"ls", 2) });
    match &out[0].1 {
        PeerEvent::Message(m) => match &m.result {
            Some(Value::List(children)) => {
                let names: Vec<Vec<u8>> = children
                    .iter()
                    .map(|c| match c {
                        Value::Bytes(n) => n.clone(),
                        _ => panic!("expected a name"),
                    })
                    .collect();
                assert_eq!(names.iter().filter(|n| *n == &b"test".to_vec()).count(), 1);
                assert!(names.contains(&b".app".to_vec()));
                assert_eq!(names.len(), 2);
            }
            _ => panic!("expected a listing"),
        },
        _ => panic!("expected an in-process answer"),
    }
}
