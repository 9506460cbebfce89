use shvbroker::frame::{Frame, FrameKind};
use shvbroker::value::Value;
use shvbroker::mounts::{Mount, MountTable, AppNode};
use shvbroker::path::{path_is_prefix, strip_path_prefix, first_segment};
use shvbroker::broker::Broker;
use sha1::Digest;

#[test]
fn push_then_pop_caller_id_restores_the_frame() {
    let mut f = Frame::new_request(b"a/b".to_vec(), b"get".to_vec(), 11, Some(Value::Int(5)));
    f.push_caller_id(3);
    let mut g = f;
    g.push_caller_id(42);
    let popped = g.pop_caller_id();
    assert_eq!(popped, Some(42));
    assert_eq!(g.kind, FrameKind::Request);
    assert_eq!(g.request_id, Some(11));
    assert_eq!(g.shv_path, b"a/b".to_vec());
    assert_eq!(g.method, b"get".to_vec());
    assert_eq!(g.caller_ids, vec![3]);
    assert!(matches!(g.param, Some(Value::Int(5))));
    assert!(g.result.is_none());
    assert!(g.error.is_none());
}

#[test]
fn pop_on_empty_stack_returns_none() {
    let mut f = Frame::new_request(Vec::new(), b"get".to_vec(), 1, None);
    assert_eq!(f.pop_caller_id(), None);
    assert!(f.caller_ids.is_empty());
}

#[test]
fn prepare_response_meta_swaps_direction_and_keeps_ids() {
    let mut f = Frame::new_request(b"x".to_vec(), b"get".to_vec(), 8, None);
    f.push_caller_id(1);
    f.push_caller_id(2);
    let m = f.prepare_response_meta().expect("request has an id");
    assert_eq!(m.kind, FrameKind::Response);
    assert_eq!(m.request_id, Some(8));
    assert_eq!(m.caller_ids, vec![1, 2]);
    assert!(m.shv_path.is_empty());
    assert!(m.result.is_none() && m.error.is_none());
}

#[test]
fn path_prefix_follows_whole_segments() {
    assert!(path_is_prefix(b"test", b"test/dev"));
    assert!(path_is_prefix(b"test/dev", b"test/dev"));
    assert!(!path_is_prefix(b"test/de", b"test/dev"));
    assert!(!path_is_prefix(b"test/dev", b"test"));
    assert!(path_is_prefix(b"", b""));
    assert!(!path_is_prefix(b"", b"test"));
    assert_eq!(strip_path_prefix(b"test", b"test/dev/sub"), b"dev/sub".to_vec());
    assert_eq!(strip_path_prefix(b"test/dev", b"test/dev"), Vec::<u8>::new());
    assert_eq!(first_segment(b"dev/sub"), b"dev".to_vec());
    assert_eq!(first_segment(b"dev"), b"dev".to_vec());
}

#[test]
fn longest_prefix_lookup_is_monotone_on_segment_extension() {
    let mut t = MountTable::new();
    t.insert(b"test".to_vec(), Mount::Device { client_id: 1 });
    t.insert(b"test/dev".to_vec(), Mount::Device { client_id: 2 });
    let (i1, rem1) = t.find_longest_prefix(b"test/x").expect("matches test");
    let (i2, rem2) = t.find_longest_prefix(b"test/dev/x").expect("matches test/dev");
    let k1 = t.key_at(i1).clone();
    let k2 = t.key_at(i2).clone();
    assert_eq!(k1, b"test".to_vec());
    assert_eq!(k2, b"test/dev".to_vec());
    assert_eq!(rem1, b"x".to_vec());
    assert_eq!(rem2, b"x".to_vec());
    // the shorter path's key is a whole-segment prefix of the longer's
    assert!(path_is_prefix(&k1, &k2));
}

#[test]
fn insert_replaces_and_remove_drops() {
    let mut t = MountTable::new();
    t.insert(b"test/a".to_vec(), Mount::Device { client_id: 1 });
    t.insert(b"test/a".to_vec(), Mount::Device { client_id: 2 });
    assert_eq!(t.len(), 1);
    let (i, _rem) = t.find_longest_prefix(b"test/a").expect("present");
    match t.mount_at(i) {
        Mount::Device { client_id } => assert_eq!(*client_id, 2),
        _ => panic!("expected the replacing device"),
    }
    t.remove(b"test/a");
    assert!(t.find_longest_prefix(b"test/a").is_none());
}

#[test]
fn app_node_reflection_methods() {
    let node = AppNode { app_name: b"shvbroker".to_vec() };
    match node.process_request(b"", b"dir") {
        Ok((Value::List(l), None)) => assert_eq!(l.len(), 3),
        _ => panic!("expected the method list"),
    }
    match node.process_request(b"", b"ls") {
        Ok((Value::List(l), None)) => assert!(l.is_empty()),
        _ => panic!("expected an empty listing"),
    }
    assert!(node.process_request(b"sub", b"appName").is_err());
    assert!(node.process_request(b"", b"nosuch").is_err());
}

#[test]
fn sha_password_is_the_digest_of_the_user_name() {
    let b = Broker::new();
    let got = b.sha_password(b"u");
    let expected = sha1::Sha1::digest(b"u").to_vec();
    assert_eq!(got, expected);
    assert_ne!(got, b"u".to_vec());
    assert_eq!(got.len(), 20);
}
