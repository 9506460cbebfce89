//! The broker's laws: proved from the routing and handshake contracts
//! alone, they state the properties the broker is meant to keep.

use vstd::prelude::*;
use crate::frame::{Frame, FrameKind};
use crate::broker::{Broker, PeerEvent, route_post, request_match_post, request_miss_post,
    client_gone_mounts_post, remove_peer, mount_device_post};
use crate::mounts::{MountView, is_longest_match, tbl_get, tbl_has_key, tbl_key_index,
    keys_unique, spec_insert, spec_remove};
use crate::path::{is_path_prefix, strip_prefix_spec, starts_with, lemma_path_prefix_trans,
    lemma_shorter_prefix_of_longer};
use crate::client::{ClientState, ClientAction, login_ok, await_hello_frame_post,
    await_login_frame_post, await_password_post, login_parse_ok, login_type_of, login_field,
    client_id_response_on};
use crate::crypto::sha1_of;
use crate::value::value_bytes;
use crate::words::{w_hello, w_login, w_plain, w_password};

verus! {

/// A request that hits a device mount with remainder `r` reaches exactly
/// that device, with the path rewritten to `r` and the sender's id on top
/// of the caller-id stack.
pub proof fn lemma_request_reaches_device(b: Broker, cid: i32, f: Frame, out: Seq<(i32, PeerEvent)>, k: Seq<u8>, dc: i32)
    requires
        route_post(b, cid, f, out),
        f.kind == FrameKind::Request,
        is_longest_match(b.mounts@, f.shv_path@, k),
        tbl_get(b.mounts@, k) == (MountView::Device { client_id: dc }),
        b.peers@.contains(dc),
    ensures
        out.len() == 1,
        out[0].0 == dc,
        ({
            &&& out[0].1 matches PeerEvent::Frame(g)
            &&& g.shv_path@ == strip_prefix_spec(k, f.shv_path@)
            &&& g.caller_ids@ == f.caller_ids@.push(cid)
            &&& g.caller_ids@.len() > 0
            &&& g.caller_ids@.last() == cid
        }),
{
    assert(request_match_post(b.mounts@, b.peers@, cid, f, k, out));
}

/// A response whose top caller id names a live peer reaches exactly that
/// peer, with the stack popped by one and nothing else changed.
pub proof fn lemma_response_reaches_caller(b: Broker, cid: i32, f: Frame, out: Seq<(i32, PeerEvent)>)
    requires
        route_post(b, cid, f, out),
        f.kind == FrameKind::Response,
        f.caller_ids@.len() > 0,
        b.peers@.contains(f.caller_ids@.last()),
    ensures
        out.len() == 1,
        out[0].0 == f.caller_ids@.last(),
        ({
            &&& out[0].1 matches PeerEvent::Frame(g)
            &&& g.caller_ids@ == f.caller_ids@.drop_last()
            &&& crate::frame::meta_unchanged(f, g)
        }),
{
}

/// A response whose top caller id names no live peer is dropped.
pub proof fn lemma_response_without_peer_dropped(b: Broker, cid: i32, f: Frame, out: Seq<(i32, PeerEvent)>)
    requires
        route_post(b, cid, f, out),
        f.kind == FrameKind::Response,
        f.caller_ids@.len() == 0 || !b.peers@.contains(f.caller_ids@.last()),
    ensures
        out.len() == 0,
{
}

/// After a client is gone, neither the peer table nor the mount table
/// refers to it, provided it owned at most one device mount.
pub proof fn lemma_client_gone_clears(pre: Broker, post: Broker, cid: i32)
    requires
        pre.wf(),
        post.peers@ == remove_peer(pre.peers@, cid),
        client_gone_mounts_post(pre.mounts@, post.mounts@, cid),
        forall|i: int, j: int| 0 <= i < pre.mounts@.len() && 0 <= j < pre.mounts@.len()
            && (#[trigger] pre.mounts@[i]).1 == (MountView::Device { client_id: cid })
            && (#[trigger] pre.mounts@[j]).1 == (MountView::Device { client_id: cid })
            ==> i == j,
    ensures
        !post.peers@.contains(cid),
        forall|i: int| 0 <= i < post.mounts@.len()
            ==> (#[trigger] post.mounts@[i]).1 != (MountView::Device { client_id: cid }),
{
    let p0 = pre.peers@;
    if p0.contains(cid) {
        let ci = choose|i: int| 0 <= i < p0.len() && p0[i] == cid;
        assert(post.peers@ == p0.remove(ci));
        assert forall|j: int| 0 <= j < post.peers@.len() implies post.peers@[j] != cid by {
            if j < ci {
                assert(post.peers@[j] == p0[j]);
            } else {
                assert(post.peers@[j] == p0[j + 1]);
            }
        }
        if post.peers@.contains(cid) {
            let j = choose|j: int| 0 <= j < post.peers@.len() && post.peers@[j] == cid;
            assert(false);
        }
    }
    let s0 = pre.mounts@;
    if exists|i: int| 0 <= i < s0.len() && (#[trigger] s0[i]).1 == (MountView::Device { client_id: cid }) {
        let k = choose|k: Seq<u8>|
            (exists|i: int| 0 <= i < s0.len() && #[trigger] s0[i] == (k, MountView::Device { client_id: cid }))
            && post.mounts@ == spec_remove(s0, k);
        let di = choose|i: int| 0 <= i < s0.len() && #[trigger] s0[i] == (k, MountView::Device { client_id: cid });
        assert(tbl_has_key(s0, k));
        let ki = tbl_key_index(s0, k);
        assert(0 <= ki < s0.len() && s0[ki].0 == k);
        assert(ki == di) by {
            if ki < di {
                assert(false);
            } else if di < ki {
                assert(false);
            }
        }
        assert(post.mounts@ == s0.remove(di));
        assert forall|i: int| 0 <= i < post.mounts@.len() implies
            (#[trigger] post.mounts@[i]).1 != (MountView::Device { client_id: cid }) by {
            if i < di {
                assert(post.mounts@[i] == s0[i]);
            } else {
                assert(post.mounts@[i] == s0[i + 1]);
            }
        }
    } else {
        assert(post.mounts@ == s0);
    }
}

/// The longest-prefix lookup is monotone: on a longer path that extends a
/// shorter one by whole segments, the matched key extends (or equals) the
/// key matched on the shorter path.
pub proof fn lemma_find_longest_prefix_monotone(s: Seq<(Seq<u8>, MountView)>, p1: Seq<u8>, p2: Seq<u8>, k1: Seq<u8>, k2: Seq<u8>)
    requires
        is_path_prefix(p1, p2),
        is_longest_match(s, p1, k1),
        is_longest_match(s, p2, k2),
    ensures
        is_path_prefix(k1, k2),
{
    lemma_path_prefix_trans(k1, p1, p2);
    let j1 = choose|j: int| 0 <= j < s.len() && s[j].0 == k1;
    assert(is_path_prefix(s[j1].0, p2));
    assert(k1.len() <= k2.len());
    lemma_shorter_prefix_of_longer(k1, k2, p2);
}

/// Binding a key twice to the same mount leaves the table exactly as
/// binding it once does.
pub proof fn lemma_insert_idempotent(s: Seq<(Seq<u8>, MountView)>, k: Seq<u8>, v: MountView)
    requires
        keys_unique(s),
    ensures
        spec_insert(spec_insert(s, k, v), k, v) == spec_insert(s, k, v),
{
    let t = spec_remove(s, k);
    assert forall|j: int| 0 <= j < t.len() implies (#[trigger] t[j]).0 != k by {
        if tbl_has_key(s, k) {
            let ci = tbl_key_index(s, k);
            assert(0 <= ci < s.len() && s[ci].0 == k);
            assert(t == s.remove(ci));
            if j < ci {
                assert(t[j] == s[j]);
            } else {
                assert(t[j] == s[j + 1]);
            }
        }
    }
    let s1 = spec_insert(s, k, v);
    assert(s1 == t.push((k, v)));
    assert(s1[t.len() as int].0 == k);
    assert(tbl_has_key(s1, k));
    let ki = tbl_key_index(s1, k);
    assert(0 <= ki < s1.len() && s1[ki].0 == k);
    assert(ki == t.len()) by {
        if ki < t.len() {
            assert(s1[ki] == t[ki]);
        }
    }
    assert(spec_remove(s1, k) == s1.remove(t.len() as int));
    assert(s1.remove(t.len() as int) =~= t);
    assert(spec_insert(s1, k, v) == t.push((k, v)));
}

/// Registering the same device twice is indistinguishable from
/// registering it once: the mount table ends in the same state.
pub proof fn lemma_register_device_idempotent(s0: Seq<(Seq<u8>, MountView)>, s1: Seq<(Seq<u8>, MountView)>, s2: Seq<(Seq<u8>, MountView)>, cid: i32, device_id: Option<Vec<u8>>, mount_point: Option<Vec<u8>>)
    requires
        keys_unique(s0),
        keys_unique(s1),
        mount_device_post(s0, s1, cid, device_id, mount_point),
        mount_device_post(s1, s2, cid, device_id, mount_point),
    ensures
        s2 == s1,
{
    match mount_point {
        Some(mp) => {
            if starts_with(mp@, crate::words::w_test_prefix()) {
                lemma_insert_idempotent(s0, mp@, MountView::Device { client_id: cid });
            } else {
                match device_id {
                    Some(d) => {
                        lemma_insert_idempotent(s0, crate::words::w_test_prefix() + d@, MountView::Device { client_id: cid });
                    }
                    None => {}
                }
            }
        }
        None => {
            match device_id {
                Some(d) => {
                    lemma_insert_idempotent(s0, crate::words::w_test_prefix() + d@, MountView::Device { client_id: cid });
                }
                None => {}
            }
        }
    }
}

/// An empty request path routes to the empty-key mount when one is
/// there, else to the `dir`/`ls` fallback.
pub proof fn lemma_empty_path_routing(b: Broker, cid: i32, f: Frame, out: Seq<(i32, PeerEvent)>)
    requires
        route_post(b, cid, f, out),
        f.kind == FrameKind::Request,
        f.shv_path@ == Seq::<u8>::empty(),
    ensures
        tbl_has_key(b.mounts@, Seq::<u8>::empty())
            ==> request_match_post(b.mounts@, b.peers@, cid, f, Seq::<u8>::empty(), out),
        !tbl_has_key(b.mounts@, Seq::<u8>::empty())
            ==> request_miss_post(b.mounts@, b.peers@, cid, f, out),
{
    let s = b.mounts@;
    let p = f.shv_path@;
    if tbl_has_key(s, Seq::<u8>::empty()) {
        assert forall|i: int| 0 <= i < s.len() && is_path_prefix(#[trigger] s[i].0, p)
            implies s[i].0.len() <= 0 by {
            assert(s[i].0 == p || s[i].0.len() < p.len());
        }
        assert(is_longest_match(s, p, Seq::<u8>::empty()));
    } else {
        assert forall|i: int| 0 <= i < s.len() implies !is_path_prefix((#[trigger] s[i]).0, p) by {
            if is_path_prefix(s[i].0, p) {
                assert(s[i].0 == p);
                assert(tbl_has_key(s, Seq::<u8>::empty()));
            }
        }
    }
}

/// A correct hello/login handshake with the `PLAIN` scheme, against a
/// stored digest equal to the digest of the presented password, ends in
/// the operational state, answering the login with the client's id.
pub proof fn lemma_handshake_plain_success(
    cid: i32,
    f_hello: Frame,
    s1: ClientState,
    a1: Seq<ClientAction>,
    f_login: Frame,
    s2: ClientState,
    a2: Seq<ClientAction>,
    stored: Seq<u8>,
    s3: ClientState,
    a3: Seq<ClientAction>,
)
    requires
        f_hello.kind == FrameKind::Request,
        f_hello.request_id is Some,
        f_hello.method@ == w_hello(),
        await_hello_frame_post(cid, f_hello, s1, a1),
        f_login.kind == FrameKind::Request,
        f_login.request_id is Some,
        f_login.method@ == w_login(),
        login_parse_ok(f_login),
        login_type_of(f_login) == w_plain(),
        ({
            &&& s1 matches ClientState::AwaitLogin { nonce }
            &&& await_login_frame_post(cid, nonce@, f_login, s2, a2)
        }),
        ({
            &&& login_field(f_login, w_password()) matches Some(pv)
            &&& sha1_of(value_bytes(pv)) == stored
        }),
        ({
            &&& s2 matches ClientState::AwaitPassword { resp, password, login_type, nonce, device_id, mount_point }
            &&& await_password_post(cid, resp, password@, login_type@, nonce@, device_id, mount_point, stored, s3, a3)
        }),
    ensures
        s3 is Operational,
        a3.len() == 2,
        ({
            &&& s2 matches ClientState::AwaitPassword { resp, .. }
            &&& a3[0] matches ClientAction::SendMessage(m)
            &&& client_id_response_on(resp, cid, m)
            &&& m.request_id == f_login.request_id
        }),
{
}

/// A full hop across the broker: a request from a caller reaches the
/// mounted device, and a response in which the device echoes the
/// forwarded frame's caller-id stack comes back to exactly that caller,
/// with the caller's own stack restored.
pub proof fn lemma_request_response_roundtrip(
    b: Broker,
    c1: i32,
    f: Frame,
    out1: Seq<(i32, PeerEvent)>,
    k: Seq<u8>,
    dc: i32,
    echo: Frame,
    out2: Seq<(i32, PeerEvent)>,
)
    requires
        route_post(b, c1, f, out1),
        f.kind == FrameKind::Request,
        is_longest_match(b.mounts@, f.shv_path@, k),
        tbl_get(b.mounts@, k) == (MountView::Device { client_id: dc }),
        b.peers@.contains(dc),
        b.peers@.contains(c1),
        ({
            &&& out1[0].1 matches PeerEvent::Frame(g)
            &&& echo.caller_ids@ == g.caller_ids@
        }),
        echo.kind == FrameKind::Response,
        route_post(b, dc, echo, out2),
    ensures
        out2.len() == 1,
        out2[0].0 == c1,
        ({
            &&& out2[0].1 matches PeerEvent::Frame(h)
            &&& h.caller_ids@ == f.caller_ids@
        }),
{
    lemma_request_reaches_device(b, c1, f, out1, k, dc);
    assert(echo.caller_ids@ == f.caller_ids@.push(c1));
    assert(echo.caller_ids@.last() == c1);
    lemma_response_reaches_caller(b, dc, echo, out2);
    assert(echo.caller_ids@.drop_last() =~= f.caller_ids@);
}

/// Under the challenge scheme, a login succeeds exactly when the
/// presented bytes equal the digest of the nonce followed by the stored
/// digest; any other presented password fails.
pub proof fn lemma_sha_login_exact(login_type: Seq<u8>, password: Seq<u8>, nonce: Seq<u8>, stored: Seq<u8>)
    requires
        login_type != w_plain(),
    ensures
        login_ok(login_type, password, nonce, stored) <==> password == sha1_of(nonce + stored),
{
}

} // verus!
