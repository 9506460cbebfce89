//! The broker routing engine: sole owner of the mount and peer tables,
//! it consumes client events and produces the peer events to deliver.

use vstd::prelude::*;
use crate::frame::{Frame, FrameKind, pop_caller_id_post};
use crate::mounts::{Mount, MountTable, MountView, AppNode, is_longest_match,
    tbl_get, spec_insert, spec_remove, keys_unique, lemma_longest_match_unique, lemma_tbl_get_at};
use crate::path::{strip_prefix_spec, starts_with, is_path_prefix};
use crate::node::{ProcessRequestResult, app_request_post, dir_ls_post, dir_ls};
use crate::crypto::{sha1_of, sha1_hash};
use crate::words::{w_test_prefix, w_dot_app, w_broker_app_name, test_prefix_bytes, dot_app_bytes,
    broker_app_name_bytes};

verus! {

/// What a client task tells the broker.
pub enum ClientEvent {
    GetPassword { client_id: i32, user: Vec<u8> },
    NewClient { client_id: i32 },
    RegisterDevice { client_id: i32, device_id: Option<Vec<u8>>, mount_point: Option<Vec<u8>> },
    Frame { client_id: i32, frame: Frame },
    ClientGone { client_id: i32 },
}

/// What the broker tells a client task to do on its socket.
pub enum PeerEvent {
    PasswordSha1(Vec<u8>),
    Frame(Frame),
    Message(Frame),
}

/// The broker state: the live peers and the mount table. The surrounding
/// event loop owns one value of this and nothing else mutates it.
pub struct Broker {
    pub peers: Vec<i32>,
    pub mounts: MountTable,
}

/// The frame forwarded to a device: path rewritten to the remainder past
/// the mount key, the caller id pushed, everything else untouched.
pub open spec fn device_forward_ok(f: Frame, cid: i32, k: Seq<u8>, g: Frame) -> bool {
    &&& g.kind == f.kind
    &&& g.request_id == f.request_id
    &&& g.method@ == f.method@
    &&& g.shv_path@ == strip_prefix_spec(k, f.shv_path@)
    &&& g.caller_ids@ == f.caller_ids@.push(cid)
    &&& g.param == f.param
    &&& g.result == f.result
    &&& g.error == f.error
}

/// The metadata of a response sent back for request `f`.
pub open spec fn response_head_ok(f: Frame, m: Frame) -> bool {
    &&& m.kind == FrameKind::Response
    &&& m.request_id == f.request_id
    &&& m.shv_path@ == Seq::<u8>::empty()
    &&& m.method@ == Seq::<u8>::empty()
    &&& m.caller_ids@ == f.caller_ids@
    &&& m.param is None
}

/// The message `m` carries the outcome `r`: the value in `result` on
/// success, the error in `error` on failure.
pub open spec fn result_set(m: Frame, r: ProcessRequestResult) -> bool {
    match r {
        Ok((v, _sig)) => m.result == Some(v) && m.error is None,
        Err(e) => m.error == Some(e) && m.result is None,
    }
}

/// What routing a request does once its longest mount match is `k`.
pub open spec fn request_match_post(s: Seq<(Seq<u8>, MountView)>, peers: Seq<i32>, cid: i32, f: Frame, k: Seq<u8>, out: Seq<(i32, PeerEvent)>) -> bool {
    match tbl_get(s, k) {
        MountView::Device { client_id: dc } => {
            if peers.contains(dc) {
                &&& out.len() == 1
                &&& out[0].0 == dc
                &&& out[0].1 matches PeerEvent::Frame(g)
                &&& device_forward_ok(f, cid, k, g)
            } else {
                out.len() == 0
            }
        }
        MountView::Node { app_name } => {
            if f.request_id is Some && peers.contains(cid) {
                &&& out.len() == 1
                &&& out[0].0 == cid
                &&& out[0].1 matches PeerEvent::Message(m)
                &&& response_head_ok(f, m)
                &&& exists|pr: ProcessRequestResult|
                    app_request_post(app_name, strip_prefix_spec(k, f.shv_path@), f.method@, pr)
                    && #[trigger] result_set(m, pr)
            } else {
                out.len() == 0
            }
        }
    }
}

/// What routing a request does when no mount key matches: the `dir`/`ls`
/// fallback answers the originator.
pub open spec fn request_miss_post(s: Seq<(Seq<u8>, MountView)>, peers: Seq<i32>, cid: i32, f: Frame, out: Seq<(i32, PeerEvent)>) -> bool {
    if f.request_id is Some && peers.contains(cid) {
        &&& out.len() == 1
        &&& out[0].0 == cid
        &&& out[0].1 matches PeerEvent::Message(m)
        &&& response_head_ok(f, m)
        &&& exists|pr: ProcessRequestResult|
            dir_ls_post(s, f.shv_path@, f.method@, pr) && #[trigger] result_set(m, pr)
    } else {
        out.len() == 0
    }
}

/// What routing a request frame from `cid` produces.
pub open spec fn request_route_post(s: Seq<(Seq<u8>, MountView)>, peers: Seq<i32>, cid: i32, f: Frame, out: Seq<(i32, PeerEvent)>) -> bool {
    &&& forall|k: Seq<u8>| #[trigger] is_longest_match(s, f.shv_path@, k)
        ==> request_match_post(s, peers, cid, f, k, out)
    &&& (forall|i: int| 0 <= i < s.len() ==> !is_path_prefix((#[trigger] s[i]).0, f.shv_path@))
        ==> request_miss_post(s, peers, cid, f, out)
}

/// What routing a response frame produces: the top caller id is popped
/// and, when it names a live peer, that peer gets the frame; otherwise
/// the frame is dropped.
pub open spec fn response_route_post(peers: Seq<i32>, f: Frame, out: Seq<(i32, PeerEvent)>) -> bool {
    if f.caller_ids@.len() == 0 {
        out.len() == 0
    } else if peers.contains(f.caller_ids@.last()) {
        &&& out.len() == 1
        &&& out[0].0 == f.caller_ids@.last()
        &&& out[0].1 matches PeerEvent::Frame(g)
        &&& pop_caller_id_post(f, g, Some(f.caller_ids@.last()))
    } else {
        out.len() == 0
    }
}

/// What routing any frame produces; signals are dropped.
pub open spec fn route_post(b: Broker, cid: i32, f: Frame, out: Seq<(i32, PeerEvent)>) -> bool {
    match f.kind {
        FrameKind::Request => request_route_post(b.mounts@, b.peers@, cid, f, out),
        FrameKind::Response => response_route_post(b.peers@, f, out),
        FrameKind::Signal => out.len() == 0,
    }
}

/// The mount-point policy: an explicit mount point is honoured only under
/// the reserved prefix; else a device id mounts under that prefix; else
/// nothing is mounted.
pub open spec fn mount_by_device_id_post(s0: Seq<(Seq<u8>, MountView)>, s1: Seq<(Seq<u8>, MountView)>, client_id: i32, device_id: Option<Vec<u8>>) -> bool {
    match device_id {
        Some(d) => s1 == spec_insert(s0, w_test_prefix() + d@, MountView::Device { client_id }),
        None => s1 == s0,
    }
}

pub open spec fn mount_device_post(s0: Seq<(Seq<u8>, MountView)>, s1: Seq<(Seq<u8>, MountView)>, client_id: i32, device_id: Option<Vec<u8>>, mount_point: Option<Vec<u8>>) -> bool {
    match mount_point {
        Some(mp) => {
            if starts_with(mp@, w_test_prefix()) {
                s1 == spec_insert(s0, mp@, MountView::Device { client_id })
            } else {
                mount_by_device_id_post(s0, s1, client_id, device_id)
            }
        }
        None => mount_by_device_id_post(s0, s1, client_id, device_id),
    }
}

/// The peer list without `id`, if it was there.
pub open spec fn remove_peer(s: Seq<i32>, id: i32) -> Seq<i32> {
    if s.contains(id) {
        s.remove(choose|i: int| 0 <= i < s.len() && s[i] == id)
    } else {
        s
    }
}

/// After a client is gone, one device mount it owned (if any) is gone too.
pub open spec fn client_gone_mounts_post(s0: Seq<(Seq<u8>, MountView)>, s1: Seq<(Seq<u8>, MountView)>, client_id: i32) -> bool {
    if exists|i: int| 0 <= i < s0.len() && (#[trigger] s0[i]).1 == (MountView::Device { client_id }) {
        exists|k: Seq<u8>|
            (exists|i: int| 0 <= i < s0.len() && #[trigger] s0[i] == (k, MountView::Device { client_id }))
            && s1 == spec_remove(s0, k)
    } else {
        s1 == s0
    }
}

/// Delivery to a live peer: sha of the stored password goes back to the
/// asking peer; a request from a peer no longer live is dropped.
pub open spec fn get_password_post(peers: Seq<i32>, cid: i32, user: Seq<u8>, out: Seq<(i32, PeerEvent)>) -> bool {
    if peers.contains(cid) {
        &&& out.len() == 1
        &&& out[0].0 == cid
        &&& out[0].1 matches PeerEvent::PasswordSha1(pw)
        &&& pw@ == sha1_of(user)
    } else {
        out.len() == 0
    }
}

impl Broker {
    /// Well-formed: peer ids unique, mount keys unique.
    pub open spec fn wf(&self) -> bool {
        &&& keys_unique(self.mounts@)
        &&& forall|i: int, j: int| 0 <= i < j < self.peers@.len() ==> self.peers@[i] != self.peers@[j]
    }

    /// A fresh broker with no peers and the app introspection node
    /// mounted at its reserved path.
    pub fn new() -> (r: Broker)
        ensures
            r.wf(),
            r.peers@ == Seq::<i32>::empty(),
            r.mounts@ == spec_insert(
                Seq::<(Seq<u8>, MountView)>::empty(),
                w_dot_app(),
                (MountView::Node { app_name: w_broker_app_name() }),
            ),
    {
        let mut mounts = MountTable::new();
        mounts.insert(dot_app_bytes(), Mount::Node(AppNode { app_name: broker_app_name_bytes() }));
        Broker { peers: Vec::new(), mounts }
    }

    /// True iff `id` is a live peer.
    pub fn peer_live(&self, id: i32) -> (r: bool)
        ensures
            r == self.peers@.contains(id),
    {
        let mut i: usize = 0;
        while i < self.peers.len()
            invariant
                0 <= i <= self.peers@.len(),
                forall|j: int| 0 <= j < i ==> self.peers@[j] != id,
            decreases self.peers@.len() - i,
        {
            if self.peers[i] == id {
                assert(self.peers@[i as int] == id);
                return true;
            }
            i += 1;
        }
        assert(!self.peers@.contains(id));
        false
    }

    /// The mount whose key is the longest full-segment prefix of the
    /// path: its index in the table and the remaining sub-path.
    pub fn find_mount(&self, shv_path: &[u8]) -> (r: Option<(usize, Vec<u8>)>)
        ensures
            match r {
                Some((i, rem)) => {
                    &&& i < self.mounts@.len()
                    &&& is_longest_match(self.mounts@, shv_path@, self.mounts@[i as int].0)
                    &&& rem@ == strip_prefix_spec(self.mounts@[i as int].0, shv_path@)
                },
                None => forall|i: int| 0 <= i < self.mounts@.len()
                    ==> !is_path_prefix((#[trigger] self.mounts@[i]).0, shv_path@),
            },
    {
        self.mounts.find_longest_prefix(shv_path)
    }

    /// The stored SHA-1 credential for a user: here, the digest of the
    /// user name itself, standing in for a credential store.
    pub fn sha_password(&self, user: &[u8]) -> (r: Vec<u8>)
        ensures
            r@ == sha1_of(user@),
            r@.len() == 20,
    {
        sha1_hash(user)
    }

    /// Applies the device mount-point policy for a registering client.
    pub fn mount_device(&mut self, client_id: i32, device_id: Option<Vec<u8>>, mount_point: Option<Vec<u8>>)
        requires
            old(self).wf(),
        ensures
            final(self).wf(),
            final(self).peers@ == old(self).peers@,
            mount_device_post(old(self).mounts@, final(self).mounts@, client_id, device_id, mount_point),
    {
        match mount_point {
            Some(mp) => {
                if crate::path::bytes_starts_with(mp.as_slice(), test_prefix_bytes().as_slice()) {
                    self.mounts.insert(mp, Mount::Device { client_id });
                    return;
                }
            }
            None => {}
        }
        match device_id {
            Some(d) => {
                let mount_point_new = crate::bytes::concat_bytes(test_prefix_bytes().as_slice(), d.as_slice());
                self.mounts.insert(mount_point_new, Mount::Device { client_id });
            }
            None => {}
        }
    }
}

impl Broker {
    /// Routes one frame from peer `client_id`: requests are forwarded to
    /// the matched device or answered by the matched node or the
    /// `dir`/`ls` fallback; responses go back by the caller-id stack;
    /// signals are dropped.
    pub fn route_frame(&self, client_id: i32, frame: Frame) -> (out: Vec<(i32, PeerEvent)>)
        requires
            self.wf(),
        ensures
            route_post(*self, client_id, frame, out@),
    {
        let mut out: Vec<(i32, PeerEvent)> = Vec::new();
        let ghost f = frame;
        let ghost s = self.mounts@;
        let ghost peers = self.peers@;
        match frame.kind {
            FrameKind::Request => {
                let found = self.find_mount(frame.shv_path.as_slice());
                match found {
                    Some((i, rem)) => {
                        let ghost k0 = s[i as int].0;
                        proof {
                            lemma_tbl_get_at(s, i as int);
                        }
                        match self.mounts.mount_at(i) {
                            Mount::Device { client_id: dcr } => {
                                let dc = *dcr;
                                assert(tbl_get(s, k0) == (MountView::Device { client_id: dc }));
                                if self.peer_live(dc) {
                                    let mut g = frame;
                                    g.push_caller_id(client_id);
                                    g.set_shvpath(rem);
                                    assert(device_forward_ok(f, client_id, k0, g));
                                    out.push((dc, PeerEvent::Frame(g)));
                                    assert(out@.len() == 1 && out@[0] == (dc, PeerEvent::Frame(g)));
                                }
                            }
                            Mount::Node(n) => {
                                assert(tbl_get(s, k0) == (MountView::Node { app_name: n.app_name@ }));
                                let resp0 = frame.prepare_response_meta();
                                match resp0 {
                                    Some(m0) => {
                                        if self.peer_live(client_id) {
                                            let pr = n.process_request(rem.as_slice(), frame.method.as_slice());
                                            let ghost prg = pr;
                                            let mut m = m0;
                                            match pr {
                                                Ok((v, _sig)) => {
                                                    m.set_result(v);
                                                }
                                                Err(e) => {
                                                    m.set_error(e);
                                                }
                                            }
                                            assert(result_set(m, prg));
                                            assert(response_head_ok(f, m));
                                            assert(app_request_post(n.app_name@, strip_prefix_spec(k0, f.shv_path@), f.method@, prg));
                                            out.push((client_id, PeerEvent::Message(m)));
                                            assert(out@.len() == 1 && out@[0] == (client_id, PeerEvent::Message(m)));
                                        }
                                    }
                                    None => {}
                                }
                            }
                        }
                        proof {
                            assert(request_match_post(s, peers, client_id, f, k0, out@));
                            assert forall|k: Seq<u8>| #[trigger] is_longest_match(s, f.shv_path@, k)
                                implies request_match_post(s, peers, client_id, f, k, out@) by {
                                lemma_longest_match_unique(s, f.shv_path@, k, k0);
                            }
                            assert(is_path_prefix(s[i as int].0, f.shv_path@));
                            assert(request_route_post(s, peers, client_id, f, out@));
                        }
                    }
                    None => {
                        let resp0 = frame.prepare_response_meta();
                        match resp0 {
                            Some(m0) => {
                                if self.peer_live(client_id) {
                                    let pr = dir_ls(&self.mounts, frame.shv_path.as_slice(), frame.method.as_slice());
                                    let ghost prg = pr;
                                    let mut m = m0;
                                    match pr {
                                        Ok((v, _sig)) => {
                                            m.set_result(v);
                                        }
                                        Err(e) => {
                                            m.set_error(e);
                                        }
                                    }
                                    assert(result_set(m, prg));
                                    assert(response_head_ok(f, m));
                                    assert(dir_ls_post(s, f.shv_path@, f.method@, prg));
                                    out.push((client_id, PeerEvent::Message(m)));
                                    assert(out@.len() == 1 && out@[0] == (client_id, PeerEvent::Message(m)));
                                }
                            }
                            None => {}
                        }
                        proof {
                            assert(request_miss_post(s, peers, client_id, f, out@));
                            assert forall|k: Seq<u8>| #[trigger] is_longest_match(s, f.shv_path@, k)
                                implies request_match_post(s, peers, client_id, f, k, out@) by {
                                let j = choose|j: int| 0 <= j < s.len() && s[j].0 == k;
                                assert(is_path_prefix(s[j].0, f.shv_path@));
                            }
                            assert(request_route_post(s, peers, client_id, f, out@));
                        }
                    }
                }
            }
            FrameKind::Response => {
                let mut g = frame;
                let popped = g.pop_caller_id();
                match popped {
                    Some(c) => {
                        if self.peer_live(c) {
                            out.push((c, PeerEvent::Frame(g)));
                            assert(out@.len() == 1 && out@[0] == (c, PeerEvent::Frame(g)));
                        }
                    }
                    None => {}
                }
                assert(response_route_post(peers, f, out@));
            }
            FrameKind::Signal => {}
        }
        out
    }

    /// Drops `id` from the live peers, if it is there.
    fn drop_peer(&mut self, id: i32)
        requires
            old(self).wf(),
        ensures
            final(self).wf(),
            final(self).peers@ == remove_peer(old(self).peers@, id),
            final(self).mounts@ == old(self).mounts@,
    {
        let ghost p0 = self.peers@;
        let mut i: usize = 0;
        while i < self.peers.len()
            invariant
                old(self).wf(),
                0 <= i <= self.peers@.len(),
                self.peers@ == p0,
                p0 == old(self).peers@,
                self.mounts@ == old(self).mounts@,
                forall|j: int| 0 <= j < i ==> p0[j] != id,
            decreases self.peers@.len() - i,
        {
            if self.peers[i] == id {
                proof {
                    assert(p0[i as int] == id);
                    assert(p0.contains(id));
                    let ci = choose|c: int| 0 <= c < p0.len() && p0[c] == id;
                    if ci < i {
                        assert(false);
                    } else if i < ci {
                        assert(old(self).wf());
                        assert(false);
                    }
                }
                self.peers.remove(i);
                assert(self.peers@ == remove_peer(p0, id));
                return;
            }
            i += 1;
        }
        assert(!p0.contains(id));
    }

    /// Applies one client event to the broker state and yields the peer
    /// events to deliver, each tagged with its destination peer.
    pub fn process_event(&mut self, event: ClientEvent) -> (out: Vec<(i32, PeerEvent)>)
        requires
            old(self).wf(),
        ensures
            final(self).wf(),
            (event matches ClientEvent::Frame { client_id, frame } ==> {
                &&& final(self).peers@ == old(self).peers@
                &&& final(self).mounts@ == old(self).mounts@
                &&& route_post(*old(self), client_id, frame, out@)
            }),
            (event matches ClientEvent::NewClient { client_id } ==> {
                &&& out@.len() == 0
                &&& final(self).mounts@ == old(self).mounts@
                &&& final(self).peers@ == (if old(self).peers@.contains(client_id) {
                    old(self).peers@
                } else {
                    old(self).peers@.push(client_id)
                })
            }),
            (event matches ClientEvent::RegisterDevice { client_id, device_id, mount_point } ==> {
                &&& out@.len() == 0
                &&& final(self).peers@ == old(self).peers@
                &&& mount_device_post(old(self).mounts@, final(self).mounts@, client_id, device_id, mount_point)
            }),
            (event matches ClientEvent::ClientGone { client_id } ==> {
                &&& out@.len() == 0
                &&& final(self).peers@ == remove_peer(old(self).peers@, client_id)
                &&& client_gone_mounts_post(old(self).mounts@, final(self).mounts@, client_id)
            }),
            (event matches ClientEvent::GetPassword { client_id, user } ==> {
                &&& final(self).peers@ == old(self).peers@
                &&& final(self).mounts@ == old(self).mounts@
                &&& get_password_post(old(self).peers@, client_id, user@, out@)
            }),
    {
        match event {
            ClientEvent::Frame { client_id, frame } => self.route_frame(client_id, frame),
            ClientEvent::NewClient { client_id } => {
                if !self.peer_live(client_id) {
                    let ghost p0 = self.peers@;
                    self.peers.push(client_id);
                    proof {
                        assert forall|i: int, j: int| 0 <= i < j < self.peers@.len()
                            implies self.peers@[i] != self.peers@[j] by {
                            if j == p0.len() {
                                assert(self.peers@[i] == p0[i]);
                                assert(!p0.contains(client_id));
                            }
                        }
                    }
                }
                Vec::new()
            }
            ClientEvent::RegisterDevice { client_id, device_id, mount_point } => {
                self.mount_device(client_id, device_id, mount_point);
                Vec::new()
            }
            ClientEvent::ClientGone { client_id } => {
                let ghost s0 = self.mounts@;
                self.drop_peer(client_id);
                match self.mounts.find_device_of(client_id) {
                    Some(k) => {
                        proof {
                            let i = choose|i: int| 0 <= i < s0.len() && #[trigger] s0[i]
                                == (k@, MountView::Device { client_id });
                            assert(s0[i].1 == (MountView::Device { client_id }));
                        }
                        self.mounts.remove(k.as_slice());
                        assert(client_gone_mounts_post(s0, self.mounts@, client_id)) by {
                            assert(exists|i: int| 0 <= i < s0.len() && #[trigger] s0[i]
                                == (k@, MountView::Device { client_id }));
                            assert(self.mounts@ == spec_remove(s0, k@));
                        }
                    }
                    None => {
                        assert(client_gone_mounts_post(s0, self.mounts@, client_id));
                    }
                }
                Vec::new()
            }
            ClientEvent::GetPassword { client_id, user } => {
                let mut out: Vec<(i32, PeerEvent)> = Vec::new();
                if self.peer_live(client_id) {
                    let pw = self.sha_password(user.as_slice());
                    out.push((client_id, PeerEvent::PasswordSha1(pw)));
                    assert(out@.len() == 1 && out@[0] == (client_id, PeerEvent::PasswordSha1(pw)));
                }
                out
            }
        }
    }
}

} // verus!
