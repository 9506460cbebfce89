//! The RPC frame model: kind, destination path, method, request id, the
//! LIFO caller-id stack used for response routing, and the payload slots.

use vstd::prelude::*;
use crate::value::{Value, RpcError};

verus! {

/// Discriminates the three frame kinds on the wire.
#[derive(Clone, Copy, PartialEq, Eq, Structural, Debug)]
pub enum FrameKind {
    Request,
    Response,
    Signal,
}

/// One RPC frame: structured metadata plus payload slots. `param` rides on
/// requests, `result`/`error` on responses.
pub struct Frame {
    pub kind: FrameKind,
    pub request_id: Option<i64>,
    pub shv_path: Vec<u8>,
    pub method: Vec<u8>,
    pub caller_ids: Vec<i32>,
    pub param: Option<Value>,
    pub result: Option<Value>,
    pub error: Option<RpcError>,
}

/// Everything but the caller-id stack agrees between the two frames.
pub open spec fn meta_unchanged(a: Frame, b: Frame) -> bool {
    &&& a.kind == b.kind
    &&& a.request_id == b.request_id
    &&& a.shv_path@ == b.shv_path@
    &&& a.method@ == b.method@
    &&& a.param == b.param
    &&& a.result == b.result
    &&& a.error == b.error
}

/// The two frames agree on every field.
pub open spec fn frame_eq(a: Frame, b: Frame) -> bool {
    meta_unchanged(a, b) && a.caller_ids@ == b.caller_ids@
}

/// The relation `push_caller_id` establishes between the old and new frame.
pub open spec fn push_caller_id_post(pre: Frame, post: Frame, id: i32) -> bool {
    meta_unchanged(pre, post) && post.caller_ids@ == pre.caller_ids@.push(id)
}

/// The relation `pop_caller_id` establishes between the old and new frame.
pub open spec fn pop_caller_id_post(pre: Frame, post: Frame, popped: Option<i32>) -> bool {
    if pre.caller_ids@.len() == 0 {
        popped is None && frame_eq(pre, post)
    } else {
        &&& popped == Some(pre.caller_ids@.last())
        &&& meta_unchanged(pre, post)
        &&& post.caller_ids@ == pre.caller_ids@.drop_last()
    }
}

impl Frame {
    /// A fresh request frame with an empty caller-id stack.
    pub fn new_request(shv_path: Vec<u8>, method: Vec<u8>, request_id: i64, param: Option<Value>) -> (r: Frame)
        ensures
            r.kind == FrameKind::Request,
            r.request_id == Some(request_id),
            r.shv_path@ == shv_path@,
            r.method@ == method@,
            r.caller_ids@ == Seq::<i32>::empty(),
            r.param == param,
            r.result is None,
            r.error is None,
    {
        let caller_ids: Vec<i32> = Vec::new();
        Frame {
            kind: FrameKind::Request,
            request_id: Some(request_id),
            shv_path,
            method,
            caller_ids,
            param,
            result: None,
            error: None,
        }
    }

    pub fn is_request(&self) -> (r: bool)
        ensures
            r == (self.kind == FrameKind::Request),
    {
        self.kind == FrameKind::Request
    }

    pub fn is_response(&self) -> (r: bool)
        ensures
            r == (self.kind == FrameKind::Response),
    {
        self.kind == FrameKind::Response
    }

    pub fn is_signal(&self) -> (r: bool)
        ensures
            r == (self.kind == FrameKind::Signal),
    {
        self.kind == FrameKind::Signal
    }

    /// Pushes the caller id onto the LIFO stack in the metadata.
    pub fn push_caller_id(&mut self, id: i32)
        ensures
            push_caller_id_post(*old(self), *final(self), id),
    {
        self.caller_ids.push(id);
    }

    /// Pops the top caller id, if any, from the metadata stack.
    pub fn pop_caller_id(&mut self) -> (r: Option<i32>)
        ensures
            pop_caller_id_post(*old(self), *final(self), r),
    {
        if self.caller_ids.len() == 0 {
            None
        } else {
            let id = self.caller_ids.pop().unwrap();
            Some(id)
        }
    }

    /// Rewrites the destination path.
    pub fn set_shvpath(&mut self, p: Vec<u8>)
        ensures
            final(self).shv_path@ == p@,
            final(self).kind == old(self).kind,
            final(self).request_id == old(self).request_id,
            final(self).method@ == old(self).method@,
            final(self).caller_ids@ == old(self).caller_ids@,
            final(self).param == old(self).param,
            final(self).result == old(self).result,
            final(self).error == old(self).error,
    {
        self.shv_path = p;
    }

    /// Fills the result slot of a response.
    pub fn set_result(&mut self, v: Value)
        ensures
            final(self).result == Some(v),
            final(self).kind == old(self).kind,
            final(self).request_id == old(self).request_id,
            final(self).shv_path@ == old(self).shv_path@,
            final(self).method@ == old(self).method@,
            final(self).caller_ids@ == old(self).caller_ids@,
            final(self).param == old(self).param,
            final(self).error == old(self).error,
    {
        self.result = Some(v);
    }

    /// Fills the error slot of a response.
    pub fn set_error(&mut self, e: RpcError)
        ensures
            final(self).error == Some(e),
            final(self).kind == old(self).kind,
            final(self).request_id == old(self).request_id,
            final(self).shv_path@ == old(self).shv_path@,
            final(self).method@ == old(self).method@,
            final(self).caller_ids@ == old(self).caller_ids@,
            final(self).param == old(self).param,
            final(self).result == old(self).result,
    {
        self.error = Some(e);
    }

    /// Derives response metadata from a request frame: direction swapped,
    /// request id and caller-id stack preserved, payload slots empty.
    /// Yields nothing when the request carries no request id.
    pub fn prepare_response_meta(&self) -> (r: Option<Frame>)
        ensures
            match r {
                Some(m) => response_meta_for(*self, m),
                None => self.request_id is None,
            },
            r is Some <==> self.request_id is Some,
    {
        match self.request_id {
            None => None,
            Some(rid) => {
                let caller_ids = copy_caller_ids(&self.caller_ids);
                Some(Frame {
                    kind: FrameKind::Response,
                    request_id: Some(rid),
                    shv_path: Vec::new(),
                    method: Vec::new(),
                    caller_ids,
                    param: None,
                    result: None,
                    error: None,
                })
            }
        }
    }
}

/// `m` is the response metadata derived from request frame `f`.
pub open spec fn response_meta_for(f: Frame, m: Frame) -> bool {
    &&& m.kind == FrameKind::Response
    &&& m.request_id == f.request_id
    &&& m.shv_path@ == Seq::<u8>::empty()
    &&& m.method@ == Seq::<u8>::empty()
    &&& m.caller_ids@ == f.caller_ids@
    &&& m.param is None
    &&& m.result is None
    &&& m.error is None
}

/// A fresh copy of a caller-id stack.
pub fn copy_caller_ids(a: &Vec<i32>) -> (r: Vec<i32>)
    ensures
        r@ == a@,
{
    let mut out: Vec<i32> = Vec::new();
    let mut i: usize = 0;
    while i < a.len()
        invariant
            0 <= i <= a@.len(),
            out@ == a@.subrange(0, i as int),
        decreases a@.len() - i,
    {
        out.push(a[i]);
        assert(out@ =~= a@.subrange(0, i + 1 as int));
        i += 1;
    }
    assert(out@ =~= a@);
    out
}

/// A caller id pushed onto a frame and then popped comes back unchanged,
/// and the frame is left exactly as it was before the push.
pub proof fn lemma_caller_id_roundtrip(f0: Frame, f1: Frame, f2: Frame, id: i32, popped: Option<i32>)
    requires
        push_caller_id_post(f0, f1, id),
        pop_caller_id_post(f1, f2, popped),
    ensures
        popped == Some(id),
        frame_eq(f2, f0),
{
    assert(f1.caller_ids@.len() > 0);
    assert(f1.caller_ids@.last() == id);
    assert(f2.caller_ids@ =~= f0.caller_ids@);
}

} // verus!
