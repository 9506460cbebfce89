//! The built-in node contract: the app introspection node, and the
//! `dir`/`ls` fallback that answers in the gaps between mounts.

use vstd::prelude::*;
use crate::value::{Value, RpcError, RpcErrorCode, value_bytes};
use crate::mounts::{MountTable, AppNode, is_child_of, ls_valid};
use crate::words::{w_app_name_method, w_dir_method, w_ls_method, w_msg_method_not_found,
    app_name_method_bytes, dir_method_bytes, ls_method_bytes, msg_method_not_found_bytes};

verus! {

/// What a synchronous node hands back: a result value with an optional
/// signal to emit, or an RPC error.
pub type ProcessRequestResult = Result<(Value, Option<Value>), RpcError>;

/// The list entries `l` are exactly the immediate child segments of `p`
/// among the table keys, each a byte string, without duplicates.
pub open spec fn ls_result_ok(s: Seq<(Seq<u8>, crate::mounts::MountView)>, p: Seq<u8>, l: Seq<Value>) -> bool {
    &&& forall|j: int| 0 <= j < l.len() ==> (#[trigger] l[j]) is Bytes && is_child_of(s, p, value_bytes(l[j]))
    &&& forall|c: Seq<u8>| #[trigger] is_child_of(s, p, c) ==> exists|j: int| 0 <= j < l.len() && value_bytes(#[trigger] l[j]) == c
    &&& forall|j1: int, j2: int| 0 <= j1 < j2 < l.len() ==> value_bytes(#[trigger] l[j1]) != value_bytes(#[trigger] l[j2])
}

/// The error every node gives for a method it does not know.
pub open spec fn is_method_not_found(e: RpcError) -> bool {
    e.code == RpcErrorCode::MethodCallException && e.message@ == w_msg_method_not_found()
}

/// What the app node answers: its name on `appName`, reflection on
/// `dir`/`ls` at its root, and an error for anything else.
pub open spec fn app_request_post(app_name: Seq<u8>, rem: Seq<u8>, method: Seq<u8>, r: ProcessRequestResult) -> bool {
    if rem.len() == 0 && method == w_app_name_method() {
        &&& r matches Ok((v, sig))
        &&& sig is None
        &&& v matches Value::Bytes(b)
        &&& b@ == app_name
    } else if rem.len() == 0 && method == w_dir_method() {
        &&& r matches Ok((v, sig))
        &&& sig is None
        &&& v matches Value::List(l)
        &&& l@.len() == 3
        &&& value_bytes(l@[0]) == w_dir_method()
        &&& value_bytes(l@[1]) == w_ls_method()
        &&& value_bytes(l@[2]) == w_app_name_method()
    } else if rem.len() == 0 && method == w_ls_method() {
        &&& r matches Ok((v, sig))
        &&& sig is None
        &&& v matches Value::List(l)
        &&& l@.len() == 0
    } else {
        &&& r matches Err(e)
        &&& is_method_not_found(e)
    }
}

/// What the mount-gap fallback answers: `ls` lists child segments, `dir`
/// lists its two methods, anything else is an error; both only where the
/// path lies within the tree the mount keys span.
pub open spec fn dir_ls_post(s: Seq<(Seq<u8>, crate::mounts::MountView)>, p: Seq<u8>, method: Seq<u8>, r: ProcessRequestResult) -> bool {
    if method == w_ls_method() && ls_valid(s, p) {
        &&& r matches Ok((v, sig))
        &&& sig is None
        &&& v matches Value::List(l)
        &&& ls_result_ok(s, p, l@)
    } else if method == w_dir_method() && ls_valid(s, p) {
        &&& r matches Ok((v, sig))
        &&& sig is None
        &&& v matches Value::List(l)
        &&& l@.len() == 2
        &&& value_bytes(l@[0]) == w_dir_method()
        &&& value_bytes(l@[1]) == w_ls_method()
    } else {
        &&& r matches Err(e)
        &&& is_method_not_found(e)
    }
}

/// The `Method not found` RPC error.
pub fn method_not_found_error() -> (r: RpcError)
    ensures
        is_method_not_found(r),
{
    RpcError { code: RpcErrorCode::MethodCallException, message: msg_method_not_found_bytes() }
}

impl AppNode {
    /// Answers a request addressed to this node, already stripped of the
    /// mount prefix.
    pub fn process_request(&self, rem: &[u8], method: &[u8]) -> (r: ProcessRequestResult)
        ensures
            app_request_post(self.app_name@, rem@, method@, r),
    {
        if rem.len() == 0 && crate::bytes::bytes_eq(method, app_name_method_bytes().as_slice()) {
            let name = crate::bytes::copy_bytes(self.app_name.as_slice());
            Ok((Value::Bytes(name), None))
        } else if rem.len() == 0 && crate::bytes::bytes_eq(method, dir_method_bytes().as_slice()) {
            let mut l: Vec<Value> = Vec::new();
            l.push(Value::Bytes(dir_method_bytes()));
            l.push(Value::Bytes(ls_method_bytes()));
            l.push(Value::Bytes(app_name_method_bytes()));
            Ok((Value::List(l), None))
        } else if rem.len() == 0 && crate::bytes::bytes_eq(method, ls_method_bytes().as_slice()) {
            let l: Vec<Value> = Vec::new();
            Ok((Value::List(l), None))
        } else {
            Err(method_not_found_error())
        }
    }
}

/// Answers `dir` and `ls` on request paths that land between mounts,
/// enumerating child segments from the mount-table keys.
pub fn dir_ls(mounts: &MountTable, shv_path: &[u8], method: &[u8]) -> (r: ProcessRequestResult)
    ensures
        dir_ls_post(mounts@, shv_path@, method@, r),
{
    let valid = mounts.subtree_exists(shv_path);
    if crate::bytes::bytes_eq(method, ls_method_bytes().as_slice()) && valid {
        let children = mounts.children_of_path(shv_path);
        let mut l: Vec<Value> = Vec::new();
        let mut i: usize = 0;
        while i < children.len()
            invariant
                0 <= i <= children@.len(),
                l@.len() == i,
                forall|j: int| 0 <= j < i ==> ((#[trigger] l@[j]) is Bytes && value_bytes(l@[j]) == children@[j]@),
                forall|j: int| 0 <= j < children@.len() ==> is_child_of(mounts@, shv_path@, (#[trigger] children@[j])@),
                forall|j1: int, j2: int| 0 <= j1 < j2 < children@.len() ==> (#[trigger] children@[j1])@ != (#[trigger] children@[j2])@,
            decreases children@.len() - i,
        {
            let c = crate::bytes::copy_bytes(children[i].as_slice());
            let ghost l0 = l@;
            l.push(Value::Bytes(c));
            proof {
                assert(l@ == l0.push(Value::Bytes(c)));
                assert forall|j: int| 0 <= j < i + 1 implies
                    ((#[trigger] l@[j]) is Bytes && value_bytes(l@[j]) == children@[j]@) by {
                    if j == i {
                        assert(l@[j] == Value::Bytes(c));
                    } else {
                        assert(l@[j] == l0[j]);
                    }
                }
            }
            i += 1;
        }
        proof {
            assert forall|c: Seq<u8>| #[trigger] is_child_of(mounts@, shv_path@, c)
                implies exists|j: int| 0 <= j < l@.len() && value_bytes(#[trigger] l@[j]) == c by {
                let j = choose|j: int| 0 <= j < children@.len() && (#[trigger] children@[j])@ == c;
                assert(value_bytes(l@[j]) == c);
            }
        }
        Ok((Value::List(l), None))
    } else if crate::bytes::bytes_eq(method, dir_method_bytes().as_slice()) && valid {
        let mut l: Vec<Value> = Vec::new();
        l.push(Value::Bytes(dir_method_bytes()));
        l.push(Value::Bytes(ls_method_bytes()));
        Ok((Value::List(l), None))
    } else {
        Err(method_not_found_error())
    }
}

} // verus!
