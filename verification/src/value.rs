//! A small dynamic value model for RPC parameters and results, with an
//! association-list map and the RPC error type.

use vstd::prelude::*;

verus! {

/// A dynamic RPC value: scalar, byte string, list, or map keyed by bytes.
pub enum Value {
    Null,
    Bool(bool),
    Int(i64),
    Bytes(Vec<u8>),
    List(Vec<Value>),
    Dict(Vec<(Vec<u8>, Value)>),
}

/// Error kinds the broker produces.
#[derive(Clone, Copy, PartialEq, Eq, Structural, Debug)]
pub enum RpcErrorCode {
    InvalidRequest,
    MethodCallException,
}

/// An RPC-level error: a kind and a human-readable message.
pub struct RpcError {
    pub code: RpcErrorCode,
    pub message: Vec<u8>,
}

/// First entry of the association list whose key equals `key`, if any.
pub open spec fn assoc_get(entries: Seq<(Vec<u8>, Value)>, key: Seq<u8>) -> Option<Value>
    decreases entries.len(),
{
    if entries.len() == 0 {
        None
    } else if entries[0].0@ == key {
        Some(entries[0].1)
    } else {
        assoc_get(entries.skip(1), key)
    }
}

/// Looks `key` up in a value map, first match wins.
pub fn map_get<'a>(entries: &'a Vec<(Vec<u8>, Value)>, key: &[u8]) -> (r: Option<&'a Value>)
    ensures
        match r {
            Some(v) => assoc_get(entries@, key@) == Some(*v),
            None => assoc_get(entries@, key@) is None,
        },
{
    let mut i: usize = 0;
    assert(entries@.skip(0) =~= entries@);
    while i < entries.len()
        invariant
            0 <= i <= entries@.len(),
            assoc_get(entries@, key@) == assoc_get(entries@.skip(i as int), key@),
        decreases entries@.len() - i,
    {
        if crate::bytes::bytes_eq(entries[i].0.as_slice(), key) {
            assert(entries@.skip(i as int)[0] == entries@[i as int]);
            return Some(&entries[i].1);
        }
        assert(entries@.skip(i as int).skip(1) =~= entries@.skip(i + 1 as int));
        i += 1;
    }
    None
}

/// The byte payload of a byte-string value, empty for any other shape,
/// mirroring a dynamic-value accessor that defaults to an empty string.
pub open spec fn value_bytes(v: Value) -> Seq<u8> {
    match v {
        Value::Bytes(b) => b@,
        _ => Seq::empty(),
    }
}

/// A fresh copy of the byte payload of a value, empty for any other shape.
pub fn value_to_bytes(v: &Value) -> (r: Vec<u8>)
    ensures
        r@ == value_bytes(*v),
{
    match v {
        Value::Bytes(b) => crate::bytes::copy_bytes(b.as_slice()),
        _ => Vec::new(),
    }
}

/// The map entries when the value is a map, else no entries at all,
/// mirroring a dynamic-value accessor that defaults to an empty map.
pub open spec fn spec_as_map_get(v: Value, key: Seq<u8>) -> Option<Value> {
    match v {
        Value::Dict(entries) => assoc_get(entries@, key),
        _ => None,
    }
}

/// Looks `key` up under a value that should be a map; any other shape
/// behaves as an empty map.
pub fn value_map_get<'a>(v: &'a Value, key: &[u8]) -> (r: Option<&'a Value>)
    ensures
        match r {
            Some(got) => spec_as_map_get(*v, key@) == Some(*got),
            None => spec_as_map_get(*v, key@) is None,
        },
{
    match v {
        Value::Dict(entries) => map_get(entries, key),
        _ => None,
    }
}

} // verus!
