//! The protocol's fixed words: method names, parameter keys, the
//! reserved paths and the fixed error messages, as byte constants.

use vstd::prelude::*;

verus! {

/// The bytes of `"hello"`.
pub open spec fn w_hello() -> Seq<u8> {
    seq![104u8, 101u8, 108u8, 108u8, 111u8]
}

/// A fresh vector holding the bytes of `"hello"`.
pub fn hello_bytes() -> (r: Vec<u8>)
    ensures
        r@ == w_hello(),
{
    let v: Vec<u8> = vec![104u8, 101u8, 108u8, 108u8, 111u8];
    assert(v@ =~= w_hello());
    v
}

/// The bytes of `"login"`.
pub open spec fn w_login() -> Seq<u8> {
    seq![108u8, 111u8, 103u8, 105u8, 110u8]
}

/// A fresh vector holding the bytes of `"login"`.
pub fn login_bytes() -> (r: Vec<u8>)
    ensures
        r@ == w_login(),
{
    let v: Vec<u8> = vec![108u8, 111u8, 103u8, 105u8, 110u8];
    assert(v@ =~= w_login());
    v
}

/// The bytes of `"user"`.
pub open spec fn w_user() -> Seq<u8> {
    seq![117u8, 115u8, 101u8, 114u8]
}

/// A fresh vector holding the bytes of `"user"`.
pub fn user_bytes() -> (r: Vec<u8>)
    ensures
        r@ == w_user(),
{
    let v: Vec<u8> = vec![117u8, 115u8, 101u8, 114u8];
    assert(v@ =~= w_user());
    v
}

/// The bytes of `"password"`.
pub open spec fn w_password() -> Seq<u8> {
    seq![112u8, 97u8, 115u8, 115u8, 119u8, 111u8, 114u8, 100u8]
}

/// A fresh vector holding the bytes of `"password"`.
pub fn password_bytes() -> (r: Vec<u8>)
    ensures
        r@ == w_password(),
{
    let v: Vec<u8> = vec![112u8, 97u8, 115u8, 115u8, 119u8, 111u8, 114u8, 100u8];
    assert(v@ =~= w_password());
    v
}

/// The bytes of `"type"`.
pub open spec fn w_login_type() -> Seq<u8> {
    seq![116u8, 121u8, 112u8, 101u8]
}

/// A fresh vector holding the bytes of `"type"`.
pub fn login_type_bytes() -> (r: Vec<u8>)
    ensures
        r@ == w_login_type(),
{
    let v: Vec<u8> = vec![116u8, 121u8, 112u8, 101u8];
    assert(v@ =~= w_login_type());
    v
}

/// The bytes of `"PLAIN"`.
pub open spec fn w_plain() -> Seq<u8> {
    seq![80u8, 76u8, 65u8, 73u8, 78u8]
}

/// A fresh vector holding the bytes of `"PLAIN"`.
pub fn plain_bytes() -> (r: Vec<u8>)
    ensures
        r@ == w_plain(),
{
    let v: Vec<u8> = vec![80u8, 76u8, 65u8, 73u8, 78u8];
    assert(v@ =~= w_plain());
    v
}

/// The bytes of `"options"`.
pub open spec fn w_options() -> Seq<u8> {
    seq![111u8, 112u8, 116u8, 105u8, 111u8, 110u8, 115u8]
}

/// A fresh vector holding the bytes of `"options"`.
pub fn options_bytes() -> (r: Vec<u8>)
    ensures
        r@ == w_options(),
{
    let v: Vec<u8> = vec![111u8, 112u8, 116u8, 105u8, 111u8, 110u8, 115u8];
    assert(v@ =~= w_options());
    v
}

/// The bytes of `"device"`.
pub open spec fn w_device() -> Seq<u8> {
    seq![100u8, 101u8, 118u8, 105u8, 99u8, 101u8]
}

/// A fresh vector holding the bytes of `"device"`.
pub fn device_bytes() -> (r: Vec<u8>)
    ensures
        r@ == w_device(),
{
    let v: Vec<u8> = vec![100u8, 101u8, 118u8, 105u8, 99u8, 101u8];
    assert(v@ =~= w_device());
    v
}

/// The bytes of `"deviceId"`.
pub open spec fn w_device_id() -> Seq<u8> {
    seq![100u8, 101u8, 118u8, 105u8, 99u8, 101u8, 73u8, 100u8]
}

/// A fresh vector holding the bytes of `"deviceId"`.
pub fn device_id_bytes() -> (r: Vec<u8>)
    ensures
        r@ == w_device_id(),
{
    let v: Vec<u8> = vec![100u8, 101u8, 118u8, 105u8, 99u8, 101u8, 73u8, 100u8];
    assert(v@ =~= w_device_id());
    v
}

/// The bytes of `"mountPoint"`.
pub open spec fn w_mount_point() -> Seq<u8> {
    seq![109u8, 111u8, 117u8, 110u8, 116u8, 80u8, 111u8, 105u8, 110u8, 116u8]
}

/// A fresh vector holding the bytes of `"mountPoint"`.
pub fn mount_point_bytes() -> (r: Vec<u8>)
    ensures
        r@ == w_mount_point(),
{
    let v: Vec<u8> = vec![109u8, 111u8, 117u8, 110u8, 116u8, 80u8, 111u8, 105u8, 110u8, 116u8];
    assert(v@ =~= w_mount_point());
    v
}

/// The bytes of `"nonce"`.
pub open spec fn w_nonce_key() -> Seq<u8> {
    seq![110u8, 111u8, 110u8, 99u8, 101u8]
}

/// A fresh vector holding the bytes of `"nonce"`.
pub fn nonce_key_bytes() -> (r: Vec<u8>)
    ensures
        r@ == w_nonce_key(),
{
    let v: Vec<u8> = vec![110u8, 111u8, 110u8, 99u8, 101u8];
    assert(v@ =~= w_nonce_key());
    v
}

/// The bytes of `"clientId"`.
pub open spec fn w_client_id_key() -> Seq<u8> {
    seq![99u8, 108u8, 105u8, 101u8, 110u8, 116u8, 73u8, 100u8]
}

/// A fresh vector holding the bytes of `"clientId"`.
pub fn client_id_key_bytes() -> (r: Vec<u8>)
    ensures
        r@ == w_client_id_key(),
{
    let v: Vec<u8> = vec![99u8, 108u8, 105u8, 101u8, 110u8, 116u8, 73u8, 100u8];
    assert(v@ =~= w_client_id_key());
    v
}

/// The bytes of `"appName"`.
pub open spec fn w_app_name_method() -> Seq<u8> {
    seq![97u8, 112u8, 112u8, 78u8, 97u8, 109u8, 101u8]
}

/// A fresh vector holding the bytes of `"appName"`.
pub fn app_name_method_bytes() -> (r: Vec<u8>)
    ensures
        r@ == w_app_name_method(),
{
    let v: Vec<u8> = vec![97u8, 112u8, 112u8, 78u8, 97u8, 109u8, 101u8];
    assert(v@ =~= w_app_name_method());
    v
}

/// The bytes of `"dir"`.
pub open spec fn w_dir_method() -> Seq<u8> {
    seq![100u8, 105u8, 114u8]
}

/// A fresh vector holding the bytes of `"dir"`.
pub fn dir_method_bytes() -> (r: Vec<u8>)
    ensures
        r@ == w_dir_method(),
{
    let v: Vec<u8> = vec![100u8, 105u8, 114u8];
    assert(v@ =~= w_dir_method());
    v
}

/// The bytes of `"ls"`.
pub open spec fn w_ls_method() -> Seq<u8> {
    seq![108u8, 115u8]
}

/// A fresh vector holding the bytes of `"ls"`.
pub fn ls_method_bytes() -> (r: Vec<u8>)
    ensures
        r@ == w_ls_method(),
{
    let v: Vec<u8> = vec![108u8, 115u8];
    assert(v@ =~= w_ls_method());
    v
}

/// The bytes of `".app"`.
pub open spec fn w_dot_app() -> Seq<u8> {
    seq![46u8, 97u8, 112u8, 112u8]
}

/// A fresh vector holding the bytes of `".app"`.
pub fn dot_app_bytes() -> (r: Vec<u8>)
    ensures
        r@ == w_dot_app(),
{
    let v: Vec<u8> = vec![46u8, 97u8, 112u8, 112u8];
    assert(v@ =~= w_dot_app());
    v
}

/// The bytes of `"test/"`.
pub open spec fn w_test_prefix() -> Seq<u8> {
    seq![116u8, 101u8, 115u8, 116u8, 47u8]
}

/// A fresh vector holding the bytes of `"test/"`.
pub fn test_prefix_bytes() -> (r: Vec<u8>)
    ensures
        r@ == w_test_prefix(),
{
    let v: Vec<u8> = vec![116u8, 101u8, 115u8, 116u8, 47u8];
    assert(v@ =~= w_test_prefix());
    v
}

/// The bytes of `"shvbroker"`.
pub open spec fn w_broker_app_name() -> Seq<u8> {
    seq![115u8, 104u8, 118u8, 98u8, 114u8, 111u8, 107u8, 101u8, 114u8]
}

/// A fresh vector holding the bytes of `"shvbroker"`.
pub fn broker_app_name_bytes() -> (r: Vec<u8>)
    ensures
        r@ == w_broker_app_name(),
{
    let v: Vec<u8> = vec![115u8, 104u8, 118u8, 98u8, 114u8, 111u8, 107u8, 101u8, 114u8];
    assert(v@ =~= w_broker_app_name());
    v
}

/// The bytes of `"Method not found"`.
pub open spec fn w_msg_method_not_found() -> Seq<u8> {
    seq![77u8, 101u8, 116u8, 104u8, 111u8, 100u8, 32u8, 110u8, 111u8, 116u8, 32u8, 102u8, 111u8, 117u8, 110u8, 100u8]
}

/// A fresh vector holding the bytes of `"Method not found"`.
pub fn msg_method_not_found_bytes() -> (r: Vec<u8>)
    ensures
        r@ == w_msg_method_not_found(),
{
    let v: Vec<u8> = vec![77u8, 101u8, 116u8, 104u8, 111u8, 100u8, 32u8, 110u8, 111u8, 116u8, 32u8, 102u8, 111u8, 117u8, 110u8, 100u8];
    assert(v@ =~= w_msg_method_not_found());
    v
}

/// The bytes of `"hello message expected."`.
pub open spec fn w_msg_hello_expected() -> Seq<u8> {
    seq![104u8, 101u8, 108u8, 108u8, 111u8, 32u8, 109u8, 101u8, 115u8, 115u8, 97u8, 103u8, 101u8, 32u8, 101u8, 120u8, 112u8, 101u8, 99u8, 116u8, 101u8, 100u8, 46u8]
}

/// A fresh vector holding the bytes of `"hello message expected."`.
pub fn msg_hello_expected_bytes() -> (r: Vec<u8>)
    ensures
        r@ == w_msg_hello_expected(),
{
    let v: Vec<u8> = vec![104u8, 101u8, 108u8, 108u8, 111u8, 32u8, 109u8, 101u8, 115u8, 115u8, 97u8, 103u8, 101u8, 32u8, 101u8, 120u8, 112u8, 101u8, 99u8, 116u8, 101u8, 100u8, 46u8];
    assert(v@ =~= w_msg_hello_expected());
    v
}

/// The bytes of `"login message expected."`.
pub open spec fn w_msg_login_expected() -> Seq<u8> {
    seq![108u8, 111u8, 103u8, 105u8, 110u8, 32u8, 109u8, 101u8, 115u8, 115u8, 97u8, 103u8, 101u8, 32u8, 101u8, 120u8, 112u8, 101u8, 99u8, 116u8, 101u8, 100u8, 46u8]
}

/// A fresh vector holding the bytes of `"login message expected."`.
pub fn msg_login_expected_bytes() -> (r: Vec<u8>)
    ensures
        r@ == w_msg_login_expected(),
{
    let v: Vec<u8> = vec![108u8, 111u8, 103u8, 105u8, 110u8, 32u8, 109u8, 101u8, 115u8, 115u8, 97u8, 103u8, 101u8, 32u8, 101u8, 120u8, 112u8, 101u8, 99u8, 116u8, 101u8, 100u8, 46u8];
    assert(v@ =~= w_msg_login_expected());
    v
}

/// The bytes of `"Invalid login credentials received."`.
pub open spec fn w_msg_invalid_login() -> Seq<u8> {
    seq![73u8, 110u8, 118u8, 97u8, 108u8, 105u8, 100u8, 32u8, 108u8, 111u8, 103u8, 105u8, 110u8, 32u8, 99u8, 114u8, 101u8, 100u8, 101u8, 110u8, 116u8, 105u8, 97u8, 108u8, 115u8, 32u8, 114u8, 101u8, 99u8, 101u8, 105u8, 118u8, 101u8, 100u8, 46u8]
}

/// A fresh vector holding the bytes of `"Invalid login credentials received."`.
pub fn msg_invalid_login_bytes() -> (r: Vec<u8>)
    ensures
        r@ == w_msg_invalid_login(),
{
    let v: Vec<u8> = vec![73u8, 110u8, 118u8, 97u8, 108u8, 105u8, 100u8, 32u8, 108u8, 111u8, 103u8, 105u8, 110u8, 32u8, 99u8, 114u8, 101u8, 100u8, 101u8, 110u8, 116u8, 105u8, 97u8, 108u8, 115u8, 32u8, 114u8, 101u8, 99u8, 101u8, 105u8, 118u8, 101u8, 100u8, 46u8];
    assert(v@ =~= w_msg_invalid_login());
    v
}

} // verus!
