//! Byte constants of the wire protocol, each as a spec sequence and a
//! matching executable vector.

use vstd::prelude::*;

verus! {

/// The bytes of `"NAK\n"`.
pub open spec fn lit_nak() -> Seq<u8> {
    seq![78u8, 65u8, 75u8, 10u8]
}

pub fn lit_nak_vec() -> (r: Vec<u8>)
    ensures
        r@ == lit_nak(),
{
    let mut v: Vec<u8> = Vec::new();
    v.push(78);
    v.push(65);
    v.push(75);
    v.push(10);
    proof { assert(v@ =~= lit_nak()); }
    v
}

/// The bytes of `"ACK "`.
pub open spec fn lit_ack_prefix() -> Seq<u8> {
    seq![65u8, 67u8, 75u8, 32u8]
}

pub fn lit_ack_prefix_vec() -> (r: Vec<u8>)
    ensures
        r@ == lit_ack_prefix(),
{
    let mut v: Vec<u8> = Vec::new();
    v.push(65);
    v.push(67);
    v.push(75);
    v.push(32);
    proof { assert(v@ =~= lit_ack_prefix()); }
    v
}

/// The bytes of `" common\n"`.
pub open spec fn lit_common_suffix() -> Seq<u8> {
    seq![32u8, 99u8, 111u8, 109u8, 109u8, 111u8, 110u8, 10u8]
}

pub fn lit_common_suffix_vec() -> (r: Vec<u8>)
    ensures
        r@ == lit_common_suffix(),
{
    let mut v: Vec<u8> = Vec::new();
    v.push(32);
    v.push(99);
    v.push(111);
    v.push(109);
    v.push(109);
    v.push(111);
    v.push(110);
    v.push(10);
    proof { assert(v@ =~= lit_common_suffix()); }
    v
}

/// The bytes of `" ready\n"`.
pub open spec fn lit_ready_suffix() -> Seq<u8> {
    seq![32u8, 114u8, 101u8, 97u8, 100u8, 121u8, 10u8]
}

pub fn lit_ready_suffix_vec() -> (r: Vec<u8>)
    ensures
        r@ == lit_ready_suffix(),
{
    let mut v: Vec<u8> = Vec::new();
    v.push(32);
    v.push(114);
    v.push(101);
    v.push(97);
    v.push(100);
    v.push(121);
    v.push(10);
    proof { assert(v@ =~= lit_ready_suffix()); }
    v
}

/// The bytes of `" \n"`.
pub open spec fn lit_ack_last_suffix() -> Seq<u8> {
    seq![32u8, 10u8]
}

pub fn lit_ack_last_suffix_vec() -> (r: Vec<u8>)
    ensures
        r@ == lit_ack_last_suffix(),
{
    let mut v: Vec<u8> = Vec::new();
    v.push(32);
    v.push(10);
    proof { assert(v@ =~= lit_ack_last_suffix()); }
    v
}

/// The bytes of `"unpack ok\n"`.
pub open spec fn lit_unpack_ok() -> Seq<u8> {
    seq![117u8, 110u8, 112u8, 97u8, 99u8, 107u8, 32u8, 111u8, 107u8, 10u8]
}

pub fn lit_unpack_ok_vec() -> (r: Vec<u8>)
    ensures
        r@ == lit_unpack_ok(),
{
    let mut v: Vec<u8> = Vec::new();
    v.push(117);
    v.push(110);
    v.push(112);
    v.push(97);
    v.push(99);
    v.push(107);
    v.push(32);
    v.push(111);
    v.push(107);
    v.push(10);
    proof { assert(v@ =~= lit_unpack_ok()); }
    v
}

/// The bytes of `"unpack "`.
pub open spec fn lit_unpack_prefix() -> Seq<u8> {
    seq![117u8, 110u8, 112u8, 97u8, 99u8, 107u8, 32u8]
}

pub fn lit_unpack_prefix_vec() -> (r: Vec<u8>)
    ensures
        r@ == lit_unpack_prefix(),
{
    let mut v: Vec<u8> = Vec::new();
    v.push(117);
    v.push(110);
    v.push(112);
    v.push(97);
    v.push(99);
    v.push(107);
    v.push(32);
    proof { assert(v@ =~= lit_unpack_prefix()); }
    v
}

/// The bytes of `"ok "`.
pub open spec fn lit_ok_prefix() -> Seq<u8> {
    seq![111u8, 107u8, 32u8]
}

pub fn lit_ok_prefix_vec() -> (r: Vec<u8>)
    ensures
        r@ == lit_ok_prefix(),
{
    let mut v: Vec<u8> = Vec::new();
    v.push(111);
    v.push(107);
    v.push(32);
    proof { assert(v@ =~= lit_ok_prefix()); }
    v
}

/// The bytes of `"ng "`.
pub open spec fn lit_ng_prefix() -> Seq<u8> {
    seq![110u8, 103u8, 32u8]
}

pub fn lit_ng_prefix_vec() -> (r: Vec<u8>)
    ensures
        r@ == lit_ng_prefix(),
{
    let mut v: Vec<u8> = Vec::new();
    v.push(110);
    v.push(103);
    v.push(32);
    proof { assert(v@ =~= lit_ng_prefix()); }
    v
}

/// The bytes of `"\n"`.
pub open spec fn lit_lf() -> Seq<u8> {
    seq![10u8]
}


/// The bytes of `" "`.
pub open spec fn lit_sp() -> Seq<u8> {
    seq![32u8]
}


/// The bytes of `"\0"`.
pub open spec fn lit_nul() -> Seq<u8> {
    seq![0u8]
}


/// The bytes of `"# service="`.
pub open spec fn lit_service_prefix() -> Seq<u8> {
    seq![35u8, 32u8, 115u8, 101u8, 114u8, 118u8, 105u8, 99u8, 101u8, 61u8]
}

pub fn lit_service_prefix_vec() -> (r: Vec<u8>)
    ensures
        r@ == lit_service_prefix(),
{
    let mut v: Vec<u8> = Vec::new();
    v.push(35);
    v.push(32);
    v.push(115);
    v.push(101);
    v.push(114);
    v.push(118);
    v.push(105);
    v.push(99);
    v.push(101);
    v.push(61);
    proof { assert(v@ =~= lit_service_prefix()); }
    v
}

/// The bytes of `"git-upload-pack"`.
pub open spec fn lit_upload_pack_name() -> Seq<u8> {
    seq![103u8, 105u8, 116u8, 45u8, 117u8, 112u8, 108u8, 111u8, 97u8, 100u8, 45u8, 112u8, 97u8, 99u8, 107u8]
}

pub fn lit_upload_pack_name_vec() -> (r: Vec<u8>)
    ensures
        r@ == lit_upload_pack_name(),
{
    let mut v: Vec<u8> = Vec::new();
    v.push(103);
    v.push(105);
    v.push(116);
    v.push(45);
    v.push(117);
    v.push(112);
    v.push(108);
    v.push(111);
    v.push(97);
    v.push(100);
    v.push(45);
    v.push(112);
    v.push(97);
    v.push(99);
    v.push(107);
    proof { assert(v@ =~= lit_upload_pack_name()); }
    v
}

/// The bytes of `"git-receive-pack"`.
pub open spec fn lit_receive_pack_name() -> Seq<u8> {
    seq![103u8, 105u8, 116u8, 45u8, 114u8, 101u8, 99u8, 101u8, 105u8, 118u8, 101u8, 45u8, 112u8, 97u8, 99u8, 107u8]
}

pub fn lit_receive_pack_name_vec() -> (r: Vec<u8>)
    ensures
        r@ == lit_receive_pack_name(),
{
    let mut v: Vec<u8> = Vec::new();
    v.push(103);
    v.push(105);
    v.push(116);
    v.push(45);
    v.push(114);
    v.push(101);
    v.push(99);
    v.push(101);
    v.push(105);
    v.push(118);
    v.push(101);
    v.push(45);
    v.push(112);
    v.push(97);
    v.push(99);
    v.push(107);
    proof { assert(v@ =~= lit_receive_pack_name()); }
    v
}

/// The bytes of `"HEAD"`.
pub open spec fn lit_head_name() -> Seq<u8> {
    seq![72u8, 69u8, 65u8, 68u8]
}

pub fn lit_head_name_vec() -> (r: Vec<u8>)
    ensures
        r@ == lit_head_name(),
{
    let mut v: Vec<u8> = Vec::new();
    v.push(72);
    v.push(69);
    v.push(65);
    v.push(68);
    proof { assert(v@ =~= lit_head_name()); }
    v
}

/// The bytes of `"capabilities^{}"`.
pub open spec fn lit_caps_sentinel() -> Seq<u8> {
    seq![99u8, 97u8, 112u8, 97u8, 98u8, 105u8, 108u8, 105u8, 116u8, 105u8, 101u8, 115u8, 94u8, 123u8, 125u8]
}

pub fn lit_caps_sentinel_vec() -> (r: Vec<u8>)
    ensures
        r@ == lit_caps_sentinel(),
{
    let mut v: Vec<u8> = Vec::new();
    v.push(99);
    v.push(97);
    v.push(112);
    v.push(97);
    v.push(98);
    v.push(105);
    v.push(108);
    v.push(105);
    v.push(116);
    v.push(105);
    v.push(101);
    v.push(115);
    v.push(94);
    v.push(123);
    v.push(125);
    proof { assert(v@ =~= lit_caps_sentinel()); }
    v
}

/// The bytes of `"/main"`.
pub open spec fn lit_main_suffix() -> Seq<u8> {
    seq![47u8, 109u8, 97u8, 105u8, 110u8]
}

pub fn lit_main_suffix_vec() -> (r: Vec<u8>)
    ensures
        r@ == lit_main_suffix(),
{
    let mut v: Vec<u8> = Vec::new();
    v.push(47);
    v.push(109);
    v.push(97);
    v.push(105);
    v.push(110);
    proof { assert(v@ =~= lit_main_suffix()); }
    v
}

/// The bytes of `"/master"`.
pub open spec fn lit_master_suffix() -> Seq<u8> {
    seq![47u8, 109u8, 97u8, 115u8, 116u8, 101u8, 114u8]
}

pub fn lit_master_suffix_vec() -> (r: Vec<u8>)
    ensures
        r@ == lit_master_suffix(),
{
    let mut v: Vec<u8> = Vec::new();
    v.push(47);
    v.push(109);
    v.push(97);
    v.push(115);
    v.push(116);
    v.push(101);
    v.push(114);
    proof { assert(v@ =~= lit_master_suffix()); }
    v
}

/// The bytes of `"refs/tags/"`.
pub open spec fn lit_tags_prefix() -> Seq<u8> {
    seq![114u8, 101u8, 102u8, 115u8, 47u8, 116u8, 97u8, 103u8, 115u8, 47u8]
}

pub fn lit_tags_prefix_vec() -> (r: Vec<u8>)
    ensures
        r@ == lit_tags_prefix(),
{
    let mut v: Vec<u8> = Vec::new();
    v.push(114);
    v.push(101);
    v.push(102);
    v.push(115);
    v.push(47);
    v.push(116);
    v.push(97);
    v.push(103);
    v.push(115);
    v.push(47);
    proof { assert(v@ =~= lit_tags_prefix()); }
    v
}

/// The bytes of `"want"`.
pub open spec fn lit_want() -> Seq<u8> {
    seq![119u8, 97u8, 110u8, 116u8]
}

pub fn lit_want_vec() -> (r: Vec<u8>)
    ensures
        r@ == lit_want(),
{
    let mut v: Vec<u8> = Vec::new();
    v.push(119);
    v.push(97);
    v.push(110);
    v.push(116);
    proof { assert(v@ =~= lit_want()); }
    v
}

/// The bytes of `"have"`.
pub open spec fn lit_have() -> Seq<u8> {
    seq![104u8, 97u8, 118u8, 101u8]
}

pub fn lit_have_vec() -> (r: Vec<u8>)
    ensures
        r@ == lit_have(),
{
    let mut v: Vec<u8> = Vec::new();
    v.push(104);
    v.push(97);
    v.push(118);
    v.push(101);
    proof { assert(v@ =~= lit_have()); }
    v
}

/// The bytes of `"done"`.
pub open spec fn lit_done() -> Seq<u8> {
    seq![100u8, 111u8, 110u8, 101u8]
}

pub fn lit_done_vec() -> (r: Vec<u8>)
    ensures
        r@ == lit_done(),
{
    let mut v: Vec<u8> = Vec::new();
    v.push(100);
    v.push(111);
    v.push(110);
    v.push(101);
    proof { assert(v@ =~= lit_done()); }
    v
}

/// The bytes of `"multi_ack"`.
pub open spec fn lit_multi_ack() -> Seq<u8> {
    seq![109u8, 117u8, 108u8, 116u8, 105u8, 95u8, 97u8, 99u8, 107u8]
}

pub fn lit_multi_ack_vec() -> (r: Vec<u8>)
    ensures
        r@ == lit_multi_ack(),
{
    let mut v: Vec<u8> = Vec::new();
    v.push(109);
    v.push(117);
    v.push(108);
    v.push(116);
    v.push(105);
    v.push(95);
    v.push(97);
    v.push(99);
    v.push(107);
    proof { assert(v@ =~= lit_multi_ack()); }
    v
}

/// The bytes of `"multi_ack_detailed"`.
pub open spec fn lit_multi_ack_detailed() -> Seq<u8> {
    seq![109u8, 117u8, 108u8, 116u8, 105u8, 95u8, 97u8, 99u8, 107u8, 95u8, 100u8, 101u8, 116u8, 97u8, 105u8, 108u8, 101u8, 100u8]
}

pub fn lit_multi_ack_detailed_vec() -> (r: Vec<u8>)
    ensures
        r@ == lit_multi_ack_detailed(),
{
    let mut v: Vec<u8> = Vec::new();
    v.push(109);
    v.push(117);
    v.push(108);
    v.push(116);
    v.push(105);
    v.push(95);
    v.push(97);
    v.push(99);
    v.push(107);
    v.push(95);
    v.push(100);
    v.push(101);
    v.push(116);
    v.push(97);
    v.push(105);
    v.push(108);
    v.push(101);
    v.push(100);
    proof { assert(v@ =~= lit_multi_ack_detailed()); }
    v
}

/// The bytes of `"side-band"`.
pub open spec fn lit_side_band() -> Seq<u8> {
    seq![115u8, 105u8, 100u8, 101u8, 45u8, 98u8, 97u8, 110u8, 100u8]
}

pub fn lit_side_band_vec() -> (r: Vec<u8>)
    ensures
        r@ == lit_side_band(),
{
    let mut v: Vec<u8> = Vec::new();
    v.push(115);
    v.push(105);
    v.push(100);
    v.push(101);
    v.push(45);
    v.push(98);
    v.push(97);
    v.push(110);
    v.push(100);
    proof { assert(v@ =~= lit_side_band()); }
    v
}

/// The bytes of `"side-band-64k"`.
pub open spec fn lit_side_band_64k() -> Seq<u8> {
    seq![115u8, 105u8, 100u8, 101u8, 45u8, 98u8, 97u8, 110u8, 100u8, 45u8, 54u8, 52u8, 107u8]
}

pub fn lit_side_band_64k_vec() -> (r: Vec<u8>)
    ensures
        r@ == lit_side_band_64k(),
{
    let mut v: Vec<u8> = Vec::new();
    v.push(115);
    v.push(105);
    v.push(100);
    v.push(101);
    v.push(45);
    v.push(98);
    v.push(97);
    v.push(110);
    v.push(100);
    v.push(45);
    v.push(54);
    v.push(52);
    v.push(107);
    proof { assert(v@ =~= lit_side_band_64k()); }
    v
}

/// The bytes of `"ofs-delta"`.
pub open spec fn lit_ofs_delta() -> Seq<u8> {
    seq![111u8, 102u8, 115u8, 45u8, 100u8, 101u8, 108u8, 116u8, 97u8]
}

pub fn lit_ofs_delta_vec() -> (r: Vec<u8>)
    ensures
        r@ == lit_ofs_delta(),
{
    let mut v: Vec<u8> = Vec::new();
    v.push(111);
    v.push(102);
    v.push(115);
    v.push(45);
    v.push(100);
    v.push(101);
    v.push(108);
    v.push(116);
    v.push(97);
    proof { assert(v@ =~= lit_ofs_delta()); }
    v
}

/// The bytes of `"report-status"`.
pub open spec fn lit_report_status() -> Seq<u8> {
    seq![114u8, 101u8, 112u8, 111u8, 114u8, 116u8, 45u8, 115u8, 116u8, 97u8, 116u8, 117u8, 115u8]
}

pub fn lit_report_status_vec() -> (r: Vec<u8>)
    ensures
        r@ == lit_report_status(),
{
    let mut v: Vec<u8> = Vec::new();
    v.push(114);
    v.push(101);
    v.push(112);
    v.push(111);
    v.push(114);
    v.push(116);
    v.push(45);
    v.push(115);
    v.push(116);
    v.push(97);
    v.push(116);
    v.push(117);
    v.push(115);
    proof { assert(v@ =~= lit_report_status()); }
    v
}

/// The bytes of `"no-done"`.
pub open spec fn lit_no_done() -> Seq<u8> {
    seq![110u8, 111u8, 45u8, 100u8, 111u8, 110u8, 101u8]
}

pub fn lit_no_done_vec() -> (r: Vec<u8>)
    ensures
        r@ == lit_no_done(),
{
    let mut v: Vec<u8> = Vec::new();
    v.push(110);
    v.push(111);
    v.push(45);
    v.push(100);
    v.push(111);
    v.push(110);
    v.push(101);
    proof { assert(v@ =~= lit_no_done()); }
    v
}

/// The bytes of `"thin-pack"`.
pub open spec fn lit_thin_pack() -> Seq<u8> {
    seq![116u8, 104u8, 105u8, 110u8, 45u8, 112u8, 97u8, 99u8, 107u8]
}

pub fn lit_thin_pack_vec() -> (r: Vec<u8>)
    ensures
        r@ == lit_thin_pack(),
{
    let mut v: Vec<u8> = Vec::new();
    v.push(116);
    v.push(104);
    v.push(105);
    v.push(110);
    v.push(45);
    v.push(112);
    v.push(97);
    v.push(99);
    v.push(107);
    proof { assert(v@ =~= lit_thin_pack()); }
    v
}

/// The bytes of `"agent="`.
pub open spec fn lit_agent_prefix() -> Seq<u8> {
    seq![97u8, 103u8, 101u8, 110u8, 116u8, 61u8]
}

pub fn lit_agent_prefix_vec() -> (r: Vec<u8>)
    ensures
        r@ == lit_agent_prefix(),
{
    let mut v: Vec<u8> = Vec::new();
    v.push(97);
    v.push(103);
    v.push(101);
    v.push(110);
    v.push(116);
    v.push(61);
    proof { assert(v@ =~= lit_agent_prefix()); }
    v
}

} // verus!
