//! The fixed byte tokens of the wire format: object braces, quoted field
//! names and the separators between fields, in the canonical order the
//! encoder emits them.

use vstd::prelude::*;

verus! {

/// The bytes of `{"body":`.
pub open spec fn tok_body_open() -> Seq<u8> {
    seq![123u8, 34u8, 98u8, 111u8, 100u8, 121u8, 34u8, 58u8]
}

/// Append the token `{"body":`.
pub fn push_tok_body_open(out: &mut Vec<u8>)
    ensures
        final(out)@ == old(out)@ + tok_body_open(),
{
    out.push(123);
    out.push(34);
    out.push(98);
    out.push(111);
    out.push(100);
    out.push(121);
    out.push(34);
    out.push(58);
    assert(final(out)@ =~= old(out)@ + tok_body_open());
}

/// The bytes of `,"front_left_leg":`.
pub open spec fn tok_fll() -> Seq<u8> {
    seq![44u8, 34u8, 102u8, 114u8, 111u8, 110u8, 116u8, 95u8, 108u8, 101u8, 102u8, 116u8, 95u8, 108u8, 101u8, 103u8, 34u8, 58u8]
}

/// Append the token `,"front_left_leg":`.
pub fn push_tok_fll(out: &mut Vec<u8>)
    ensures
        final(out)@ == old(out)@ + tok_fll(),
{
    out.push(44);
    out.push(34);
    out.push(102);
    out.push(114);
    out.push(111);
    out.push(110);
    out.push(116);
    out.push(95);
    out.push(108);
    out.push(101);
    out.push(102);
    out.push(116);
    out.push(95);
    out.push(108);
    out.push(101);
    out.push(103);
    out.push(34);
    out.push(58);
    assert(final(out)@ =~= old(out)@ + tok_fll());
}

/// The bytes of `,"front_right_leg":`.
pub open spec fn tok_frl() -> Seq<u8> {
    seq![44u8, 34u8, 102u8, 114u8, 111u8, 110u8, 116u8, 95u8, 114u8, 105u8, 103u8, 104u8, 116u8, 95u8, 108u8, 101u8, 103u8, 34u8, 58u8]
}

/// Append the token `,"front_right_leg":`.
pub fn push_tok_frl(out: &mut Vec<u8>)
    ensures
        final(out)@ == old(out)@ + tok_frl(),
{
    out.push(44);
    out.push(34);
    out.push(102);
    out.push(114);
    out.push(111);
    out.push(110);
    out.push(116);
    out.push(95);
    out.push(114);
    out.push(105);
    out.push(103);
    out.push(104);
    out.push(116);
    out.push(95);
    out.push(108);
    out.push(101);
    out.push(103);
    out.push(34);
    out.push(58);
    assert(final(out)@ =~= old(out)@ + tok_frl());
}

/// The bytes of `,"back_left_leg":`.
pub open spec fn tok_bll() -> Seq<u8> {
    seq![44u8, 34u8, 98u8, 97u8, 99u8, 107u8, 95u8, 108u8, 101u8, 102u8, 116u8, 95u8, 108u8, 101u8, 103u8, 34u8, 58u8]
}

/// Append the token `,"back_left_leg":`.
pub fn push_tok_bll(out: &mut Vec<u8>)
    ensures
        final(out)@ == old(out)@ + tok_bll(),
{
    out.push(44);
    out.push(34);
    out.push(98);
    out.push(97);
    out.push(99);
    out.push(107);
    out.push(95);
    out.push(108);
    out.push(101);
    out.push(102);
    out.push(116);
    out.push(95);
    out.push(108);
    out.push(101);
    out.push(103);
    out.push(34);
    out.push(58);
    assert(final(out)@ =~= old(out)@ + tok_bll());
}

/// The bytes of `,"back_right_leg":`.
pub open spec fn tok_brl() -> Seq<u8> {
    seq![44u8, 34u8, 98u8, 97u8, 99u8, 107u8, 95u8, 114u8, 105u8, 103u8, 104u8, 116u8, 95u8, 108u8, 101u8, 103u8, 34u8, 58u8]
}

/// Append the token `,"back_right_leg":`.
pub fn push_tok_brl(out: &mut Vec<u8>)
    ensures
        final(out)@ == old(out)@ + tok_brl(),
{
    out.push(44);
    out.push(34);
    out.push(98);
    out.push(97);
    out.push(99);
    out.push(107);
    out.push(95);
    out.push(114);
    out.push(105);
    out.push(103);
    out.push(104);
    out.push(116);
    out.push(95);
    out.push(108);
    out.push(101);
    out.push(103);
    out.push(34);
    out.push(58);
    assert(final(out)@ =~= old(out)@ + tok_brl());
}

/// The bytes of `{"shoulder":`.
pub open spec fn tok_trip_open() -> Seq<u8> {
    seq![123u8, 34u8, 115u8, 104u8, 111u8, 117u8, 108u8, 100u8, 101u8, 114u8, 34u8, 58u8]
}

/// Append the token `{"shoulder":`.
pub fn push_tok_trip_open(out: &mut Vec<u8>)
    ensures
        final(out)@ == old(out)@ + tok_trip_open(),
{
    out.push(123);
    out.push(34);
    out.push(115);
    out.push(104);
    out.push(111);
    out.push(117);
    out.push(108);
    out.push(100);
    out.push(101);
    out.push(114);
    out.push(34);
    out.push(58);
    assert(final(out)@ =~= old(out)@ + tok_trip_open());
}

/// The bytes of `,"arm":`.
pub open spec fn tok_arm() -> Seq<u8> {
    seq![44u8, 34u8, 97u8, 114u8, 109u8, 34u8, 58u8]
}

/// Append the token `,"arm":`.
pub fn push_tok_arm(out: &mut Vec<u8>)
    ensures
        final(out)@ == old(out)@ + tok_arm(),
{
    out.push(44);
    out.push(34);
    out.push(97);
    out.push(114);
    out.push(109);
    out.push(34);
    out.push(58);
    assert(final(out)@ =~= old(out)@ + tok_arm());
}

/// The bytes of `,"wrist":`.
pub open spec fn tok_wrist() -> Seq<u8> {
    seq![44u8, 34u8, 119u8, 114u8, 105u8, 115u8, 116u8, 34u8, 58u8]
}

/// Append the token `,"wrist":`.
pub fn push_tok_wrist(out: &mut Vec<u8>)
    ensures
        final(out)@ == old(out)@ + tok_wrist(),
{
    out.push(44);
    out.push(34);
    out.push(119);
    out.push(114);
    out.push(105);
    out.push(115);
    out.push(116);
    out.push(34);
    out.push(58);
    assert(final(out)@ =~= old(out)@ + tok_wrist());
}

/// The bytes of `{"x":`.
pub open spec fn tok_quat_open() -> Seq<u8> {
    seq![123u8, 34u8, 120u8, 34u8, 58u8]
}

/// Append the token `{"x":`.
pub fn push_tok_quat_open(out: &mut Vec<u8>)
    ensures
        final(out)@ == old(out)@ + tok_quat_open(),
{
    out.push(123);
    out.push(34);
    out.push(120);
    out.push(34);
    out.push(58);
    assert(final(out)@ =~= old(out)@ + tok_quat_open());
}

/// The bytes of `,"y":`.
pub open spec fn tok_qy() -> Seq<u8> {
    seq![44u8, 34u8, 121u8, 34u8, 58u8]
}

/// Append the token `,"y":`.
pub fn push_tok_qy(out: &mut Vec<u8>)
    ensures
        final(out)@ == old(out)@ + tok_qy(),
{
    out.push(44);
    out.push(34);
    out.push(121);
    out.push(34);
    out.push(58);
    assert(final(out)@ =~= old(out)@ + tok_qy());
}

/// The bytes of `,"z":`.
pub open spec fn tok_qz() -> Seq<u8> {
    seq![44u8, 34u8, 122u8, 34u8, 58u8]
}

/// Append the token `,"z":`.
pub fn push_tok_qz(out: &mut Vec<u8>)
    ensures
        final(out)@ == old(out)@ + tok_qz(),
{
    out.push(44);
    out.push(34);
    out.push(122);
    out.push(34);
    out.push(58);
    assert(final(out)@ =~= old(out)@ + tok_qz());
}

/// The bytes of `,"w":`.
pub open spec fn tok_qw() -> Seq<u8> {
    seq![44u8, 34u8, 119u8, 34u8, 58u8]
}

/// Append the token `,"w":`.
pub fn push_tok_qw(out: &mut Vec<u8>)
    ensures
        final(out)@ == old(out)@ + tok_qw(),
{
    out.push(44);
    out.push(34);
    out.push(119);
    out.push(34);
    out.push(58);
    assert(final(out)@ =~= old(out)@ + tok_qw());
}

/// The bytes of `{"kind":"pose","data":`.
pub open spec fn tok_cmd_open() -> Seq<u8> {
    seq![123u8, 34u8, 107u8, 105u8, 110u8, 100u8, 34u8, 58u8, 34u8, 112u8, 111u8, 115u8, 101u8, 34u8, 44u8, 34u8, 100u8, 97u8, 116u8, 97u8, 34u8, 58u8]
}

/// Append the token `{"kind":"pose","data":`.
pub fn push_tok_cmd_open(out: &mut Vec<u8>)
    ensures
        final(out)@ == old(out)@ + tok_cmd_open(),
{
    out.push(123);
    out.push(34);
    out.push(107);
    out.push(105);
    out.push(110);
    out.push(100);
    out.push(34);
    out.push(58);
    out.push(34);
    out.push(112);
    out.push(111);
    out.push(115);
    out.push(101);
    out.push(34);
    out.push(44);
    out.push(34);
    out.push(100);
    out.push(97);
    out.push(116);
    out.push(97);
    out.push(34);
    out.push(58);
    assert(final(out)@ =~= old(out)@ + tok_cmd_open());
}
} // verus!
