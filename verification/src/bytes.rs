//! Byte-level groundwork: the keyword and field-name constants of the
//! grammar and the artifact schema (as byte strings, each with its
//! mathematical spelling), decimal spelling, and small vector utilities.

use vstd::prelude::*;

verus! {

/// An element-by-element copy of a byte vector.
pub fn clone_bytes(v: &Vec<u8>) -> (r: Vec<u8>)
    ensures
        r@ == v@,
{
    let mut r: Vec<u8> = Vec::new();
    let mut i: usize = 0;
    while i < v.len()
        invariant
            i <= v.len(),
            r@ == v@.subrange(0, i as int),
        decreases v.len() - i,
    {
        r.push(v[i]);
        proof {
            assert(r@ =~= v@.subrange(0, i + 1));
        }
        i += 1;
    }
    proof {
        assert(r@ =~= v@);
    }
    r
}

/// Equality of two byte vectors, decided element by element.
pub fn bytes_eq(a: &Vec<u8>, b: &Vec<u8>) -> (r: bool)
    ensures
        r == (a@ == b@),
{
    if a.len() != b.len() {
        return false;
    }
    let mut i: usize = 0;
    while i < a.len()
        invariant
            i <= a.len(),
            a.len() == b.len(),
            forall|j: int| 0 <= j < i ==> a@[j] == b@[j],
        decreases a.len() - i,
    {
        if a[i] != b[i] {
            return false;
        }
        i += 1;
    }
    proof {
        assert(a@ =~= b@);
    }
    true
}

/// The decimal spelling of a natural number, most significant digit first.
pub open spec fn spec_dec(n: nat) -> Seq<u8>
    decreases n,
{
    if n < 10 {
        seq![(48 + n) as u8]
    } else {
        spec_dec(n / 10) + seq![(48 + n % 10) as u8]
    }
}

/// Appends the decimal spelling of `n` to `out`.
pub fn push_dec(out: &mut Vec<u8>, n: u64)
    ensures
        final(out)@ == old(out)@ + spec_dec(n as nat),
    decreases n,
{
    if n < 10 {
        out.push(48 + n as u8);
        proof {
            assert(out@ =~= old(out)@ + spec_dec(n as nat));
        }
    } else {
        push_dec(out, n / 10);
        out.push(48 + (n % 10) as u8);
        proof {
            assert(out@ =~= old(out)@ + spec_dec(n as nat));
        }
    }
}

pub open spec fn is_digit(c: u8) -> bool {
    48 <= c <= 57
}

pub open spec fn is_ident_byte(c: u8) -> bool {
    (97 <= c <= 122) || (65 <= c <= 90) || is_digit(c) || c == 95
}

/// The numeric value of a sequence of decimal digit bytes.
pub open spec fn dec_value(s: Seq<u8>) -> int
    decreases s.len(),
{
    if s.len() == 0 {
        0
    } else {
        dec_value(s.drop_last()) * 10 + (s.last() - 48)
    }
}

pub open spec fn lit_uint() -> Seq<u8> {
    seq![117u8, 105u8, 110u8, 116u8]
}

pub fn lit_uint_vec() -> (r: Vec<u8>)
    ensures
        r@ == lit_uint(),
{
    let mut r: Vec<u8> = Vec::new();
    r.push(117);
    r.push(105);
    r.push(110);
    r.push(116);
    proof {
        assert(r@ =~= lit_uint());
    }
    r
}

pub open spec fn lit_int_() -> Seq<u8> {
    seq![105u8, 110u8, 116u8]
}

pub fn lit_int__vec() -> (r: Vec<u8>)
    ensures
        r@ == lit_int_(),
{
    let mut r: Vec<u8> = Vec::new();
    r.push(105);
    r.push(110);
    r.push(116);
    proof {
        assert(r@ =~= lit_int_());
    }
    r
}

pub open spec fn lit_address() -> Seq<u8> {
    seq![97u8, 100u8, 100u8, 114u8, 101u8, 115u8, 115u8]
}

pub fn lit_address_vec() -> (r: Vec<u8>)
    ensures
        r@ == lit_address(),
{
    let mut r: Vec<u8> = Vec::new();
    r.push(97);
    r.push(100);
    r.push(100);
    r.push(114);
    r.push(101);
    r.push(115);
    r.push(115);
    proof {
        assert(r@ =~= lit_address());
    }
    r
}

pub open spec fn lit_bool_() -> Seq<u8> {
    seq![98u8, 111u8, 111u8, 108u8]
}

pub fn lit_bool__vec() -> (r: Vec<u8>)
    ensures
        r@ == lit_bool_(),
{
    let mut r: Vec<u8> = Vec::new();
    r.push(98);
    r.push(111);
    r.push(111);
    r.push(108);
    proof {
        assert(r@ =~= lit_bool_());
    }
    r
}

pub open spec fn lit_bytes() -> Seq<u8> {
    seq![98u8, 121u8, 116u8, 101u8, 115u8]
}

pub fn lit_bytes_vec() -> (r: Vec<u8>)
    ensures
        r@ == lit_bytes(),
{
    let mut r: Vec<u8> = Vec::new();
    r.push(98);
    r.push(121);
    r.push(116);
    r.push(101);
    r.push(115);
    proof {
        assert(r@ =~= lit_bytes());
    }
    r
}

pub open spec fn lit_string() -> Seq<u8> {
    seq![115u8, 116u8, 114u8, 105u8, 110u8, 103u8]
}

pub fn lit_string_vec() -> (r: Vec<u8>)
    ensures
        r@ == lit_string(),
{
    let mut r: Vec<u8> = Vec::new();
    r.push(115);
    r.push(116);
    r.push(114);
    r.push(105);
    r.push(110);
    r.push(103);
    proof {
        assert(r@ =~= lit_string());
    }
    r
}

pub open spec fn lit_tuple() -> Seq<u8> {
    seq![116u8, 117u8, 112u8, 108u8, 101u8]
}

pub fn lit_tuple_vec() -> (r: Vec<u8>)
    ensures
        r@ == lit_tuple(),
{
    let mut r: Vec<u8> = Vec::new();
    r.push(116);
    r.push(117);
    r.push(112);
    r.push(108);
    r.push(101);
    proof {
        assert(r@ =~= lit_tuple());
    }
    r
}

pub open spec fn lit_contract_name() -> Seq<u8> {
    seq![99u8, 111u8, 110u8, 116u8, 114u8, 97u8, 99u8, 116u8, 78u8, 97u8, 109u8, 101u8]
}

pub fn lit_contract_name_vec() -> (r: Vec<u8>)
    ensures
        r@ == lit_contract_name(),
{
    let mut r: Vec<u8> = Vec::new();
    r.push(99);
    r.push(111);
    r.push(110);
    r.push(116);
    r.push(114);
    r.push(97);
    r.push(99);
    r.push(116);
    r.push(78);
    r.push(97);
    r.push(109);
    r.push(101);
    proof {
        assert(r@ =~= lit_contract_name());
    }
    r
}

pub open spec fn lit_abi() -> Seq<u8> {
    seq![97u8, 98u8, 105u8]
}

pub fn lit_abi_vec() -> (r: Vec<u8>)
    ensures
        r@ == lit_abi(),
{
    let mut r: Vec<u8> = Vec::new();
    r.push(97);
    r.push(98);
    r.push(105);
    proof {
        assert(r@ =~= lit_abi());
    }
    r
}

pub open spec fn lit_bytecode() -> Seq<u8> {
    seq![98u8, 121u8, 116u8, 101u8, 99u8, 111u8, 100u8, 101u8]
}

pub fn lit_bytecode_vec() -> (r: Vec<u8>)
    ensures
        r@ == lit_bytecode(),
{
    let mut r: Vec<u8> = Vec::new();
    r.push(98);
    r.push(121);
    r.push(116);
    r.push(101);
    r.push(99);
    r.push(111);
    r.push(100);
    r.push(101);
    proof {
        assert(r@ =~= lit_bytecode());
    }
    r
}

pub open spec fn lit_networks() -> Seq<u8> {
    seq![110u8, 101u8, 116u8, 119u8, 111u8, 114u8, 107u8, 115u8]
}

pub fn lit_networks_vec() -> (r: Vec<u8>)
    ensures
        r@ == lit_networks(),
{
    let mut r: Vec<u8> = Vec::new();
    r.push(110);
    r.push(101);
    r.push(116);
    r.push(119);
    r.push(111);
    r.push(114);
    r.push(107);
    r.push(115);
    proof {
        assert(r@ =~= lit_networks());
    }
    r
}

pub open spec fn lit_type_field() -> Seq<u8> {
    seq![116u8, 121u8, 112u8, 101u8]
}

pub fn lit_type_field_vec() -> (r: Vec<u8>)
    ensures
        r@ == lit_type_field(),
{
    let mut r: Vec<u8> = Vec::new();
    r.push(116);
    r.push(121);
    r.push(112);
    r.push(101);
    proof {
        assert(r@ =~= lit_type_field());
    }
    r
}

pub open spec fn lit_name_field() -> Seq<u8> {
    seq![110u8, 97u8, 109u8, 101u8]
}

pub fn lit_name_field_vec() -> (r: Vec<u8>)
    ensures
        r@ == lit_name_field(),
{
    let mut r: Vec<u8> = Vec::new();
    r.push(110);
    r.push(97);
    r.push(109);
    r.push(101);
    proof {
        assert(r@ =~= lit_name_field());
    }
    r
}

pub open spec fn lit_inputs() -> Seq<u8> {
    seq![105u8, 110u8, 112u8, 117u8, 116u8, 115u8]
}

pub fn lit_inputs_vec() -> (r: Vec<u8>)
    ensures
        r@ == lit_inputs(),
{
    let mut r: Vec<u8> = Vec::new();
    r.push(105);
    r.push(110);
    r.push(112);
    r.push(117);
    r.push(116);
    r.push(115);
    proof {
        assert(r@ =~= lit_inputs());
    }
    r
}

pub open spec fn lit_outputs() -> Seq<u8> {
    seq![111u8, 117u8, 116u8, 112u8, 117u8, 116u8, 115u8]
}

pub fn lit_outputs_vec() -> (r: Vec<u8>)
    ensures
        r@ == lit_outputs(),
{
    let mut r: Vec<u8> = Vec::new();
    r.push(111);
    r.push(117);
    r.push(116);
    r.push(112);
    r.push(117);
    r.push(116);
    r.push(115);
    proof {
        assert(r@ =~= lit_outputs());
    }
    r
}

pub open spec fn lit_state_mutability() -> Seq<u8> {
    seq![115u8, 116u8, 97u8, 116u8, 101u8, 77u8, 117u8, 116u8, 97u8, 98u8, 105u8, 108u8, 105u8, 116u8, 121u8]
}

pub fn lit_state_mutability_vec() -> (r: Vec<u8>)
    ensures
        r@ == lit_state_mutability(),
{
    let mut r: Vec<u8> = Vec::new();
    r.push(115);
    r.push(116);
    r.push(97);
    r.push(116);
    r.push(101);
    r.push(77);
    r.push(117);
    r.push(116);
    r.push(97);
    r.push(98);
    r.push(105);
    r.push(108);
    r.push(105);
    r.push(116);
    r.push(121);
    proof {
        assert(r@ =~= lit_state_mutability());
    }
    r
}

pub open spec fn lit_anonymous() -> Seq<u8> {
    seq![97u8, 110u8, 111u8, 110u8, 121u8, 109u8, 111u8, 117u8, 115u8]
}

pub fn lit_anonymous_vec() -> (r: Vec<u8>)
    ensures
        r@ == lit_anonymous(),
{
    let mut r: Vec<u8> = Vec::new();
    r.push(97);
    r.push(110);
    r.push(111);
    r.push(110);
    r.push(121);
    r.push(109);
    r.push(111);
    r.push(117);
    r.push(115);
    proof {
        assert(r@ =~= lit_anonymous());
    }
    r
}

pub open spec fn lit_indexed() -> Seq<u8> {
    seq![105u8, 110u8, 100u8, 101u8, 120u8, 101u8, 100u8]
}

pub fn lit_indexed_vec() -> (r: Vec<u8>)
    ensures
        r@ == lit_indexed(),
{
    let mut r: Vec<u8> = Vec::new();
    r.push(105);
    r.push(110);
    r.push(100);
    r.push(101);
    r.push(120);
    r.push(101);
    r.push(100);
    proof {
        assert(r@ =~= lit_indexed());
    }
    r
}

pub open spec fn lit_components() -> Seq<u8> {
    seq![99u8, 111u8, 109u8, 112u8, 111u8, 110u8, 101u8, 110u8, 116u8, 115u8]
}

pub fn lit_components_vec() -> (r: Vec<u8>)
    ensures
        r@ == lit_components(),
{
    let mut r: Vec<u8> = Vec::new();
    r.push(99);
    r.push(111);
    r.push(109);
    r.push(112);
    r.push(111);
    r.push(110);
    r.push(101);
    r.push(110);
    r.push(116);
    r.push(115);
    proof {
        assert(r@ =~= lit_components());
    }
    r
}

pub open spec fn lit_constructor() -> Seq<u8> {
    seq![99u8, 111u8, 110u8, 115u8, 116u8, 114u8, 117u8, 99u8, 116u8, 111u8, 114u8]
}

pub fn lit_constructor_vec() -> (r: Vec<u8>)
    ensures
        r@ == lit_constructor(),
{
    let mut r: Vec<u8> = Vec::new();
    r.push(99);
    r.push(111);
    r.push(110);
    r.push(115);
    r.push(116);
    r.push(114);
    r.push(117);
    r.push(99);
    r.push(116);
    r.push(111);
    r.push(114);
    proof {
        assert(r@ =~= lit_constructor());
    }
    r
}

pub open spec fn lit_function() -> Seq<u8> {
    seq![102u8, 117u8, 110u8, 99u8, 116u8, 105u8, 111u8, 110u8]
}

pub fn lit_function_vec() -> (r: Vec<u8>)
    ensures
        r@ == lit_function(),
{
    let mut r: Vec<u8> = Vec::new();
    r.push(102);
    r.push(117);
    r.push(110);
    r.push(99);
    r.push(116);
    r.push(105);
    r.push(111);
    r.push(110);
    proof {
        assert(r@ =~= lit_function());
    }
    r
}

pub open spec fn lit_event() -> Seq<u8> {
    seq![101u8, 118u8, 101u8, 110u8, 116u8]
}

pub fn lit_event_vec() -> (r: Vec<u8>)
    ensures
        r@ == lit_event(),
{
    let mut r: Vec<u8> = Vec::new();
    r.push(101);
    r.push(118);
    r.push(101);
    r.push(110);
    r.push(116);
    proof {
        assert(r@ =~= lit_event());
    }
    r
}

pub open spec fn lit_fallback() -> Seq<u8> {
    seq![102u8, 97u8, 108u8, 108u8, 98u8, 97u8, 99u8, 107u8]
}

pub fn lit_fallback_vec() -> (r: Vec<u8>)
    ensures
        r@ == lit_fallback(),
{
    let mut r: Vec<u8> = Vec::new();
    r.push(102);
    r.push(97);
    r.push(108);
    r.push(108);
    r.push(98);
    r.push(97);
    r.push(99);
    r.push(107);
    proof {
        assert(r@ =~= lit_fallback());
    }
    r
}

pub open spec fn lit_receive() -> Seq<u8> {
    seq![114u8, 101u8, 99u8, 101u8, 105u8, 118u8, 101u8]
}

pub fn lit_receive_vec() -> (r: Vec<u8>)
    ensures
        r@ == lit_receive(),
{
    let mut r: Vec<u8> = Vec::new();
    r.push(114);
    r.push(101);
    r.push(99);
    r.push(101);
    r.push(105);
    r.push(118);
    r.push(101);
    proof {
        assert(r@ =~= lit_receive());
    }
    r
}

pub open spec fn lit_pure() -> Seq<u8> {
    seq![112u8, 117u8, 114u8, 101u8]
}

pub fn lit_pure_vec() -> (r: Vec<u8>)
    ensures
        r@ == lit_pure(),
{
    let mut r: Vec<u8> = Vec::new();
    r.push(112);
    r.push(117);
    r.push(114);
    r.push(101);
    proof {
        assert(r@ =~= lit_pure());
    }
    r
}

pub open spec fn lit_view_kw() -> Seq<u8> {
    seq![118u8, 105u8, 101u8, 119u8]
}

pub fn lit_view_kw_vec() -> (r: Vec<u8>)
    ensures
        r@ == lit_view_kw(),
{
    let mut r: Vec<u8> = Vec::new();
    r.push(118);
    r.push(105);
    r.push(101);
    r.push(119);
    proof {
        assert(r@ =~= lit_view_kw());
    }
    r
}

pub open spec fn lit_nonpayable() -> Seq<u8> {
    seq![110u8, 111u8, 110u8, 112u8, 97u8, 121u8, 97u8, 98u8, 108u8, 101u8]
}

pub fn lit_nonpayable_vec() -> (r: Vec<u8>)
    ensures
        r@ == lit_nonpayable(),
{
    let mut r: Vec<u8> = Vec::new();
    r.push(110);
    r.push(111);
    r.push(110);
    r.push(112);
    r.push(97);
    r.push(121);
    r.push(97);
    r.push(98);
    r.push(108);
    r.push(101);
    proof {
        assert(r@ =~= lit_nonpayable());
    }
    r
}

pub open spec fn lit_payable() -> Seq<u8> {
    seq![112u8, 97u8, 121u8, 97u8, 98u8, 108u8, 101u8]
}

pub fn lit_payable_vec() -> (r: Vec<u8>)
    ensures
        r@ == lit_payable(),
{
    let mut r: Vec<u8> = Vec::new();
    r.push(112);
    r.push(97);
    r.push(121);
    r.push(97);
    r.push(98);
    r.push(108);
    r.push(101);
    proof {
        assert(r@ =~= lit_payable());
    }
    r
}

// The host language's keywords, each as a byte string with its spelling.
pub open spec fn lit_rw00() -> Seq<u8> {
    seq![97u8, 115u8]
}

pub fn lit_rw00_vec() -> (r: Vec<u8>)
    ensures
        r@ == lit_rw00(),
{
    let mut r: Vec<u8> = Vec::new();
    r.push(97);
    r.push(115);
    proof {
        assert(r@ =~= lit_rw00());
    }
    r
}

pub open spec fn lit_rw01() -> Seq<u8> {
    seq![98u8, 114u8, 101u8, 97u8, 107u8]
}

pub fn lit_rw01_vec() -> (r: Vec<u8>)
    ensures
        r@ == lit_rw01(),
{
    let mut r: Vec<u8> = Vec::new();
    r.push(98);
    r.push(114);
    r.push(101);
    r.push(97);
    r.push(107);
    proof {
        assert(r@ =~= lit_rw01());
    }
    r
}

pub open spec fn lit_rw02() -> Seq<u8> {
    seq![99u8, 111u8, 110u8, 115u8, 116u8]
}

pub fn lit_rw02_vec() -> (r: Vec<u8>)
    ensures
        r@ == lit_rw02(),
{
    let mut r: Vec<u8> = Vec::new();
    r.push(99);
    r.push(111);
    r.push(110);
    r.push(115);
    r.push(116);
    proof {
        assert(r@ =~= lit_rw02());
    }
    r
}

pub open spec fn lit_rw03() -> Seq<u8> {
    seq![99u8, 111u8, 110u8, 116u8, 105u8, 110u8, 117u8, 101u8]
}

pub fn lit_rw03_vec() -> (r: Vec<u8>)
    ensures
        r@ == lit_rw03(),
{
    let mut r: Vec<u8> = Vec::new();
    r.push(99);
    r.push(111);
    r.push(110);
    r.push(116);
    r.push(105);
    r.push(110);
    r.push(117);
    r.push(101);
    proof {
        assert(r@ =~= lit_rw03());
    }
    r
}

pub open spec fn lit_rw04() -> Seq<u8> {
    seq![99u8, 114u8, 97u8, 116u8, 101u8]
}

pub fn lit_rw04_vec() -> (r: Vec<u8>)
    ensures
        r@ == lit_rw04(),
{
    let mut r: Vec<u8> = Vec::new();
    r.push(99);
    r.push(114);
    r.push(97);
    r.push(116);
    r.push(101);
    proof {
        assert(r@ =~= lit_rw04());
    }
    r
}

pub open spec fn lit_rw05() -> Seq<u8> {
    seq![101u8, 108u8, 115u8, 101u8]
}

pub fn lit_rw05_vec() -> (r: Vec<u8>)
    ensures
        r@ == lit_rw05(),
{
    let mut r: Vec<u8> = Vec::new();
    r.push(101);
    r.push(108);
    r.push(115);
    r.push(101);
    proof {
        assert(r@ =~= lit_rw05());
    }
    r
}

pub open spec fn lit_rw06() -> Seq<u8> {
    seq![101u8, 110u8, 117u8, 109u8]
}

pub fn lit_rw06_vec() -> (r: Vec<u8>)
    ensures
        r@ == lit_rw06(),
{
    let mut r: Vec<u8> = Vec::new();
    r.push(101);
    r.push(110);
    r.push(117);
    r.push(109);
    proof {
        assert(r@ =~= lit_rw06());
    }
    r
}

pub open spec fn lit_rw07() -> Seq<u8> {
    seq![102u8, 97u8, 108u8, 115u8, 101u8]
}

pub fn lit_rw07_vec() -> (r: Vec<u8>)
    ensures
        r@ == lit_rw07(),
{
    let mut r: Vec<u8> = Vec::new();
    r.push(102);
    r.push(97);
    r.push(108);
    r.push(115);
    r.push(101);
    proof {
        assert(r@ =~= lit_rw07());
    }
    r
}

pub open spec fn lit_rw08() -> Seq<u8> {
    seq![102u8, 110u8]
}

pub fn lit_rw08_vec() -> (r: Vec<u8>)
    ensures
        r@ == lit_rw08(),
{
    let mut r: Vec<u8> = Vec::new();
    r.push(102);
    r.push(110);
    proof {
        assert(r@ =~= lit_rw08());
    }
    r
}

pub open spec fn lit_rw09() -> Seq<u8> {
    seq![102u8, 111u8, 114u8]
}

pub fn lit_rw09_vec() -> (r: Vec<u8>)
    ensures
        r@ == lit_rw09(),
{
    let mut r: Vec<u8> = Vec::new();
    r.push(102);
    r.push(111);
    r.push(114);
    proof {
        assert(r@ =~= lit_rw09());
    }
    r
}

pub open spec fn lit_rw10() -> Seq<u8> {
    seq![105u8, 102u8]
}

pub fn lit_rw10_vec() -> (r: Vec<u8>)
    ensures
        r@ == lit_rw10(),
{
    let mut r: Vec<u8> = Vec::new();
    r.push(105);
    r.push(102);
    proof {
        assert(r@ =~= lit_rw10());
    }
    r
}

pub open spec fn lit_rw11() -> Seq<u8> {
    seq![105u8, 109u8, 112u8, 108u8]
}

pub fn lit_rw11_vec() -> (r: Vec<u8>)
    ensures
        r@ == lit_rw11(),
{
    let mut r: Vec<u8> = Vec::new();
    r.push(105);
    r.push(109);
    r.push(112);
    r.push(108);
    proof {
        assert(r@ =~= lit_rw11());
    }
    r
}

pub open spec fn lit_rw12() -> Seq<u8> {
    seq![105u8, 110u8]
}

pub fn lit_rw12_vec() -> (r: Vec<u8>)
    ensures
        r@ == lit_rw12(),
{
    let mut r: Vec<u8> = Vec::new();
    r.push(105);
    r.push(110);
    proof {
        assert(r@ =~= lit_rw12());
    }
    r
}

pub open spec fn lit_rw13() -> Seq<u8> {
    seq![108u8, 101u8, 116u8]
}

pub fn lit_rw13_vec() -> (r: Vec<u8>)
    ensures
        r@ == lit_rw13(),
{
    let mut r: Vec<u8> = Vec::new();
    r.push(108);
    r.push(101);
    r.push(116);
    proof {
        assert(r@ =~= lit_rw13());
    }
    r
}

pub open spec fn lit_rw14() -> Seq<u8> {
    seq![108u8, 111u8, 111u8, 112u8]
}

pub fn lit_rw14_vec() -> (r: Vec<u8>)
    ensures
        r@ == lit_rw14(),
{
    let mut r: Vec<u8> = Vec::new();
    r.push(108);
    r.push(111);
    r.push(111);
    r.push(112);
    proof {
        assert(r@ =~= lit_rw14());
    }
    r
}

pub open spec fn lit_rw15() -> Seq<u8> {
    seq![109u8, 97u8, 116u8, 99u8, 104u8]
}

pub fn lit_rw15_vec() -> (r: Vec<u8>)
    ensures
        r@ == lit_rw15(),
{
    let mut r: Vec<u8> = Vec::new();
    r.push(109);
    r.push(97);
    r.push(116);
    r.push(99);
    r.push(104);
    proof {
        assert(r@ =~= lit_rw15());
    }
    r
}

pub open spec fn lit_rw16() -> Seq<u8> {
    seq![109u8, 111u8, 100u8]
}

pub fn lit_rw16_vec() -> (r: Vec<u8>)
    ensures
        r@ == lit_rw16(),
{
    let mut r: Vec<u8> = Vec::new();
    r.push(109);
    r.push(111);
    r.push(100);
    proof {
        assert(r@ =~= lit_rw16());
    }
    r
}

pub open spec fn lit_rw17() -> Seq<u8> {
    seq![109u8, 111u8, 118u8, 101u8]
}

pub fn lit_rw17_vec() -> (r: Vec<u8>)
    ensures
        r@ == lit_rw17(),
{
    let mut r: Vec<u8> = Vec::new();
    r.push(109);
    r.push(111);
    r.push(118);
    r.push(101);
    proof {
        assert(r@ =~= lit_rw17());
    }
    r
}

pub open spec fn lit_rw18() -> Seq<u8> {
    seq![109u8, 117u8, 116u8]
}

pub fn lit_rw18_vec() -> (r: Vec<u8>)
    ensures
        r@ == lit_rw18(),
{
    let mut r: Vec<u8> = Vec::new();
    r.push(109);
    r.push(117);
    r.push(116);
    proof {
        assert(r@ =~= lit_rw18());
    }
    r
}

pub open spec fn lit_rw19() -> Seq<u8> {
    seq![112u8, 117u8, 98u8]
}

pub fn lit_rw19_vec() -> (r: Vec<u8>)
    ensures
        r@ == lit_rw19(),
{
    let mut r: Vec<u8> = Vec::new();
    r.push(112);
    r.push(117);
    r.push(98);
    proof {
        assert(r@ =~= lit_rw19());
    }
    r
}

pub open spec fn lit_rw20() -> Seq<u8> {
    seq![114u8, 101u8, 102u8]
}

pub fn lit_rw20_vec() -> (r: Vec<u8>)
    ensures
        r@ == lit_rw20(),
{
    let mut r: Vec<u8> = Vec::new();
    r.push(114);
    r.push(101);
    r.push(102);
    proof {
        assert(r@ =~= lit_rw20());
    }
    r
}

pub open spec fn lit_rw21() -> Seq<u8> {
    seq![114u8, 101u8, 116u8, 117u8, 114u8, 110u8]
}

pub fn lit_rw21_vec() -> (r: Vec<u8>)
    ensures
        r@ == lit_rw21(),
{
    let mut r: Vec<u8> = Vec::new();
    r.push(114);
    r.push(101);
    r.push(116);
    r.push(117);
    r.push(114);
    r.push(110);
    proof {
        assert(r@ =~= lit_rw21());
    }
    r
}

pub open spec fn lit_rw22() -> Seq<u8> {
    seq![115u8, 101u8, 108u8, 102u8]
}

pub fn lit_rw22_vec() -> (r: Vec<u8>)
    ensures
        r@ == lit_rw22(),
{
    let mut r: Vec<u8> = Vec::new();
    r.push(115);
    r.push(101);
    r.push(108);
    r.push(102);
    proof {
        assert(r@ =~= lit_rw22());
    }
    r
}

pub open spec fn lit_rw23() -> Seq<u8> {
    seq![83u8, 101u8, 108u8, 102u8]
}

pub fn lit_rw23_vec() -> (r: Vec<u8>)
    ensures
        r@ == lit_rw23(),
{
    let mut r: Vec<u8> = Vec::new();
    r.push(83);
    r.push(101);
    r.push(108);
    r.push(102);
    proof {
        assert(r@ =~= lit_rw23());
    }
    r
}

pub open spec fn lit_rw24() -> Seq<u8> {
    seq![115u8, 116u8, 97u8, 116u8, 105u8, 99u8]
}

pub fn lit_rw24_vec() -> (r: Vec<u8>)
    ensures
        r@ == lit_rw24(),
{
    let mut r: Vec<u8> = Vec::new();
    r.push(115);
    r.push(116);
    r.push(97);
    r.push(116);
    r.push(105);
    r.push(99);
    proof {
        assert(r@ =~= lit_rw24());
    }
    r
}

pub open spec fn lit_rw25() -> Seq<u8> {
    seq![115u8, 116u8, 114u8, 117u8, 99u8, 116u8]
}

pub fn lit_rw25_vec() -> (r: Vec<u8>)
    ensures
        r@ == lit_rw25(),
{
    let mut r: Vec<u8> = Vec::new();
    r.push(115);
    r.push(116);
    r.push(114);
    r.push(117);
    r.push(99);
    r.push(116);
    proof {
        assert(r@ =~= lit_rw25());
    }
    r
}

pub open spec fn lit_rw26() -> Seq<u8> {
    seq![115u8, 117u8, 112u8, 101u8, 114u8]
}

pub fn lit_rw26_vec() -> (r: Vec<u8>)
    ensures
        r@ == lit_rw26(),
{
    let mut r: Vec<u8> = Vec::new();
    r.push(115);
    r.push(117);
    r.push(112);
    r.push(101);
    r.push(114);
    proof {
        assert(r@ =~= lit_rw26());
    }
    r
}

pub open spec fn lit_rw27() -> Seq<u8> {
    seq![116u8, 114u8, 97u8, 105u8, 116u8]
}

pub fn lit_rw27_vec() -> (r: Vec<u8>)
    ensures
        r@ == lit_rw27(),
{
    let mut r: Vec<u8> = Vec::new();
    r.push(116);
    r.push(114);
    r.push(97);
    r.push(105);
    r.push(116);
    proof {
        assert(r@ =~= lit_rw27());
    }
    r
}

pub open spec fn lit_rw28() -> Seq<u8> {
    seq![116u8, 114u8, 117u8, 101u8]
}

pub fn lit_rw28_vec() -> (r: Vec<u8>)
    ensures
        r@ == lit_rw28(),
{
    let mut r: Vec<u8> = Vec::new();
    r.push(116);
    r.push(114);
    r.push(117);
    r.push(101);
    proof {
        assert(r@ =~= lit_rw28());
    }
    r
}

pub open spec fn lit_rw29() -> Seq<u8> {
    seq![116u8, 121u8, 112u8, 101u8]
}

pub fn lit_rw29_vec() -> (r: Vec<u8>)
    ensures
        r@ == lit_rw29(),
{
    let mut r: Vec<u8> = Vec::new();
    r.push(116);
    r.push(121);
    r.push(112);
    r.push(101);
    proof {
        assert(r@ =~= lit_rw29());
    }
    r
}

pub open spec fn lit_rw30() -> Seq<u8> {
    seq![117u8, 110u8, 115u8, 97u8, 102u8, 101u8]
}

pub fn lit_rw30_vec() -> (r: Vec<u8>)
    ensures
        r@ == lit_rw30(),
{
    let mut r: Vec<u8> = Vec::new();
    r.push(117);
    r.push(110);
    r.push(115);
    r.push(97);
    r.push(102);
    r.push(101);
    proof {
        assert(r@ =~= lit_rw30());
    }
    r
}

pub open spec fn lit_rw31() -> Seq<u8> {
    seq![117u8, 115u8, 101u8]
}

pub fn lit_rw31_vec() -> (r: Vec<u8>)
    ensures
        r@ == lit_rw31(),
{
    let mut r: Vec<u8> = Vec::new();
    r.push(117);
    r.push(115);
    r.push(101);
    proof {
        assert(r@ =~= lit_rw31());
    }
    r
}

pub open spec fn lit_rw32() -> Seq<u8> {
    seq![119u8, 104u8, 101u8, 114u8, 101u8]
}

pub fn lit_rw32_vec() -> (r: Vec<u8>)
    ensures
        r@ == lit_rw32(),
{
    let mut r: Vec<u8> = Vec::new();
    r.push(119);
    r.push(104);
    r.push(101);
    r.push(114);
    r.push(101);
    proof {
        assert(r@ =~= lit_rw32());
    }
    r
}

pub open spec fn lit_rw33() -> Seq<u8> {
    seq![119u8, 104u8, 105u8, 108u8, 101u8]
}

pub fn lit_rw33_vec() -> (r: Vec<u8>)
    ensures
        r@ == lit_rw33(),
{
    let mut r: Vec<u8> = Vec::new();
    r.push(119);
    r.push(104);
    r.push(105);
    r.push(108);
    r.push(101);
    proof {
        assert(r@ =~= lit_rw33());
    }
    r
}

pub open spec fn lit_rw34() -> Seq<u8> {
    seq![97u8, 115u8, 121u8, 110u8, 99u8]
}

pub fn lit_rw34_vec() -> (r: Vec<u8>)
    ensures
        r@ == lit_rw34(),
{
    let mut r: Vec<u8> = Vec::new();
    r.push(97);
    r.push(115);
    r.push(121);
    r.push(110);
    r.push(99);
    proof {
        assert(r@ =~= lit_rw34());
    }
    r
}

pub open spec fn lit_rw35() -> Seq<u8> {
    seq![97u8, 119u8, 97u8, 105u8, 116u8]
}

pub fn lit_rw35_vec() -> (r: Vec<u8>)
    ensures
        r@ == lit_rw35(),
{
    let mut r: Vec<u8> = Vec::new();
    r.push(97);
    r.push(119);
    r.push(97);
    r.push(105);
    r.push(116);
    proof {
        assert(r@ =~= lit_rw35());
    }
    r
}

pub open spec fn lit_rw36() -> Seq<u8> {
    seq![100u8, 121u8, 110u8]
}

pub fn lit_rw36_vec() -> (r: Vec<u8>)
    ensures
        r@ == lit_rw36(),
{
    let mut r: Vec<u8> = Vec::new();
    r.push(100);
    r.push(121);
    r.push(110);
    proof {
        assert(r@ =~= lit_rw36());
    }
    r
}

pub open spec fn lit_rw37() -> Seq<u8> {
    seq![97u8, 98u8, 115u8, 116u8, 114u8, 97u8, 99u8, 116u8]
}

pub fn lit_rw37_vec() -> (r: Vec<u8>)
    ensures
        r@ == lit_rw37(),
{
    let mut r: Vec<u8> = Vec::new();
    r.push(97);
    r.push(98);
    r.push(115);
    r.push(116);
    r.push(114);
    r.push(97);
    r.push(99);
    r.push(116);
    proof {
        assert(r@ =~= lit_rw37());
    }
    r
}

pub open spec fn lit_rw38() -> Seq<u8> {
    seq![98u8, 101u8, 99u8, 111u8, 109u8, 101u8]
}

pub fn lit_rw38_vec() -> (r: Vec<u8>)
    ensures
        r@ == lit_rw38(),
{
    let mut r: Vec<u8> = Vec::new();
    r.push(98);
    r.push(101);
    r.push(99);
    r.push(111);
    r.push(109);
    r.push(101);
    proof {
        assert(r@ =~= lit_rw38());
    }
    r
}

pub open spec fn lit_rw39() -> Seq<u8> {
    seq![98u8, 111u8, 120u8]
}

pub fn lit_rw39_vec() -> (r: Vec<u8>)
    ensures
        r@ == lit_rw39(),
{
    let mut r: Vec<u8> = Vec::new();
    r.push(98);
    r.push(111);
    r.push(120);
    proof {
        assert(r@ =~= lit_rw39());
    }
    r
}

pub open spec fn lit_rw40() -> Seq<u8> {
    seq![100u8, 111u8]
}

pub fn lit_rw40_vec() -> (r: Vec<u8>)
    ensures
        r@ == lit_rw40(),
{
    let mut r: Vec<u8> = Vec::new();
    r.push(100);
    r.push(111);
    proof {
        assert(r@ =~= lit_rw40());
    }
    r
}

pub open spec fn lit_rw41() -> Seq<u8> {
    seq![102u8, 105u8, 110u8, 97u8, 108u8]
}

pub fn lit_rw41_vec() -> (r: Vec<u8>)
    ensures
        r@ == lit_rw41(),
{
    let mut r: Vec<u8> = Vec::new();
    r.push(102);
    r.push(105);
    r.push(110);
    r.push(97);
    r.push(108);
    proof {
        assert(r@ =~= lit_rw41());
    }
    r
}

pub open spec fn lit_rw42() -> Seq<u8> {
    seq![109u8, 97u8, 99u8, 114u8, 111u8]
}

pub fn lit_rw42_vec() -> (r: Vec<u8>)
    ensures
        r@ == lit_rw42(),
{
    let mut r: Vec<u8> = Vec::new();
    r.push(109);
    r.push(97);
    r.push(99);
    r.push(114);
    r.push(111);
    proof {
        assert(r@ =~= lit_rw42());
    }
    r
}

pub open spec fn lit_rw43() -> Seq<u8> {
    seq![111u8, 118u8, 101u8, 114u8, 114u8, 105u8, 100u8, 101u8]
}

pub fn lit_rw43_vec() -> (r: Vec<u8>)
    ensures
        r@ == lit_rw43(),
{
    let mut r: Vec<u8> = Vec::new();
    r.push(111);
    r.push(118);
    r.push(101);
    r.push(114);
    r.push(114);
    r.push(105);
    r.push(100);
    r.push(101);
    proof {
        assert(r@ =~= lit_rw43());
    }
    r
}

pub open spec fn lit_rw44() -> Seq<u8> {
    seq![112u8, 114u8, 105u8, 118u8]
}

pub fn lit_rw44_vec() -> (r: Vec<u8>)
    ensures
        r@ == lit_rw44(),
{
    let mut r: Vec<u8> = Vec::new();
    r.push(112);
    r.push(114);
    r.push(105);
    r.push(118);
    proof {
        assert(r@ =~= lit_rw44());
    }
    r
}

pub open spec fn lit_rw45() -> Seq<u8> {
    seq![116u8, 114u8, 121u8]
}

pub fn lit_rw45_vec() -> (r: Vec<u8>)
    ensures
        r@ == lit_rw45(),
{
    let mut r: Vec<u8> = Vec::new();
    r.push(116);
    r.push(114);
    r.push(121);
    proof {
        assert(r@ =~= lit_rw45());
    }
    r
}

pub open spec fn lit_rw46() -> Seq<u8> {
    seq![116u8, 121u8, 112u8, 101u8, 111u8, 102u8]
}

pub fn lit_rw46_vec() -> (r: Vec<u8>)
    ensures
        r@ == lit_rw46(),
{
    let mut r: Vec<u8> = Vec::new();
    r.push(116);
    r.push(121);
    r.push(112);
    r.push(101);
    r.push(111);
    r.push(102);
    proof {
        assert(r@ =~= lit_rw46());
    }
    r
}

pub open spec fn lit_rw47() -> Seq<u8> {
    seq![117u8, 110u8, 115u8, 105u8, 122u8, 101u8, 100u8]
}

pub fn lit_rw47_vec() -> (r: Vec<u8>)
    ensures
        r@ == lit_rw47(),
{
    let mut r: Vec<u8> = Vec::new();
    r.push(117);
    r.push(110);
    r.push(115);
    r.push(105);
    r.push(122);
    r.push(101);
    r.push(100);
    proof {
        assert(r@ =~= lit_rw47());
    }
    r
}

pub open spec fn lit_rw48() -> Seq<u8> {
    seq![118u8, 105u8, 114u8, 116u8, 117u8, 97u8, 108u8]
}

pub fn lit_rw48_vec() -> (r: Vec<u8>)
    ensures
        r@ == lit_rw48(),
{
    let mut r: Vec<u8> = Vec::new();
    r.push(118);
    r.push(105);
    r.push(114);
    r.push(116);
    r.push(117);
    r.push(97);
    r.push(108);
    proof {
        assert(r@ =~= lit_rw48());
    }
    r
}

pub open spec fn lit_rw49() -> Seq<u8> {
    seq![121u8, 105u8, 101u8, 108u8, 100u8]
}

pub fn lit_rw49_vec() -> (r: Vec<u8>)
    ensures
        r@ == lit_rw49(),
{
    let mut r: Vec<u8> = Vec::new();
    r.push(121);
    r.push(105);
    r.push(101);
    r.push(108);
    r.push(100);
    proof {
        assert(r@ =~= lit_rw49());
    }
    r
}

pub open spec fn lit_rw50() -> Seq<u8> {
    seq![117u8, 110u8, 105u8, 111u8, 110u8]
}

pub fn lit_rw50_vec() -> (r: Vec<u8>)
    ensures
        r@ == lit_rw50(),
{
    let mut r: Vec<u8> = Vec::new();
    r.push(117);
    r.push(110);
    r.push(105);
    r.push(111);
    r.push(110);
    proof {
        assert(r@ =~= lit_rw50());
    }
    r
}

pub open spec fn spec_is_reserved(s: Seq<u8>) -> bool {
    s == lit_rw00() || s == lit_rw01() || s == lit_rw02() || s == lit_rw03() || s == lit_rw04() || s == lit_rw05() || s == lit_rw06() || s == lit_rw07() || s == lit_rw08() || s == lit_rw09() || s == lit_rw10() || s == lit_rw11() || s == lit_rw12() || s == lit_rw13() || s == lit_rw14() || s == lit_rw15() || s == lit_rw16() || s == lit_rw17() || s == lit_rw18() || s == lit_rw19() || s == lit_rw20() || s == lit_rw21() || s == lit_rw22() || s == lit_rw23() || s == lit_rw24() || s == lit_rw25() || s == lit_rw26() || s == lit_rw27() || s == lit_rw28() || s == lit_rw29() || s == lit_rw30() || s == lit_rw31() || s == lit_rw32() || s == lit_rw33() || s == lit_rw34() || s == lit_rw35() || s == lit_rw36() || s == lit_rw37() || s == lit_rw38() || s == lit_rw39() || s == lit_rw40() || s == lit_rw41() || s == lit_rw42() || s == lit_rw43() || s == lit_rw44() || s == lit_rw45() || s == lit_rw46() || s == lit_rw47() || s == lit_rw48() || s == lit_rw49() || s == lit_rw50()
}

/// Tests whether an identifier collides with one of the host language's
/// keywords (kept here as byte strings, since generated identifiers may not
/// shadow them).
pub fn is_reserved(s: &Vec<u8>) -> (r: bool)
    ensures
        r == spec_is_reserved(s@),
{
    if bytes_eq(s, &lit_rw00_vec()) {
        return true;
    }
    if bytes_eq(s, &lit_rw01_vec()) {
        return true;
    }
    if bytes_eq(s, &lit_rw02_vec()) {
        return true;
    }
    if bytes_eq(s, &lit_rw03_vec()) {
        return true;
    }
    if bytes_eq(s, &lit_rw04_vec()) {
        return true;
    }
    if bytes_eq(s, &lit_rw05_vec()) {
        return true;
    }
    if bytes_eq(s, &lit_rw06_vec()) {
        return true;
    }
    if bytes_eq(s, &lit_rw07_vec()) {
        return true;
    }
    if bytes_eq(s, &lit_rw08_vec()) {
        return true;
    }
    if bytes_eq(s, &lit_rw09_vec()) {
        return true;
    }
    if bytes_eq(s, &lit_rw10_vec()) {
        return true;
    }
    if bytes_eq(s, &lit_rw11_vec()) {
        return true;
    }
    if bytes_eq(s, &lit_rw12_vec()) {
        return true;
    }
    if bytes_eq(s, &lit_rw13_vec()) {
        return true;
    }
    if bytes_eq(s, &lit_rw14_vec()) {
        return true;
    }
    if bytes_eq(s, &lit_rw15_vec()) {
        return true;
    }
    if bytes_eq(s, &lit_rw16_vec()) {
        return true;
    }
    if bytes_eq(s, &lit_rw17_vec()) {
        return true;
    }
    if bytes_eq(s, &lit_rw18_vec()) {
        return true;
    }
    if bytes_eq(s, &lit_rw19_vec()) {
        return true;
    }
    if bytes_eq(s, &lit_rw20_vec()) {
        return true;
    }
    if bytes_eq(s, &lit_rw21_vec()) {
        return true;
    }
    if bytes_eq(s, &lit_rw22_vec()) {
        return true;
    }
    if bytes_eq(s, &lit_rw23_vec()) {
        return true;
    }
    if bytes_eq(s, &lit_rw24_vec()) {
        return true;
    }
    if bytes_eq(s, &lit_rw25_vec()) {
        return true;
    }
    if bytes_eq(s, &lit_rw26_vec()) {
        return true;
    }
    if bytes_eq(s, &lit_rw27_vec()) {
        return true;
    }
    if bytes_eq(s, &lit_rw28_vec()) {
        return true;
    }
    if bytes_eq(s, &lit_rw29_vec()) {
        return true;
    }
    if bytes_eq(s, &lit_rw30_vec()) {
        return true;
    }
    if bytes_eq(s, &lit_rw31_vec()) {
        return true;
    }
    if bytes_eq(s, &lit_rw32_vec()) {
        return true;
    }
    if bytes_eq(s, &lit_rw33_vec()) {
        return true;
    }
    if bytes_eq(s, &lit_rw34_vec()) {
        return true;
    }
    if bytes_eq(s, &lit_rw35_vec()) {
        return true;
    }
    if bytes_eq(s, &lit_rw36_vec()) {
        return true;
    }
    if bytes_eq(s, &lit_rw37_vec()) {
        return true;
    }
    if bytes_eq(s, &lit_rw38_vec()) {
        return true;
    }
    if bytes_eq(s, &lit_rw39_vec()) {
        return true;
    }
    if bytes_eq(s, &lit_rw40_vec()) {
        return true;
    }
    if bytes_eq(s, &lit_rw41_vec()) {
        return true;
    }
    if bytes_eq(s, &lit_rw42_vec()) {
        return true;
    }
    if bytes_eq(s, &lit_rw43_vec()) {
        return true;
    }
    if bytes_eq(s, &lit_rw44_vec()) {
        return true;
    }
    if bytes_eq(s, &lit_rw45_vec()) {
        return true;
    }
    if bytes_eq(s, &lit_rw46_vec()) {
        return true;
    }
    if bytes_eq(s, &lit_rw47_vec()) {
        return true;
    }
    if bytes_eq(s, &lit_rw48_vec()) {
        return true;
    }
    if bytes_eq(s, &lit_rw49_vec()) {
        return true;
    }
    if bytes_eq(s, &lit_rw50_vec()) {
        return true;
    }
    false
}

pub open spec fn lit_h_u() -> Seq<u8> {
    seq![117u8]
}

pub fn lit_h_u_vec() -> (r: Vec<u8>)
    ensures
        r@ == lit_h_u(),
{
    let mut r: Vec<u8> = Vec::new();
    r.push(117);
    proof {
        assert(r@ =~= lit_h_u());
    }
    r
}

pub open spec fn lit_h_i() -> Seq<u8> {
    seq![105u8]
}

pub fn lit_h_i_vec() -> (r: Vec<u8>)
    ensures
        r@ == lit_h_i(),
{
    let mut r: Vec<u8> = Vec::new();
    r.push(105);
    proof {
        assert(r@ =~= lit_h_i());
    }
    r
}

pub open spec fn lit_h_biguint() -> Seq<u8> {
    seq![85u8, 50u8, 53u8, 54u8]
}

pub fn lit_h_biguint_vec() -> (r: Vec<u8>)
    ensures
        r@ == lit_h_biguint(),
{
    let mut r: Vec<u8> = Vec::new();
    r.push(85);
    r.push(50);
    r.push(53);
    r.push(54);
    proof {
        assert(r@ =~= lit_h_biguint());
    }
    r
}

pub open spec fn lit_h_bigint() -> Seq<u8> {
    seq![73u8, 50u8, 53u8, 54u8]
}

pub fn lit_h_bigint_vec() -> (r: Vec<u8>)
    ensures
        r@ == lit_h_bigint(),
{
    let mut r: Vec<u8> = Vec::new();
    r.push(73);
    r.push(50);
    r.push(53);
    r.push(54);
    proof {
        assert(r@ =~= lit_h_bigint());
    }
    r
}

pub open spec fn lit_h_address() -> Seq<u8> {
    seq![65u8, 100u8, 100u8, 114u8, 101u8, 115u8, 115u8]
}

pub fn lit_h_address_vec() -> (r: Vec<u8>)
    ensures
        r@ == lit_h_address(),
{
    let mut r: Vec<u8> = Vec::new();
    r.push(65);
    r.push(100);
    r.push(100);
    r.push(114);
    r.push(101);
    r.push(115);
    r.push(115);
    proof {
        assert(r@ =~= lit_h_address());
    }
    r
}

pub open spec fn lit_h_bytes() -> Seq<u8> {
    seq![86u8, 101u8, 99u8, 60u8, 117u8, 56u8, 62u8]
}

pub fn lit_h_bytes_vec() -> (r: Vec<u8>)
    ensures
        r@ == lit_h_bytes(),
{
    let mut r: Vec<u8> = Vec::new();
    r.push(86);
    r.push(101);
    r.push(99);
    r.push(60);
    r.push(117);
    r.push(56);
    r.push(62);
    proof {
        assert(r@ =~= lit_h_bytes());
    }
    r
}

pub open spec fn lit_h_string() -> Seq<u8> {
    seq![83u8, 116u8, 114u8, 105u8, 110u8, 103u8]
}

pub fn lit_h_string_vec() -> (r: Vec<u8>)
    ensures
        r@ == lit_h_string(),
{
    let mut r: Vec<u8> = Vec::new();
    r.push(83);
    r.push(116);
    r.push(114);
    r.push(105);
    r.push(110);
    r.push(103);
    proof {
        assert(r@ =~= lit_h_string());
    }
    r
}

pub open spec fn lit_h_fixedbytes_open() -> Seq<u8> {
    seq![91u8, 117u8, 56u8, 59u8, 32u8]
}

pub fn lit_h_fixedbytes_open_vec() -> (r: Vec<u8>)
    ensures
        r@ == lit_h_fixedbytes_open(),
{
    let mut r: Vec<u8> = Vec::new();
    r.push(91);
    r.push(117);
    r.push(56);
    r.push(59);
    r.push(32);
    proof {
        assert(r@ =~= lit_h_fixedbytes_open());
    }
    r
}

pub open spec fn lit_semi() -> Seq<u8> {
    seq![59u8, 32u8]
}

pub fn lit_semi_vec() -> (r: Vec<u8>)
    ensures
        r@ == lit_semi(),
{
    let mut r: Vec<u8> = Vec::new();
    r.push(59);
    r.push(32);
    proof {
        assert(r@ =~= lit_semi());
    }
    r
}

pub open spec fn lit_vec_open() -> Seq<u8> {
    seq![86u8, 101u8, 99u8, 60u8]
}

pub fn lit_vec_open_vec() -> (r: Vec<u8>)
    ensures
        r@ == lit_vec_open(),
{
    let mut r: Vec<u8> = Vec::new();
    r.push(86);
    r.push(101);
    r.push(99);
    r.push(60);
    proof {
        assert(r@ =~= lit_vec_open());
    }
    r
}

pub open spec fn lit_comma_sp() -> Seq<u8> {
    seq![44u8, 32u8]
}

pub fn lit_comma_sp_vec() -> (r: Vec<u8>)
    ensures
        r@ == lit_comma_sp(),
{
    let mut r: Vec<u8> = Vec::new();
    r.push(44);
    r.push(32);
    proof {
        assert(r@ =~= lit_comma_sp());
    }
    r
}

} // verus!
