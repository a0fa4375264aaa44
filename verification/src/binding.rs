//! Host representations: every wire type is mapped to a host type reference
//! and an encode/decode strategy identifier (the canonical ABI spelling of
//! the type, which fully determines the wire layout).

use crate::bytes::{
    lit_bool_, lit_bool__vec, lit_comma_sp, lit_comma_sp_vec, lit_h_address, lit_h_address_vec,
    lit_h_bigint, lit_h_bigint_vec, lit_h_biguint, lit_h_biguint_vec, lit_h_bytes,
    lit_h_bytes_vec, lit_h_fixedbytes_open, lit_h_fixedbytes_open_vec, lit_h_i, lit_h_i_vec,
    lit_h_string, lit_h_string_vec, lit_h_u, lit_h_u_vec, lit_semi, lit_semi_vec, lit_vec_open,
    lit_vec_open_vec, push_dec, spec_dec,
};
use crate::types::{
    PrimKind, SolidityType, SpecSolidityType, SpecTupleField, TupleField, canon_bytes,
    fields_model, lemma_fields_model, spec_canon, type_model,
};
use vstd::prelude::*;

verus! {

/// The host-side binding of one wire type: an abstract host type reference
/// and the identifier of the codec strategy that encodes and decodes it.
pub struct TypeBinding {
    pub host_type: Vec<u8>,
    pub codec: Vec<u8>,
}

/// Mathematical model of `TypeBinding`.
pub struct SpecTypeBinding {
    pub host_type: Seq<u8>,
    pub codec: Seq<u8>,
}

pub open spec fn binding_model(b: TypeBinding) -> SpecTypeBinding {
    SpecTypeBinding { host_type: b.host_type@, codec: b.codec@ }
}

/// The width of the smallest native host integer that losslessly holds a
/// wire integer of width `w`; widths above 128 fall back to the 256-bit
/// arbitrary-precision representation.
pub open spec fn host_width(w: int) -> int {
    if w <= 8 {
        8
    } else if w <= 16 {
        16
    } else if w <= 32 {
        32
    } else if w <= 64 {
        64
    } else if w <= 128 {
        128
    } else {
        256
    }
}

/// The chosen host integer never loses range: its width covers the wire
/// width, so no value is silently truncated.
pub proof fn lemma_host_width_lossless(w: int)
    requires
        8 <= w <= 256,
    ensures
        host_width(w) >= w,
{
}

/// The host type reference for a wire type: the smallest lossless native
/// integer (or an arbitrary-precision value above 128 bits), a fixed
/// 20-byte value for addresses, fixed byte arrays for `bytes<N>`, growable
/// containers for dynamic data, and structural composition for arrays and
/// tuples.
pub open spec fn spec_host_type(t: SpecSolidityType) -> Seq<u8>
    decreases t, 0int,
{
    match t {
        SpecSolidityType::Primitive { kind, bits } => match kind {
            PrimKind::Uint => if bits <= 128 {
                lit_h_u() + spec_dec(host_width(bits as int) as nat)
            } else {
                lit_h_biguint()
            },
            PrimKind::Int => if bits <= 128 {
                lit_h_i() + spec_dec(host_width(bits as int) as nat)
            } else {
                lit_h_bigint()
            },
            PrimKind::Address => lit_h_address(),
            PrimKind::Bool => lit_bool_(),
        },
        SpecSolidityType::FixedBytes { size } => lit_h_fixedbytes_open() + spec_dec(size as nat)
            + seq![93u8],
        SpecSolidityType::DynamicBytes => lit_h_bytes(),
        SpecSolidityType::Str => lit_h_string(),
        SpecSolidityType::FixedArray { elem, len } => seq![91u8] + spec_host_type(*elem)
            + lit_semi() + spec_dec(len as nat) + seq![93u8],
        SpecSolidityType::DynamicArray { elem } => lit_vec_open() + spec_host_type(*elem) + seq![
            62u8,
        ],
        SpecSolidityType::Tuple { fields } => seq![40u8] + spec_host_fields(fields, 0) + seq![
            41u8,
        ],
    }
}

pub open spec fn spec_host_fields(s: Seq<SpecTupleField>, i: int) -> Seq<u8>
    decreases s, s.len() - i,
{
    if i < 0 || i >= s.len() {
        Seq::empty()
    } else if i + 1 == s.len() {
        spec_host_type(s[i].ty)
    } else {
        spec_host_type(s[i].ty) + lit_comma_sp() + spec_host_fields(s, i + 1)
    }
}

/// Appends the host type reference of `*t` to `out`.
pub fn push_host(out: &mut Vec<u8>, t: &SolidityType)
    ensures
        final(out)@ == old(out)@ + spec_host_type(type_model(*t)),
    decreases *t, 0int,
{
    match t {
        SolidityType::Primitive { kind, bits } => {
            match kind {
                PrimKind::Uint => {
                    if *bits <= 128 {
                        let mut kw = lit_h_u_vec();
                        out.append(&mut kw);
                        let hw: u64 = if *bits <= 8 {
                            8
                        } else if *bits <= 16 {
                            16
                        } else if *bits <= 32 {
                            32
                        } else if *bits <= 64 {
                            64
                        } else {
                            128
                        };
                        push_dec(out, hw);
                        proof {
                            assert(out@ =~= old(out)@ + spec_host_type(type_model(*t)));
                        }
                    } else {
                        let mut kw = lit_h_biguint_vec();
                        out.append(&mut kw);
                    }
                },
                PrimKind::Int => {
                    if *bits <= 128 {
                        let mut kw = lit_h_i_vec();
                        out.append(&mut kw);
                        let hw: u64 = if *bits <= 8 {
                            8
                        } else if *bits <= 16 {
                            16
                        } else if *bits <= 32 {
                            32
                        } else if *bits <= 64 {
                            64
                        } else {
                            128
                        };
                        push_dec(out, hw);
                        proof {
                            assert(out@ =~= old(out)@ + spec_host_type(type_model(*t)));
                        }
                    } else {
                        let mut kw = lit_h_bigint_vec();
                        out.append(&mut kw);
                    }
                },
                PrimKind::Address => {
                    let mut kw = lit_h_address_vec();
                    out.append(&mut kw);
                },
                PrimKind::Bool => {
                    let mut kw = lit_bool__vec();
                    out.append(&mut kw);
                },
            }
        },
        SolidityType::FixedBytes { size } => {
            let mut kw = lit_h_fixedbytes_open_vec();
            out.append(&mut kw);
            push_dec(out, *size as u64);
            out.push(93);
            proof {
                assert(out@ =~= old(out)@ + spec_host_type(type_model(*t)));
            }
        },
        SolidityType::DynamicBytes => {
            let mut kw = lit_h_bytes_vec();
            out.append(&mut kw);
        },
        SolidityType::Str => {
            let mut kw = lit_h_string_vec();
            out.append(&mut kw);
        },
        SolidityType::FixedArray { elem, len } => {
            out.push(91);
            push_host(out, elem);
            let mut sep = lit_semi_vec();
            out.append(&mut sep);
            push_dec(out, *len);
            out.push(93);
            proof {
                assert(out@ =~= old(out)@ + spec_host_type(type_model(*t)));
            }
        },
        SolidityType::DynamicArray { elem } => {
            let mut kw = lit_vec_open_vec();
            out.append(&mut kw);
            push_host(out, elem);
            out.push(62);
            proof {
                assert(out@ =~= old(out)@ + spec_host_type(type_model(*t)));
            }
        },
        SolidityType::Tuple { fields } => {
            out.push(40);
            push_host_fields(out, fields, 0);
            out.push(41);
            proof {
                lemma_fields_model(fields@, 0);
                assert(out@ =~= old(out)@ + spec_host_type(type_model(*t)));
            }
        },
    }
}

/// Appends the comma-separated host references of `fields[i..]` to `out`.
pub fn push_host_fields(out: &mut Vec<u8>, fields: &Vec<TupleField>, i: usize)
    requires
        i <= fields@.len(),
    ensures
        final(out)@ == old(out)@ + spec_host_fields(fields_model(fields@, 0), i as int),
    decreases fields@, fields@.len() - i,
{
    proof {
        lemma_fields_model(fields@, 0);
    }
    if i == fields.len() {
        proof {
            assert(out@ =~= old(out)@ + spec_host_fields(fields_model(fields@, 0), i as int));
        }
    } else if i + 1 == fields.len() {
        push_host(out, &fields[i].ty);
        proof {
            assert(out@ =~= old(out)@ + spec_host_fields(fields_model(fields@, 0), i as int));
        }
    } else {
        push_host(out, &fields[i].ty);
        let mut sep = lit_comma_sp_vec();
        out.append(&mut sep);
        push_host_fields(out, fields, i + 1);
        proof {
            assert(out@ =~= old(out)@ + spec_host_fields(fields_model(fields@, 0), i as int));
        }
    }
}

/// The host type reference of `*t` as a fresh byte vector.
pub fn host_bytes(t: &SolidityType) -> (r: Vec<u8>)
    ensures
        r@ == spec_host_type(type_model(*t)),
{
    let mut out: Vec<u8> = Vec::new();
    push_host(&mut out, t);
    proof {
        assert(out@ =~= spec_host_type(type_model(*t)));
    }
    out
}

/// The binding of a wire type: host reference plus codec identifier.
pub open spec fn spec_binding_of(t: SpecSolidityType) -> SpecTypeBinding {
    SpecTypeBinding { host_type: spec_host_type(t), codec: spec_canon(t) }
}

/// Produces the `TypeBinding` of a wire type by table lookup and structural
/// composition: one binding per distinct type shape.
pub fn binding_for(t: &SolidityType) -> (r: TypeBinding)
    ensures
        binding_model(r) == spec_binding_of(type_model(*t)),
{
    TypeBinding { host_type: host_bytes(t), codec: canon_bytes(t) }
}

} // verus!
