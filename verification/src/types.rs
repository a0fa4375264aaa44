//! The structured model of Solidity wire types and their canonical
//! (ABI-normalized) spelling, which signature resolution builds on.

use crate::bytes::{
    lit_address, lit_address_vec, lit_bool_, lit_bool__vec, lit_bytes, lit_bytes_vec, lit_int_,
    lit_int__vec, lit_string, lit_string_vec, lit_uint, lit_uint_vec, push_dec, spec_dec,
};
use vstd::prelude::*;

verus! {

/// Discriminates the primitive (non-composite) wire types.
#[derive(Clone, Copy, PartialEq, Eq, Structural, Debug)]
pub enum PrimKind {
    Uint,
    Int,
    Address,
    Bool,
}

/// A wire type, as produced by the type-string grammar. Every type string an
/// artifact may carry parses to exactly one value of this shape.
pub enum SolidityType {
    /// `uint<N>`/`int<N>` (bits = N), `address` (bits = 160), `bool` (bits = 8).
    Primitive { kind: PrimKind, bits: u32 },
    /// `bytes<N>` with 1 <= N <= 32.
    FixedBytes { size: u32 },
    /// Dynamically sized `bytes`.
    DynamicBytes,
    /// Dynamically sized `string`.
    Str,
    /// `T[N]`.
    FixedArray { elem: Box<SolidityType>, len: u64 },
    /// `T[]`.
    DynamicArray { elem: Box<SolidityType> },
    /// `tuple`, with one named field per component.
    Tuple { fields: Vec<TupleField> },
}

/// One component of a tuple type.
pub struct TupleField {
    pub name: Vec<u8>,
    pub ty: SolidityType,
}

/// Mathematical model of `SolidityType`.
pub enum SpecSolidityType {
    Primitive { kind: PrimKind, bits: u32 },
    FixedBytes { size: u32 },
    DynamicBytes,
    Str,
    FixedArray { elem: Box<SpecSolidityType>, len: u64 },
    DynamicArray { elem: Box<SpecSolidityType> },
    Tuple { fields: Seq<SpecTupleField> },
}

/// Mathematical model of `TupleField`.
pub struct SpecTupleField {
    pub name: Seq<u8>,
    pub ty: SpecSolidityType,
}

pub open spec fn field_model(f: TupleField) -> SpecTupleField
    decreases f, 1int,
{
    SpecTupleField { name: f.name@, ty: type_model(f.ty) }
}

pub open spec fn type_model(t: SolidityType) -> SpecSolidityType
    decreases t, 0int,
{
    match t {
        SolidityType::Primitive { kind, bits } => SpecSolidityType::Primitive { kind, bits },
        SolidityType::FixedBytes { size } => SpecSolidityType::FixedBytes { size },
        SolidityType::DynamicBytes => SpecSolidityType::DynamicBytes,
        SolidityType::Str => SpecSolidityType::Str,
        SolidityType::FixedArray { elem, len } => SpecSolidityType::FixedArray {
            elem: Box::new(type_model(*elem)),
            len,
        },
        SolidityType::DynamicArray { elem } => SpecSolidityType::DynamicArray {
            elem: Box::new(type_model(*elem)),
        },
        SolidityType::Tuple { fields } => SpecSolidityType::Tuple {
            fields: fields_model(fields@, 0),
        },
    }
}

pub open spec fn fields_model(s: Seq<TupleField>, i: int) -> Seq<SpecTupleField>
    decreases s, s.len() - i,
{
    if i < 0 || i >= s.len() {
        Seq::empty()
    } else {
        seq![field_model(s[i])] + fields_model(s, i + 1)
    }
}

pub proof fn lemma_fields_model(s: Seq<TupleField>, i: int)
    requires
        0 <= i <= s.len(),
    ensures
        fields_model(s, i).len() == s.len() - i,
        forall|j: int| i <= j < s.len() ==> fields_model(s, i)[j - i] == field_model(s[j]),
    decreases s.len() - i,
{
    if i < s.len() {
        lemma_fields_model(s, i + 1);
    }
}

/// Well-formedness of a wire type: integer widths are whole bytes within
/// 8..=256, fixed byte sizes lie in 1..=32, and array lengths stay within the
/// nine decimal digits the grammar admits.
pub open spec fn wf_type(t: SpecSolidityType) -> bool
    decreases t, 0int,
{
    match t {
        SpecSolidityType::Primitive { kind, bits } => match kind {
            PrimKind::Uint => 8 <= bits <= 256 && bits % 8 == 0,
            PrimKind::Int => 8 <= bits <= 256 && bits % 8 == 0,
            PrimKind::Address => bits == 160,
            PrimKind::Bool => bits == 8,
        },
        SpecSolidityType::FixedBytes { size } => 1 <= size <= 32,
        SpecSolidityType::DynamicBytes => true,
        SpecSolidityType::Str => true,
        SpecSolidityType::FixedArray { elem, len } => len <= 999_999_999 && wf_type(*elem),
        SpecSolidityType::DynamicArray { elem } => wf_type(*elem),
        SpecSolidityType::Tuple { fields } => wf_fields(fields, 0),
    }
}

pub open spec fn wf_fields(s: Seq<SpecTupleField>, i: int) -> bool
    decreases s, s.len() - i,
{
    if i < 0 || i >= s.len() {
        true
    } else {
        wf_type(s[i].ty) && wf_fields(s, i + 1)
    }
}

/// A typed parameter of a function, event or constructor. `indexed` is
/// meaningful for event parameters only.
pub struct Parameter {
    pub name: Vec<u8>,
    pub solidity_type: SolidityType,
    pub indexed: bool,
}

/// Mathematical model of `Parameter`.
pub struct SpecParameter {
    pub name: Seq<u8>,
    pub ty: SpecSolidityType,
    pub indexed: bool,
}

pub open spec fn param_model(p: Parameter) -> SpecParameter {
    SpecParameter { name: p.name@, ty: type_model(p.solidity_type), indexed: p.indexed }
}

pub open spec fn params_model(s: Seq<Parameter>, i: int) -> Seq<SpecParameter>
    decreases s.len() - i,
{
    if i < 0 || i >= s.len() {
        Seq::empty()
    } else {
        seq![param_model(s[i])] + params_model(s, i + 1)
    }
}

pub proof fn lemma_params_model(s: Seq<Parameter>, i: int)
    requires
        0 <= i <= s.len(),
    ensures
        params_model(s, i).len() == s.len() - i,
        forall|j: int| i <= j < s.len() ==> params_model(s, i)[j - i] == param_model(s[j]),
    decreases s.len() - i,
{
    if i < s.len() {
        lemma_params_model(s, i + 1);
    }
}

/// The canonical (ABI-normalized) spelling of a type: `uint8`..`uint256`,
/// `address`, `bool`, `bytes1`..`bytes32`, `bytes`, `string`, `T[N]`, `T[]`,
/// and `(T1,...,Tn)` for tuples.
pub open spec fn spec_canon(t: SpecSolidityType) -> Seq<u8>
    decreases t, 0int,
{
    match t {
        SpecSolidityType::Primitive { kind, bits } => match kind {
            PrimKind::Uint => lit_uint() + spec_dec(bits as nat),
            PrimKind::Int => lit_int_() + spec_dec(bits as nat),
            PrimKind::Address => lit_address(),
            PrimKind::Bool => lit_bool_(),
        },
        SpecSolidityType::FixedBytes { size } => lit_bytes() + spec_dec(size as nat),
        SpecSolidityType::DynamicBytes => lit_bytes(),
        SpecSolidityType::Str => lit_string(),
        SpecSolidityType::FixedArray { elem, len } => spec_canon(*elem) + seq![91u8] + spec_dec(
            len as nat,
        ) + seq![93u8],
        SpecSolidityType::DynamicArray { elem } => spec_canon(*elem) + seq![91u8, 93u8],
        SpecSolidityType::Tuple { fields } => seq![40u8] + spec_canon_fields(fields, 0) + seq![
            41u8,
        ],
    }
}

pub open spec fn spec_canon_fields(s: Seq<SpecTupleField>, i: int) -> Seq<u8>
    decreases s, s.len() - i,
{
    if i < 0 || i >= s.len() {
        Seq::empty()
    } else if i + 1 == s.len() {
        spec_canon(s[i].ty)
    } else {
        spec_canon(s[i].ty) + seq![44u8] + spec_canon_fields(s, i + 1)
    }
}

/// Appends the canonical spelling of `*t` to `out`.
pub fn push_canon(out: &mut Vec<u8>, t: &SolidityType)
    ensures
        final(out)@ == old(out)@ + spec_canon(type_model(*t)),
    decreases *t, 0int,
{
    match t {
        SolidityType::Primitive { kind, bits } => {
            match kind {
                PrimKind::Uint => {
                    let mut kw = lit_uint_vec();
                    out.append(&mut kw);
                    push_dec(out, *bits as u64);
                    proof {
                        assert(out@ =~= old(out)@ + spec_canon(type_model(*t)));
                    }
                },
                PrimKind::Int => {
                    let mut kw = lit_int__vec();
                    out.append(&mut kw);
                    push_dec(out, *bits as u64);
                    proof {
                        assert(out@ =~= old(out)@ + spec_canon(type_model(*t)));
                    }
                },
                PrimKind::Address => {
                    let mut kw = lit_address_vec();
                    out.append(&mut kw);
                },
                PrimKind::Bool => {
                    let mut kw = lit_bool__vec();
                    out.append(&mut kw);
                },
            }
        },
        SolidityType::FixedBytes { size } => {
            let mut kw = lit_bytes_vec();
            out.append(&mut kw);
            push_dec(out, *size as u64);
            proof {
                assert(out@ =~= old(out)@ + spec_canon(type_model(*t)));
            }
        },
        SolidityType::DynamicBytes => {
            let mut kw = lit_bytes_vec();
            out.append(&mut kw);
        },
        SolidityType::Str => {
            let mut kw = lit_string_vec();
            out.append(&mut kw);
        },
        SolidityType::FixedArray { elem, len } => {
            push_canon(out, elem);
            out.push(91);
            push_dec(out, *len);
            out.push(93);
            proof {
                assert(out@ =~= old(out)@ + spec_canon(type_model(*t)));
            }
        },
        SolidityType::DynamicArray { elem } => {
            push_canon(out, elem);
            out.push(91);
            out.push(93);
            proof {
                assert(out@ =~= old(out)@ + spec_canon(type_model(*t)));
            }
        },
        SolidityType::Tuple { fields } => {
            out.push(40);
            push_canon_fields(out, fields, 0);
            out.push(41);
            proof {
                lemma_fields_model(fields@, 0);
                assert(out@ =~= old(out)@ + spec_canon(type_model(*t)));
            }
        },
    }
}

/// Appends the comma-separated canonical spellings of `fields[i..]` to `out`.
pub fn push_canon_fields(out: &mut Vec<u8>, fields: &Vec<TupleField>, i: usize)
    requires
        i <= fields@.len(),
    ensures
        final(out)@ == old(out)@ + spec_canon_fields(fields_model(fields@, 0), i as int),
    decreases fields@, fields@.len() - i,
{
    proof {
        lemma_fields_model(fields@, 0);
    }
    if i == fields.len() {
        proof {
            assert(out@ =~= old(out)@ + spec_canon_fields(fields_model(fields@, 0), i as int));
        }
    } else if i + 1 == fields.len() {
        push_canon(out, &fields[i].ty);
        proof {
            assert(out@ =~= old(out)@ + spec_canon_fields(fields_model(fields@, 0), i as int));
        }
    } else {
        push_canon(out, &fields[i].ty);
        out.push(44);
        push_canon_fields(out, fields, i + 1);
        proof {
            assert(out@ =~= old(out)@ + spec_canon_fields(fields_model(fields@, 0), i as int));
        }
    }
}

/// The canonical spelling of `*t` as a fresh byte vector.
pub fn canon_bytes(t: &SolidityType) -> (r: Vec<u8>)
    ensures
        r@ == spec_canon(type_model(*t)),
{
    let mut out: Vec<u8> = Vec::new();
    push_canon(&mut out, t);
    proof {
        assert(out@ =~= spec_canon(type_model(*t)));
    }
    out
}

} // verus!
