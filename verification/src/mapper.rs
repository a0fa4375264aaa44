//! The type mapper: a recursive-descent parse of the wire type grammar
//! (primitive name, optional bit width, then array suffixes, innermost
//! first), consulting the accompanying `components` records for tuples.

use crate::bytes::{
    bytes_eq, clone_bytes, dec_value, is_digit, spec_dec, lit_address, lit_bool_, lit_bytes, lit_bytes_vec,
    lit_components, lit_components_vec, lit_indexed, lit_indexed_vec, lit_int_, lit_int__vec,
    lit_name_field, lit_name_field_vec, lit_string, lit_string_vec, lit_tuple, lit_tuple_vec,
    lit_type_field, lit_type_field_vec, lit_uint, lit_uint_vec, lit_address_vec, lit_bool__vec,
};
use crate::errors::{
    ArtifactParseError, BindError, ParseDetail, SpecArtifactParseError, SpecBindError,
    UnsupportedTypeError, error_model,
};
use crate::raw::{
    RawValue, SpecRawValue, h_list, h_obj, h_raw, lemma_h_list, lemma_h_obj, lemma_obj_get_some,
    lemma_raw_list_model, lemma_raw_obj_model, obj_get, raw_list_model, raw_model, raw_obj_model,
    spec_obj_get,
};
use crate::types::{
    Parameter, PrimKind, SolidityType, SpecParameter, SpecSolidityType, SpecTupleField,
    param_model, spec_canon, type_model, wf_type,
};
use vstd::prelude::*;

verus! {

pub open spec fn p10(n: nat) -> int
    decreases n,
{
    if n == 0 {
        1
    } else {
        10 * p10((n - 1) as nat)
    }
}

pub proof fn lemma_p10_values()
    ensures
        p10(0) == 1,
        p10(1) == 10,
        p10(2) == 100,
        p10(3) == 1000,
        p10(4) == 10000,
        p10(5) == 100000,
        p10(6) == 1000000,
        p10(7) == 10000000,
        p10(8) == 100000000,
        p10(9) == 1000000000,
{
    assert(p10(0) == 1);
    assert(p10(1) == 10);
    assert(p10(2) == 100);
    assert(p10(3) == 1000);
    assert(p10(4) == 10000);
    assert(p10(5) == 100000);
    assert(p10(6) == 1000000);
    assert(p10(7) == 10000000);
    assert(p10(8) == 100000000);
    assert(p10(9) == 1000000000);
}

pub open spec fn all_digits(s: Seq<u8>) -> bool {
    forall|k: int| 0 <= k < s.len() ==> is_digit(s[k])
}

pub proof fn lemma_dec_value_bound(s: Seq<u8>)
    requires
        all_digits(s),
    ensures
        0 <= dec_value(s) < p10(s.len()),
    decreases s.len(),
{
    if s.len() > 0 {
        assert(all_digits(s.drop_last()));
        lemma_dec_value_bound(s.drop_last());
    }
}

/// First position at or after `i` that does not hold a decimal digit.
pub open spec fn spec_digits_end(s: Seq<u8>, i: int) -> int
    decreases s.len() - i,
{
    if i < 0 || i >= s.len() {
        i
    } else if !is_digit(s[i]) {
        i
    } else {
        spec_digits_end(s, i + 1)
    }
}

pub fn digits_end(s: &Vec<u8>, i: usize) -> (r: usize)
    requires
        i <= s@.len(),
    ensures
        r == spec_digits_end(s@, i as int),
        i <= r <= s@.len(),
        forall|k: int| i <= k < r ==> is_digit(s@[k]),
    decreases s@.len() - i,
{
    if i == s.len() {
        i
    } else if s[i] < 48 || s[i] > 57 {
        i
    } else {
        digits_end(s, i + 1)
    }
}

/// A digit run that is a number token: nonempty, at most nine digits, no
/// leading zero (unless it is the single digit zero).
pub open spec fn valid_number(s: Seq<u8>, a: int, b: int) -> bool {
    a < b && b - a <= 9 && (s[a] != 48 || b == a + 1)
}

/// The value of the digit run `s[a..b]`.
pub open spec fn number_at(s: Seq<u8>, a: int, b: int) -> int {
    dec_value(s.subrange(a, b))
}

pub fn parse_number(s: &Vec<u8>, a: usize, b: usize) -> (r: u64)
    requires
        a <= b <= s@.len(),
        b - a <= 9,
        forall|k: int| a <= k < b ==> is_digit(s@[k]),
    ensures
        r == number_at(s@, a as int, b as int),
        r <= 999_999_999,
{
    proof {
        lemma_p10_values();
    }
    let mut v: u64 = 0;
    let mut j: usize = a;
    while j < b
        invariant
            a <= j <= b <= s@.len(),
            b - a <= 9,
            forall|k: int| a <= k < b ==> is_digit(s@[k]),
            v == dec_value(s@.subrange(a as int, j as int)),
            0 <= v < p10((j - a) as nat),
            p10(9) == 1000000000,
        decreases b - j,
    {
        proof {
            lemma_p10_values();
            assert(s@.subrange(a as int, j + 1).drop_last() =~= s@.subrange(a as int, j as int));
            assert(s@.subrange(a as int, j + 1).last() == s@[j as int]);
        }
        v = v * 10 + (s[j] - 48) as u64;
        j += 1;
    }
    proof {
        lemma_p10_values();
        lemma_dec_value_bound(s@.subrange(a as int, b as int));
    }
    v
}

/// Does `p` occur in `s` starting at position `i`?
pub open spec fn spec_prefix_at(s: Seq<u8>, i: int, p: Seq<u8>) -> bool {
    0 <= i && i + p.len() <= s.len() && s.subrange(i, i + p.len()) == p
}

pub fn prefix_at(s: &Vec<u8>, i: usize, p: &Vec<u8>) -> (r: bool)
    requires
        i <= s@.len(),
    ensures
        r == spec_prefix_at(s@, i as int, p@),
{
    if s.len() - i < p.len() {
        return false;
    }
    let mut k: usize = 0;
    while k < p.len()
        invariant
            0 <= k <= p@.len(),
            i + p@.len() <= s@.len(),
            forall|j: int| 0 <= j < k ==> s@[i + j] == p@[j],
        decreases p@.len() - k,
    {
        proof {
            assert(s@.len() == s.len());
            assert(i + k < s@.len());
        }
        if s[i + k] != p[k] {
            proof {
                assert(s@.subrange(i as int, i + p@.len())[k as int] == s@[i + k]);
            }
            return false;
        }
        k += 1;
    }
    proof {
        assert(s@.subrange(i as int, i + p@.len()) =~= p@);
    }
    true
}

/// The base (innermost) part of a type string: either a complete non-tuple
/// type or the tuple keyword, together with the position where the array
/// suffixes begin.
pub enum BaseTok {
    Prim(SolidityType),
    TupleTok,
}

/// Mathematical model of `BaseTok`.
pub enum SpecBaseTok {
    Prim(SpecSolidityType),
    TupleTok,
}

pub open spec fn base_model(b: BaseTok) -> SpecBaseTok {
    match b {
        BaseTok::Prim(t) => SpecBaseTok::Prim(type_model(t)),
        BaseTok::TupleTok => SpecBaseTok::TupleTok,
    }
}

pub open spec fn width_ok(w: int) -> bool {
    8 <= w <= 256 && w % 8 == 0
}

pub open spec fn spec_scan_base(s: Seq<u8>) -> Option<(SpecBaseTok, int)> {
    if spec_prefix_at(s, 0, lit_uint()) {
        let e = spec_digits_end(s, 4);
        if e == 4 {
            Option::Some(
                (SpecBaseTok::Prim(SpecSolidityType::Primitive { kind: PrimKind::Uint, bits: 256 }), 4),
            )
        } else if valid_number(s, 4, e) && width_ok(number_at(s, 4, e)) {
            Option::Some(
                (
                    SpecBaseTok::Prim(
                        SpecSolidityType::Primitive {
                            kind: PrimKind::Uint,
                            bits: number_at(s, 4, e) as u32,
                        },
                    ),
                    e,
                ),
            )
        } else {
            Option::None
        }
    } else if spec_prefix_at(s, 0, lit_int_()) {
        let e = spec_digits_end(s, 3);
        if e == 3 {
            Option::Some(
                (SpecBaseTok::Prim(SpecSolidityType::Primitive { kind: PrimKind::Int, bits: 256 }), 3),
            )
        } else if valid_number(s, 3, e) && width_ok(number_at(s, 3, e)) {
            Option::Some(
                (
                    SpecBaseTok::Prim(
                        SpecSolidityType::Primitive {
                            kind: PrimKind::Int,
                            bits: number_at(s, 3, e) as u32,
                        },
                    ),
                    e,
                ),
            )
        } else {
            Option::None
        }
    } else if spec_prefix_at(s, 0, lit_address()) {
        Option::Some(
            (SpecBaseTok::Prim(SpecSolidityType::Primitive { kind: PrimKind::Address, bits: 160 }), 7),
        )
    } else if spec_prefix_at(s, 0, lit_bool_()) {
        Option::Some(
            (SpecBaseTok::Prim(SpecSolidityType::Primitive { kind: PrimKind::Bool, bits: 8 }), 4),
        )
    } else if spec_prefix_at(s, 0, lit_bytes()) {
        let e = spec_digits_end(s, 5);
        if e == 5 {
            Option::Some((SpecBaseTok::Prim(SpecSolidityType::DynamicBytes), 5))
        } else if valid_number(s, 5, e) && 1 <= number_at(s, 5, e) <= 32 {
            Option::Some(
                (
                    SpecBaseTok::Prim(
                        SpecSolidityType::FixedBytes { size: number_at(s, 5, e) as u32 },
                    ),
                    e,
                ),
            )
        } else {
            Option::None
        }
    } else if spec_prefix_at(s, 0, lit_string()) {
        Option::Some((SpecBaseTok::Prim(SpecSolidityType::Str), 6))
    } else if spec_prefix_at(s, 0, lit_tuple()) {
        Option::Some((SpecBaseTok::TupleTok, 5))
    } else {
        Option::None
    }
}

pub fn scan_base(s: &Vec<u8>) -> (r: Option<(BaseTok, usize)>)
    ensures
        match r {
            Option::None => spec_scan_base(s@) is None,
            Option::Some(p) => spec_scan_base(s@) == Option::Some((base_model(p.0), p.1 as int))
                && p.1 <= s@.len(),
        },
{
    if prefix_at(s, 0, &lit_uint_vec()) {
        let e = digits_end(s, 4);
        if e == 4 {
            Option::Some(
                (BaseTok::Prim(SolidityType::Primitive { kind: PrimKind::Uint, bits: 256 }), 4),
            )
        } else {
            let lead_ok = s[4] != 48 || e == 5;
            if e - 4 <= 9 && lead_ok {
                let w = parse_number(s, 4, e);
                if 8 <= w && w <= 256 && w % 8 == 0 {
                    Option::Some(
                        (
                            BaseTok::Prim(
                                SolidityType::Primitive { kind: PrimKind::Uint, bits: w as u32 },
                            ),
                            e,
                        ),
                    )
                } else {
                    Option::None
                }
            } else {
                Option::None
            }
        }
    } else if prefix_at(s, 0, &lit_int__vec()) {
        let e = digits_end(s, 3);
        if e == 3 {
            Option::Some(
                (BaseTok::Prim(SolidityType::Primitive { kind: PrimKind::Int, bits: 256 }), 3),
            )
        } else {
            let lead_ok = s[3] != 48 || e == 4;
            if e - 3 <= 9 && lead_ok {
                let w = parse_number(s, 3, e);
                if 8 <= w && w <= 256 && w % 8 == 0 {
                    Option::Some(
                        (
                            BaseTok::Prim(
                                SolidityType::Primitive { kind: PrimKind::Int, bits: w as u32 },
                            ),
                            e,
                        ),
                    )
                } else {
                    Option::None
                }
            } else {
                Option::None
            }
        }
    } else if prefix_at(s, 0, &lit_address_vec()) {
        Option::Some(
            (BaseTok::Prim(SolidityType::Primitive { kind: PrimKind::Address, bits: 160 }), 7),
        )
    } else if prefix_at(s, 0, &lit_bool__vec()) {
        Option::Some(
            (BaseTok::Prim(SolidityType::Primitive { kind: PrimKind::Bool, bits: 8 }), 4),
        )
    } else if prefix_at(s, 0, &lit_bytes_vec()) {
        let e = digits_end(s, 5);
        if e == 5 {
            Option::Some((BaseTok::Prim(SolidityType::DynamicBytes), 5))
        } else {
            let lead_ok = s[5] != 48 || e == 6;
            if e - 5 <= 9 && lead_ok {
                let w = parse_number(s, 5, e);
                if 1 <= w && w <= 32 {
                    Option::Some((BaseTok::Prim(SolidityType::FixedBytes { size: w as u32 }), e))
                } else {
                    Option::None
                }
            } else {
                Option::None
            }
        }
    } else if prefix_at(s, 0, &lit_string_vec()) {
        Option::Some((BaseTok::Prim(SolidityType::Str), 6))
    } else if prefix_at(s, 0, &lit_tuple_vec()) {
        Option::Some((BaseTok::TupleTok, 5))
    } else {
        Option::None
    }
}

/// The array suffixes `[N]` / `[]` from position `i` to the end of the
/// string: `Some(n)` for a fixed length, `None` for a dynamic array.
pub open spec fn spec_scan_suffixes(s: Seq<u8>, i: int) -> Option<Seq<Option<u64>>>
    decreases s.len() - i,
{
    if i >= s.len() {
        Option::Some(Seq::empty())
    } else if s[i] != 91 {
        Option::None
    } else if i + 1 < s.len() && s[i + 1] == 93 {
        match spec_scan_suffixes(s, i + 2) {
            Option::None => Option::None,
            Option::Some(rest) => Option::Some(seq![Option::<u64>::None] + rest),
        }
    } else {
        let e = spec_digits_end(s, i + 1);
        if valid_number(s, i + 1, e) && e < s.len() && s[e] == 93 {
            match spec_scan_suffixes(s, e + 1) {
                Option::None => Option::None,
                Option::Some(rest) => Option::Some(
                    seq![Option::Some(number_at(s, i + 1, e) as u64)] + rest,
                ),
            }
        } else {
            Option::None
        }
    }
}

pub fn scan_suffixes(s: &Vec<u8>, i: usize) -> (r: Option<Vec<Option<u64>>>)
    requires
        i <= s@.len(),
    ensures
        match r {
            Option::None => spec_scan_suffixes(s@, i as int) is None,
            Option::Some(v) => spec_scan_suffixes(s@, i as int) == Option::Some(v@),
        },
    decreases s@.len() - i,
{
    if i >= s.len() {
        let v: Vec<Option<u64>> = Vec::new();
        proof {
            assert(v@ =~= Seq::<Option<u64>>::empty());
        }
        Option::Some(v)
    } else if s[i] != 91 {
        Option::None
    } else if i + 1 < s.len() && s[i + 1] == 93 {
        match scan_suffixes(s, i + 2) {
            Option::None => Option::None,
            Option::Some(mut rest) => {
                rest.insert(0, Option::None);
                proof {
                    assert(rest@ =~= seq![Option::<u64>::None]
                        + spec_scan_suffixes(s@, i + 2)->Some_0);
                }
                Option::Some(rest)
            },
        }
    } else {
        if i + 1 >= s.len() {
            return Option::None;
        }
        let e = digits_end(s, i + 1);
        let lead_ok = s[i + 1] != 48 || e == i + 2;
        if i + 1 < e && e - (i + 1) <= 9 && lead_ok && e < s.len() && s[e] == 93 {
            let n = parse_number(s, i + 1, e);
            match scan_suffixes(s, e + 1) {
                Option::None => Option::None,
                Option::Some(mut rest) => {
                    rest.insert(0, Option::Some(n));
                    proof {
                        assert(rest@ =~= seq![Option::Some(
                            number_at(s@, i + 1, e as int) as u64,
                        )] + spec_scan_suffixes(s@, e + 1)->Some_0);
                    }
                    Option::Some(rest)
                },
            }
        } else {
            Option::None
        }
    }
}

/// Wraps `base` in the scanned array suffixes, leftmost (innermost) first.
pub open spec fn spec_apply_suffixes(
    base: SpecSolidityType,
    sufs: Seq<Option<u64>>,
    i: int,
) -> SpecSolidityType
    decreases sufs.len() - i,
{
    if i < 0 || i >= sufs.len() {
        base
    } else {
        let t = match sufs[i] {
            Option::None => SpecSolidityType::DynamicArray { elem: Box::new(base) },
            Option::Some(n) => SpecSolidityType::FixedArray { elem: Box::new(base), len: n },
        };
        spec_apply_suffixes(t, sufs, i + 1)
    }
}

pub fn apply_suffixes(base: SolidityType, sufs: &Vec<Option<u64>>, i: usize) -> (r: SolidityType)
    requires
        i <= sufs@.len(),
    ensures
        type_model(r) == spec_apply_suffixes(type_model(base), sufs@, i as int),
    decreases sufs@.len() - i,
{
    if i == sufs.len() {
        base
    } else {
        let t = match sufs[i] {
            Option::None => SolidityType::DynamicArray { elem: Box::new(base) },
            Option::Some(n) => SolidityType::FixedArray { elem: Box::new(base), len: n },
        };
        apply_suffixes(t, sufs, i + 1)
    }
}

/// Tuple fields carrying over each component's name and type.
pub open spec fn spec_fields_of(ps: Seq<SpecParameter>, i: int) -> Seq<SpecTupleField>
    decreases ps.len() - i,
{
    if i < 0 || i >= ps.len() {
        Seq::empty()
    } else {
        seq![SpecTupleField { name: ps[i].name, ty: ps[i].ty }] + spec_fields_of(ps, i + 1)
    }
}

pub open spec fn spec_parse_err(field: Seq<u8>, detail: ParseDetail) -> SpecBindError {
    SpecBindError::Parse(
        SpecArtifactParseError { entry: Option::None, field: field, detail: detail },
    )
}

/// Parses a type string with its accompanying component records into a
/// structured type: base, then suffixes; `tuple` bases take one field per
/// component, loaded recursively.
pub open spec fn spec_parse_type(s: Seq<u8>, comps: Seq<SpecRawValue>) -> Result<
    SpecSolidityType,
    SpecBindError,
>
    decreases h_list(comps, 0), comps.len() + 1,
{
    match spec_scan_base(s) {
        Option::None => Result::Err(SpecBindError::Unsupported(s)),
        Option::Some(bp) => match spec_scan_suffixes(s, bp.1) {
            Option::None => Result::Err(SpecBindError::Unsupported(s)),
            Option::Some(sufs) => match bp.0 {
                SpecBaseTok::Prim(b) => Result::Ok(spec_apply_suffixes(b, sufs, 0)),
                SpecBaseTok::TupleTok => match spec_load_params(comps, 0) {
                    Result::Err(e) => Result::Err(e),
                    Result::Ok(ps) => Result::Ok(
                        spec_apply_suffixes(
                            SpecSolidityType::Tuple { fields: spec_fields_of(ps, 0) },
                            sufs,
                            0,
                        ),
                    ),
                },
            },
        },
    }
}

/// Loads the parameter records `s[i..]`, left to right.
pub open spec fn spec_load_params(s: Seq<SpecRawValue>, i: int) -> Result<
    Seq<SpecParameter>,
    SpecBindError,
>
    decreases h_list(s, 0), s.len() - i,
{
    if i < 0 || i >= s.len() {
        Result::Ok(Seq::empty())
    } else {
        {
            proof {
                lemma_h_list(s, 0);
            }
            match spec_load_param(s[i]) {
                Result::Err(e) => Result::Err(e),
                Result::Ok(p) => match spec_load_params(s, i + 1) {
                    Result::Err(e) => Result::Err(e),
                    Result::Ok(rest) => Result::Ok(seq![p] + rest),
                },
            }
        }
    }
}

/// Loads one parameter record: `name` (defaults to empty), `indexed`
/// (defaults to false), the required `type` string, and the optional
/// `components` list consulted for tuple bases.
pub open spec fn spec_load_param(v: SpecRawValue) -> Result<SpecParameter, SpecBindError>
    decreases h_raw(v), 0int,
{
    match v {
        SpecRawValue::Obj(fields) => {
            let name_r = match spec_obj_get(fields, lit_name_field()) {
                Option::None => Result::<Seq<u8>, SpecBindError>::Ok(Seq::empty()),
                Option::Some(nv) => match nv {
                    SpecRawValue::Str(n) => Result::Ok(n),
                    _ => Result::Err(spec_parse_err(lit_name_field(), ParseDetail::WrongShape)),
                },
            };
            match name_r {
                Result::Err(e) => Result::Err(e),
                Result::Ok(name) => {
                    let idx_r = match spec_obj_get(fields, lit_indexed()) {
                        Option::None => Result::<bool, SpecBindError>::Ok(false),
                        Option::Some(iv) => match iv {
                            SpecRawValue::Bool(b) => Result::Ok(b),
                            _ => Result::Err(
                                spec_parse_err(lit_indexed(), ParseDetail::WrongShape),
                            ),
                        },
                    };
                    match idx_r {
                        Result::Err(e) => Result::Err(e),
                        Result::Ok(indexed) => {
                            let ts_r = match spec_obj_get(fields, lit_type_field()) {
                                Option::None => Result::<Seq<u8>, SpecBindError>::Err(
                                    spec_parse_err(lit_type_field(), ParseDetail::Missing),
                                ),
                                Option::Some(tv) => match tv {
                                    SpecRawValue::Str(ts) => Result::Ok(ts),
                                    _ => Result::Err(
                                        spec_parse_err(lit_type_field(), ParseDetail::WrongShape),
                                    ),
                                },
                            };
                            match ts_r {
                                Result::Err(e) => Result::Err(e),
                                Result::Ok(ts) => {
                                    let comps_r = match spec_obj_get(fields, lit_components()) {
                                        Option::None => Result::<
                                            Seq<SpecRawValue>,
                                            SpecBindError,
                                        >::Ok(Seq::empty()),
                                        Option::Some(cv) => match cv {
                                            SpecRawValue::Arr(items) => Result::Ok(items),
                                            _ => Result::Err(
                                                spec_parse_err(
                                                    lit_components(),
                                                    ParseDetail::WrongShape,
                                                ),
                                            ),
                                        },
                                    };
                                    match comps_r {
                                        Result::Err(e) => Result::Err(e),
                                        Result::Ok(comps) => {
                                            proof {
                                                lemma_h_comps_lt(v, comps);
                                            }
                                            match spec_parse_type(ts, comps) {
                                                Result::Err(e) => Result::Err(e),
                                                Result::Ok(t) => Result::Ok(
                                                    SpecParameter { name, ty: t, indexed },
                                                ),
                                            }
                                        },
                                    }
                                },
                            }
                        },
                    }
                },
            }
        },
        _ => Result::Err(spec_parse_err(Seq::empty(), ParseDetail::NotAnObject)),
    }
}

/// The components list taken out of a parameter record sits strictly below
/// the record in height.
pub proof fn lemma_h_comps_lt(v: SpecRawValue, comps: Seq<SpecRawValue>)
    requires
        v is Obj,
        match spec_obj_get(v->Obj_0, lit_components()) {
            Option::None => comps =~= Seq::<SpecRawValue>::empty(),
            Option::Some(cv) => cv == SpecRawValue::Arr(comps),
        },
    ensures
        h_list(comps, 0) < h_raw(v),
{
    let fields = v->Obj_0;
    match spec_obj_get(fields, lit_components()) {
        Option::None => {
            assert(h_list(comps, 0) == 0);
        },
        Option::Some(cv) => {
            lemma_obj_get_some(fields, lit_components(), 0);
            let k = choose|k: int|
                0 <= k < fields.len() && fields[k].1 == spec_obj_get(
                    fields,
                    lit_components(),
                )->Some_0;
            lemma_h_obj(fields, 0);
            assert(h_raw(fields[k].1) < h_obj(fields, 0));
            assert(h_raw(cv) == 1 + h_list(comps, 0));
        },
    }
}

pub open spec fn type_result_model(r: Result<SolidityType, BindError>) -> Result<
    SpecSolidityType,
    SpecBindError,
> {
    match r {
        Result::Ok(t) => Result::Ok(type_model(t)),
        Result::Err(e) => Result::Err(error_model(e)),
    }
}

pub open spec fn param_result_model(r: Result<Parameter, BindError>) -> Result<
    SpecParameter,
    SpecBindError,
> {
    match r {
        Result::Ok(p) => Result::Ok(param_model(p)),
        Result::Err(e) => Result::Err(error_model(e)),
    }
}

pub open spec fn params_result_model(r: Result<Vec<Parameter>, BindError>) -> Result<
    Seq<SpecParameter>,
    SpecBindError,
> {
    match r {
        Result::Ok(ps) => Result::Ok(crate::types::params_model(ps@, 0)),
        Result::Err(e) => Result::Err(error_model(e)),
    }
}

/// Maps a wire type string (with its component records) to its structured
/// type, exactly as the grammar model does: success if and only if the
/// string lies in the grammar and every component record is well shaped.
pub fn parse_type(s: &Vec<u8>, comps: &Vec<RawValue>) -> (r: Result<SolidityType, BindError>)
    ensures
        type_result_model(r) == spec_parse_type(s@, raw_list_model(comps@, 0)),
    decreases h_list(raw_list_model(comps@, 0), 0), comps@.len() + 1,
{
    match scan_base(s) {
        Option::None => Result::Err(
            BindError::Unsupported(UnsupportedTypeError { type_string: clone_bytes(s) }),
        ),
        Option::Some((tok, pos)) => {
            match scan_suffixes(s, pos) {
                Option::None => Result::Err(
                    BindError::Unsupported(UnsupportedTypeError { type_string: clone_bytes(s) }),
                ),
                Option::Some(sufs) => match tok {
                    BaseTok::Prim(b) => Result::Ok(apply_suffixes(b, &sufs, 0)),
                    BaseTok::TupleTok => {
                        proof {
                            lemma_raw_list_model(comps@, 0);
                        }
                        match load_params(comps, 0) {
                            Result::Err(e) => Result::Err(e),
                            Result::Ok(ps) => {
                                let fields = fields_of_params(ps);
                                Result::Ok(
                                    apply_suffixes(SolidityType::Tuple { fields }, &sufs, 0),
                                )
                            },
                        }
                    },
                },
            }
        },
    }
}

/// Converts loaded component parameters into tuple fields.
fn fields_of_params(ps: Vec<Parameter>) -> (r: Vec<crate::types::TupleField>)
    ensures
        crate::types::fields_model(r@, 0) == spec_fields_of(crate::types::params_model(ps@, 0), 0),
    decreases ps@.len(),
{
    let ghost orig = ps@;
    let mut ps = ps;
    if ps.len() == 0 {
        let r: Vec<crate::types::TupleField> = Vec::new();
        proof {
            assert(crate::types::fields_model(r@, 0) =~= spec_fields_of(
                crate::types::params_model(orig, 0),
                0,
            ));
        }
        r
    } else {
        let p = ps.remove(0);
        let ghost tail = ps@;
        let mut rest = fields_of_params(ps);
        let ghost rest0 = rest@;
        let tf = crate::types::TupleField { name: p.name, ty: p.solidity_type };
        let ghost tfg = tf;
        rest.insert(0, tf);
        proof {
            assert(rest@ =~= seq![tfg] + rest0);
            assert forall|j: int| 0 <= j < tail.len() implies tail[j] == orig[j + 1] by {
                assert(tail[j] == orig.remove(0)[j]);
            }
            crate::types::lemma_fields_model(rest@, 0);
            crate::types::lemma_fields_model(rest0, 0);
            crate::types::lemma_params_model(orig, 0);
            crate::types::lemma_params_model(tail, 0);
            lemma_fields_of(crate::types::params_model(orig, 0), 0);
            lemma_fields_of(crate::types::params_model(tail, 0), 0);
            assert forall|j: int|
                0 <= j < orig.len() implies crate::types::fields_model(rest@, 0)[j]
                == spec_fields_of(crate::types::params_model(orig, 0), 0)[j] by {
                assert(crate::types::params_model(orig, 0)[j] == param_model(orig[j]));
                if j == 0 {
                    assert(rest@[0] == tfg);
                    assert(crate::types::fields_model(rest@, 0)[0] == crate::types::field_model(
                        tfg,
                    ));
                } else {
                    assert(rest@[j] == rest0[j - 1]);
                    assert(crate::types::fields_model(rest@, 0)[j] == crate::types::field_model(
                        rest0[j - 1],
                    ));
                    assert(crate::types::fields_model(rest0, 0)[j - 1]
                        == crate::types::field_model(rest0[j - 1]));
                    assert(crate::types::params_model(tail, 0)[j - 1] == param_model(
                        tail[j - 1],
                    ));
                    assert(tail[j - 1] == orig[j]);
                }
            }
            assert(crate::types::fields_model(rest@, 0) =~= spec_fields_of(
                crate::types::params_model(orig, 0),
                0,
            ));
        }
        rest
    }
}

pub proof fn lemma_fields_of(ps: Seq<SpecParameter>, i: int)
    requires
        0 <= i <= ps.len(),
    ensures
        spec_fields_of(ps, i).len() == ps.len() - i,
        forall|j: int|
            i <= j < ps.len() ==> spec_fields_of(ps, i)[j - i] == (SpecTupleField {
                name: ps[j].name,
                ty: ps[j].ty,
            }),
    decreases ps.len() - i,
{
    if i < ps.len() {
        lemma_fields_of(ps, i + 1);
    }
}

/// Loads the parameter records `list[i..]`, wrapping nothing: the caller
/// adds entry indices.
pub fn load_params(list: &Vec<RawValue>, i: usize) -> (r: Result<Vec<Parameter>, BindError>)
    requires
        i <= list@.len(),
    ensures
        params_result_model(r) == spec_load_params(raw_list_model(list@, 0), i as int),
    decreases h_list(raw_list_model(list@, 0), 0), list@.len() - i,
{
    proof {
        lemma_raw_list_model(list@, 0);
        lemma_h_list(raw_list_model(list@, 0), 0);
    }
    if i == list.len() {
        let r: Vec<Parameter> = Vec::new();
        proof {
            assert(crate::types::params_model(r@, 0) =~= Seq::<SpecParameter>::empty());
        }
        Result::Ok(r)
    } else {
        match load_param(&list[i]) {
            Result::Err(e) => Result::Err(e),
            Result::Ok(p) => match load_params(list, i + 1) {
                Result::Err(e) => Result::Err(e),
                Result::Ok(mut rest) => {
                    let ghost rest0 = rest@;
                    let ghost pg = p;
                    rest.insert(0, p);
                    proof {
                        assert(rest@ =~= seq![pg] + rest0);
                        crate::types::lemma_params_model(rest@, 0);
                        crate::types::lemma_params_model(rest0, 0);
                        assert forall|j: int|
                            0 <= j < rest@.len() implies crate::types::params_model(rest@, 0)[j]
                            == (seq![param_model(pg)] + crate::types::params_model(rest0, 0))[j] by {
                            assert(crate::types::params_model(rest@, 0)[j] == param_model(
                                rest@[j],
                            ));
                            if j == 0 {
                                assert(rest@[0] == pg);
                            } else {
                                assert(rest@[j] == rest0[j - 1]);
                                assert(crate::types::params_model(rest0, 0)[j - 1] == param_model(
                                    rest0[j - 1],
                                ));
                            }
                        }
                        assert(crate::types::params_model(rest@, 0) =~= seq![param_model(pg)]
                            + crate::types::params_model(rest0, 0));
                    }
                    Result::Ok(rest)
                },
            },
        }
    }
}

/// Loads one parameter record, mirroring `spec_load_param`.
pub fn load_param(v: &RawValue) -> (r: Result<Parameter, BindError>)
    ensures
        param_result_model(r) == spec_load_param(raw_model(*v)),
    decreases h_raw(raw_model(*v)), 0int,
{
    match v {
        RawValue::Obj(fields) => {
            let name: Vec<u8> = match obj_get(fields, &lit_name_field_vec()) {
                Option::None => Vec::new(),
                Option::Some(nv) => match nv {
                    RawValue::Str(n) => clone_bytes(n),
                    _ => {
                        return Result::Err(
                            BindError::Parse(
                                ArtifactParseError {
                                    entry: Option::None,
                                    field: lit_name_field_vec(),
                                    detail: ParseDetail::WrongShape,
                                },
                            ),
                        );
                    },
                },
            };
            let indexed: bool = match obj_get(fields, &lit_indexed_vec()) {
                Option::None => false,
                Option::Some(iv) => match iv {
                    RawValue::Bool(b) => *b,
                    _ => {
                        return Result::Err(
                            BindError::Parse(
                                ArtifactParseError {
                                    entry: Option::None,
                                    field: lit_indexed_vec(),
                                    detail: ParseDetail::WrongShape,
                                },
                            ),
                        );
                    },
                },
            };
            let ts: &Vec<u8> = match obj_get(fields, &lit_type_field_vec()) {
                Option::None => {
                    return Result::Err(
                        BindError::Parse(
                            ArtifactParseError {
                                entry: Option::None,
                                field: lit_type_field_vec(),
                                detail: ParseDetail::Missing,
                            },
                        ),
                    );
                },
                Option::Some(tv) => match tv {
                    RawValue::Str(ts) => ts,
                    _ => {
                        return Result::Err(
                            BindError::Parse(
                                ArtifactParseError {
                                    entry: Option::None,
                                    field: lit_type_field_vec(),
                                    detail: ParseDetail::WrongShape,
                                },
                            ),
                        );
                    },
                },
            };
            let empty_comps: Vec<RawValue> = Vec::new();
            let comps: &Vec<RawValue> = match obj_get(fields, &lit_components_vec()) {
                Option::None => &empty_comps,
                Option::Some(cv) => match cv {
                    RawValue::Arr(items) => items,
                    _ => {
                        return Result::Err(
                            BindError::Parse(
                                ArtifactParseError {
                                    entry: Option::None,
                                    field: lit_components_vec(),
                                    detail: ParseDetail::WrongShape,
                                },
                            ),
                        );
                    },
                },
            };
            proof {
                lemma_h_comps_lt(raw_model(*v), raw_list_model(comps@, 0));
            }
            match parse_type(ts, comps) {
                Result::Err(e) => Result::Err(e),
                Result::Ok(t) => Result::Ok(
                    Parameter { name, solidity_type: t, indexed },
                ),
            }
        },
        _ => Result::Err(
            BindError::Parse(
                ArtifactParseError {
                    entry: Option::None,
                    field: Vec::new(),
                    detail: ParseDetail::NotAnObject,
                },
            ),
        ),
    }
}

// ---------------------------------------------------------------------------
// Round trip of canonical spellings
// ---------------------------------------------------------------------------

pub proof fn lemma_p10_pos(k: nat)
    ensures
        p10(k) >= 1,
    decreases k,
{
    if k > 0 {
        lemma_p10_pos((k - 1) as nat);
    }
}

/// The decimal spelling is made of digits, is nonempty, and starts with a
/// nonzero digit for any positive number.
pub proof fn lemma_dec_digits(n: nat)
    ensures
        spec_dec(n).len() >= 1,
        all_digits(spec_dec(n)),
        n >= 1 ==> spec_dec(n)[0] != 48,
    decreases n,
{
    if n < 10 {
        assert(spec_dec(n) =~= seq![(48 + n) as u8]);
        assert(all_digits(spec_dec(n)));
    } else {
        lemma_dec_digits(n / 10);
        assert forall|k: int| 0 <= k < spec_dec(n).len() implies is_digit(spec_dec(n)[k]) by {
            if k < spec_dec(n / 10).len() {
                assert(spec_dec(n)[k] == spec_dec(n / 10)[k]);
            } else {
                assert(spec_dec(n)[k] == (48 + n % 10) as u8);
            }
        }
        assert(spec_dec(n)[0] == spec_dec(n / 10)[0]);
    }
}

/// A number below `10^k` takes at most `k` digits.
pub proof fn lemma_dec_len(n: nat, k: nat)
    requires
        n < p10(k),
        k >= 1,
    ensures
        spec_dec(n).len() <= k,
    decreases n,
{
    if n < 10 {
    } else {
        assert(k != 1) by {
            if k == 1 {
                assert(p10(0) == 1);
                assert(p10(1) == 10);
            }
        }
        lemma_p10_pos((k - 1) as nat);
        assert(p10(k) == 10 * p10((k - 1) as nat));
        assert(n / 10 < p10((k - 1) as nat)) by (nonlinear_arith)
            requires
                n < 10 * p10((k - 1) as nat),
                p10((k - 1) as nat) >= 1,
        ;
        lemma_dec_len(n / 10, (k - 1) as nat);
    }
}

/// Reading the decimal spelling back gives the number itself.
pub proof fn lemma_dec_value_round(n: nat)
    ensures
        dec_value(spec_dec(n)) == n,
    decreases n,
{
    if n < 10 {
        assert(spec_dec(n).drop_last() =~= Seq::<u8>::empty());
        assert(spec_dec(n).last() == (48 + n) as u8);
        assert(((48 + n) as u8) == 48 + n);
        assert(dec_value(Seq::<u8>::empty()) == 0);
    } else {
        lemma_dec_value_round(n / 10);
        assert(spec_dec(n).drop_last() =~= spec_dec(n / 10));
        assert(spec_dec(n).last() == (48 + n % 10) as u8);
        assert(((48 + n % 10) as u8) == 48 + n % 10);
        assert(n / 10 * 10 + n % 10 == n);
        assert(dec_value(spec_dec(n)) == dec_value(spec_dec(n).drop_last()) * 10 + (spec_dec(
            n,
        ).last() - 48));
    }
}

/// The digit scan stops exactly at the end of a digit run.
pub proof fn lemma_digits_end_run(s: Seq<u8>, i: int, j: int)
    requires
        0 <= i <= j <= s.len(),
        forall|k: int| i <= k < j ==> is_digit(s[k]),
        j == s.len() || !is_digit(s[j]),
    ensures
        spec_digits_end(s, i) == j,
    decreases j - i,
{
    if i < j {
        lemma_digits_end_run(s, i + 1, j);
    }
}

proof fn lemma_scan_base_canon(t: SpecSolidityType, rest: Seq<u8>)
    requires
        wf_type(t),
        !(t is FixedArray),
        !(t is DynamicArray),
        !(t is Tuple),
        rest.len() == 0 || rest[0] == 91,
    ensures
        spec_scan_base(spec_canon(t) + rest) == Option::Some(
            (SpecBaseTok::Prim(t), spec_canon(t).len() as int),
        ),
{
    let s = spec_canon(t) + rest;
    assert forall|k: int| 0 <= k < spec_canon(t).len() implies s[k] == spec_canon(t)[k] by {}
    assert(rest.len() > 0 ==> s[spec_canon(t).len() as int] == rest[0]);
    match t {
        SpecSolidityType::Primitive { kind, bits } => {
            match kind {
                PrimKind::Uint => {
                    let d = spec_dec(bits as nat);
                    lemma_dec_digits(bits as nat);
                    lemma_p10_values();
                    lemma_dec_len(bits as nat, 3);
                    lemma_dec_value_round(bits as nat);
                    assert(spec_canon(t) =~= lit_uint() + d);
                    assert(s.subrange(0, 4) =~= lit_uint());
                    assert(spec_prefix_at(s, 0, lit_uint()));
                    assert forall|k: int| 4 <= k < 4 + (d.len() as int) implies is_digit(s[k]) by {
                        assert(s[k] == d[k - 4]);
                    }
                    assert(4 + (d.len() as int) == s.len() || !is_digit(s[4 + (d.len() as int)]));
                    lemma_digits_end_run(s, 4, 4 + (d.len() as int));
                    assert(s[4] == d[0]);
                    assert(s.subrange(4, 4 + (d.len() as int)) =~= d);
                },
                PrimKind::Int => {
                    let d = spec_dec(bits as nat);
                    lemma_dec_digits(bits as nat);
                    lemma_p10_values();
                    lemma_dec_len(bits as nat, 3);
                    lemma_dec_value_round(bits as nat);
                    assert(spec_canon(t) =~= lit_int_() + d);
                    assert(s[0] == 105);
                    assert(!spec_prefix_at(s, 0, lit_uint())) by {
                        if spec_prefix_at(s, 0, lit_uint()) {
                            assert(s.subrange(0, 4)[0] == s[0]);
                        }
                    }
                    assert(s.subrange(0, 3) =~= lit_int_());
                    assert(spec_prefix_at(s, 0, lit_int_()));
                    assert forall|k: int| 3 <= k < 3 + (d.len() as int) implies is_digit(s[k]) by {
                        assert(s[k] == d[k - 3]);
                    }
                    assert(3 + (d.len() as int) == s.len() || !is_digit(s[3 + (d.len() as int)]));
                    lemma_digits_end_run(s, 3, 3 + (d.len() as int));
                    assert(s[3] == d[0]);
                    assert(s.subrange(3, 3 + (d.len() as int)) =~= d);
                },
                PrimKind::Address => {
                    assert(spec_canon(t) =~= lit_address());
                    assert(s[0] == 97);
                    assert(!spec_prefix_at(s, 0, lit_uint())) by {
                        if spec_prefix_at(s, 0, lit_uint()) {
                            assert(s.subrange(0, 4)[0] == s[0]);
                        }
                    }
                    assert(!spec_prefix_at(s, 0, lit_int_())) by {
                        if spec_prefix_at(s, 0, lit_int_()) {
                            assert(s.subrange(0, 3)[0] == s[0]);
                        }
                    }
                    assert(s.subrange(0, 7) =~= lit_address());
                    assert(spec_prefix_at(s, 0, lit_address()));
                },
                PrimKind::Bool => {
                    assert(spec_canon(t) =~= lit_bool_());
                    assert(s[0] == 98);
                    assert(!spec_prefix_at(s, 0, lit_uint())) by {
                        if spec_prefix_at(s, 0, lit_uint()) {
                            assert(s.subrange(0, 4)[0] == s[0]);
                        }
                    }
                    assert(!spec_prefix_at(s, 0, lit_int_())) by {
                        if spec_prefix_at(s, 0, lit_int_()) {
                            assert(s.subrange(0, 3)[0] == s[0]);
                        }
                    }
                    assert(!spec_prefix_at(s, 0, lit_address()));
                    assert(s.subrange(0, 4) =~= lit_bool_());
                    assert(spec_prefix_at(s, 0, lit_bool_()));
                },
            }
        },
        SpecSolidityType::FixedBytes { size } => {
            let d = spec_dec(size as nat);
            lemma_dec_digits(size as nat);
            lemma_p10_values();
            lemma_dec_len(size as nat, 2);
            lemma_dec_value_round(size as nat);
            assert(spec_canon(t) =~= lit_bytes() + d);
            assert(s[0] == 98);
            assert(s[1] == 121);
            assert(!spec_prefix_at(s, 0, lit_uint())) by {
                if spec_prefix_at(s, 0, lit_uint()) {
                    assert(s.subrange(0, 4)[0] == s[0]);
                }
            }
            assert(!spec_prefix_at(s, 0, lit_int_())) by {
                if spec_prefix_at(s, 0, lit_int_()) {
                    assert(s.subrange(0, 3)[0] == s[0]);
                }
            }
            assert(!spec_prefix_at(s, 0, lit_address())) by {
                if spec_prefix_at(s, 0, lit_address()) {
                    assert(s.subrange(0, 7)[0] == s[0]);
                }
            }
            assert(!spec_prefix_at(s, 0, lit_bool_())) by {
                if spec_prefix_at(s, 0, lit_bool_()) {
                    assert(s.subrange(0, 4)[1] == s[1]);
                }
            }
            assert(s.subrange(0, 5) =~= lit_bytes());
            assert(spec_prefix_at(s, 0, lit_bytes()));
            assert forall|k: int| 5 <= k < 5 + (d.len() as int) implies is_digit(s[k]) by {
                assert(s[k] == d[k - 5]);
            }
            assert(5 + (d.len() as int) == s.len() || !is_digit(s[5 + (d.len() as int)]));
            lemma_digits_end_run(s, 5, 5 + (d.len() as int));
            assert(s[5] == d[0]);
            assert(s.subrange(5, 5 + (d.len() as int)) =~= d);
        },
        SpecSolidityType::DynamicBytes => {
            assert(spec_canon(t) =~= lit_bytes());
            assert(s[0] == 98);
            assert(s[1] == 121);
            assert(!spec_prefix_at(s, 0, lit_uint())) by {
                if spec_prefix_at(s, 0, lit_uint()) {
                    assert(s.subrange(0, 4)[0] == s[0]);
                }
            }
            assert(!spec_prefix_at(s, 0, lit_int_())) by {
                if spec_prefix_at(s, 0, lit_int_()) {
                    assert(s.subrange(0, 3)[0] == s[0]);
                }
            }
            assert(!spec_prefix_at(s, 0, lit_address()));
            assert(!spec_prefix_at(s, 0, lit_bool_())) by {
                if spec_prefix_at(s, 0, lit_bool_()) {
                    assert(s.subrange(0, 4)[1] == s[1]);
                }
            }
            assert(s.subrange(0, 5) =~= lit_bytes());
            assert(spec_prefix_at(s, 0, lit_bytes()));
            assert(5 == s.len() || !is_digit(s[5]));
            lemma_digits_end_run(s, 5, 5);
        },
        SpecSolidityType::Str => {
            assert(spec_canon(t) =~= lit_string());
            assert(s[0] == 115);
            assert(!spec_prefix_at(s, 0, lit_uint())) by {
                if spec_prefix_at(s, 0, lit_uint()) {
                    assert(s.subrange(0, 4)[0] == s[0]);
                }
            }
            assert(!spec_prefix_at(s, 0, lit_int_())) by {
                if spec_prefix_at(s, 0, lit_int_()) {
                    assert(s.subrange(0, 3)[0] == s[0]);
                }
            }
            assert(!spec_prefix_at(s, 0, lit_address())) by {
                if spec_prefix_at(s, 0, lit_address()) {
                    assert(s.subrange(0, 7)[0] == s[0]);
                }
            }
            assert(!spec_prefix_at(s, 0, lit_bool_())) by {
                if spec_prefix_at(s, 0, lit_bool_()) {
                    assert(s.subrange(0, 4)[0] == s[0]);
                }
            }
            assert(!spec_prefix_at(s, 0, lit_bytes())) by {
                if spec_prefix_at(s, 0, lit_bytes()) {
                    assert(s.subrange(0, 5)[0] == s[0]);
                }
            }
            assert(s.subrange(0, 6) =~= lit_string());
            assert(spec_prefix_at(s, 0, lit_string()));
        },
        _ => {},
    }
}

/// The innermost element type under a type's array structure.
pub open spec fn spec_base_of(t: SpecSolidityType) -> SpecSolidityType
    decreases t,
{
    match t {
        SpecSolidityType::FixedArray { elem, .. } => spec_base_of(*elem),
        SpecSolidityType::DynamicArray { elem } => spec_base_of(*elem),
        _ => t,
    }
}

/// A type's array suffixes, innermost first.
pub open spec fn spec_suffixes_of(t: SpecSolidityType) -> Seq<Option<u64>>
    decreases t,
{
    match t {
        SpecSolidityType::FixedArray { elem, len } => spec_suffixes_of(*elem).push(
            Option::Some(len),
        ),
        SpecSolidityType::DynamicArray { elem } => spec_suffixes_of(*elem).push(Option::None),
        _ => Seq::empty(),
    }
}

/// The spelling of one array suffix.
pub open spec fn spec_spell_one(x: Option<u64>) -> Seq<u8> {
    match x {
        Option::None => seq![91u8, 93u8],
        Option::Some(n) => seq![91u8] + spec_dec(n as nat) + seq![93u8],
    }
}

/// The spelling of the suffixes `L[j..]`, in order.
pub open spec fn spec_spell(L: Seq<Option<u64>>, j: int) -> Seq<u8>
    decreases L.len() - j,
{
    if j < 0 || j >= L.len() {
        Seq::empty()
    } else {
        spec_spell_one(L[j]) + spec_spell(L, j + 1)
    }
}

proof fn lemma_spell_snoc(L: Seq<Option<u64>>, x: Option<u64>, j: int)
    requires
        0 <= j <= L.len(),
    ensures
        spec_spell(L.push(x), j) == spec_spell(L, j) + spec_spell_one(x),
    decreases L.len() - j,
{
    if j == L.len() {
        assert(L.push(x)[j] == x);
        assert(spec_spell(L.push(x), j + 1) =~= Seq::<u8>::empty());
        assert(spec_spell(L, j) =~= Seq::<u8>::empty());
        assert(spec_spell(L.push(x), j) =~= spec_spell(L, j) + spec_spell_one(x));
    } else {
        lemma_spell_snoc(L, x, j + 1);
        assert(L.push(x)[j] == L[j]);
        assert(spec_spell(L.push(x), j) =~= spec_spell(L, j) + spec_spell_one(x));
    }
}

proof fn lemma_apply_snoc(base: SpecSolidityType, L: Seq<Option<u64>>, x: Option<u64>, i: int)
    requires
        0 <= i <= L.len(),
    ensures
        spec_apply_suffixes(base, L.push(x), i) == (match x {
            Option::None => SpecSolidityType::DynamicArray {
                elem: Box::new(spec_apply_suffixes(base, L, i)),
            },
            Option::Some(n) => SpecSolidityType::FixedArray {
                elem: Box::new(spec_apply_suffixes(base, L, i)),
                len: n,
            },
        }),
    decreases L.len() - i,
{
    if i == L.len() {
        assert(L.push(x)[i] == x);
        let w2 = match x {
            Option::None => SpecSolidityType::DynamicArray { elem: Box::new(base) },
            Option::Some(n) => SpecSolidityType::FixedArray { elem: Box::new(base), len: n },
        };
        assert(spec_apply_suffixes(base, L, i) == base);
        assert(spec_apply_suffixes(w2, L.push(x), i + 1) == w2);
        assert(spec_apply_suffixes(base, L.push(x), i) == w2);
    } else {
        assert(L.push(x)[i] == L[i]);
        let w = match L[i] {
            Option::None => SpecSolidityType::DynamicArray { elem: Box::new(base) },
            Option::Some(n) => SpecSolidityType::FixedArray { elem: Box::new(base), len: n },
        };
        assert(spec_apply_suffixes(base, L.push(x), i) == spec_apply_suffixes(
            w, L.push(x), i + 1));
        assert(spec_apply_suffixes(base, L, i) == spec_apply_suffixes(w, L, i + 1));
        lemma_apply_snoc(w, L, x, i + 1);
    }
}

/// The canonical spelling splits into the base's spelling followed by the
/// spelled suffixes, and reapplying the suffixes to the base rebuilds the
/// type; the suffix lengths stay within the grammar's nine digits.
proof fn lemma_canon_decompose(t: SpecSolidityType)
    requires
        wf_type(t),
    ensures
        spec_canon(t) == spec_canon(spec_base_of(t)) + spec_spell(spec_suffixes_of(t), 0),
        spec_apply_suffixes(spec_base_of(t), spec_suffixes_of(t), 0) == t,
        wf_type(spec_base_of(t)),
        !(spec_base_of(t) is FixedArray),
        !(spec_base_of(t) is DynamicArray),
        forall|k: int|
            0 <= k < spec_suffixes_of(t).len() ==> (spec_suffixes_of(t)[k] is Some
                ==> spec_suffixes_of(t)[k]->0 <= 999_999_999),
    decreases t,
{
    match t {
        SpecSolidityType::FixedArray { elem, len } => {
            lemma_canon_decompose(*elem);
            lemma_spell_snoc(spec_suffixes_of(*elem), Option::Some(len), 0);
            lemma_apply_snoc(spec_base_of(*elem), spec_suffixes_of(*elem), Option::Some(len), 0);
            assert(spec_canon(t) =~= spec_canon(spec_base_of(t)) + spec_spell(
                spec_suffixes_of(t), 0));
            assert forall|k: int|
                0 <= k < spec_suffixes_of(t).len() && spec_suffixes_of(t)[k] is Some
                implies spec_suffixes_of(t)[k]->0 <= 999_999_999 by {
                if k < spec_suffixes_of(*elem).len() {
                    assert(spec_suffixes_of(t)[k] == spec_suffixes_of(*elem)[k]);
                }
            }
        },
        SpecSolidityType::DynamicArray { elem } => {
            lemma_canon_decompose(*elem);
            lemma_spell_snoc(spec_suffixes_of(*elem), Option::None, 0);
            lemma_apply_snoc(spec_base_of(*elem), spec_suffixes_of(*elem), Option::None, 0);
            assert(spec_canon(t) =~= spec_canon(spec_base_of(t)) + spec_spell(
                spec_suffixes_of(t), 0));
            assert forall|k: int|
                0 <= k < spec_suffixes_of(t).len() && spec_suffixes_of(t)[k] is Some
                implies spec_suffixes_of(t)[k]->0 <= 999_999_999 by {
                if k < spec_suffixes_of(*elem).len() {
                    assert(spec_suffixes_of(t)[k] == spec_suffixes_of(*elem)[k]);
                }
            }
        },
        _ => {
            assert(spec_canon(t) =~= spec_canon(spec_base_of(t)) + spec_spell(
                spec_suffixes_of(t), 0));
        },
    }
}

/// Scanning a spelled suffix region recovers exactly the suffix list.
proof fn lemma_scan_spelled(s: Seq<u8>, i: int, L: Seq<Option<u64>>, j: int)
    requires
        0 <= i <= s.len(),
        0 <= j <= L.len(),
        s.subrange(i, s.len() as int) == spec_spell(L, j),
        forall|k: int| 0 <= k < L.len() ==> (L[k] is Some ==> L[k]->0 <= 999_999_999),
    ensures
        spec_scan_suffixes(s, i) == Option::Some(L.subrange(j, L.len() as int)),
    decreases L.len() - j,
{
    lemma_p10_values();
    if j == L.len() {
        assert(spec_spell(L, j).len() == 0);
        assert(i == s.len());
        assert(L.subrange(j, L.len() as int) =~= Seq::<Option<u64>>::empty());
    } else {
        let head = spec_spell_one(L[j]);
        let tail_spell = spec_spell(L, j + 1);
        let sub = s.subrange(i, s.len() as int);
        assert(sub == head + tail_spell);
        assert(s.len() - i == (head.len() as int) + tail_spell.len());
        match L[j] {
            Option::None => {
                assert(sub[0] == s[i]);
                assert(sub[1] == s[i + 1]);
                assert(s[i] == 91 && s[i + 1] == 93);
                assert forall|m: int|
                    0 <= m < s.len() - (i + 2) implies s.subrange(i + 2, s.len() as int)[m]
                    == tail_spell[m] by {
                    assert(s.subrange(i + 2, s.len() as int)[m] == s[i + 2 + m]);
                    assert(sub[m + 2] == s[i + 2 + m]);
                }
                assert(s.subrange(i + 2, s.len() as int) =~= tail_spell);
                lemma_scan_spelled(s, i + 2, L, j + 1);
                assert(seq![L[j]] + L.subrange(j + 1, L.len() as int) =~= L.subrange(
                    j, L.len() as int));
            },
            Option::Some(n) => {
                let d = spec_dec(n as nat);
                lemma_dec_digits(n as nat);
                lemma_dec_len(n as nat, 9);
                lemma_dec_value_round(n as nat);
                assert(head == (seq![91u8] + d) + seq![93u8]);
                assert(sub[0] == s[i]);
                assert(s[i] == 91);
                assert forall|k: int|
                    i + 1 <= k < i + 1 + (d.len() as int) implies is_digit(s[k]) by {
                    assert(sub[k - i] == s[k]);
                    assert(head[k - i] == (seq![91u8] + d)[k - i]);
                    assert((seq![91u8] + d)[k - i] == d[k - i - 1]);
                }
                assert(s[i + 1] != 93);
                let e = i + 1 + (d.len() as int);
                assert(sub[e - i] == s[e]);
                assert(head[e - i] == 93);
                assert(s[e] == 93);
                assert(!is_digit(s[e]));
                lemma_digits_end_run(s, i + 1, e);
                assert forall|m: int| 0 <= m < (d.len() as int) implies s.subrange(i + 1, e)[m]
                    == d[m] by {
                    assert(s.subrange(i + 1, e)[m] == s[i + 1 + m]);
                    assert(sub[m + 1] == s[i + 1 + m]);
                    assert(head[m + 1] == (seq![91u8] + d)[m + 1]);
                    assert((seq![91u8] + d)[m + 1] == d[m]);
                }
                assert(s.subrange(i + 1, e) =~= d);
                assert(number_at(s, i + 1, e) == n);
                assert forall|m: int|
                    0 <= m < s.len() - (e + 1) implies s.subrange(e + 1, s.len() as int)[m]
                    == tail_spell[m] by {
                    assert(s.subrange(e + 1, s.len() as int)[m] == s[e + 1 + m]);
                    assert(sub[(e + 1 + m) - i] == s[e + 1 + m]);
                }
                assert(s.subrange(e + 1, s.len() as int) =~= tail_spell);
                lemma_scan_spelled(s, e + 1, L, j + 1);
                assert(seq![L[j]] + L.subrange(j + 1, L.len() as int) =~= L.subrange(
                    j, L.len() as int));
            },
        }
    }
}

/// Round trip of the canonical spelling: for every well-formed type whose
/// innermost base is not a tuple, parsing the canonical signature spelling
/// recovers exactly that type. (A tuple spells canonically as its
/// parenthesized field list, while the grammar reads tuples from the
/// accompanying component records, a different input channel.)
pub proof fn lemma_canon_round_trip(t: SpecSolidityType, comps: Seq<SpecRawValue>)
    requires
        wf_type(t),
        !(spec_base_of(t) is Tuple),
    ensures
        spec_parse_type(spec_canon(t), comps) == Result::<SpecSolidityType, SpecBindError>::Ok(t),
{
    let b = spec_base_of(t);
    let L = spec_suffixes_of(t);
    let s = spec_canon(t);
    lemma_canon_decompose(t);
    let rest = spec_spell(L, 0);
    assert(rest.len() > 0 ==> rest[0] == 91) by {
        if L.len() > 0 {
            assert(rest[0] == spec_spell_one(L[0])[0]);
            match L[0] {
                Option::None => {},
                Option::Some(n) => {},
            }
        }
    }
    lemma_scan_base_canon(b, rest);
    let pos = spec_canon(b).len() as int;
    assert forall|m: int| 0 <= m < s.len() - pos implies s.subrange(pos, s.len() as int)[m]
        == rest[m] by {
        assert(s.subrange(pos, s.len() as int)[m] == s[pos + m]);
        assert(s[pos + m] == (spec_canon(b) + rest)[pos + m]);
    }
    assert(s.subrange(pos, s.len() as int) =~= rest);
    lemma_scan_spelled(s, pos, L, 0);
    assert(L.subrange(0, L.len() as int) =~= L);
    assert(spec_apply_suffixes(b, L, 0) == t);
}

/// Canonical spellings identify types: two distinct well-formed types whose
/// innermost bases are not tuples never share a canonical spelling. This is
/// what lets overload resolution tell signatures apart by their text.
pub proof fn lemma_canon_injective(t1: SpecSolidityType, t2: SpecSolidityType)
    requires
        wf_type(t1),
        wf_type(t2),
        !(spec_base_of(t1) is Tuple),
        !(spec_base_of(t2) is Tuple),
        spec_canon(t1) == spec_canon(t2),
    ensures
        t1 == t2,
{
    lemma_canon_round_trip(t1, Seq::empty());
    lemma_canon_round_trip(t2, Seq::empty());
}

} // verus!
