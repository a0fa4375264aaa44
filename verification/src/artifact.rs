//! The artifact loader: validates the raw structured input against the
//! artifact schema and produces the typed contract model. Unknown fields are
//! ignored; every structural violation is reported with its location.

use crate::bytes::{
    clone_bytes, lit_abi, lit_abi_vec, lit_address, lit_address_vec, lit_anonymous,
    lit_anonymous_vec, lit_bytecode, lit_bytecode_vec, lit_constructor, lit_constructor_vec,
    lit_contract_name, lit_contract_name_vec, lit_event, lit_event_vec, lit_fallback,
    lit_fallback_vec, lit_function, lit_function_vec, lit_inputs, lit_inputs_vec, lit_name_field,
    lit_name_field_vec, lit_networks, lit_networks_vec, lit_nonpayable, lit_nonpayable_vec,
    lit_outputs, lit_outputs_vec, lit_payable, lit_payable_vec, lit_pure, lit_pure_vec,
    lit_receive, lit_receive_vec, lit_state_mutability, lit_state_mutability_vec, lit_type_field,
    lit_type_field_vec, lit_view_kw, lit_view_kw_vec, bytes_eq,
};
use crate::errors::{
    ArtifactParseError, BindError, ParseDetail, SpecArtifactParseError, SpecBindError, error_model,
};
use crate::mapper::{load_params, spec_load_params};
use crate::raw::{
    RawValue, SpecRawValue, lemma_raw_list_model, lemma_raw_obj_model, obj_get, raw_list_model,
    raw_model, raw_obj_model, spec_obj_get,
};
use crate::types::{Parameter, SpecParameter, lemma_params_model, param_model, params_model};
use vstd::prelude::*;

verus! {

/// How a function may interact with state and value.
#[derive(Clone, Copy, PartialEq, Eq, Structural, Debug)]
pub enum Mutability {
    Pure,
    View,
    Nonpayable,
    Payable,
}

/// One entry of the interface description.
pub enum AbiEntry {
    Constructor { inputs: Vec<Parameter> },
    Function {
        name: Vec<u8>,
        inputs: Vec<Parameter>,
        outputs: Vec<Parameter>,
        mutability: Mutability,
    },
    Event { name: Vec<u8>, inputs: Vec<Parameter>, anonymous: bool },
    Fallback,
    Receive,
}

/// Mathematical model of `AbiEntry`.
pub enum SpecAbiEntry {
    Constructor { inputs: Seq<SpecParameter> },
    Function {
        name: Seq<u8>,
        inputs: Seq<SpecParameter>,
        outputs: Seq<SpecParameter>,
        mutability: Mutability,
    },
    Event { name: Seq<u8>, inputs: Seq<SpecParameter>, anonymous: bool },
    Fallback,
    Receive,
}

pub open spec fn entry_model(e: AbiEntry) -> SpecAbiEntry {
    match e {
        AbiEntry::Constructor { inputs } => SpecAbiEntry::Constructor {
            inputs: params_model(inputs@, 0),
        },
        AbiEntry::Function { name, inputs, outputs, mutability } => SpecAbiEntry::Function {
            name: name@,
            inputs: params_model(inputs@, 0),
            outputs: params_model(outputs@, 0),
            mutability,
        },
        AbiEntry::Event { name, inputs, anonymous } => SpecAbiEntry::Event {
            name: name@,
            inputs: params_model(inputs@, 0),
            anonymous,
        },
        AbiEntry::Fallback => SpecAbiEntry::Fallback,
        AbiEntry::Receive => SpecAbiEntry::Receive,
    }
}

pub open spec fn entries_model(s: Seq<AbiEntry>, i: int) -> Seq<SpecAbiEntry>
    decreases s.len() - i,
{
    if i < 0 || i >= s.len() {
        Seq::empty()
    } else {
        seq![entry_model(s[i])] + entries_model(s, i + 1)
    }
}

pub proof fn lemma_entries_model(s: Seq<AbiEntry>, i: int)
    requires
        0 <= i <= s.len(),
    ensures
        entries_model(s, i).len() == s.len() - i,
        forall|j: int| i <= j < s.len() ==> entries_model(s, i)[j - i] == entry_model(s[j]),
    decreases s.len() - i,
{
    if i < s.len() {
        lemma_entries_model(s, i + 1);
    }
}

/// A loaded, validated artifact. Immutable once produced.
pub struct ContractArtifact {
    pub name: Vec<u8>,
    pub abi: Vec<AbiEntry>,
    pub bytecode: Option<Vec<u8>>,
    pub deployments: Vec<(Vec<u8>, Vec<u8>)>,
}

/// Mathematical model of `ContractArtifact`.
pub struct SpecContractArtifact {
    pub name: Seq<u8>,
    pub abi: Seq<SpecAbiEntry>,
    pub bytecode: Option<Seq<u8>>,
    pub deployments: Seq<(Seq<u8>, Seq<u8>)>,
}

pub open spec fn pairs_model(s: Seq<(Vec<u8>, Vec<u8>)>, i: int) -> Seq<(Seq<u8>, Seq<u8>)>
    decreases s.len() - i,
{
    if i < 0 || i >= s.len() {
        Seq::empty()
    } else {
        seq![(s[i].0@, s[i].1@)] + pairs_model(s, i + 1)
    }
}

pub proof fn lemma_pairs_model(s: Seq<(Vec<u8>, Vec<u8>)>, i: int)
    requires
        0 <= i <= s.len(),
    ensures
        pairs_model(s, i).len() == s.len() - i,
        forall|j: int| i <= j < s.len() ==> pairs_model(s, i)[j - i] == (s[j].0@, s[j].1@),
    decreases s.len() - i,
{
    if i < s.len() {
        lemma_pairs_model(s, i + 1);
    }
}

pub open spec fn artifact_model(a: ContractArtifact) -> SpecContractArtifact {
    SpecContractArtifact {
        name: a.name@,
        abi: entries_model(a.abi@, 0),
        bytecode: match a.bytecode {
            Option::None => Option::None,
            Option::Some(b) => Option::Some(b@),
        },
        deployments: pairs_model(a.deployments@, 0),
    }
}

pub open spec fn spec_parse_err_at(
    entry: Option<usize>,
    field: Seq<u8>,
    detail: ParseDetail,
) -> SpecBindError {
    SpecBindError::Parse(SpecArtifactParseError { entry, field, detail })
}

/// The mutability keyword of a function entry; absent means non-payable.
pub open spec fn spec_mutability_of(v: Option<SpecRawValue>) -> Result<Mutability, SpecBindError> {
    match v {
        Option::None => Result::Ok(Mutability::Nonpayable),
        Option::Some(mv) => match mv {
            SpecRawValue::Str(m) => if m == lit_pure() {
                Result::Ok(Mutability::Pure)
            } else if m == lit_view_kw() {
                Result::Ok(Mutability::View)
            } else if m == lit_nonpayable() {
                Result::Ok(Mutability::Nonpayable)
            } else if m == lit_payable() {
                Result::Ok(Mutability::Payable)
            } else {
                Result::Err(
                    spec_parse_err_at(
                        Option::None,
                        lit_state_mutability(),
                        ParseDetail::UnknownMutability,
                    ),
                )
            },
            _ => Result::Err(
                spec_parse_err_at(Option::None, lit_state_mutability(), ParseDetail::WrongShape),
            ),
        },
    }
}

/// The required parameter list under `key` in an entry record.
pub open spec fn spec_params_field(
    fields: Seq<(Seq<u8>, SpecRawValue)>,
    key: Seq<u8>,
) -> Result<Seq<SpecParameter>, SpecBindError> {
    match spec_obj_get(fields, key) {
        Option::None => Result::Err(spec_parse_err_at(Option::None, key, ParseDetail::Missing)),
        Option::Some(v) => match v {
            SpecRawValue::Arr(items) => spec_load_params(items, 0),
            _ => Result::Err(spec_parse_err_at(Option::None, key, ParseDetail::WrongShape)),
        },
    }
}

/// The required name string of a function or event entry.
pub open spec fn spec_name_field(fields: Seq<(Seq<u8>, SpecRawValue)>) -> Result<
    Seq<u8>,
    SpecBindError,
> {
    match spec_obj_get(fields, lit_name_field()) {
        Option::None => Result::Err(
            spec_parse_err_at(Option::None, lit_name_field(), ParseDetail::Missing),
        ),
        Option::Some(v) => match v {
            SpecRawValue::Str(n) => Result::Ok(n),
            _ => Result::Err(
                spec_parse_err_at(Option::None, lit_name_field(), ParseDetail::WrongShape),
            ),
        },
    }
}

/// Loads one interface entry from its record: the `type` discriminator
/// selects the variant, and the fields that variant requires are validated.
pub open spec fn spec_load_entry(v: SpecRawValue) -> Result<SpecAbiEntry, SpecBindError> {
    match v {
        SpecRawValue::Obj(fields) => match spec_obj_get(fields, lit_type_field()) {
            Option::None => Result::Err(
                spec_parse_err_at(Option::None, lit_type_field(), ParseDetail::Missing),
            ),
            Option::Some(tv) => match tv {
                SpecRawValue::Str(t) => if t == lit_constructor() {
                    match spec_params_field(fields, lit_inputs()) {
                        Result::Err(e) => Result::Err(e),
                        Result::Ok(inputs) => Result::Ok(SpecAbiEntry::Constructor { inputs }),
                    }
                } else if t == lit_function() {
                    match spec_name_field(fields) {
                        Result::Err(e) => Result::Err(e),
                        Result::Ok(name) => match spec_params_field(fields, lit_inputs()) {
                            Result::Err(e) => Result::Err(e),
                            Result::Ok(inputs) => match spec_outputs_field(fields) {
                                Result::Err(e) => Result::Err(e),
                                Result::Ok(outputs) => match spec_mutability_of(
                                    spec_obj_get(fields, lit_state_mutability()),
                                ) {
                                    Result::Err(e) => Result::Err(e),
                                    Result::Ok(mutability) => Result::Ok(
                                        SpecAbiEntry::Function { name, inputs, outputs, mutability },
                                    ),
                                },
                            },
                        },
                    }
                } else if t == lit_event() {
                    match spec_name_field(fields) {
                        Result::Err(e) => Result::Err(e),
                        Result::Ok(name) => match spec_params_field(fields, lit_inputs()) {
                            Result::Err(e) => Result::Err(e),
                            Result::Ok(inputs) => match spec_anonymous_field(fields) {
                                Result::Err(e) => Result::Err(e),
                                Result::Ok(anonymous) => Result::Ok(
                                    SpecAbiEntry::Event { name, inputs, anonymous },
                                ),
                            },
                        },
                    }
                } else if t == lit_fallback() {
                    Result::Ok(SpecAbiEntry::Fallback)
                } else if t == lit_receive() {
                    Result::Ok(SpecAbiEntry::Receive)
                } else {
                    Result::Err(
                        spec_parse_err_at(
                            Option::None,
                            lit_type_field(),
                            ParseDetail::UnknownEntryKind,
                        ),
                    )
                },
                _ => Result::Err(
                    spec_parse_err_at(Option::None, lit_type_field(), ParseDetail::WrongShape),
                ),
            },
        },
        _ => Result::Err(spec_parse_err_at(Option::None, Seq::empty(), ParseDetail::NotAnObject)),
    }
}

/// The optional output list of a function entry; absent means none.
pub open spec fn spec_outputs_field(fields: Seq<(Seq<u8>, SpecRawValue)>) -> Result<
    Seq<SpecParameter>,
    SpecBindError,
> {
    match spec_obj_get(fields, lit_outputs()) {
        Option::None => Result::Ok(Seq::empty()),
        Option::Some(v) => match v {
            SpecRawValue::Arr(items) => spec_load_params(items, 0),
            _ => Result::Err(
                spec_parse_err_at(Option::None, lit_outputs(), ParseDetail::WrongShape),
            ),
        },
    }
}

/// The optional `anonymous` flag of an event entry; absent means false.
pub open spec fn spec_anonymous_field(fields: Seq<(Seq<u8>, SpecRawValue)>) -> Result<
    bool,
    SpecBindError,
> {
    match spec_obj_get(fields, lit_anonymous()) {
        Option::None => Result::Ok(false),
        Option::Some(v) => match v {
            SpecRawValue::Bool(b) => Result::Ok(b),
            _ => Result::Err(
                spec_parse_err_at(Option::None, lit_anonymous(), ParseDetail::WrongShape),
            ),
        },
    }
}

/// Stamps the index of the offending entry on an error that arose inside it.
pub open spec fn spec_tag_entry(e: SpecBindError, i: int) -> SpecBindError {
    match e {
        SpecBindError::Parse(pe) => SpecBindError::Parse(
            SpecArtifactParseError {
                entry: if pe.entry is None {
                    Option::Some(i as usize)
                } else {
                    pe.entry
                },
                field: pe.field,
                detail: pe.detail,
            },
        ),
        _ => e,
    }
}

/// Loads the entry records `s[i..]`, stamping each error with its entry index.
pub open spec fn spec_load_entries(s: Seq<SpecRawValue>, i: int) -> Result<
    Seq<SpecAbiEntry>,
    SpecBindError,
>
    decreases s.len() - i,
{
    if i < 0 || i >= s.len() {
        Result::Ok(Seq::empty())
    } else {
        match spec_load_entry(s[i]) {
            Result::Err(e) => Result::Err(spec_tag_entry(e, i)),
            Result::Ok(en) => match spec_load_entries(s, i + 1) {
                Result::Err(e) => Result::Err(e),
                Result::Ok(rest) => Result::Ok(seq![en] + rest),
            },
        }
    }
}

/// Loads the optional `networks` object into deployment pairs: each value is
/// a record whose `address` field holds the deployed address.
pub open spec fn spec_load_networks(nets: Seq<(Seq<u8>, SpecRawValue)>, i: int) -> Result<
    Seq<(Seq<u8>, Seq<u8>)>,
    SpecBindError,
>
    decreases nets.len() - i,
{
    if i < 0 || i >= nets.len() {
        Result::Ok(Seq::empty())
    } else {
        let addr_r = match nets[i].1 {
            SpecRawValue::Obj(nf) => match spec_obj_get(nf, lit_address()) {
                Option::Some(SpecRawValue::Str(a)) => Result::<Seq<u8>, SpecBindError>::Ok(a),
                _ => Result::Err(
                    spec_parse_err_at(Option::None, lit_networks(), ParseDetail::WrongShape),
                ),
            },
            _ => Result::Err(
                spec_parse_err_at(Option::None, lit_networks(), ParseDetail::WrongShape),
            ),
        };
        match addr_r {
            Result::Err(e) => Result::Err(e),
            Result::Ok(a) => match spec_load_networks(nets, i + 1) {
                Result::Err(e) => Result::Err(e),
                Result::Ok(rest) => Result::Ok(seq![(nets[i].0, a)] + rest),
            },
        }
    }
}

/// Validates a raw artifact record: `contractName` and `abi` are required,
/// `bytecode` and `networks` are optional; anything else is ignored.
pub open spec fn spec_load_artifact(v: SpecRawValue) -> Result<
    SpecContractArtifact,
    SpecBindError,
> {
    match v {
        SpecRawValue::Obj(fields) => {
            let name_r = match spec_obj_get(fields, lit_contract_name()) {
                Option::None => Result::<Seq<u8>, SpecBindError>::Err(
                    spec_parse_err_at(Option::None, lit_contract_name(), ParseDetail::Missing),
                ),
                Option::Some(nv) => match nv {
                    SpecRawValue::Str(n) => Result::Ok(n),
                    _ => Result::Err(
                        spec_parse_err_at(
                            Option::None,
                            lit_contract_name(),
                            ParseDetail::WrongShape,
                        ),
                    ),
                },
            };
            match name_r {
                Result::Err(e) => Result::Err(e),
                Result::Ok(name) => {
                    let abi_r = match spec_obj_get(fields, lit_abi()) {
                        Option::None => Result::<Seq<SpecAbiEntry>, SpecBindError>::Err(
                            spec_parse_err_at(Option::None, lit_abi(), ParseDetail::Missing),
                        ),
                        Option::Some(av) => match av {
                            SpecRawValue::Arr(items) => spec_load_entries(items, 0),
                            _ => Result::Err(
                                spec_parse_err_at(Option::None, lit_abi(), ParseDetail::WrongShape),
                            ),
                        },
                    };
                    match abi_r {
                        Result::Err(e) => Result::Err(e),
                        Result::Ok(abi) => {
                            let bc_r = match spec_obj_get(fields, lit_bytecode()) {
                                Option::None => Result::<Option<Seq<u8>>, SpecBindError>::Ok(
                                    Option::None,
                                ),
                                Option::Some(bv) => match bv {
                                    SpecRawValue::Str(b) => Result::Ok(Option::Some(b)),
                                    _ => Result::Err(
                                        spec_parse_err_at(
                                            Option::None,
                                            lit_bytecode(),
                                            ParseDetail::WrongShape,
                                        ),
                                    ),
                                },
                            };
                            match bc_r {
                                Result::Err(e) => Result::Err(e),
                                Result::Ok(bytecode) => {
                                    let nets_r = match spec_obj_get(fields, lit_networks()) {
                                        Option::None => Result::<
                                            Seq<(Seq<u8>, Seq<u8>)>,
                                            SpecBindError,
                                        >::Ok(Seq::empty()),
                                        Option::Some(nv) => match nv {
                                            SpecRawValue::Obj(nets) => spec_load_networks(nets, 0),
                                            _ => Result::Err(
                                                spec_parse_err_at(
                                                    Option::None,
                                                    lit_networks(),
                                                    ParseDetail::WrongShape,
                                                ),
                                            ),
                                        },
                                    };
                                    match nets_r {
                                        Result::Err(e) => Result::Err(e),
                                        Result::Ok(deployments) => Result::Ok(
                                            SpecContractArtifact { name, abi, bytecode, deployments },
                                        ),
                                    }
                                },
                            }
                        },
                    }
                },
            }
        },
        _ => Result::Err(spec_parse_err_at(Option::None, Seq::empty(), ParseDetail::NotAnObject)),
    }
}

pub open spec fn entry_result_model(r: Result<AbiEntry, BindError>) -> Result<
    SpecAbiEntry,
    SpecBindError,
> {
    match r {
        Result::Ok(e) => Result::Ok(entry_model(e)),
        Result::Err(e) => Result::Err(error_model(e)),
    }
}

pub open spec fn entries_result_model(r: Result<Vec<AbiEntry>, BindError>) -> Result<
    Seq<SpecAbiEntry>,
    SpecBindError,
> {
    match r {
        Result::Ok(es) => Result::Ok(entries_model(es@, 0)),
        Result::Err(e) => Result::Err(error_model(e)),
    }
}

pub open spec fn artifact_result_model(r: Result<ContractArtifact, BindError>) -> Result<
    SpecContractArtifact,
    SpecBindError,
> {
    match r {
        Result::Ok(a) => Result::Ok(artifact_model(a)),
        Result::Err(e) => Result::Err(error_model(e)),
    }
}

pub open spec fn params_result_model_local(r: Result<Vec<Parameter>, BindError>) -> Result<
    Seq<SpecParameter>,
    SpecBindError,
> {
    match r {
        Result::Ok(ps) => Result::Ok(params_model(ps@, 0)),
        Result::Err(e) => Result::Err(error_model(e)),
    }
}

/// The required parameter list under `key`.
fn params_field(fields: &Vec<(Vec<u8>, RawValue)>, key: &Vec<u8>) -> (r: Result<
    Vec<Parameter>,
    BindError,
>)
    ensures
        params_result_model_local(r) == spec_params_field(raw_obj_model(fields@, 0), key@),
{
    match obj_get(fields, key) {
        Option::None => Result::Err(
            BindError::Parse(
                ArtifactParseError {
                    entry: Option::None,
                    field: clone_bytes(key),
                    detail: ParseDetail::Missing,
                },
            ),
        ),
        Option::Some(av) => match av {
            RawValue::Arr(items) => load_params(items, 0),
            _ => Result::Err(
                BindError::Parse(
                    ArtifactParseError {
                        entry: Option::None,
                        field: clone_bytes(key),
                        detail: ParseDetail::WrongShape,
                    },
                ),
            ),
        },
    }
}

/// The required `name` string of a function or event entry.
fn name_field(fields: &Vec<(Vec<u8>, RawValue)>) -> (r: Result<Vec<u8>, BindError>)
    ensures
        (match r {
            Result::Ok(n) => Result::Ok(n@),
            Result::Err(e) => Result::Err(error_model(e)),
        }) == spec_name_field(raw_obj_model(fields@, 0)),
{
    match obj_get(fields, &lit_name_field_vec()) {
        Option::None => Result::Err(
            BindError::Parse(
                ArtifactParseError {
                    entry: Option::None,
                    field: lit_name_field_vec(),
                    detail: ParseDetail::Missing,
                },
            ),
        ),
        Option::Some(nv) => match nv {
            RawValue::Str(n) => Result::Ok(clone_bytes(n)),
            _ => Result::Err(
                BindError::Parse(
                    ArtifactParseError {
                        entry: Option::None,
                        field: lit_name_field_vec(),
                        detail: ParseDetail::WrongShape,
                    },
                ),
            ),
        },
    }
}

/// The optional output list of a function entry.
fn outputs_field(fields: &Vec<(Vec<u8>, RawValue)>) -> (r: Result<Vec<Parameter>, BindError>)
    ensures
        params_result_model_local(r) == spec_outputs_field(raw_obj_model(fields@, 0)),
{
    match obj_get(fields, &lit_outputs_vec()) {
        Option::None => {
            let ps: Vec<Parameter> = Vec::new();
            proof {
                assert(params_model(ps@, 0) =~= Seq::<SpecParameter>::empty());
            }
            Result::Ok(ps)
        },
        Option::Some(av) => match av {
            RawValue::Arr(items) => load_params(items, 0),
            _ => Result::Err(
                BindError::Parse(
                    ArtifactParseError {
                        entry: Option::None,
                        field: lit_outputs_vec(),
                        detail: ParseDetail::WrongShape,
                    },
                ),
            ),
        },
    }
}

/// The optional `anonymous` flag of an event entry.
fn anonymous_field(fields: &Vec<(Vec<u8>, RawValue)>) -> (r: Result<bool, BindError>)
    ensures
        (match r {
            Result::Ok(b) => Result::Ok(b),
            Result::Err(e) => Result::Err(error_model(e)),
        }) == spec_anonymous_field(raw_obj_model(fields@, 0)),
{
    match obj_get(fields, &lit_anonymous_vec()) {
        Option::None => Result::Ok(false),
        Option::Some(bv) => match bv {
            RawValue::Bool(b) => Result::Ok(*b),
            _ => Result::Err(
                BindError::Parse(
                    ArtifactParseError {
                        entry: Option::None,
                        field: lit_anonymous_vec(),
                        detail: ParseDetail::WrongShape,
                    },
                ),
            ),
        },
    }
}

/// The mutability keyword of a function entry.
fn mutability_of(fields: &Vec<(Vec<u8>, RawValue)>) -> (r: Result<Mutability, BindError>)
    ensures
        (match r {
            Result::Ok(m) => Result::Ok(m),
            Result::Err(e) => Result::Err(error_model(e)),
        }) == spec_mutability_of(spec_obj_get(raw_obj_model(fields@, 0), lit_state_mutability())),
{
    match obj_get(fields, &lit_state_mutability_vec()) {
        Option::None => Result::Ok(Mutability::Nonpayable),
        Option::Some(mv) => match mv {
            RawValue::Str(m) => {
                if bytes_eq(m, &lit_pure_vec()) {
                    Result::Ok(Mutability::Pure)
                } else if bytes_eq(m, &lit_view_kw_vec()) {
                    Result::Ok(Mutability::View)
                } else if bytes_eq(m, &lit_nonpayable_vec()) {
                    Result::Ok(Mutability::Nonpayable)
                } else if bytes_eq(m, &lit_payable_vec()) {
                    Result::Ok(Mutability::Payable)
                } else {
                    Result::Err(
                        BindError::Parse(
                            ArtifactParseError {
                                entry: Option::None,
                                field: lit_state_mutability_vec(),
                                detail: ParseDetail::UnknownMutability,
                            },
                        ),
                    )
                }
            },
            _ => Result::Err(
                BindError::Parse(
                    ArtifactParseError {
                        entry: Option::None,
                        field: lit_state_mutability_vec(),
                        detail: ParseDetail::WrongShape,
                    },
                ),
            ),
        },
    }
}

/// Loads one interface entry, mirroring `spec_load_entry`.
pub fn load_entry(v: &RawValue) -> (r: Result<AbiEntry, BindError>)
    ensures
        entry_result_model(r) == spec_load_entry(raw_model(*v)),
{
    match v {
        RawValue::Obj(fields) => {
            match obj_get(fields, &lit_type_field_vec()) {
                Option::None => Result::Err(
                    BindError::Parse(
                        ArtifactParseError {
                            entry: Option::None,
                            field: lit_type_field_vec(),
                            detail: ParseDetail::Missing,
                        },
                    ),
                ),
                Option::Some(tv) => match tv {
                    RawValue::Str(t) => {
                        if bytes_eq(t, &lit_constructor_vec()) {
                            match params_field(fields, &lit_inputs_vec()) {
                                Result::Err(e) => Result::Err(e),
                                Result::Ok(inputs) => Result::Ok(AbiEntry::Constructor { inputs }),
                            }
                        } else if bytes_eq(t, &lit_function_vec()) {
                            let name = match name_field(fields) {
                                Result::Err(e) => {
                                    return Result::Err(e);
                                },
                                Result::Ok(n) => n,
                            };
                            let inputs = match params_field(fields, &lit_inputs_vec()) {
                                Result::Err(e) => {
                                    return Result::Err(e);
                                },
                                Result::Ok(ps) => ps,
                            };
                            let outputs = match outputs_field(fields) {
                                Result::Err(e) => {
                                    return Result::Err(e);
                                },
                                Result::Ok(ps) => ps,
                            };
                            match mutability_of(fields) {
                                Result::Err(e) => Result::Err(e),
                                Result::Ok(mutability) => Result::Ok(
                                    AbiEntry::Function { name, inputs, outputs, mutability },
                                ),
                            }
                        } else if bytes_eq(t, &lit_event_vec()) {
                            let name = match name_field(fields) {
                                Result::Err(e) => {
                                    return Result::Err(e);
                                },
                                Result::Ok(n) => n,
                            };
                            let inputs = match params_field(fields, &lit_inputs_vec()) {
                                Result::Err(e) => {
                                    return Result::Err(e);
                                },
                                Result::Ok(ps) => ps,
                            };
                            match anonymous_field(fields) {
                                Result::Err(e) => Result::Err(e),
                                Result::Ok(anonymous) => Result::Ok(
                                    AbiEntry::Event { name, inputs, anonymous },
                                ),
                            }
                        } else if bytes_eq(t, &lit_fallback_vec()) {
                            Result::Ok(AbiEntry::Fallback)
                        } else if bytes_eq(t, &lit_receive_vec()) {
                            Result::Ok(AbiEntry::Receive)
                        } else {
                            Result::Err(
                                BindError::Parse(
                                    ArtifactParseError {
                                        entry: Option::None,
                                        field: lit_type_field_vec(),
                                        detail: ParseDetail::UnknownEntryKind,
                                    },
                                ),
                            )
                        }
                    },
                    _ => Result::Err(
                        BindError::Parse(
                            ArtifactParseError {
                                entry: Option::None,
                                field: lit_type_field_vec(),
                                detail: ParseDetail::WrongShape,
                            },
                        ),
                    ),
                },
            }
        },
        _ => Result::Err(
            BindError::Parse(
                ArtifactParseError {
                    entry: Option::None,
                    field: Vec::new(),
                    detail: ParseDetail::NotAnObject,
                },
            ),
        ),
    }
}

/// Stamps the index of the offending entry on an error from inside it.
fn tag_entry(e: BindError, i: usize) -> (r: BindError)
    ensures
        error_model(r) == spec_tag_entry(error_model(e), i as int),
{
    match e {
        BindError::Parse(pe) => BindError::Parse(
            ArtifactParseError {
                entry: match pe.entry {
                    Option::None => Option::Some(i),
                    Option::Some(x) => Option::Some(x),
                },
                field: pe.field,
                detail: pe.detail,
            },
        ),
        other => other,
    }
}

/// Loads the entry records `list[i..]`, mirroring `spec_load_entries`.
pub fn load_entries(list: &Vec<RawValue>, i: usize) -> (r: Result<Vec<AbiEntry>, BindError>)
    requires
        i <= list@.len(),
    ensures
        entries_result_model(r) == spec_load_entries(raw_list_model(list@, 0), i as int),
    decreases list@.len() - i,
{
    proof {
        lemma_raw_list_model(list@, 0);
    }
    if i == list.len() {
        let r: Vec<AbiEntry> = Vec::new();
        proof {
            assert(entries_model(r@, 0) =~= Seq::<SpecAbiEntry>::empty());
        }
        Result::Ok(r)
    } else {
        match load_entry(&list[i]) {
            Result::Err(e) => Result::Err(tag_entry(e, i)),
            Result::Ok(en) => match load_entries(list, i + 1) {
                Result::Err(e) => Result::Err(e),
                Result::Ok(mut rest) => {
                    let ghost rest0 = rest@;
                    let ghost eg = en;
                    rest.insert(0, en);
                    proof {
                        assert(rest@ =~= seq![eg] + rest0);
                        lemma_entries_model(rest@, 0);
                        lemma_entries_model(rest0, 0);
                        assert forall|j: int|
                            0 <= j < rest@.len() implies entries_model(rest@, 0)[j] == (seq![
                            entry_model(eg)] + entries_model(rest0, 0))[j] by {
                            assert(entries_model(rest@, 0)[j] == entry_model(rest@[j]));
                            if j == 0 {
                                assert(rest@[0] == eg);
                            } else {
                                assert(rest@[j] == rest0[j - 1]);
                                assert(entries_model(rest0, 0)[j - 1] == entry_model(
                                    rest0[j - 1],
                                ));
                            }
                        }
                        assert(entries_model(rest@, 0) =~= seq![entry_model(eg)] + entries_model(
                            rest0,
                            0,
                        ));
                    }
                    Result::Ok(rest)
                },
            },
        }
    }
}

/// Loads the `networks` object entries `nets[i..]`.
fn load_networks(nets: &Vec<(Vec<u8>, RawValue)>, i: usize) -> (r: Result<
    Vec<(Vec<u8>, Vec<u8>)>,
    BindError,
>)
    requires
        i <= nets@.len(),
    ensures
        (match r {
            Result::Ok(ds) => Result::Ok(pairs_model(ds@, 0)),
            Result::Err(e) => Result::Err(error_model(e)),
        }) == spec_load_networks(raw_obj_model(nets@, 0), i as int),
    decreases nets@.len() - i,
{
    proof {
        lemma_raw_obj_model(nets@, 0);
    }
    if i == nets.len() {
        let r: Vec<(Vec<u8>, Vec<u8>)> = Vec::new();
        proof {
            assert(pairs_model(r@, 0) =~= Seq::<(Seq<u8>, Seq<u8>)>::empty());
        }
        Result::Ok(r)
    } else {
        let addr: Vec<u8> = match &nets[i].1 {
            RawValue::Obj(nf) => match obj_get(nf, &lit_address_vec()) {
                Option::Some(av) => match av {
                    RawValue::Str(a) => clone_bytes(a),
                    _ => {
                        return Result::Err(
                            BindError::Parse(
                                ArtifactParseError {
                                    entry: Option::None,
                                    field: lit_networks_vec(),
                                    detail: ParseDetail::WrongShape,
                                },
                            ),
                        );
                    },
                },
                Option::None => {
                    return Result::Err(
                        BindError::Parse(
                            ArtifactParseError {
                                entry: Option::None,
                                field: lit_networks_vec(),
                                detail: ParseDetail::WrongShape,
                            },
                        ),
                    );
                },
            },
            _ => {
                return Result::Err(
                    BindError::Parse(
                        ArtifactParseError {
                            entry: Option::None,
                            field: lit_networks_vec(),
                            detail: ParseDetail::WrongShape,
                        },
                    ),
                );
            },
        };
        let id = clone_bytes(&nets[i].0);
        match load_networks(nets, i + 1) {
            Result::Err(e) => Result::Err(e),
            Result::Ok(mut rest) => {
                let ghost rest0 = rest@;
                let pair = (id, addr);
                let ghost pg = pair;
                rest.insert(0, pair);
                proof {
                    assert(rest@ =~= seq![pg] + rest0);
                    lemma_pairs_model(rest@, 0);
                    lemma_pairs_model(rest0, 0);
                    assert forall|j: int|
                        0 <= j < rest@.len() implies pairs_model(rest@, 0)[j] == (seq![(
                        pg.0@,
                        pg.1@,
                    )] + pairs_model(rest0, 0))[j] by {
                        assert(pairs_model(rest@, 0)[j] == (rest@[j].0@, rest@[j].1@));
                        if j == 0 {
                            assert(rest@[0] == pg);
                        } else {
                            assert(rest@[j] == rest0[j - 1]);
                            assert(pairs_model(rest0, 0)[j - 1] == (rest0[j - 1].0@, rest0[j
                                - 1].1@));
                        }
                    }
                    assert(pairs_model(rest@, 0) =~= seq![(pg.0@, pg.1@)] + pairs_model(rest0, 0));
                }
                Result::Ok(rest)
            },
        }
    }
}

/// Validates a raw artifact record into the typed contract model, exactly as
/// `spec_load_artifact` describes: success if and only if the record meets
/// the schema and every wire type string lies in the grammar.
pub fn load_artifact(v: &RawValue) -> (r: Result<ContractArtifact, BindError>)
    ensures
        artifact_result_model(r) == spec_load_artifact(raw_model(*v)),
{
    match v {
        RawValue::Obj(fields) => {
            let name: Vec<u8> = match obj_get(fields, &lit_contract_name_vec()) {
                Option::None => {
                    return Result::Err(
                        BindError::Parse(
                            ArtifactParseError {
                                entry: Option::None,
                                field: lit_contract_name_vec(),
                                detail: ParseDetail::Missing,
                            },
                        ),
                    );
                },
                Option::Some(nv) => match nv {
                    RawValue::Str(n) => clone_bytes(n),
                    _ => {
                        return Result::Err(
                            BindError::Parse(
                                ArtifactParseError {
                                    entry: Option::None,
                                    field: lit_contract_name_vec(),
                                    detail: ParseDetail::WrongShape,
                                },
                            ),
                        );
                    },
                },
            };
            let abi: Vec<AbiEntry> = match obj_get(fields, &lit_abi_vec()) {
                Option::None => {
                    return Result::Err(
                        BindError::Parse(
                            ArtifactParseError {
                                entry: Option::None,
                                field: lit_abi_vec(),
                                detail: ParseDetail::Missing,
                            },
                        ),
                    );
                },
                Option::Some(av) => match av {
                    RawValue::Arr(items) => match load_entries(items, 0) {
                        Result::Err(e) => {
                            return Result::Err(e);
                        },
                        Result::Ok(es) => es,
                    },
                    _ => {
                        return Result::Err(
                            BindError::Parse(
                                ArtifactParseError {
                                    entry: Option::None,
                                    field: lit_abi_vec(),
                                    detail: ParseDetail::WrongShape,
                                },
                            ),
                        );
                    },
                },
            };
            let bytecode: Option<Vec<u8>> = match obj_get(fields, &lit_bytecode_vec()) {
                Option::None => Option::None,
                Option::Some(bv) => match bv {
                    RawValue::Str(b) => Option::Some(clone_bytes(b)),
                    _ => {
                        return Result::Err(
                            BindError::Parse(
                                ArtifactParseError {
                                    entry: Option::None,
                                    field: lit_bytecode_vec(),
                                    detail: ParseDetail::WrongShape,
                                },
                            ),
                        );
                    },
                },
            };
            let deployments: Vec<(Vec<u8>, Vec<u8>)> = match obj_get(fields, &lit_networks_vec()) {
                Option::None => Vec::new(),
                Option::Some(nv) => match nv {
                    RawValue::Obj(nets) => match load_networks(nets, 0) {
                        Result::Err(e) => {
                            return Result::Err(e);
                        },
                        Result::Ok(ds) => ds,
                    },
                    _ => {
                        return Result::Err(
                            BindError::Parse(
                                ArtifactParseError {
                                    entry: Option::None,
                                    field: lit_networks_vec(),
                                    detail: ParseDetail::WrongShape,
                                },
                            ),
                        );
                    },
                },
            };
            proof {
                assert(pairs_model(Seq::<(Vec<u8>, Vec<u8>)>::empty(), 0) =~= Seq::<
                    (Seq<u8>, Seq<u8>),
                >::empty());
            }
            Result::Ok(ContractArtifact { name, abi, bytecode, deployments })
        },
        _ => Result::Err(
            BindError::Parse(
                ArtifactParseError {
                    entry: Option::None,
                    field: Vec::new(),
                    detail: ParseDetail::NotAnObject,
                },
            ),
        ),
    }
}


} // verus!
