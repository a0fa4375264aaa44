//! Generation of strongly-typed host bindings from a smart-contract
//! interface artifact: the artifact is parsed into a structured model, each
//! wire-level type is mapped to a host representation, name collisions are
//! resolved deterministically, and a module-level intermediate
//! representation is assembled for an external emitter to render.

pub mod artifact;
pub mod assembler;
pub mod binding;
pub mod builder;
pub mod bytes;
pub mod errors;
pub mod mapper;
pub mod raw;
pub mod resolver;
pub mod types;

use crate::artifact::{ContractArtifact, SpecAbiEntry, SpecContractArtifact, load_artifact,
    spec_load_artifact};
use crate::assembler::{Module, SpecGeneratedUnit, SpecModule, assemble, extract_ctor,
    module_model, spec_assemble, spec_bind_params, spec_first_ctor, spec_nonctor};
use crate::errors::{BindError, SpecBindError, error_model};
use crate::mapper::{spec_parse_type, spec_scan_base};
use crate::raw::{RawValue, SpecRawValue, raw_model};
use crate::resolver::{SpecResolvedUnit, resolve_entries, spec_resolve};
use crate::types::SpecSolidityType;
use vstd::prelude::*;

verus! {

/// The whole pipeline on one raw artifact record: load and validate, map
/// every wire type, resolve identifiers, assemble the module. Any failure
/// aborts generation with the specific error; no partial module exists.
pub open spec fn spec_generate(v: SpecRawValue) -> Result<SpecModule, SpecBindError> {
    match spec_load_artifact(v) {
        Result::Err(e) => Result::Err(e),
        Result::Ok(a) => match spec_resolve(spec_nonctor(a.abi)) {
            Result::Err(e) => Result::Err(e),
            Result::Ok(rus) => Result::Ok(
                spec_assemble(spec_first_ctor(a.abi), a.bytecode, rus),
            ),
        },
    }
}

/// Generates the module IR of one artifact. The result is pinned to
/// `spec_generate`, a function of the input value alone: the pipeline reads
/// no ambient state, so equal inputs always yield equal modules.
pub fn generate_module(raw: &RawValue) -> (r: Result<Module, BindError>)
    ensures
        (match r {
            Result::Ok(m) => Result::Ok(module_model(m)),
            Result::Err(e) => Result::Err(error_model(e)),
        }) == spec_generate(raw_model(*raw)),
{
    let artifact = match load_artifact(raw) {
        Result::Err(e) => {
            return Result::Err(e);
        },
        Result::Ok(a) => a,
    };
    let ContractArtifact { name: _contract_name, abi, bytecode, deployments: _deployments } =
        artifact;
    let (ctor, rest) = extract_ctor(abi);
    let rus = match resolve_entries(rest) {
        Result::Err(e) => {
            return Result::Err(e);
        },
        Result::Ok(u) => u,
    };
    Result::Ok(assemble(ctor, bytecode, rus))
}

/// Determinism: generation is a function of the artifact value alone, so
/// byte-identical inputs always yield identical modules. (The executable
/// pipeline is pinned to `spec_generate` by its contract.)
pub proof fn lemma_generate_deterministic(a: SpecRawValue, b: SpecRawValue)
    requires
        a == b,
    ensures
        spec_generate(a) == spec_generate(b),
{
}

/// Rejection: a type string whose base the grammar does not recognize maps
/// to `UnsupportedTypeError` carrying that string, whatever component
/// records accompany it; the failure propagates, so no module is produced.
pub proof fn lemma_malformed_type_rejected(ts: Seq<u8>, comps: Seq<SpecRawValue>)
    requires
        spec_scan_base(ts) is None,
    ensures
        spec_parse_type(ts, comps) == Result::<SpecSolidityType, SpecBindError>::Err(
            SpecBindError::Unsupported(ts),
        ),
{
}

/// An artifact with an empty interface still yields a module holding
/// exactly a constructor with no inputs and a deployment unit — no method
/// and no event type.
pub proof fn lemma_empty_abi_module(a: SpecContractArtifact)
    requires
        a.abi.len() == 0,
    ensures
        spec_resolve(spec_nonctor(a.abi)) is Ok,
        ({
            let m = spec_assemble(
                spec_first_ctor(a.abi),
                a.bytecode,
                spec_resolve(spec_nonctor(a.abi))->Ok_0,
            );
            &&& m.units.len() == 2
            &&& m.units[0] == (SpecGeneratedUnit::ConstructorFn { inputs: Seq::empty() })
            &&& m.units[1] is Deployment
            &&& forall|k: int|
                0 <= k < m.units.len() ==> !(m.units[k] is Method) && !(m.units[k] is EventType)
        }),
{
    assert(spec_nonctor(a.abi) =~= Seq::<SpecAbiEntry>::empty());
    let rus = spec_resolve(spec_nonctor(a.abi))->Ok_0;
    assert(rus =~= Seq::<SpecResolvedUnit>::empty());
    let m = spec_assemble(spec_first_ctor(a.abi), a.bytecode, rus);
    assert(spec_first_ctor(a.abi) is None);
    assert(spec_bind_params(Seq::empty(), 0) =~= Seq::<crate::assembler::SpecBoundParam>::empty());
    assert(m.units[0] == (SpecGeneratedUnit::ConstructorFn { inputs: Seq::empty() }));
    assert(m.units.len() == 2);
    assert(m.units[1] is Deployment);
}

/// Constructor synthesis: an artifact declaring no constructor entry still
/// yields a constructor unit, with zero inputs, never an error.
pub proof fn lemma_constructor_synthesized(
    a: SpecContractArtifact,
    rus: Seq<SpecResolvedUnit>,
)
    requires
        spec_first_ctor(a.abi) is None,
    ensures
        spec_assemble(spec_first_ctor(a.abi), a.bytecode, rus).units.len() >= 1,
        spec_assemble(spec_first_ctor(a.abi), a.bytecode, rus).units[0] == (
        SpecGeneratedUnit::ConstructorFn { inputs: Seq::empty() }),
{
    assert(spec_bind_params(Seq::empty(), 0) =~= Seq::<crate::assembler::SpecBoundParam>::empty());
}

} // verus!
