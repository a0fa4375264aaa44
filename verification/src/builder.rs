//! The configuration surface: where the artifact lives and which runtime
//! support crate the generated module imports from, threaded through the
//! pipeline as a plain immutable value, never as hidden global state.

use vstd::prelude::*;

verus! {

/// The fixed conventional name of the runtime support crate.
pub open spec fn default_runtime_crate() -> Seq<char> {
    "ethcontract"@
}

/// Arguments passed to the generators that control expansion.
pub struct Args {
    /// The path to the artifact for the contract whose bindings are being
    /// generated.
    pub artifact_path: String,
    /// The runtime crate name to use.
    pub runtime_crate_name: String,
}

impl Args {
    /// Arguments for the contract artifact at `artifact_path`, importing
    /// from the conventionally named runtime crate.
    pub fn new(artifact_path: String) -> (r: Args)
        ensures
            r.artifact_path@ == artifact_path@,
            r.runtime_crate_name@ == default_runtime_crate(),
    {
        Args { artifact_path, runtime_crate_name: "ethcontract".to_owned() }
    }
}

/// Builder for generating contract code. No code is generated until the
/// builder is finalized by the caller.
pub struct Builder {
    /// The contract binding generation arguments.
    pub args: Args,
}

impl Builder {
    /// A builder for the contract artifact at `artifact_path`.
    pub fn new(artifact_path: String) -> (r: Builder)
        ensures
            r.args.artifact_path@ == artifact_path@,
            r.args.runtime_crate_name@ == default_runtime_crate(),
    {
        Builder { args: Args::new(artifact_path) }
    }

    /// Sets the crate name for the runtime crate. This setting is usually
    /// only needed if that crate was renamed in the caller's manifest.
    pub fn with_runtime_crate_name(self, name: String) -> (r: Builder)
        ensures
            r.args.runtime_crate_name@ == name@,
            r.args.artifact_path@ == self.args.artifact_path@,
    {
        Builder {
            args: Args { artifact_path: self.args.artifact_path, runtime_crate_name: name },
        }
    }
}

} // verus!
