//! The error taxonomy of the generation pipeline. Every failure is terminal
//! for the artifact at hand: no partial module is ever produced.

use vstd::prelude::*;

verus! {

/// What exactly was wrong with a structurally invalid artifact field.
#[derive(Clone, Copy, PartialEq, Eq, Structural, Debug)]
pub enum ParseDetail {
    /// A required field is absent.
    Missing,
    /// A field is present but not of the shape the schema asks for.
    WrongShape,
    /// A record that had to be an object is not one.
    NotAnObject,
    /// An interface entry carries an unrecognized `type` discriminator.
    UnknownEntryKind,
    /// A function entry carries an unrecognized mutability keyword.
    UnknownMutability,
}

/// A structural violation of the artifact schema, locating the offending
/// interface entry (when inside one) and field.
#[derive(Debug)]
pub struct ArtifactParseError {
    pub entry: Option<usize>,
    pub field: Vec<u8>,
    pub detail: ParseDetail,
}

/// Mathematical model of `ArtifactParseError`.
pub struct SpecArtifactParseError {
    pub entry: Option<usize>,
    pub field: Seq<u8>,
    pub detail: ParseDetail,
}

/// A wire type string outside the type grammar, carrying the offending string.
#[derive(Debug)]
pub struct UnsupportedTypeError {
    pub type_string: Vec<u8>,
}

/// Two interface entries with the very same full canonical signature (a true
/// duplicate, not a mere overload), carrying that signature.
#[derive(Debug)]
pub struct OverloadNameCollision {
    pub signature: Vec<u8>,
}

/// Any failure of the generation pipeline.
#[derive(Debug)]
pub enum BindError {
    Parse(ArtifactParseError),
    Unsupported(UnsupportedTypeError),
    Collision(OverloadNameCollision),
}

/// Mathematical model of `BindError`.
pub enum SpecBindError {
    Parse(SpecArtifactParseError),
    Unsupported(Seq<u8>),
    Collision(Seq<u8>),
}

pub open spec fn error_model(e: BindError) -> SpecBindError {
    match e {
        BindError::Parse(p) => SpecBindError::Parse(
            SpecArtifactParseError { entry: p.entry, field: p.field@, detail: p.detail },
        ),
        BindError::Unsupported(u) => SpecBindError::Unsupported(u.type_string@),
        BindError::Collision(c) => SpecBindError::Collision(c.signature@),
    }
}

} // verus!
