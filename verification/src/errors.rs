use vstd::prelude::*;

verus! {

/// Every way a bridge operation can fail.
///
/// - `TypeMismatch`: a dynamic value did not have the tagged shape the
///   marshaller expected, or a required field was absent.
/// - `UnknownComponent`: a component name outside the supported set
///   (`Transform`, `Mesh`) was used in a read or a bulk write.
/// - `MissingComponent`: a component that the operation needs is absent on
///   the target entity (including the implicit requirement that a `Transform`
///   exists before a `Mesh` can be attached).
/// - `EntryPointMissing`: a script did not define both required entry
///   points (`_start` and `_update`).
/// - `ScriptRuntimeError`: the script language itself raised an error while
///   the source text or an entry point ran, or a constructor was asked for
///   an unknown primitive.
#[derive(Clone, Copy, Debug, PartialEq, Eq, Structural)]
pub enum ScriptError {
    TypeMismatch,
    UnknownComponent,
    MissingComponent,
    EntryPointMissing,
    ScriptRuntimeError,
}

} // verus!
