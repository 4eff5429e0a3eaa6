use vstd::prelude::*;

verus! {

/// Every way a decode or an encode of an animation can fail.
#[derive(Debug, Clone)]
pub enum AnimXError {
    /// The stream does not start with the `AnimX` magic string.
    IncorrectHeader,
    /// The format version is not 1.
    UnsupportedVersion,
    /// The encoding flag is not 0 (no compression).
    UnsupportedEncoding,
    /// A track-kind tag outside the known range.
    IncorrectTrackType,
    /// A value-kind tag outside the known range, or a keyframe whose value
    /// does not have the kind its track declares.
    IncorrectValueType,
    /// An interpolation tag outside the known range.
    IncorrectInterpolationType,
    /// Fewer bytes are left than the format requires at this point.
    TruncatedInput,
    /// A varint whose value does not fit in 64 bits.
    VarIntOverflow,
    /// Bytes declared as a string are not valid UTF-8.
    InvalidText,
    /// A curve whose keyframes do not all carry a tangent pair, or all lack one.
    InconsistentTangents,
    /// A document field that is missing or has the wrong shape; holds the field name.
    StructuralError(String),
    /// A track kind that is named but has no implemented body.
    Unimplemented,
}

} // verus!
