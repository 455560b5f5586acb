use vstd::prelude::*;

verus! {

/// Why a class could not be loaded.
#[derive(Debug, PartialEq, Eq)]
pub enum ClassLoadError {
    MagicMismatch(u32),
    VersionUnsupported(u16, u16),
    /// The input ended before a field that the format requires.
    ClassFileReadFailure,
    ConstantPoolMissing(u16),
    AttributeMissing(String),
    AttributeTypeMismatch(String, String),
    ConstantPoolTypeMismatch(String, String),
    UnknownElementValueTag(u8),
    UnknownConstantPoolTag(u8),
    /// Element values nest deeper than the decoder accepts.
    NestingTooDeep,
}

/// The mathematical value of a `ClassLoadError`: text as character sequences.
pub enum LoadFault {
    MagicMismatch(u32),
    VersionUnsupported(u16, u16),
    ClassFileReadFailure,
    ConstantPoolMissing(u16),
    AttributeMissing(Seq<char>),
    AttributeTypeMismatch(Seq<char>, Seq<char>),
    ConstantPoolTypeMismatch(Seq<char>, Seq<char>),
    UnknownElementValueTag(u8),
    UnknownConstantPoolTag(u8),
    NestingTooDeep,
}

impl View for ClassLoadError {
    type V = LoadFault;

    open spec fn view(&self) -> LoadFault {
        match self {
            ClassLoadError::MagicMismatch(m) => LoadFault::MagicMismatch(*m),
            ClassLoadError::VersionUnsupported(a, b) => LoadFault::VersionUnsupported(*a, *b),
            ClassLoadError::ClassFileReadFailure => LoadFault::ClassFileReadFailure,
            ClassLoadError::ConstantPoolMissing(i) => LoadFault::ConstantPoolMissing(*i),
            ClassLoadError::AttributeMissing(n) => LoadFault::AttributeMissing(n@),
            ClassLoadError::AttributeTypeMismatch(a, b) => LoadFault::AttributeTypeMismatch(a@, b@),
            ClassLoadError::ConstantPoolTypeMismatch(a, b) => LoadFault::ConstantPoolTypeMismatch(
                a@,
                b@,
            ),
            ClassLoadError::UnknownElementValueTag(t) => LoadFault::UnknownElementValueTag(*t),
            ClassLoadError::UnknownConstantPoolTag(t) => LoadFault::UnknownConstantPoolTag(*t),
            ClassLoadError::NestingTooDeep => LoadFault::NestingTooDeep,
        }
    }
}

/// A decoding step: the value read and the offset just past it, or the fault.
pub type Step<T> = Result<(T, int), LoadFault>;

} // verus!
