use vstd::prelude::*;

verus! {

/// A metadata-level mention of where a type reference points: the payload of a
/// raw type record. Indices refer to the tables of the metadata snapshot.
#[derive(Clone, Copy, Debug, PartialEq, Eq, Structural)]
pub enum TypeData {
    /// Index into the type-definition table.
    TypeDefinitionIndex(u32),
    /// Index into the runtime type table (element of an array or pointer).
    TypeIndex(usize),
    /// Index into the generic-class table (a concrete generic instantiation).
    GenericClassIndex(usize),
    /// Index into the generic-parameter table (a type or method type variable).
    GenericParameterIndex(u32),
    /// A multi-dimensional array shape; carried through but never modeled.
    ArrayType,
}

/// Canonical identity of a managed type: either a plain type definition or a
/// (definition x concrete generic arguments) instantiation. Two references
/// denote the same key iff they carry the same variant and index.
#[derive(Clone, Copy, Debug, PartialEq, Eq, Structural)]
pub enum CsTypeTag {
    TypeDefinitionIndex(u32),
    GenericInstantiation(usize),
}

} // verus!
