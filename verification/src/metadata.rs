use vstd::prelude::*;
use crate::tags::TypeData;

verus! {

/// Tag of a raw metadata type record: which shape of type the record denotes.
#[derive(Clone, Copy, Debug, PartialEq, Eq, Structural)]
pub enum Il2CppTypeEnum {
    End,
    Void,
    Boolean,
    Char,
    I1,
    U1,
    I2,
    U2,
    I4,
    U4,
    I8,
    U8,
    R4,
    R8,
    String,
    Ptr,
    Byref,
    Valuetype,
    Class,
    Var,
    Array,
    Genericinst,
    Typedbyref,
    I,
    U,
    Object,
    Szarray,
    Mvar,
    Internal,
    Modifier,
    Sentinel,
    Pinned,
    Enum,
}

/// Attribute bit set when a field is static.
pub const FIELD_ATTRIBUTE_STATIC: u16 = 0x10;

/// Attribute bit set when a field is a compile-time constant (literal).
pub const FIELD_ATTRIBUTE_LITERAL: u16 = 0x40;

/// Attribute bit set when a parameter is an input-only by-reference parameter.
pub const PARAM_ATTRIBUTE_IN: u16 = 0x1;

/// Attribute bit set when a parameter is an output by-reference parameter.
pub const PARAM_ATTRIBUTE_OUT: u16 = 0x2;

/// Attribute bit set when a parameter is optional (may carry a default value).
pub const PARAM_ATTRIBUTE_OPTIONAL: u16 = 0x10;

/// One raw type record of the runtime metadata: a tag, a payload locating the
/// referent, and the flags the model-building logic reads.
#[derive(Clone, Copy, Debug, PartialEq, Eq, Structural)]
pub struct Il2CppType {
    pub ty: Il2CppTypeEnum,
    pub data: TypeData,
    /// Field or parameter attribute bits of the use site carrying this record.
    pub attrs: u16,
    /// Whether the record is a managed by-reference (`ref`/`out`) use.
    pub byref: bool,
    /// Whether the referent is a value type in this use.
    pub valuetype: bool,
}

impl Il2CppType {
    pub open spec fn spec_is_static(&self) -> bool {
        self.attrs & FIELD_ATTRIBUTE_STATIC != 0
    }

    pub open spec fn spec_is_constant(&self) -> bool {
        self.attrs & FIELD_ATTRIBUTE_LITERAL != 0
    }

    pub open spec fn spec_is_param_in(&self) -> bool {
        self.byref && self.attrs & PARAM_ATTRIBUTE_IN != 0 && self.attrs & PARAM_ATTRIBUTE_OUT
            == 0
    }

    pub open spec fn spec_is_param_out(&self) -> bool {
        self.attrs & PARAM_ATTRIBUTE_OUT != 0
    }

    pub open spec fn spec_is_param_optional(&self) -> bool {
        self.attrs & PARAM_ATTRIBUTE_OPTIONAL != 0
    }

    /// Whether the field carrying this record is static.
    pub fn is_static(&self) -> (r: bool)
        ensures
            r == self.spec_is_static(),
    {
        self.attrs & FIELD_ATTRIBUTE_STATIC != 0
    }

    /// Whether the field carrying this record is a compile-time constant.
    pub fn is_constant(&self) -> (r: bool)
        ensures
            r == self.spec_is_constant(),
    {
        self.attrs & FIELD_ATTRIBUTE_LITERAL != 0
    }

    /// Whether this is an input-only by-reference parameter use.
    pub fn is_param_in(&self) -> (r: bool)
        ensures
            r == self.spec_is_param_in(),
    {
        self.byref && self.attrs & PARAM_ATTRIBUTE_IN != 0 && self.attrs & PARAM_ATTRIBUTE_OUT == 0
    }

    /// Whether this is an output by-reference parameter use.
    pub fn is_param_out(&self) -> (r: bool)
        ensures
            r == self.spec_is_param_out(),
    {
        self.attrs & PARAM_ATTRIBUTE_OUT != 0
    }

    /// Whether the parameter carrying this record is optional.
    pub fn is_param_optional(&self) -> (r: bool)
        ensures
            r == self.spec_is_param_optional(),
    {
        self.attrs & PARAM_ATTRIBUTE_OPTIONAL != 0
    }
}

/// Whether a raw type tag denotes a built-in primitive whose constants can be
/// rendered directly: booleans, characters, the fixed-width and native
/// integers, the floating-point kinds, and strings.
pub open spec fn spec_is_primitive_builtin(t: Il2CppTypeEnum) -> bool {
    t == Il2CppTypeEnum::Boolean || t == Il2CppTypeEnum::Char || t == Il2CppTypeEnum::I1 || t
        == Il2CppTypeEnum::U1 || t == Il2CppTypeEnum::I2 || t == Il2CppTypeEnum::U2 || t
        == Il2CppTypeEnum::I4 || t == Il2CppTypeEnum::U4 || t == Il2CppTypeEnum::I8 || t
        == Il2CppTypeEnum::U8 || t == Il2CppTypeEnum::I || t == Il2CppTypeEnum::U || t
        == Il2CppTypeEnum::R4 || t == Il2CppTypeEnum::R8 || t == Il2CppTypeEnum::String
}

/// Executable form of [`spec_is_primitive_builtin`].
pub fn is_primitive_builtin(t: Il2CppTypeEnum) -> (r: bool)
    ensures
        r == spec_is_primitive_builtin(t),
{
    match t {
        Il2CppTypeEnum::Boolean | Il2CppTypeEnum::Char | Il2CppTypeEnum::I1 | Il2CppTypeEnum::U1
            | Il2CppTypeEnum::I2 | Il2CppTypeEnum::U2 | Il2CppTypeEnum::I4 | Il2CppTypeEnum::U4
            | Il2CppTypeEnum::I8 | Il2CppTypeEnum::U8 | Il2CppTypeEnum::I | Il2CppTypeEnum::U
            | Il2CppTypeEnum::R4 | Il2CppTypeEnum::R8 | Il2CppTypeEnum::String => true,
        _ => false,
    }
}

/// Sentinel meaning "no entry" in index fields that may be absent.
pub const INVALID_INDEX: u32 = 0xffff_ffff;

/// One type definition of the metadata snapshot, with the plain values the
/// model-building logic reads: names, table ranges, links and layout flags.
pub struct Il2CppTypeDefinition {
    pub name: String,
    pub namespace: String,
    /// Index into the runtime type table of the parent (base) type, or
    /// [`INVALID_INDEX`] when the definition has no parent.
    pub parent_index: u32,
    /// Index into the runtime type table of the enclosing type, or
    /// [`INVALID_INDEX`] when the definition is not nested.
    pub declaring_type_index: u32,
    /// Index into the runtime type table of this definition's by-value form.
    pub byval_type_index: usize,
    /// Indices into the generic-parameter table of this definition's own
    /// generic parameters; absent when the definition is not generic.
    pub generic_container: Option<Vec<u32>>,
    /// Start and length of this definition's range in the global field table.
    pub field_start: usize,
    pub field_count: usize,
    /// Start and length of this definition's range in the global method table.
    pub method_start: usize,
    pub method_count: usize,
    /// Start and length of this definition's range in the global property table.
    pub property_start: usize,
    pub property_count: usize,
    /// Indices into the runtime type table of the implemented interfaces.
    pub interfaces: Vec<usize>,
    /// Type-definition indices of the types nested inside this one.
    pub nested_types: Vec<u32>,
    pub is_value_type: bool,
    pub is_enum_type: bool,
    pub is_interface: bool,
    /// Whether the definition declares explicit (author-specified) field layout.
    pub is_explicit_layout: bool,
}

/// One field declaration: its name and the index of its raw type record.
pub struct Il2CppFieldDefinition {
    pub name: String,
    pub type_index: usize,
}

/// One method declaration, with the flags the member walk reads.
pub struct Il2CppMethodDefinition {
    pub name: String,
    /// Index into the runtime type table of the return type.
    pub return_type: usize,
    /// Start and length of this method's range in the global parameter table.
    pub parameter_start: usize,
    pub parameter_count: usize,
    /// Indices into the generic-parameter table of the method's own generic
    /// parameters; absent when the method is not generic.
    pub generic_container: Option<Vec<u32>>,
    pub is_static: bool,
    pub is_virtual: bool,
    pub is_abstract: bool,
    pub is_final: bool,
}

/// One parameter declaration: its name and the index of its raw type record.
pub struct Il2CppParameterDefinition {
    pub name: String,
    pub type_index: usize,
}

/// One property declaration. `get` and `set` are method positions relative to
/// the declaring type's method range, or [`INVALID_INDEX`] when absent.
pub struct Il2CppPropertyDefinition {
    pub name: String,
    pub get: u32,
    pub set: u32,
}

/// One generic parameter: its literal name, its owner, and its position among
/// the owner's parameters.
pub struct Il2CppGenericParameter {
    pub name: String,
    /// Whether the owner is a method (else a type definition).
    pub owner_is_method: bool,
    /// Index of the owning method or type definition.
    pub owner_index: u32,
    /// Position of this parameter among the owner's generic parameters.
    pub num: u16,
}

/// One concrete generic instantiation: the generic definition's runtime type
/// and the index of the argument list it is instantiated with.
#[derive(Clone, Copy, Debug, PartialEq, Eq, Structural)]
pub struct Il2CppGenericClass {
    /// Index into the runtime type table of the un-instantiated definition.
    pub type_index: usize,
    /// Index into the generic-instantiation table of the argument list, or
    /// absent when no class arguments are recorded.
    pub class_inst_index: Option<usize>,
}

/// Size information of one type, externally supplied: the size the runtime
/// reports, the size the structural walk computed, the natural alignment, and
/// an author-specified packing override when one exists.
#[derive(Clone, Copy, Debug, PartialEq, Eq, Structural)]
pub struct SizeInfo {
    pub instance_size: u32,
    pub calculated_instance_size: u32,
    pub natural_alignment: u32,
    pub specified_packing: Option<u8>,
}

/// A recorded default value for a field: which field, the raw type record of
/// the encoded constant, and where its bytes start in the blob, when present.
pub struct FieldDefaultValue {
    pub field_index: usize,
    pub type_index: usize,
    pub data_index: Option<usize>,
}

/// A recorded default value for a parameter, in the same shape.
pub struct ParameterDefaultValue {
    pub parameter_index: usize,
    pub type_index: usize,
    pub data_index: Option<usize>,
}

/// Estimated native size and address of one compiled method.
#[derive(Clone, Copy, Debug, PartialEq, Eq, Structural)]
pub struct MethodCalculation {
    pub estimated_size: usize,
    pub addrs: u64,
}

/// The context a type reference is resolved in: what the reference is used
/// for at its use site.
#[derive(Clone, Copy, Debug, PartialEq, Eq, Structural)]
pub enum TypeUsage {
    TypeName,
    Field,
    Property,
    Parameter,
    ReturnType,
    GenericArg,
}

/// The read-only metadata snapshot the whole pass works over: global tables of
/// type definitions, raw type records, generic machinery, members, default
/// value blobs, externally supplied sizes and offsets, and the deny-list.
pub struct Metadata {
    pub type_definitions: Vec<Il2CppTypeDefinition>,
    pub types: Vec<Il2CppType>,
    /// Externally supplied byte size of each runtime type, parallel to `types`.
    pub type_sizes: Vec<u32>,
    pub generic_classes: Vec<Il2CppGenericClass>,
    /// Each entry is one argument list: indices into the runtime type table.
    pub generic_insts: Vec<Vec<usize>>,
    pub generic_parameters: Vec<Il2CppGenericParameter>,
    pub fields: Vec<Il2CppFieldDefinition>,
    pub methods: Vec<Il2CppMethodDefinition>,
    pub parameters: Vec<Il2CppParameterDefinition>,
    pub properties: Vec<Il2CppPropertyDefinition>,
    /// Per type definition, the byte offset of each of its fields.
    pub field_offsets: Vec<Vec<u32>>,
    /// Per type definition, its externally supplied size information.
    pub type_definition_sizes: Vec<SizeInfo>,
    pub field_default_values: Vec<FieldDefaultValue>,
    pub parameter_default_values: Vec<ParameterDefaultValue>,
    /// The shared blob all default values decode from.
    pub default_value_data: Vec<u8>,
    /// Per method index, native size estimates, when known.
    pub method_calculations: Vec<(u32, MethodCalculation)>,
    /// Type-definition indices excluded from full generation.
    pub blacklisted_types: Vec<u32>,
    /// Minimum object header size of the runtime's reference types.
    pub object_size: u32,
}

/// Bounds consistency of one raw type record against the snapshot's tables.
pub open spec fn type_record_wf(m: Metadata, t: Il2CppType) -> bool {
    match t.data {
        TypeData::TypeDefinitionIndex(tdi) => (tdi as int) < m.type_definitions@.len(),
        TypeData::TypeIndex(ti) => ti < m.types@.len(),
        TypeData::GenericClassIndex(gci) => gci < m.generic_classes@.len(),
        TypeData::GenericParameterIndex(gpi) => (gpi as int) < m.generic_parameters@.len(),
        TypeData::ArrayType => true,
    }
}

/// Bounds consistency of one type definition against the snapshot's tables.
pub open spec fn type_definition_wf(m: Metadata, td: Il2CppTypeDefinition) -> bool {
    &&& td.parent_index == INVALID_INDEX || (td.parent_index as int) < m.types@.len()
    &&& td.declaring_type_index == INVALID_INDEX || (td.declaring_type_index as int)
        < m.types@.len()
    &&& td.byval_type_index < m.types@.len()
    &&& td.field_start + td.field_count <= m.fields@.len()
    &&& td.method_start + td.method_count <= m.methods@.len()
    &&& td.method_start + td.method_count <= 0xffff_ffff
    &&& td.property_start + td.property_count <= m.properties@.len()
    &&& match td.generic_container {
        Some(ref ps) => forall|i: int|
            0 <= i < ps@.len() ==> (#[trigger] ps@[i] as int) < m.generic_parameters@.len(),
        None => true,
    }
    &&& forall|i: int|
        0 <= i < td.interfaces@.len() ==> #[trigger] td.interfaces@[i] < m.types@.len()
    &&& forall|i: int|
        0 <= i < td.nested_types@.len() ==> (#[trigger] td.nested_types@[i] as int)
            < m.type_definitions@.len()
    &&& forall|i: int|
        0 <= i < td.property_count ==> {
            let p = #[trigger] m.properties@[td.property_start + i];
            &&& (p.get == INVALID_INDEX || p.get < td.method_count)
            &&& (p.set == INVALID_INDEX || p.set < td.method_count)
        }
}

/// Bounds consistency of one method definition.
pub open spec fn method_wf(m: Metadata, md: Il2CppMethodDefinition) -> bool {
    &&& md.return_type < m.types@.len()
    &&& md.parameter_start + md.parameter_count <= m.parameters@.len()
    &&& match md.generic_container {
        Some(ref ps) => forall|i: int|
            0 <= i < ps@.len() ==> (#[trigger] ps@[i] as int) < m.generic_parameters@.len(),
        None => true,
    }
}

/// Well-formedness of the whole snapshot: every index every walk follows is in
/// bounds, and the per-definition side tables are parallel to the definition
/// table.
pub open spec fn metadata_wf(m: Metadata) -> bool {
    &&& m.type_definition_sizes@.len() == m.type_definitions@.len()
    &&& m.field_offsets@.len() == m.type_definitions@.len()
    &&& m.type_sizes@.len() == m.types@.len()
    &&& forall|i: int|
        0 <= i < m.type_definitions@.len() ==> {
            &&& type_definition_wf(m, #[trigger] m.type_definitions@[i])
            &&& m.field_offsets@[i]@.len() == m.type_definitions@[i].field_count
        }
    &&& forall|i: int|
        0 <= i < m.types@.len() ==> type_record_wf(m, #[trigger] m.types@[i])
    &&& forall|i: int|
        0 <= i < m.generic_classes@.len() ==> {
            let gc = #[trigger] m.generic_classes@[i];
            &&& gc.type_index < m.types@.len()
            &&& match gc.class_inst_index {
                Some(ci) => ci < m.generic_insts@.len(),
                None => true,
            }
        }
    &&& forall|i: int, j: int|
        0 <= i < m.generic_insts@.len() && 0 <= j < m.generic_insts@[i]@.len() ==> (
        #[trigger] m.generic_insts@[i]@[j]) < m.types@.len()
    &&& forall|i: int|
        0 <= i < m.methods@.len() ==> method_wf(m, #[trigger] m.methods@[i])
    &&& forall|i: int|
        0 <= i < m.fields@.len() ==> (#[trigger] m.fields@[i].type_index) < m.types@.len()
    &&& forall|i: int|
        0 <= i < m.parameters@.len() ==> (#[trigger] m.parameters@[i].type_index)
            < m.types@.len()
    &&& forall|i: int|
        0 <= i < m.field_default_values@.len() ==> {
            let dv = #[trigger] m.field_default_values@[i];
            &&& dv.type_index < m.types@.len()
            &&& match dv.data_index {
                Some(di) => di <= m.default_value_data@.len(),
                None => true,
            }
        }
    &&& forall|i: int|
        0 <= i < m.parameter_default_values@.len() ==> {
            let dv = #[trigger] m.parameter_default_values@[i];
            &&& dv.type_index < m.types@.len()
            &&& match dv.data_index {
                Some(di) => di <= m.default_value_data@.len(),
                None => true,
            }
        }
}

/// First-match lookup in an association list of method-index keys.
pub open spec fn assoc_lookup(entries: Seq<(u32, MethodCalculation)>, key: u32) -> Option<
    MethodCalculation,
>
    decreases entries.len(),
{
    if entries.len() == 0 {
        None
    } else if entries[0].0 == key {
        Some(entries[0].1)
    } else {
        assoc_lookup(entries.drop_first(), key)
    }
}

impl Metadata {
    /// Well-formedness of the snapshot, as a predicate of the value itself.
    pub open spec fn wf(&self) -> bool {
        metadata_wf(*self)
    }

    /// Whether a type-definition index is in the deny-list, as a predicate.
    pub open spec fn spec_is_blacklisted(&self, tdi: u32) -> bool {
        self.blacklisted_types@.contains(tdi)
    }

    /// Whether a type-definition index is in the deny-list.
    pub fn is_blacklisted(&self, tdi: u32) -> (r: bool)
        ensures
            r == self.spec_is_blacklisted(tdi),
    {
        let mut i: usize = 0;
        while i < self.blacklisted_types.len()
            invariant
                i <= self.blacklisted_types.len(),
                forall|j: int| 0 <= j < i ==> self.blacklisted_types@[j] != tdi,
            decreases self.blacklisted_types.len() - i,
        {
            if self.blacklisted_types[i] == tdi {
                assert(self.blacklisted_types@.contains(tdi));
                return true;
            }
            i += 1;
        }
        assert(!self.blacklisted_types@.contains(tdi));
        false
    }

    /// The native size estimates recorded for a method, when present: the
    /// first entry with the method's index.
    pub open spec fn spec_method_calculation(&self, method_index: u32) -> Option<
        MethodCalculation,
    > {
        assoc_lookup(self.method_calculations@, method_index)
    }

    /// Look up the native size estimates recorded for a method.
    pub fn method_calculation(&self, method_index: u32) -> (r: Option<MethodCalculation>)
        ensures
            r == self.spec_method_calculation(method_index),
    {
        let entries = &self.method_calculations;
        let ghost all = entries@;
        proof {
            assert(all.skip(0) =~= all);
        }
        let mut i: usize = 0;
        while i < entries.len()
            invariant
                i <= entries.len(),
                all == entries@,
                all == self.method_calculations@,
                assoc_lookup(all, method_index) == assoc_lookup(
                    all.skip(i as int),
                    method_index,
                ),
            decreases entries.len() - i,
        {
            if entries[i].0 == method_index {
                proof {
                    assert(all.skip(i as int).len() > 0);
                    assert(all.skip(i as int)[0] == all[i as int]);
                    assert(assoc_lookup(all.skip(i as int), method_index) == Some(
                        all[i as int].1,
                    ));
                    assert(assoc_lookup(self.method_calculations@, method_index) == Some(
                        all[i as int].1,
                    ));
                }
                return Some(entries[i].1);
            }
            proof {
                assert(all.skip(i as int)[0] == all[i as int]);
                assert(all.skip(i as int).drop_first() =~= all.skip(i + 1));
            }
            i += 1;
        }
        assert(all.skip(entries@.len() as int).len() == 0);
        None
    }
}

} // verus!
