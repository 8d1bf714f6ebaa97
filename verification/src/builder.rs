use vstd::prelude::*;
use crate::members::CsGenericTemplate;
use crate::members::CsMember;
use vstd::string::StringExecFns;
use crate::members::CsValue;
use crate::metadata::Il2CppType;
use crate::metadata::Il2CppTypeEnum;
use crate::metadata::Metadata;
use crate::metadata::SizeInfo;
use crate::name_components::NameComponents;
use crate::tags::CsTypeTag;
use crate::tags::TypeData;

verus! {

/// Per-type accumulator of the managed-side model: the identities this type
/// depends on, duplicate-free.
pub struct CsTypeRequirements {
    pub depending_types: Vec<CsTypeTag>,
}

impl CsTypeRequirements {
    /// No tag recorded twice.
    pub open spec fn wf(&self) -> bool {
        crate::requirements::tags_unique(self.depending_types@)
    }

    /// The recorded dependency identities, as a set.
    pub open spec fn deps(&self) -> Set<CsTypeTag> {
        self.depending_types@.to_set()
    }

    /// An empty accumulator.
    pub fn new() -> (r: CsTypeRequirements)
        ensures
            r.wf(),
            r.depending_types@.len() == 0,
    {
        CsTypeRequirements { depending_types: Vec::new() }
    }

    /// Record a dependency on a type identity. Recording a tag already
    /// present changes nothing.
    pub fn add_dependency_tag(&mut self, tag: CsTypeTag)
        requires
            old(self).wf(),
        ensures
            final(self).wf(),
            final(self).depending_types@ == if old(self).depending_types@.contains(tag) {
                old(self).depending_types@
            } else {
                old(self).depending_types@.push(tag)
            },
    {
        let mut i: usize = 0;
        #[verifier::loop_isolation(false)]
        while i < self.depending_types.len()
            invariant
                i <= self.depending_types.len(),
                *self == *old(self),
                forall|j: int| 0 <= j < i ==> self.depending_types@[j] != tag,
            decreases self.depending_types.len() - i,
        {
            if self.depending_types[i] == tag {
                assert(self.depending_types@.contains(tag));
                return ;
            }
            i += 1;
        }
        assert(!self.depending_types@.contains(tag));
        self.depending_types.push(tag);
    }

    /// Record a dependency on another type under construction.
    pub fn add_dependency(&mut self, ty: &CsType)
        requires
            old(self).wf(),
        ensures
            final(self).wf(),
            final(self).depending_types@ == if old(self).depending_types@.contains(ty.self_tag) {
                old(self).depending_types@
            } else {
                old(self).depending_types@.push(ty.self_tag)
            },
    {
        self.add_dependency_tag(ty.self_tag);
    }
}

/// One managed type's structural model under construction: identity, kind
/// flags, names, generic machinery, links, accumulated members and
/// requirements, and externally supplied size information.
pub struct CsType {
    pub self_tag: CsTypeTag,
    pub nested: bool,
    pub prefix_comments: Vec<String>,
    pub size_info: Option<SizeInfo>,
    pub packing: Option<u8>,
    pub cs_name_components: NameComponents,
    pub members: Vec<CsMember>,
    /// Out-of-line accessor bodies collected beside the members.
    pub implementations: Vec<CsMember>,
    pub is_value_type: bool,
    pub is_enum_type: bool,
    pub is_reference_type: bool,
    pub requirements: CsTypeRequirements,
    pub parent: Option<CsTypeTag>,
    pub interfaces: Vec<CsTypeTag>,
    pub generic_template: Option<CsGenericTemplate>,
    /// Concrete generic argument type indices of this instantiation, if any.
    pub generic_instantiations_args_types: Option<Vec<usize>>,
    /// Per method index, the concrete generic arguments of one requested
    /// method instantiation.
    pub method_generic_instantiation_map: Vec<(u32, Vec<usize>)>,
    pub is_interface: bool,
    pub nested_types: Vec<CsTypeTag>,
}

impl CsType {
    /// Whether this type declares a non-empty generic template of its own.
    pub open spec fn spec_has_template_names(&self) -> bool {
        match self.generic_template {
            Some(ref t) => t.names@.len() > 0,
            None => false,
        }
    }

    /// The namespace of the managed name, or the empty string.
    pub fn namespace(&self) -> (r: String)
        ensures
            r@ == match self.cs_name_components@.namespace {
                Some(ns) => ns,
                None => Seq::<char>::empty(),
            },
    {
        match self.cs_name_components.namespace {
            Some(ref ns) => ns.clone(),
            None => String::new(),
        }
    }

    /// The managed base name.
    pub fn name(&self) -> (r: &String)
        ensures
            r@ == self.cs_name_components@.name,
    {
        &self.cs_name_components.name
    }

    /// The identities of the types nested inside this one.
    pub fn get_nested_types(&self) -> (r: &Vec<CsTypeTag>)
        ensures
            r@ == self.nested_types@,
    {
        &self.nested_types
    }
}


/// Why building one type's model aborted.
#[derive(Debug)]
pub enum BuildError {
    /// A raw record carried a payload its tag cannot carry.
    UnexpectedTypeData,
    /// A default-value blob ended before its encoded payload.
    TruncatedBlob,
    /// A default-value blob carried a tag the decoder does not recognize:
    /// fatal for the occurrence rather than silently guessed.
    UnsupportedBlobType,
}

/// What a sequence of characters the bytes decode to, when read as UTF-8
/// with invalid sequences replaced.
pub uninterp spec fn utf8_lossy_of(bytes: Seq<u8>) -> Seq<char>;

/// Relies on String::from_utf8_lossy: the result is a function of the bytes
/// alone; empty input gives an empty string, and ASCII bytes decode to
/// themselves one-to-one.
#[verifier::external_body]
fn utf8_lossy(bytes: &Vec<u8>) -> (r: String)
    ensures
        r@ == utf8_lossy_of(bytes@),
        bytes@.len() == 0 ==> r@.len() == 0,
        (forall|i: int| 0 <= i < bytes@.len() ==> bytes@[i] < 0x80) ==> r@ == Seq::new(
            bytes@.len(),
            |i: int| bytes@[i] as char,
        ),
{
    String::from_utf8_lossy(bytes.as_slice()).into_owned()
}

/// The little-endian 16-bit value at `i`.
pub open spec fn read_u16_le(d: Seq<u8>, i: int) -> u16 {
    let n = d.len();
    (d[i] as u16) | ((d[i + 1] as u16) << 8)
}

/// The little-endian 32-bit value at `i`.
pub open spec fn read_u32_le(d: Seq<u8>, i: int) -> u32 {
    let n = d.len();
    (d[i] as u32) | ((d[i + 1] as u32) << 8) | ((d[i + 2] as u32) << 16) | ((d[i + 3] as u32)
        << 24)
}

/// The little-endian 64-bit value at `i`.
pub open spec fn read_u64_le(d: Seq<u8>, i: int) -> u64 {
    (read_u32_le(d, i) as u64) | ((read_u32_le(d, i + 4) as u64) << 32)
}

/// Read the little-endian 16-bit value at `i`.
fn get_u16_le(d: &Vec<u8>, i: usize) -> (r: u16)
    requires
        i + 2 <= d@.len(),
    ensures
        r == read_u16_le(d@, i as int),
{
    let n = d.len();
    (d[i] as u16) | ((d[i + 1] as u16) << 8)
}

/// Read the little-endian 32-bit value at `i`.
fn get_u32_le(d: &Vec<u8>, i: usize) -> (r: u32)
    requires
        i + 4 <= d@.len(),
    ensures
        r == read_u32_le(d@, i as int),
{
    let n = d.len();
    (d[i] as u32) | ((d[i + 1] as u32) << 8) | ((d[i + 2] as u32) << 16) | ((d[i + 3] as u32)
        << 24)
}

/// Read the little-endian 64-bit value at `i`.
fn get_u64_le(d: &Vec<u8>, i: usize) -> (r: u64)
    requires
        i + 8 <= d@.len(),
    ensures
        r == read_u64_le(d@, i as int),
{
    let n = d.len();
    (get_u32_le(d, i) as u64) | ((get_u32_le(d, i + 4) as u64) << 32)
}

/// What decoding one typed constant blob at `idx` must produce: a tagged
/// decode with a fixed-width payload per primitive kind; strings are length
/// prefixed, a length of minus one denoting the empty string; reference and
/// container kinds decode to null; any other tag is unsupported.
pub open spec fn blob_decodes_to(
    m: Metadata,
    ty: Il2CppType,
    idx: int,
    r: Result<CsValue, BuildError>,
) -> bool {
    let d = m.default_value_data@;
    if ty.ty == Il2CppTypeEnum::Boolean {
        if idx + 1 <= d.len() {
            r matches Ok(v) && (v matches CsValue::Bool(b) && b == (d[idx] != 0))
        } else {
            r matches Err(BuildError::TruncatedBlob)
        }
    } else if ty.ty == Il2CppTypeEnum::I1 {
        if idx + 1 <= d.len() {
            r == Ok::<CsValue, BuildError>(CsValue::I8(d[idx] as i8))
        } else {
            r matches Err(BuildError::TruncatedBlob)
        }
    } else if ty.ty == Il2CppTypeEnum::U1 {
        if idx + 1 <= d.len() {
            r == Ok::<CsValue, BuildError>(CsValue::U8(d[idx]))
        } else {
            r matches Err(BuildError::TruncatedBlob)
        }
    } else if ty.ty == Il2CppTypeEnum::I2 {
        if idx + 2 <= d.len() {
            r == Ok::<CsValue, BuildError>(CsValue::I16(read_u16_le(d, idx) as i16))
        } else {
            r matches Err(BuildError::TruncatedBlob)
        }
    } else if ty.ty == Il2CppTypeEnum::U2 {
        if idx + 2 <= d.len() {
            r == Ok::<CsValue, BuildError>(CsValue::U16(read_u16_le(d, idx)))
        } else {
            r matches Err(BuildError::TruncatedBlob)
        }
    } else if ty.ty == Il2CppTypeEnum::Char {
        if idx + 2 <= d.len() {
            r == Ok::<CsValue, BuildError>(CsValue::U16(read_u16_le(d, idx)))
        } else {
            r matches Err(BuildError::TruncatedBlob)
        }
    } else if ty.ty == Il2CppTypeEnum::I4 {
        if idx + 4 <= d.len() {
            r == Ok::<CsValue, BuildError>(CsValue::I32(read_u32_le(d, idx) as i32))
        } else {
            r matches Err(BuildError::TruncatedBlob)
        }
    } else if ty.ty == Il2CppTypeEnum::U4 {
        if idx + 4 <= d.len() {
            r == Ok::<CsValue, BuildError>(CsValue::U32(read_u32_le(d, idx)))
        } else {
            r matches Err(BuildError::TruncatedBlob)
        }
    } else if ty.ty == Il2CppTypeEnum::R4 {
        if idx + 4 <= d.len() {
            r == Ok::<CsValue, BuildError>(CsValue::F32Bits(read_u32_le(d, idx)))
        } else {
            r matches Err(BuildError::TruncatedBlob)
        }
    } else if ty.ty == Il2CppTypeEnum::I8 || ty.ty == Il2CppTypeEnum::I {
        if idx + 8 <= d.len() {
            r == Ok::<CsValue, BuildError>(CsValue::I64(read_u64_le(d, idx) as i64))
        } else {
            r matches Err(BuildError::TruncatedBlob)
        }
    } else if ty.ty == Il2CppTypeEnum::U8 || ty.ty == Il2CppTypeEnum::U {
        if idx + 8 <= d.len() {
            r == Ok::<CsValue, BuildError>(CsValue::U64(read_u64_le(d, idx)))
        } else {
            r matches Err(BuildError::TruncatedBlob)
        }
    } else if ty.ty == Il2CppTypeEnum::R8 {
        if idx + 8 <= d.len() {
            r == Ok::<CsValue, BuildError>(CsValue::F64Bits(read_u64_le(d, idx)))
        } else {
            r matches Err(BuildError::TruncatedBlob)
        }
    } else if ty.ty == Il2CppTypeEnum::String {
        if idx + 4 <= d.len() {
            let len = read_u32_le(d, idx) as i32;
            if len == -1i32 {
                r matches Ok(v) && (v matches CsValue::String(s) && s@.len() == 0)
            } else if len < 0 {
                r matches Err(BuildError::TruncatedBlob)
            } else if idx + 4 + len <= d.len() {
                r matches Ok(v) && (v matches CsValue::String(s) && s@ == utf8_lossy_of(
                    d.subrange(idx + 4, idx + 4 + len),
                ))
            } else {
                r matches Err(BuildError::TruncatedBlob)
            }
        } else {
            r matches Err(BuildError::TruncatedBlob)
        }
    } else if ty.ty == Il2CppTypeEnum::Genericinst || ty.ty == Il2CppTypeEnum::Byref || ty.ty
        == Il2CppTypeEnum::Ptr || ty.ty == Il2CppTypeEnum::Array || ty.ty
        == Il2CppTypeEnum::Object || ty.ty == Il2CppTypeEnum::Class || ty.ty
        == Il2CppTypeEnum::Valuetype || ty.ty == Il2CppTypeEnum::Szarray {
        r matches Ok(v) && (v is Null)
    } else {
        r matches Err(BuildError::UnsupportedBlobType)
    }
}


/// Whether decoding the typed constant blob at `idx` succeeds: the payload
/// the tag asks for lies within the blob and the tag is a recognized one.
pub open spec fn blob_ok(m: Metadata, ty: Il2CppType, idx: int) -> bool {
    let d = m.default_value_data@;
    if ty.ty == Il2CppTypeEnum::Boolean || ty.ty == Il2CppTypeEnum::I1 || ty.ty
        == Il2CppTypeEnum::U1 {
        idx + 1 <= d.len()
    } else if ty.ty == Il2CppTypeEnum::I2 || ty.ty == Il2CppTypeEnum::U2 || ty.ty
        == Il2CppTypeEnum::Char {
        idx + 2 <= d.len()
    } else if ty.ty == Il2CppTypeEnum::I4 || ty.ty == Il2CppTypeEnum::U4 || ty.ty
        == Il2CppTypeEnum::R4 {
        idx + 4 <= d.len()
    } else if ty.ty == Il2CppTypeEnum::I8 || ty.ty == Il2CppTypeEnum::I || ty.ty
        == Il2CppTypeEnum::U8 || ty.ty == Il2CppTypeEnum::U || ty.ty == Il2CppTypeEnum::R8 {
        idx + 8 <= d.len()
    } else if ty.ty == Il2CppTypeEnum::String {
        idx + 4 <= d.len() && {
            let len = read_u32_le(d, idx) as i32;
            len == -1i32 || (len >= 0 && idx + 4 + len <= d.len())
        }
    } else if ty.ty == Il2CppTypeEnum::Genericinst || ty.ty == Il2CppTypeEnum::Byref || ty.ty
        == Il2CppTypeEnum::Ptr || ty.ty == Il2CppTypeEnum::Array || ty.ty
        == Il2CppTypeEnum::Object || ty.ty == Il2CppTypeEnum::Class || ty.ty
        == Il2CppTypeEnum::Valuetype || ty.ty == Il2CppTypeEnum::Szarray {
        true
    } else {
        false
    }
}

/// Whether the recorded default of one field, if any, decodes.
pub open spec fn field_default_ok(m: Metadata, fi: int) -> bool {
    match fdv_lookup(m.field_default_values@, fi) {
        Some(dv) => match dv.data_index {
            None => true,
            Some(di) => blob_ok(m, m.types@[dv.type_index as int], di as int),
        },
        None => true,
    }
}

/// Whether the recorded default of one parameter, if any, decodes (after
/// nullable unboxing).
pub open spec fn param_default_ok(m: Metadata, pi: int) -> bool {
    match pdv_lookup(m.parameter_default_values@, pi) {
        Some(dv) => match dv.data_index {
            None => true,
            Some(di) => blob_ok(
                m,
                spec_unbox_nullable(m, m.types@[dv.type_index as int]),
                di as int,
            ),
        },
        None => true,
    }
}

/// Whether every recorded default of a definition's field range decodes.
pub open spec fn field_defaults_ok(m: Metadata, td: crate::metadata::Il2CppTypeDefinition) -> bool {
    forall|i: int|
        0 <= i < td.field_count ==> #[trigger] field_default_ok(m, td.field_start + i)
}

/// Whether every recorded default of a method's parameter range decodes.
pub open spec fn params_decode_ok(m: Metadata, md: crate::metadata::Il2CppMethodDefinition) -> bool {
    forall|k: int|
        0 <= k < md.parameter_count ==> #[trigger] param_default_ok(m, md.parameter_start + k)
}

/// Decode one typed constant blob: a tagged-union decode, tag the primitive
/// kind, payload a fixed-width little-endian read, strings length-prefixed
/// with minus one denoting empty. Reference-shaped kinds decode to null; an
/// unrecognized tag is fatal for the occurrence.
pub fn default_value_blob(metadata: &Metadata, ty: &Il2CppType, data_index: usize) -> (r: Result<
    CsValue,
    BuildError,
>)
    ensures
        blob_decodes_to(*metadata, *ty, data_index as int, r),
        r is Ok <==> blob_ok(*metadata, *ty, data_index as int),
{
    let d = &metadata.default_value_data;
    match ty.ty {
        Il2CppTypeEnum::Boolean => {
            if data_index < d.len() {
                Ok(CsValue::Bool(d[data_index] != 0))
            } else {
                Err(BuildError::TruncatedBlob)
            }
        },
        Il2CppTypeEnum::I1 => {
            if data_index < d.len() {
                Ok(CsValue::I8(d[data_index] as i8))
            } else {
                Err(BuildError::TruncatedBlob)
            }
        },
        Il2CppTypeEnum::U1 => {
            if data_index < d.len() {
                Ok(CsValue::U8(d[data_index]))
            } else {
                Err(BuildError::TruncatedBlob)
            }
        },
        Il2CppTypeEnum::I2 => {
            if (data_index as u128) + 2 <= d.len() as u128 {
                Ok(CsValue::I16(get_u16_le(d, data_index) as i16))
            } else {
                Err(BuildError::TruncatedBlob)
            }
        },
        Il2CppTypeEnum::U2 => {
            if (data_index as u128) + 2 <= d.len() as u128 {
                Ok(CsValue::U16(get_u16_le(d, data_index)))
            } else {
                Err(BuildError::TruncatedBlob)
            }
        },
        Il2CppTypeEnum::Char => {
            if (data_index as u128) + 2 <= d.len() as u128 {
                Ok(CsValue::U16(get_u16_le(d, data_index)))
            } else {
                Err(BuildError::TruncatedBlob)
            }
        },
        Il2CppTypeEnum::I4 => {
            if (data_index as u128) + 4 <= d.len() as u128 {
                Ok(CsValue::I32(get_u32_le(d, data_index) as i32))
            } else {
                Err(BuildError::TruncatedBlob)
            }
        },
        Il2CppTypeEnum::U4 => {
            if (data_index as u128) + 4 <= d.len() as u128 {
                Ok(CsValue::U32(get_u32_le(d, data_index)))
            } else {
                Err(BuildError::TruncatedBlob)
            }
        },
        Il2CppTypeEnum::R4 => {
            if (data_index as u128) + 4 <= d.len() as u128 {
                Ok(CsValue::F32Bits(get_u32_le(d, data_index)))
            } else {
                Err(BuildError::TruncatedBlob)
            }
        },
        Il2CppTypeEnum::I8 | Il2CppTypeEnum::I => {
            if (data_index as u128) + 8 <= d.len() as u128 {
                Ok(CsValue::I64(get_u64_le(d, data_index) as i64))
            } else {
                Err(BuildError::TruncatedBlob)
            }
        },
        Il2CppTypeEnum::U8 | Il2CppTypeEnum::U => {
            if (data_index as u128) + 8 <= d.len() as u128 {
                Ok(CsValue::U64(get_u64_le(d, data_index)))
            } else {
                Err(BuildError::TruncatedBlob)
            }
        },
        Il2CppTypeEnum::R8 => {
            if (data_index as u128) + 8 <= d.len() as u128 {
                Ok(CsValue::F64Bits(get_u64_le(d, data_index)))
            } else {
                Err(BuildError::TruncatedBlob)
            }
        },
        Il2CppTypeEnum::String => {
            if (data_index as u128) + 4 <= d.len() as u128 {
                let len = get_u32_le(d, data_index) as i32;
                if len == -1i32 {
                    Ok(CsValue::String(String::new()))
                } else if len < 0 {
                    Err(BuildError::TruncatedBlob)
                } else {
                    let ulen = len as usize;
                    let n = d.len();
                    if (data_index as u128) + 4 + (ulen as u128) <= n as u128 {
                        let mut buf: Vec<u8> = Vec::new();
                        let mut t: usize = 0;
                        while t < ulen
                            invariant
                                t <= ulen,
                                n == d@.len(),
                                data_index + 4 + ulen <= d@.len(),
                                d@ == metadata.default_value_data@,
                                buf@ == d@.subrange(
                                    data_index + 4,
                                    data_index + 4 + t as int,
                                ),
                            decreases ulen - t,
                        {
                            buf.push(d[data_index + 4 + t]);
                            proof {
                                assert(buf@ =~= d@.subrange(
                                    data_index + 4,
                                    data_index + 4 + (t + 1),
                                ));
                            }
                            t += 1;
                        }
                        let s = utf8_lossy(&buf);
                        Ok(CsValue::String(s))
                    } else {
                        Err(BuildError::TruncatedBlob)
                    }
                }
            } else {
                Err(BuildError::TruncatedBlob)
            }
        },
        Il2CppTypeEnum::Genericinst | Il2CppTypeEnum::Byref | Il2CppTypeEnum::Ptr
            | Il2CppTypeEnum::Array | Il2CppTypeEnum::Object | Il2CppTypeEnum::Class
            | Il2CppTypeEnum::Valuetype | Il2CppTypeEnum::Szarray => Ok(CsValue::Null),
        _ => Err(BuildError::UnsupportedBlobType),
    }
}

/// The by-value element type a `System.Nullable` wrapper boxes, or the
/// record itself for every other reference.
pub open spec fn spec_unbox_nullable(m: Metadata, ty: Il2CppType) -> Il2CppType {
    if ty.ty == Il2CppTypeEnum::Valuetype {
        match ty.data {
            TypeData::TypeDefinitionIndex(tdi) => {
                let td = m.type_definitions@[tdi as int];
                if td.name@ == "Nullable`1"@ && td.namespace@ == "System"@ {
                    m.types@[td.byval_type_index as int]
                } else {
                    ty
                }
            },
            _ => ty,
        }
    } else {
        ty
    }
}

/// Unwrap a `System.Nullable` value-type reference to its element type.
pub fn unbox_nullable_valuetype(metadata: &Metadata, ty: &Il2CppType) -> (r: Il2CppType)
    requires
        metadata.wf(),
        crate::metadata::type_record_wf(*metadata, *ty),
    ensures
        r == spec_unbox_nullable(*metadata, *ty),
{
    if matches!(ty.ty, Il2CppTypeEnum::Valuetype) {
        match ty.data {
            TypeData::TypeDefinitionIndex(tdi) => {
                let td = &metadata.type_definitions[tdi as usize];
                if td.name.eq(&String::from_str("Nullable`1")) && td.namespace.eq(
                    &String::from_str("System"),
                ) {
                    return metadata.types[td.byval_type_index];
                }
                *ty
            },
            _ => *ty,
        }
    } else {
        *ty
    }
}

/// First recorded default value for a field, if any.
pub open spec fn fdv_lookup(entries: Seq<crate::metadata::FieldDefaultValue>, key: int) -> Option<
    crate::metadata::FieldDefaultValue,
>
    decreases entries.len(),
{
    if entries.len() == 0 {
        None
    } else if entries[0].field_index == key {
        Some(entries[0])
    } else {
        fdv_lookup(entries.drop_first(), key)
    }
}

/// First recorded default value for a parameter, if any.
pub open spec fn pdv_lookup(
    entries: Seq<crate::metadata::ParameterDefaultValue>,
    key: int,
) -> Option<crate::metadata::ParameterDefaultValue>
    decreases entries.len(),
{
    if entries.len() == 0 {
        None
    } else if entries[0].parameter_index == key {
        Some(entries[0])
    } else {
        pdv_lookup(entries.drop_first(), key)
    }
}

/// The decoded default value of a field: the first recorded entry, decoded;
/// an entry without payload denotes null.
pub fn field_default_value(metadata: &Metadata, field_index: usize) -> (r: Result<
    Option<CsValue>,
    BuildError,
>)
    requires
        metadata.wf(),
    ensures
        r is Ok <==> field_default_ok(*metadata, field_index as int),
        fdv_lookup(metadata.field_default_values@, field_index as int) is None ==> r == Ok::<
            Option<CsValue>,
            BuildError,
        >(None),
        match fdv_lookup(metadata.field_default_values@, field_index as int) {
            Some(dv) => match dv.data_index {
                None => r matches Ok(v) && (v matches Some(cv) && cv is Null),
                Some(di) => match r {
                    Ok(v) => v matches Some(cv) && blob_decodes_to(
                        *metadata,
                        metadata.types@[dv.type_index as int],
                        di as int,
                        Ok(cv),
                    ),
                    Err(e) => blob_decodes_to(
                        *metadata,
                        metadata.types@[dv.type_index as int],
                        di as int,
                        Err(e),
                    ),
                },
            },
            None => true,
        },
{
    let entries = &metadata.field_default_values;
    let ghost all = entries@;
    proof {
        assert(all.skip(0) =~= all);
    }
    let mut i: usize = 0;
    #[verifier::loop_isolation(false)]
    while i < entries.len()
        invariant
            i <= entries@.len(),
            fdv_lookup(all, field_index as int) == fdv_lookup(
                all.skip(i as int),
                field_index as int,
            ),
        decreases entries.len() - i,
    {
        proof {
            assert(all.skip(i as int)[0] == all[i as int]);
            assert(all.skip(i as int).drop_first() =~= all.skip(i + 1));
        }
        if entries[i].field_index == field_index {
            let dv = &entries[i];
            match dv.data_index {
                None => {
                    return Ok(Some(CsValue::Null));
                },
                Some(di) => {
                    let ty = &metadata.types[dv.type_index];
                    let decoded = default_value_blob(metadata, ty, di);
                    match decoded {
                        Ok(v) => {
                            return Ok(Some(v));
                        },
                        Err(e) => {
                            return Err(e);
                        },
                    }
                },
            }
        }
        i += 1;
    }
    proof {
        assert(all.skip(all.len() as int).len() == 0);
    }
    Ok(None)
}

/// The decoded default value of a parameter: as for fields, with
/// `System.Nullable` wrappers unboxed to their element type first.
pub fn param_default_value(metadata: &Metadata, parameter_index: usize) -> (r: Result<
    Option<CsValue>,
    BuildError,
>)
    requires
        metadata.wf(),
    ensures
        r is Ok <==> param_default_ok(*metadata, parameter_index as int),
        pdv_lookup(metadata.parameter_default_values@, parameter_index as int) is None ==> r
            == Ok::<Option<CsValue>, BuildError>(None),
        match pdv_lookup(metadata.parameter_default_values@, parameter_index as int) {
            Some(dv) => match dv.data_index {
                None => r matches Ok(v) && (v matches Some(cv) && cv is Null),
                Some(di) => match r {
                    Ok(v) => v matches Some(cv) && blob_decodes_to(
                        *metadata,
                        spec_unbox_nullable(*metadata, metadata.types@[dv.type_index as int]),
                        di as int,
                        Ok(cv),
                    ),
                    Err(e) => blob_decodes_to(
                        *metadata,
                        spec_unbox_nullable(*metadata, metadata.types@[dv.type_index as int]),
                        di as int,
                        Err(e),
                    ),
                },
            },
            None => true,
        },
{
    let entries = &metadata.parameter_default_values;
    let ghost all = entries@;
    proof {
        assert(all.skip(0) =~= all);
    }
    let mut i: usize = 0;
    #[verifier::loop_isolation(false)]
    while i < entries.len()
        invariant
            i <= entries@.len(),
            pdv_lookup(all, parameter_index as int) == pdv_lookup(
                all.skip(i as int),
                parameter_index as int,
            ),
        decreases entries.len() - i,
    {
        proof {
            assert(all.skip(i as int)[0] == all[i as int]);
            assert(all.skip(i as int).drop_first() =~= all.skip(i + 1));
        }
        if entries[i].parameter_index == parameter_index {
            let dv = &entries[i];
            match dv.data_index {
                None => {
                    return Ok(Some(CsValue::Null));
                },
                Some(di) => {
                    let ty0 = &metadata.types[dv.type_index];
                    let ty = unbox_nullable_valuetype(metadata, ty0);
                    let decoded = default_value_blob(metadata, &ty, di);
                    match decoded {
                        Ok(v) => {
                            return Ok(Some(v));
                        },
                        Err(e) => {
                            return Err(e);
                        },
                    }
                },
            }
        }
        i += 1;
    }
    proof {
        assert(all.skip(all.len() as int).len() == 0);
    }
    Ok(None)
}


/// What the parent walk decides: value and enum types take no parent link; a
/// reference type's parent must be a class-shaped record, whose identity is
/// linked.
pub open spec fn spec_make_parent(
    m: Metadata,
    td: crate::metadata::Il2CppTypeDefinition,
) -> Result<Option<CsTypeTag>, BuildError> {
    if td.parent_index == crate::metadata::INVALID_INDEX {
        Ok(None)
    } else {
        let parent_type = m.types@[td.parent_index as int];
        if !td.is_value_type && !td.is_enum_type {
            if parent_type.ty == Il2CppTypeEnum::Class || parent_type.ty
                == Il2CppTypeEnum::Genericinst || parent_type.ty == Il2CppTypeEnum::Object {
                match crate::resolver::tag_from_type_data(parent_type.data) {
                    Some(t) => Ok(Some(t)),
                    None => Err(BuildError::UnexpectedTypeData),
                }
            } else {
                Err(BuildError::UnexpectedTypeData)
            }
        } else {
            Ok(None)
        }
    }
}

impl CsType {
    /// Resolve the parent link: skipped for value and enum types; interfaces
    /// and the root object type carry none; any other type links the
    /// class-shaped parent record's identity.
    pub fn make_parents(&mut self, metadata: &Metadata, tdi: u32) -> (r: Result<(), BuildError>)
        requires
            metadata.wf(),
            (tdi as int) < metadata.type_definitions@.len(),
        ensures
            *final(self) == (CsType { parent: final(self).parent, ..*old(self) }),
            match spec_make_parent(*metadata, metadata.type_definitions@[tdi as int]) {
                Ok(p) => r is Ok && final(self).parent == if p is Some {
                    p
                } else {
                    old(self).parent
                },
                Err(e) => r == Err::<(), BuildError>(e),
            },
    {
        let t = &metadata.type_definitions[tdi as usize];
        if t.parent_index == crate::metadata::INVALID_INDEX {
            return Ok(());
        }
        let parent_type = metadata.types[t.parent_index as usize];
        if !t.is_value_type && !t.is_enum_type {
            let is_ref_type = matches!(
                parent_type.ty,
                Il2CppTypeEnum::Class | Il2CppTypeEnum::Genericinst | Il2CppTypeEnum::Object
            );
            if !is_ref_type {
                return Err(BuildError::UnexpectedTypeData);
            }
            match crate::resolver::type_data_tag(parent_type.data) {
                Some(tag) => {
                    self.parent = Some(tag);
                    Ok(())
                },
                None => Err(BuildError::UnexpectedTypeData),
            }
        } else {
            Ok(())
        }
    }

    /// Link every implemented interface's identity, in table order.
    pub fn make_interfaces(&mut self, metadata: &Metadata, tdi: u32) -> (r: Result<
        (),
        BuildError,
    >)
        requires
            metadata.wf(),
            (tdi as int) < metadata.type_definitions@.len(),
        ensures
            *final(self) == (CsType { interfaces: final(self).interfaces, ..*old(self) }),
            r is Ok <==> forall|k: int|
                0 <= k < metadata.type_definitions@[tdi as int].interfaces@.len()
                    ==> crate::resolver::tag_from_type_data(
                    metadata.types@[#[trigger] metadata.type_definitions@[tdi as int].interfaces@[k] as int].data,
                ) is Some,
            r is Ok ==> final(self).interfaces@.len() == old(self).interfaces@.len()
                + metadata.type_definitions@[tdi as int].interfaces@.len(),
            r is Ok ==> forall|k: int|
                0 <= k < metadata.type_definitions@[tdi as int].interfaces@.len()
                    ==> #[trigger] final(self).interfaces@[old(self).interfaces@.len() + k]
                    == crate::resolver::tag_from_type_data(
                    metadata.types@[metadata.type_definitions@[tdi as int].interfaces@[k] as int].data,
                )->0,
    {
        let t = &metadata.type_definitions[tdi as usize];
        let ghost ifc0 = self.interfaces@;
        let mut i: usize = 0;
        #[verifier::loop_isolation(false)]
        while i < t.interfaces.len()
            invariant
                i <= t.interfaces@.len(),
                self.interfaces@.len() == ifc0.len() + i,
                *self == (CsType { interfaces: self.interfaces, ..*old(self) }),
                self.interfaces@.subrange(0, ifc0.len() as int) == ifc0,
                forall|k: int|
                    0 <= k < i ==> #[trigger] self.interfaces@[ifc0.len() + k]
                        == crate::resolver::tag_from_type_data(
                        metadata.types@[t.interfaces@[k] as int].data,
                    )->0,
                forall|k: int|
                    0 <= k < i ==> crate::resolver::tag_from_type_data(
                        metadata.types@[#[trigger] t.interfaces@[k] as int].data,
                    ) is Some,
            decreases t.interfaces.len() - i,
        {
            let int_ty = metadata.types[t.interfaces[i]];
            match crate::resolver::type_data_tag(int_ty.data) {
                Some(tag) => {
                    let ghost pre = self.interfaces@;
                    self.interfaces.push(tag);
                    proof {
                        assert(self.interfaces@.subrange(0, ifc0.len() as int) =~= pre.subrange(
                            0,
                            ifc0.len() as int,
                        ));
                    }
                },
                None => {
                    proof {
                        assert(crate::resolver::tag_from_type_data(
                            metadata.types@[t.interfaces@[i as int] as int].data,
                        ) is None);
                    }
                    return Err(BuildError::UnexpectedTypeData);
                },
            }
            i += 1;
        }
        Ok(())
    }

    /// Record the identities of the nested types; they are modeled as
    /// siblings, so only identities are kept.
    pub fn make_nested_types(&mut self, metadata: &Metadata, tdi: u32)
        requires
            metadata.wf(),
            (tdi as int) < metadata.type_definitions@.len(),
        ensures
            *final(self) == (CsType { nested_types: final(self).nested_types, ..*old(self) }),
            final(self).nested_types@.len() == metadata.type_definitions@[tdi as int].nested_types@.len(),
            forall|k: int|
                0 <= k < final(self).nested_types@.len()
                    ==> #[trigger] final(self).nested_types@[k] == CsTypeTag::TypeDefinitionIndex(
                    metadata.type_definitions@[tdi as int].nested_types@[k],
                ),
    {
        let t = &metadata.type_definitions[tdi as usize];
        let mut out: Vec<CsTypeTag> = Vec::new();
        let mut i: usize = 0;
        while i < t.nested_types.len()
            invariant
                i <= t.nested_types@.len(),
                out@.len() == i,
                forall|k: int|
                    0 <= k < i ==> #[trigger] out@[k] == CsTypeTag::TypeDefinitionIndex(
                        t.nested_types@[k],
                    ),
            decreases t.nested_types.len() - i,
        {
            out.push(CsTypeTag::TypeDefinitionIndex(t.nested_types[i]));
            i += 1;
        }
        self.nested_types = out;
    }

    /// The type-definition index a raw payload carries.
    pub fn get_tag_tdi(tag: TypeData) -> (r: u32)
        requires
            tag is TypeDefinitionIndex,
        ensures
            tag == TypeData::TypeDefinitionIndex(r),
    {
        match tag {
            TypeData::TypeDefinitionIndex(tdi) => tdi,
            _ => 0,
        }
    }

    /// The type definition at an index.
    pub fn get_type_definition<'a>(metadata: &'a Metadata, tdi: u32) -> (r:
        &'a crate::metadata::Il2CppTypeDefinition)
        requires
            (tdi as int) < metadata.type_definitions@.len(),
        ensures
            *r == metadata.type_definitions@[tdi as int],
    {
        &metadata.type_definitions[tdi as usize]
    }

    /// Record the concrete generic arguments of one requested method
    /// instantiation; such a request produces no new member.
    pub fn add_method_generic_inst(
        &mut self,
        method_definition_index: u32,
        method_inst_index: usize,
        metadata: &Metadata,
    )
        requires
            metadata.wf(),
            method_inst_index < metadata.generic_insts@.len(),
        ensures
            *final(self) == (CsType {
                method_generic_instantiation_map: final(self).method_generic_instantiation_map,
                ..*old(self)
            }),
            final(self).method_generic_instantiation_map@.len()
                == old(self).method_generic_instantiation_map@.len() + 1,
            final(self).method_generic_instantiation_map@.last().0 == method_definition_index,
            final(self).method_generic_instantiation_map@.last().1@
                == metadata.generic_insts@[method_inst_index as int]@,
            final(self).method_generic_instantiation_map@.drop_last()
                == old(self).method_generic_instantiation_map@,
    {
        let inst = &metadata.generic_insts[method_inst_index];
        let mut args: Vec<usize> = Vec::new();
        let mut i: usize = 0;
        while i < inst.len()
            invariant
                i <= inst@.len(),
                args@ == inst@.take(i as int),
            decreases inst.len() - i,
        {
            args.push(inst[i]);
            proof {
                assert(args@ =~= inst@.take(i + 1));
            }
            i += 1;
        }
        proof {
            assert(inst@.take(inst@.len() as int) =~= inst@);
        }
        self.method_generic_instantiation_map.push((method_definition_index, args));
        proof {
            assert(self.method_generic_instantiation_map@.drop_last()
                =~= old(self).method_generic_instantiation_map@);
        }
    }
}


/// The type-definition index a canonical identity resolves to: directly for
/// definitions, through the generic-class table for instantiations.
pub open spec fn spec_tag_tdi(m: Metadata, tag: CsTypeTag) -> Result<u32, BuildError> {
    match tag {
        CsTypeTag::TypeDefinitionIndex(tdi) => Ok(tdi),
        CsTypeTag::GenericInstantiation(gci) => {
            if gci < m.generic_classes@.len() {
                let gc = m.generic_classes@[gci as int];
                match m.types@[gc.type_index as int].data {
                    TypeData::TypeDefinitionIndex(tdi) => Ok(tdi),
                    _ => Err(BuildError::UnexpectedTypeData),
                }
            } else {
                Err(BuildError::UnexpectedTypeData)
            }
        },
    }
}

/// Resolve a canonical identity to its type-definition index.
pub fn tag_tdi(metadata: &Metadata, tag: CsTypeTag) -> (r: Result<u32, BuildError>)
    requires
        metadata.wf(),
    ensures
        r == spec_tag_tdi(*metadata, tag),
{
    match tag {
        CsTypeTag::TypeDefinitionIndex(tdi) => Ok(tdi),
        CsTypeTag::GenericInstantiation(gci) => {
            if gci < metadata.generic_classes.len() {
                let gc = metadata.generic_classes[gci];
                match metadata.types[gc.type_index].data {
                    TypeData::TypeDefinitionIndex(tdi) => Ok(tdi),
                    _ => Err(BuildError::UnexpectedTypeData),
                }
            } else {
                Err(BuildError::UnexpectedTypeData)
            }
        },
    }
}

impl CsType {
    /// Build one parameter's model: its name, the raw record of its type,
    /// and its decoded default value, when one is recorded.
    pub fn make_parameter(metadata: &Metadata, param_index: usize) -> (r: Result<
        crate::members::CsParam,
        BuildError,
    >)
        requires
            metadata.wf(),
            param_index < metadata.parameters@.len(),
        ensures
            r is Ok <==> param_default_ok(*metadata, param_index as int),
            match r {
                Ok(p) => {
                    &&& p.name@ == metadata.parameters@[param_index as int].name@
                    &&& p.il2cpp_ty == metadata.types@[metadata.parameters@[param_index as int].type_index as int].data
                    &&& p.modifiers.bits == 0
                    &&& (pdv_lookup(metadata.parameter_default_values@, param_index as int)
                        is None ==> p.def_value is None)
                    &&& (pdv_lookup(metadata.parameter_default_values@, param_index as int)
                        is Some ==> p.def_value is Some)
                },
                Err(_) => true,
            },
    {
        let param = &metadata.parameters[param_index];
        let param_type = metadata.types[param.type_index];
        let def_value = match param_default_value(metadata, param_index) {
            Ok(v) => v,
            Err(e) => {
                return Err(e);
            },
        };
        Ok(
            crate::members::CsParam {
                name: param.name.clone(),
                def_value,
                il2cpp_ty: param_type.data,
                modifiers: crate::members::CsParamFlags::empty(),
            },
        )
    }

    /// Build the parameter models of one method, in declaration order.
    pub fn make_parameters(metadata: &Metadata, method_index: u32) -> (r: Result<
        Vec<crate::members::CsParam>,
        BuildError,
    >)
        requires
            metadata.wf(),
            (method_index as int) < metadata.methods@.len(),
        ensures
            r is Ok <==> params_decode_ok(*metadata, metadata.methods@[method_index as int]),
            match r {
                Ok(ps) => {
                    &&& ps@.len() == metadata.methods@[method_index as int].parameter_count
                    &&& forall|k: int|
                        0 <= k < ps@.len() ==> (#[trigger] ps@[k].name)@
                            == metadata.parameters@[metadata.methods@[method_index as int].parameter_start + k].name@
                    &&& forall|k: int|
                        0 <= k < ps@.len() ==> (#[trigger] ps@[k].il2cpp_ty)
                            == metadata.types@[metadata.parameters@[metadata.methods@[method_index as int].parameter_start
                            + k].type_index as int].data
                },
                Err(_) => true,
            },
    {
        let method = &metadata.methods[method_index as usize];
        let pn = metadata.parameters.len();
        proof {
            assert(crate::metadata::method_wf(*metadata, metadata.methods@[method_index as int]));
        }
        let mut out: Vec<crate::members::CsParam> = Vec::new();
        let mut i: usize = 0;
        #[verifier::loop_isolation(false)]
        while i < method.parameter_count
            invariant
                i <= method.parameter_count,
                out@.len() == i,
                forall|k: int|
                    0 <= k < i ==> (#[trigger] out@[k].name)@ == metadata.parameters@[method.parameter_start + k].name@,
                forall|k: int|
                    0 <= k < i ==> (#[trigger] out@[k].il2cpp_ty)
                        == metadata.types@[metadata.parameters@[method.parameter_start + k].type_index as int].data,
                forall|k: int|
                    0 <= k < i ==> #[trigger] param_default_ok(
                        *metadata,
                        method.parameter_start + k,
                    ),
            decreases method.parameter_count - i,
        {
            let param_index = method.parameter_start + i;
            match Self::make_parameter(metadata, param_index) {
                Ok(p) => {
                    out.push(p);
                },
                Err(e) => {
                    proof {
                        assert(!param_default_ok(*metadata, method.parameter_start + i as int));
                    }
                    return Err(e);
                },
            }
            i += 1;
        }
        Ok(out)
    }

    /// Build one method member: static type-initializers produce nothing; a
    /// generic-instantiation request records arguments elsewhere and produces
    /// nothing; every other declaration appends one method member carrying
    /// its name, signature shape, generic template and, for plain methods,
    /// its native size estimates.
    pub fn create_method(
        &mut self,
        method_index: u32,
        metadata: &Metadata,
        is_generic_method_inst: bool,
    ) -> (r: Result<(), BuildError>)
        requires
            metadata.wf(),
            (method_index as int) < metadata.methods@.len(),
        ensures
            *final(self) == (CsType { members: final(self).members, ..*old(self) }),
            final(self).members@.len() >= old(self).members@.len(),
            final(self).members@.subrange(0, old(self).members@.len() as int) == old(
                self,
            ).members@,
            metadata.methods@[method_index as int].name@ == ".cctor"@ ==> final(self).members@
                == old(self).members@ && r is Ok,
            is_generic_method_inst ==> final(self).members@ == old(self).members@,
            metadata.methods@[method_index as int].name@ != ".cctor"@ ==> (r is Ok
                <==> params_decode_ok(*metadata, metadata.methods@[method_index as int])),
            r is Ok && !is_generic_method_inst && metadata.methods@[method_index as int].name@
                != ".cctor"@ ==> final(self).members@.len() == old(self).members@.len() + 1 && (
            final(self).members@.last() matches CsMember::MethodDecl(md)
                && method_member_matches(
                md,
                *metadata,
                method_index as int,
                old(self).spec_has_template_names(),
            )),
    {
        let method = &metadata.methods[method_index as usize];
        if method.name.eq(&String::from_str(".cctor")) {
            proof {
                crate::laws::lemma_strlit_cctor();
            }
            return Ok(());
        }
        proof {
            crate::laws::lemma_strlit_cctor();
        }
        let m_ret_type = metadata.types[method.return_type];
        let m_params_no_def = match Self::make_parameters(metadata, method_index) {
            Ok(ps) => ps,
            Err(e) => {
                return Err(e);
            },
        };
        let template: Option<CsGenericTemplate> = match &method.generic_container {
            Some(ps) => {
                if is_generic_method_inst {
                    Some(CsGenericTemplate { names: Vec::new() })
                } else {
                    let mut names: Vec<String> = Vec::new();
                    let mut i: usize = 0;
                    #[verifier::loop_isolation(false)]
                    while i < ps.len()
                        decreases ps.len() - i,
                    {
                        names.push(metadata.generic_parameters[ps[i] as usize].name.clone());
                        i += 1;
                    }
                    Some(CsGenericTemplate::make_typenames(names))
                }
            },
            None => None,
        };
        let method_calc = metadata.method_calculation(method_index);
        let has_template_args = match &self.generic_template {
            Some(t) => t.names.len() > 0,
            None => false,
        };
        let template_is_none = match &template {
            Some(_) => false,
            None => true,
        };
        let method_data: Option<crate::members::CsMethodData> = match method_calc {
            Some(mc) => {
                if template_is_none && !has_template_args && !is_generic_method_inst {
                    Some(
                        crate::members::CsMethodData {
                            addrs: mc.addrs,
                            estimated_size: mc.estimated_size,
                        },
                    )
                } else {
                    None
                }
            },
            None => None,
        };
        let mut brief = String::from_str("Method ");
        brief.append(method.name.as_str());
        let method_decl = crate::members::CsMethodDecl {
            brief: Some(brief),
            name: method.name.clone(),
            return_type: m_ret_type.data,
            parameters: m_params_no_def,
            instance: !method.is_static,
            template,
            method_data,
        };
        if !is_generic_method_inst {
            let ghost pre = self.members@;
            self.members.push(CsMember::MethodDecl(method_decl));
            proof {
                assert(self.members@.subrange(0, pre.len() as int) =~= pre);
            }
        }
        Ok(())
    }

    /// Walk the method table range of one definition, building one member
    /// per declaration.
    pub fn make_methods(&mut self, metadata: &Metadata, tdi: u32) -> (r: Result<(), BuildError>)
        requires
            metadata.wf(),
            (tdi as int) < metadata.type_definitions@.len(),
        ensures
            *final(self) == (CsType { members: final(self).members, ..*old(self) }),
            final(self).members@.len() >= old(self).members@.len(),
            final(self).members@.subrange(0, old(self).members@.len() as int) == old(
                self,
            ).members@,
            r is Ok <==> forall|k: int|
                0 <= k < metadata.type_definitions@[tdi as int].method_count
                    ==> #[trigger] method_ok(
                    *metadata,
                    metadata.type_definitions@[tdi as int].method_start + k,
                ),
            r is Ok ==> final(self).members@.len() == old(self).members@.len() + kept_methods(
                *metadata,
                metadata.type_definitions@[tdi as int],
                metadata.type_definitions@[tdi as int].method_count as int,
            ).len(),
            r is Ok ==> forall|k: int|
                0 <= k < kept_methods(
                    *metadata,
                    metadata.type_definitions@[tdi as int],
                    metadata.type_definitions@[tdi as int].method_count as int,
                ).len() ==> ((#[trigger] final(self).members@[old(self).members@.len() + k])
                    matches CsMember::MethodDecl(md) && method_member_matches(
                    md,
                    *metadata,
                    kept_methods(
                        *metadata,
                        metadata.type_definitions@[tdi as int],
                        metadata.type_definitions@[tdi as int].method_count as int,
                    )[k],
                    old(self).spec_has_template_names(),
                )),
    {
        let t = &metadata.type_definitions[tdi as usize];
        let mn = metadata.methods.len();
        proof {
            assert(crate::metadata::type_definition_wf(
                *metadata,
                metadata.type_definitions@[tdi as int],
            ));
        }
        let ghost td0 = metadata.type_definitions@[tdi as int];
        let ghost members0 = self.members@;
        let mut i: usize = 0;
        #[verifier::loop_isolation(false)]
        while i < t.method_count
            invariant
                i <= t.method_count,
                self.members@.len() == members0.len() + kept_methods(
                    *metadata,
                    td0,
                    i as int,
                ).len(),
                self.members@.subrange(0, members0.len() as int) == members0,
                *self == (CsType { members: self.members, ..*old(self) }),
                forall|k: int|
                    0 <= k < i ==> #[trigger] method_ok(*metadata, td0.method_start + k),
                forall|k: int|
                    0 <= k < kept_methods(*metadata, td0, i as int).len() ==> ((
                    #[trigger] self.members@[members0.len() + k])
                        matches CsMember::MethodDecl(md) && method_member_matches(
                        md,
                        *metadata,
                        kept_methods(*metadata, td0, i as int)[k],
                        old(self).spec_has_template_names(),
                    )),
            decreases t.method_count - i,
        {
            let method_index = t.method_start + i;
            let ghost mid = self.members@;
            let ghost pre_state = *self;
            let res = self.create_method(method_index as u32, metadata, false);
            proof {
                crate::cs_fields::lemma_members_subrange_chain(members0, mid, self.members@);
                assert(pre_state.spec_has_template_names() == old(
                    self,
                ).spec_has_template_names());
                assert forall|j: int| 0 <= j < mid.len() implies self.members@[j] == mid[j] by {
                    assert(self.members@.subrange(0, mid.len() as int)[j] == self.members@[j]);
                }
            }
            match res {
                Ok(()) => {
                    proof {
                        assert(td0.method_start + td0.method_count <= 0xffff_ffff);
                        assert(((t.method_start + i) as u32) as int == td0.method_start
                            + i as int);
                        assert(method_ok(*metadata, td0.method_start + i as int));
                        if metadata.methods@[td0.method_start + i as int].name@ == ".cctor"@ {
                            assert(kept_methods(*metadata, td0, i + 1) == kept_methods(
                                *metadata,
                                td0,
                                i as int,
                            ));
                        } else {
                            assert(kept_methods(*metadata, td0, i + 1) == kept_methods(
                                *metadata,
                                td0,
                                i as int,
                            ).push(td0.method_start + i as int));
                            assert(self.members@.len() == mid.len() + 1);
                            let j: int = members0.len() + kept_methods(
                                *metadata,
                                td0,
                                i as int,
                            ).len() as int;
                            assert((self.members@[j]) matches CsMember::MethodDecl(md)
                                && method_member_matches(
                                md,
                                *metadata,
                                td0.method_start + i as int,
                                old(self).spec_has_template_names(),
                            ));
                        }
                    }
                },
                Err(e) => {
                    proof {
                        assert(!method_ok(*metadata, td0.method_start + i as int));
                    }
                    return Err(e);
                },
            }
            proof {
                let kept1 = kept_methods(*metadata, td0, i + 1);
                let kept0 = kept_methods(*metadata, td0, i as int);
                assert forall|k: int| 0 <= k < kept1.len() implies ((
                #[trigger] self.members@[members0.len() + k]) matches CsMember::MethodDecl(md)
                    && method_member_matches(
                    md,
                    *metadata,
                    kept1[k],
                    old(self).spec_has_template_names(),
                )) by {
                    if k < kept0.len() {
                        assert(kept1[k] == kept0[k]);
                        assert((self.members@[members0.len() + k])
                            matches CsMember::MethodDecl(md) && method_member_matches(
                            md,
                            *metadata,
                            kept0[k],
                            old(self).spec_has_template_names(),
                        ));
                    }
                }
            }
            i += 1;
        }
        Ok(())
    }
}

/// The method member built for method `mi`: name, instance-ness, parameter
/// count, return record, template presence, and native size estimates
/// attached exactly when neither the method nor its type is generic and an
/// estimate is recorded.
pub open spec fn method_member_matches(
    md: crate::members::CsMethodDecl,
    m: Metadata,
    mi: int,
    has_template_names: bool,
) -> bool {
    &&& md.name@ == m.methods@[mi].name@
    &&& md.instance == !m.methods@[mi].is_static
    &&& md.parameters@.len() == m.methods@[mi].parameter_count
    &&& md.return_type == m.types@[m.methods@[mi].return_type as int].data
    &&& (md.template is Some <==> m.methods@[mi].generic_container is Some)
    &&& (md.method_data is Some <==> (m.methods@[mi].generic_container is None
        && !has_template_names && m.spec_method_calculation(mi as u32) is Some))
}

/// Whether one method of the range can be processed: type initializers
/// always, every other method when its recorded parameter defaults decode.
pub open spec fn method_ok(m: Metadata, mi: int) -> bool {
    m.methods@[mi].name@ == ".cctor"@ || params_decode_ok(m, m.methods@[mi])
}

/// The absolute indices of the member-producing (non-initializer) methods
/// among the first `n` of a definition's range.
pub open spec fn kept_methods(
    m: Metadata,
    td: crate::metadata::Il2CppTypeDefinition,
    n: int,
) -> Seq<int>
    decreases n,
{
    if n <= 0 {
        Seq::empty()
    } else if m.methods@[td.method_start + (n - 1)].name@ == ".cctor"@ {
        kept_methods(m, td, n - 1)
    } else {
        kept_methods(m, td, n - 1).push(td.method_start + (n - 1))
    }
}

/// Whether one property of a definition's range is kept: at least one of its
/// present accessors is an instance method. A property whose only accessors
/// are static is dropped.
pub open spec fn prop_kept(m: Metadata, td: crate::metadata::Il2CppTypeDefinition, i: int) -> bool {
    let p = m.properties@[td.property_start + i];
    ||| (p.get != crate::metadata::INVALID_INDEX && !m.methods@[td.method_start
        + p.get].is_static)
    ||| (p.set != crate::metadata::INVALID_INDEX && !m.methods@[td.method_start
        + p.set].is_static)
}

/// Whether one property of the range can be processed: it has at least one
/// accessor, and a kept getter-less property's setter takes the value
/// parameter the property type is read from.
pub open spec fn prop_ok(m: Metadata, td: crate::metadata::Il2CppTypeDefinition, i: int) -> bool {
    let p = m.properties@[td.property_start + i];
    &&& (p.get != crate::metadata::INVALID_INDEX || p.set != crate::metadata::INVALID_INDEX)
    &&& ((prop_kept(m, td, i) && p.get == crate::metadata::INVALID_INDEX)
        ==> m.methods@[td.method_start + p.set].parameter_count >= 1)
}

/// The relative positions of the kept properties among the first `n`.
pub open spec fn kept_props(
    m: Metadata,
    td: crate::metadata::Il2CppTypeDefinition,
    n: int,
) -> Seq<int>
    decreases n,
{
    if n <= 0 {
        Seq::empty()
    } else if prop_kept(m, td, n - 1) {
        kept_props(m, td, n - 1).push(n - 1)
    } else {
        kept_props(m, td, n - 1)
    }
}

/// The property member built for position `i` of the range: accessor names
/// paired, the property type from the getter's return else the setter's
/// first parameter, indexable when the getter takes arguments.
pub open spec fn prop_member_matches(
    pm: crate::members::CsPropertyDecl,
    m: Metadata,
    td: crate::metadata::Il2CppTypeDefinition,
    i: int,
) -> bool {
    let p = m.properties@[td.property_start + i];
    &&& pm.name@ == p.name@
    &&& pm.instance
    &&& (p.get != crate::metadata::INVALID_INDEX ==> (pm.getter matches Some(g) && g@
        == m.methods@[td.method_start + p.get].name@))
    &&& (p.get == crate::metadata::INVALID_INDEX ==> pm.getter is None)
    &&& (p.set != crate::metadata::INVALID_INDEX ==> (pm.setter matches Some(t) && t@
        == m.methods@[td.method_start + p.set].name@))
    &&& (p.set == crate::metadata::INVALID_INDEX ==> pm.setter is None)
    &&& pm.indexable == (p.get != crate::metadata::INVALID_INDEX && m.methods@[td.method_start
        + p.get].parameter_count > 0)
    &&& pm.prop_ty == (if p.get != crate::metadata::INVALID_INDEX {
        m.types@[m.methods@[td.method_start + p.get].return_type as int].data
    } else {
        m.types@[m.parameters@[m.methods@[td.method_start
            + p.set].parameter_start as int].type_index as int].data
    })
    &&& pm.brief_comment is None
}

impl CsType {
    /// Walk the property table range of one definition: pair accessor names,
    /// dropping properties whose only accessors are static; accessor bodies
    /// stay in the method member list.
    pub fn make_properties(&mut self, metadata: &Metadata, tdi: u32) -> (r: Result<
        (),
        BuildError,
    >)
        requires
            metadata.wf(),
            (tdi as int) < metadata.type_definitions@.len(),
        ensures
            *final(self) == (CsType { members: final(self).members, ..*old(self) }),
            final(self).members@.len() >= old(self).members@.len(),
            final(self).members@.subrange(0, old(self).members@.len() as int) == old(
                self,
            ).members@,
            r is Ok <==> forall|k: int|
                0 <= k < metadata.type_definitions@[tdi as int].property_count
                    ==> #[trigger] prop_ok(*metadata, metadata.type_definitions@[tdi as int], k),
            r is Ok ==> final(self).members@.len() == old(self).members@.len() + kept_props(
                *metadata,
                metadata.type_definitions@[tdi as int],
                metadata.type_definitions@[tdi as int].property_count as int,
            ).len(),
            r is Ok ==> forall|k: int|
                0 <= k < kept_props(
                    *metadata,
                    metadata.type_definitions@[tdi as int],
                    metadata.type_definitions@[tdi as int].property_count as int,
                ).len() ==> ((#[trigger] final(self).members@[old(self).members@.len() + k])
                    matches CsMember::Property(pm) && prop_member_matches(
                    pm,
                    *metadata,
                    metadata.type_definitions@[tdi as int],
                    kept_props(
                        *metadata,
                        metadata.type_definitions@[tdi as int],
                        metadata.type_definitions@[tdi as int].property_count as int,
                    )[k],
                )),
    {
        let t = &metadata.type_definitions[tdi as usize];
        let mn = metadata.methods.len();
        let pn = metadata.properties.len();
        proof {
            assert(crate::metadata::type_definition_wf(
                *metadata,
                metadata.type_definitions@[tdi as int],
            ));
        }
        let ghost td0 = metadata.type_definitions@[tdi as int];
        let ghost members0 = self.members@;
        let mut i: usize = 0;
        #[verifier::loop_isolation(false)]
        while i < t.property_count
            invariant
                i <= t.property_count,
                self.members@.len() == members0.len() + kept_props(*metadata, td0, i as int).len(),
                self.members@.subrange(0, members0.len() as int) == members0,
                *self == (CsType { members: self.members, ..*old(self) }),
                forall|k: int| 0 <= k < i ==> #[trigger] prop_ok(*metadata, td0, k),
                forall|k: int|
                    0 <= k < kept_props(*metadata, td0, i as int).len() ==> ((
                    #[trigger] self.members@[members0.len() + k]) matches CsMember::Property(pm)
                        && prop_member_matches(
                        pm,
                        *metadata,
                        td0,
                        kept_props(*metadata, td0, i as int)[k],
                    )),
            decreases t.property_count - i,
        {
            proof {
                assert(metadata.properties@[t.property_start + i].get
                    == crate::metadata::INVALID_INDEX || metadata.properties@[t.property_start
                    + i].get < t.method_count);
            }
            let prop = &metadata.properties[t.property_start + i];
            let has_get = prop.get != crate::metadata::INVALID_INDEX;
            let has_set = prop.set != crate::metadata::INVALID_INDEX;
            if !has_get && !has_set {
                proof {
                    assert(!prop_ok(*metadata, td0, i as int));
                }
                return Err(BuildError::UnexpectedTypeData);
            }
            let get_instance = has_get && !metadata.methods[t.method_start
                + prop.get as usize].is_static;
            let set_instance = has_set && !metadata.methods[t.method_start
                + prop.set as usize].is_static;
            if !get_instance && !set_instance {
                proof {
                    assert(!prop_kept(*metadata, td0, i as int));
                    assert(prop_ok(*metadata, td0, i as int));
                    assert(kept_props(*metadata, td0, i + 1) == kept_props(
                        *metadata,
                        td0,
                        i as int,
                    ));
                }
                i += 1;
                continue ;
            }
            proof {
                assert(prop_kept(*metadata, td0, i as int));
            }
            let p_type_index: usize = if has_get {
                metadata.methods[t.method_start + prop.get as usize].return_type
            } else {
                let setter = &metadata.methods[t.method_start + prop.set as usize];
                if setter.parameter_count == 0 {
                    proof {
                        assert(!prop_ok(*metadata, td0, i as int));
                    }
                    return Err(BuildError::UnexpectedTypeData);
                }
                metadata.parameters[setter.parameter_start].type_index
            };
            let p_type = metadata.types[p_type_index];
            let index = if has_get {
                metadata.methods[t.method_start + prop.get as usize].parameter_count > 0
            } else {
                false
            };
            let setter_name: Option<String> = if has_set {
                Some(metadata.methods[t.method_start + prop.set as usize].name.clone())
            } else {
                None
            };
            let getter_name: Option<String> = if has_get {
                Some(metadata.methods[t.method_start + prop.get as usize].name.clone())
            } else {
                None
            };
            let ghost pre = self.members@;
            self.members.push(
                CsMember::Property(
                    crate::members::CsPropertyDecl {
                        name: prop.name.clone(),
                        prop_ty: p_type.data,
                        setter: setter_name,
                        getter: getter_name,
                        indexable: index,
                        brief_comment: None,
                        instance: true,
                    },
                ),
            );
            proof {
                assert(self.members@.subrange(0, members0.len() as int) =~= pre.subrange(
                    0,
                    members0.len() as int,
                ));
                assert(prop_ok(*metadata, td0, i as int));
                assert(kept_props(*metadata, td0, i + 1) == kept_props(*metadata, td0, i as int)
                    .push(i as int));
                assert((self.members@.last()) matches CsMember::Property(pm)
                    && prop_member_matches(pm, *metadata, td0, i as int));
            }
            i += 1;
        }
        Ok(())
    }
}


/// Names one member-list position in a composed contract, so a quantifier
/// over the boundary has a term to match on.
pub open spec fn phase_mark(n: int) -> bool {
    true
}

/// The byte offset the field walk assigns to field `i` of definition `tdi`:
/// none for static and constant fields; otherwise the offset-table entry,
/// rebased below the object header for value types.
pub open spec fn spec_field_offset(m: Metadata, tdi: int, i: int) -> Option<u32> {
    let td = m.type_definitions@[tdi];
    let ft = m.types@[m.fields@[td.field_start + i].type_index as int];
    if ft.spec_is_static() || ft.spec_is_constant() {
        None
    } else {
        let raw = m.field_offsets@[tdi]@[i];
        if td.is_value_type && raw >= m.object_size {
            Some((raw - m.object_size) as u32)
        } else {
            Some(raw)
        }
    }
}

/// One joined layout entry describes field `i` of definition `tdi` exactly:
/// classification from the attribute bits, offset per [`spec_field_offset`],
/// size from the external size table, and the decoded default value.
pub open spec fn field_info_matches(
    f: crate::cs_fields::FieldInfo,
    m: Metadata,
    tdi: int,
    i: int,
) -> bool {
    let td = m.type_definitions@[tdi];
    let fd = m.fields@[td.field_start + i];
    let ft = m.types@[fd.type_index as int];
    &&& f.cs_field.name@ == fd.name@
    &&& f.cs_field.field_ty == crate::members::CsFieldType::Data(ft.data)
    &&& f.cs_field.instance == (!ft.spec_is_static() && !ft.spec_is_constant())
    &&& f.cs_field.readonly == ft.spec_is_constant()
    &&& !f.cs_field.const_expr
    &&& !f.cs_field.is_private
    &&& f.cs_field.offset == spec_field_offset(m, tdi, i)
    &&& f.cs_field.brief_comment is Some
    &&& match fdv_lookup(m.field_default_values@, td.field_start + i) {
        None => f.cs_field.value is None,
        Some(dv) => (f.cs_field.value matches Some(v) && match dv.data_index {
            None => v is Null,
            Some(di) => blob_decodes_to(m, m.types@[dv.type_index as int], di as int, Ok(v)),
        }),
    }
    &&& f.field_index == td.field_start + i
    &&& f.field_type == ft
    &&& f.is_constant == ft.spec_is_constant()
    &&& f.is_static == ft.spec_is_static()
    &&& f.is_pointer == (ft.byref || !ft.valuetype)
    &&& f.offset == spec_field_offset(m, tdi, i)
    &&& f.size == m.type_sizes@[fd.type_index as int]
}

/// The whole joined field list of one definition, pointwise.
pub open spec fn field_infos_match(
    fis: Seq<crate::cs_fields::FieldInfo>,
    m: Metadata,
    tdi: int,
) -> bool {
    &&& fis.len() == m.type_definitions@[tdi].field_count
    &&& forall|i: int| 0 <= i < fis.len() ==> #[trigger] field_info_matches(fis[i], m, tdi, i)
}

impl CsType {
    /// Walk the field table range of one definition: classify each field as
    /// static, constant or instance, join it with its externally supplied
    /// offset and size, decode any recorded default value, and hand the
    /// joined list to the layout handlers. Value-type field offsets are
    /// rebased below the object header. Every constant field must carry a
    /// recorded default value.
    pub fn make_fields(&mut self, metadata: &Metadata, tdi: u32) -> (r: Result<(), BuildError>)
        requires
            metadata.wf(),
            (tdi as int) < metadata.type_definitions@.len(),
            forall|i: int|
                0 <= i < metadata.type_definitions@[tdi as int].field_count
                    && metadata.types@[(#[trigger] metadata.fields@[metadata.type_definitions@[tdi as int].field_start
                    + i]).type_index as int].spec_is_constant() ==> fdv_lookup(
                    metadata.field_default_values@,
                    metadata.type_definitions@[tdi as int].field_start + i,
                ) is Some,
        ensures
            *final(self) == (CsType { members: final(self).members, ..*old(self) }),
            final(self).members@.len() >= old(self).members@.len(),
            final(self).members@.subrange(0, old(self).members@.len() as int) == old(
                self,
            ).members@,
            r is Ok <==> field_defaults_ok(*metadata, metadata.type_definitions@[tdi as int]),
            r is Ok ==> exists|fis: Seq<crate::cs_fields::FieldInfo>, n1: int|
                #![trigger field_infos_match(fis, *metadata, tdi as int), final(self).members@.subrange(old(self).members@.len() as int, n1)]
                {
                    let td = metadata.type_definitions@[tdi as int];
                    let vt = td.is_value_type || td.is_enum_type;
                    let old_len = old(self).members@.len() as int;
                    let fin = final(self).members@;
                    &&& field_infos_match(fis, *metadata, tdi as int)
                    &&& old_len <= n1 <= fin.len()
                    &&& (vt && !td.is_explicit_layout
                        ==> crate::cs_fields::instance_handler_post(
                        fin.subrange(old_len, n1),
                        fis,
                        old(self).members@,
                        false,
                    ))
                    &&& (vt && td.is_explicit_layout && td.field_count > 0 ==> {
                        let plen = crate::cs_fields::prop_entries(fis).len() as int;
                        &&& old_len + plen <= n1
                        &&& (forall|k: int|
                            0 <= k < plen ==> ((#[trigger] fin[old_len + k])
                                matches CsMember::Property(pm)
                                && crate::cs_fields::field_prop_like(
                                pm,
                                crate::cs_fields::prop_entries(fis)[k],
                            )))
                        &&& (exists|bs: Seq<crate::cs_fields::FieldInfo>|
                            #[trigger] crate::cs_fields::backing_renamed_like(bs, fis)
                                && crate::cs_fields::instance_handler_post(
                                fin.subrange(old_len + plen, n1),
                                bs,
                                fin.take(old_len + plen),
                                true,
                            ))
                    })
                    &&& (!vt && td.field_count > 0 ==> {
                        let plen = crate::cs_fields::prop_entries(fis).len() as int;
                        &&& old_len + plen <= n1
                        &&& (forall|k: int|
                            0 <= k < plen ==> ((#[trigger] fin[old_len + k])
                                matches CsMember::Property(pm)
                                && crate::cs_fields::field_prop_like(
                                pm,
                                crate::cs_fields::prop_entries(fis)[k],
                            )))
                        &&& (exists|bs: Seq<crate::cs_fields::FieldInfo>|
                            #[trigger] crate::cs_fields::backing_renamed_like(bs, fis)
                                && crate::cs_fields::instance_handler_post(
                                fin.subrange(old_len + plen, n1),
                                bs,
                                fin.take(old_len + plen),
                                td.is_explicit_layout,
                            ))
                    })
                    &&& fin.len() == n1 + crate::cs_fields::statics_of(fis).len()
                        + crate::cs_fields::consts_of(fis).len()
                    &&& (forall|k: int|
                        0 <= k < crate::cs_fields::statics_of(fis).len() ==> ((
                        #[trigger] fin[n1 + k]) matches CsMember::FieldDecl(f)
                            && crate::cs_fields::csfield_like(
                            f,
                            crate::cs_fields::statics_of(fis)[k].cs_field,
                        )))
                    &&& (forall|k: int|
                        0 <= k < crate::cs_fields::consts_of(fis).len() ==> ((
                        #[trigger] fin[n1 + crate::cs_fields::statics_of(fis).len() + k])
                            matches CsMember::FieldDecl(f) && !f.instance && f.const_expr
                            == crate::metadata::spec_is_primitive_builtin(
                            crate::cs_fields::consts_of(fis)[k].field_type.ty,
                        ) && f.name@ == crate::cs_fields::consts_of(fis)[k].cs_field.name@))
                },
    {
        let t = &metadata.type_definitions[tdi as usize];
        if t.field_count == 0 {
            proof {
                crate::cs_fields::lemma_members_prefix_refl(self.members@);
                let fis = Seq::<crate::cs_fields::FieldInfo>::empty();
                let n1 = self.members@.len() as int;
                assert(field_infos_match(fis, *metadata, tdi as int));
                assert(crate::cs_fields::instance_entries(fis).len() == 0);
                assert(crate::cs_fields::entries_renamed_like(fis, fis, self.members@));
                assert(crate::cs_fields::statics_of(fis).len() == 0);
                assert(crate::cs_fields::consts_of(fis).len() == 0);
                let empty_ms = self.members@.subrange(n1, n1);
                assert(empty_ms.len() == 0);
                assert(crate::cs_fields::fieldinfo_names(fis) =~= crate::cs_fields::leaf_names(
                    empty_ms,
                ));
                assert(crate::cs_fields::unionized_members_match(empty_ms, fis));
                assert(crate::cs_fields::instance_handler_post(
                    empty_ms,
                    fis,
                    self.members@,
                    false,
                ));
            }
            return Ok(());
        }
        let fn_ = metadata.fields.len();
        let tn = metadata.types.len();
        proof {
            assert(crate::metadata::type_definition_wf(
                *metadata,
                metadata.type_definitions@[tdi as int],
            ));
            assert(metadata.field_offsets@[tdi as int]@.len()
                == metadata.type_definitions@[tdi as int].field_count);
        }
        let field_offsets = &metadata.field_offsets[tdi as usize];
        let mut fields: Vec<crate::cs_fields::FieldInfo> = Vec::new();
        let mut i: usize = 0;
        #[verifier::loop_isolation(false)]
        while i < t.field_count
            invariant
                i <= t.field_count,
                fields@.len() == i,
                forall|k: int|
                    0 <= k < i ==> (#[trigger] fields@[k]).is_constant
                        ==> fields@[k].cs_field.value is Some,
                forall|k: int|
                    0 <= k < i ==> #[trigger] field_info_matches(
                        fields@[k],
                        *metadata,
                        tdi as int,
                        k,
                    ),
                forall|k: int|
                    0 <= k < i ==> #[trigger] field_default_ok(*metadata, t.field_start + k),
            decreases t.field_count - i,
        {
            let field_index = t.field_start + i;
            let field = &metadata.fields[field_index];
            let f_type = metadata.types[field.type_index];
            let is_static = f_type.is_static();
            let is_const = f_type.is_constant();
            let f_offset: Option<u32> = if is_static || is_const {
                None
            } else {
                let raw = field_offsets[i];
                if t.is_value_type && raw >= metadata.object_size {
                    Some(raw - metadata.object_size)
                } else {
                    Some(raw)
                }
            };
            let f_size = metadata.type_sizes[field.type_index];
            let def_value = match field_default_value(metadata, field_index) {
                Ok(v) => v,
                Err(e) => {
                    proof {
                        assert(!field_default_ok(*metadata, t.field_start + i as int));
                        assert(!field_defaults_ok(
                            *metadata,
                            metadata.type_definitions@[tdi as int],
                        ));
                    }
                    return Err(e);
                },
            };
            proof {
                if is_const {
                    assert(metadata.types@[metadata.fields@[t.field_start
                        + i as int].type_index as int].spec_is_constant());
                    assert(fdv_lookup(metadata.field_default_values@, t.field_start + i as int)
                        is Some);
                }
            }
            let value_for_field: Option<CsValue> = match def_value {
                Some(v) => Some(v),
                None => {
                    if is_const {
                        proof {
                            assert(false);
                        }
                        None
                    } else {
                        None
                    }
                },
            };
            let mut brief = String::from_str("Field ");
            brief.append(field.name.as_str());
            let cs_field = crate::members::CsField {
                name: field.name.clone(),
                field_ty: crate::members::CsFieldType::Data(f_type.data),
                offset: f_offset,
                instance: !is_static && !is_const,
                readonly: is_const,
                brief_comment: Some(brief),
                value: value_for_field,
                const_expr: false,
                is_private: false,
            };
            fields.push(
                crate::cs_fields::FieldInfo {
                    cs_field,
                    field_index,
                    field_type: f_type,
                    is_constant: is_const,
                    is_static,
                    is_pointer: f_type.byref || !f_type.valuetype,
                    offset: f_offset,
                    size: f_size,
                },
            );
            proof {
                assert(field_info_matches(fields@.last(), *metadata, tdi as int, i as int));
            }
            i += 1;
        }
        let ghost members0 = self.members@;
        if t.is_value_type || t.is_enum_type {
            crate::cs_fields::handle_valuetype_fields(self, &fields, t.is_explicit_layout);
        } else {
            crate::cs_fields::handle_referencetype_fields(self, &fields, t.is_explicit_layout);
        }
        let ghost mid1 = self.members@;
        crate::cs_fields::handle_static_fields(self, &fields);
        proof {
            crate::cs_fields::lemma_members_subrange_chain(members0, mid1, self.members@);
        }
        let ghost mid2 = self.members@;
        crate::cs_fields::handle_const_fields(self, &fields);
        proof {
            crate::cs_fields::lemma_members_subrange_chain(members0, mid2, self.members@);
            crate::cs_fields::lemma_members_subrange_chain(mid1, mid2, self.members@);
            let fin = self.members@;
            let n1 = mid1.len() as int;
            assert forall|j: int| 0 <= j < mid2.len() implies fin[j] == mid2[j] by {
                assert(fin.subrange(0, mid2.len() as int)[j] == fin[j]);
            }
            assert forall|j: int| 0 <= j < mid1.len() implies fin[j] == mid1[j] by {
                assert(fin.subrange(0, mid1.len() as int)[j] == fin[j]);
            }
            assert(field_infos_match(fields@, *metadata, tdi as int));
            assert(field_defaults_ok(*metadata, metadata.type_definitions@[tdi as int]));
            // the first phase's appended slice, re-read against the final list
            assert(fin.subrange(members0.len() as int, n1) =~= mid1.skip(members0.len() as int));
            if t.is_value_type || t.is_enum_type {
                if !t.is_explicit_layout {
                    assert(crate::cs_fields::instance_handler_post(
                        fin.subrange(members0.len() as int, n1),
                        fields@,
                        members0,
                        false,
                    ));
                } else {
                    let plen = crate::cs_fields::prop_entries(fields@).len() as int;
                    assert(fin.subrange(members0.len() as int + plen, n1) =~= mid1.skip(
                        members0.len() as int + plen,
                    ));
                    assert(fin.take(members0.len() as int + plen) =~= mid1.take(
                        members0.len() as int + plen,
                    ));
                    assert forall|k: int| 0 <= k < plen implies ((#[trigger] fin[members0.len()
                        + k]) matches CsMember::Property(pm)
                        && crate::cs_fields::field_prop_like(
                        pm,
                        crate::cs_fields::prop_entries(fields@)[k],
                    )) by {
                        assert(fin[members0.len() + k] == mid1[members0.len() + k]);
                    }
                }
            } else {
                let plen = crate::cs_fields::prop_entries(fields@).len() as int;
                assert(fin.subrange(members0.len() as int + plen, n1) =~= mid1.skip(
                    members0.len() as int + plen,
                ));
                assert(fin.take(members0.len() as int + plen) =~= mid1.take(
                    members0.len() as int + plen,
                ));
                assert forall|k: int| 0 <= k < plen implies ((#[trigger] fin[members0.len() + k])
                    matches CsMember::Property(pm) && crate::cs_fields::field_prop_like(
                    pm,
                    crate::cs_fields::prop_entries(fields@)[k],
                )) by {
                    assert(fin[members0.len() + k] == mid1[members0.len() + k]);
                }
            }
            // the statics phase, re-read against the final list
            assert forall|k: int| 0 <= k < crate::cs_fields::statics_of(fields@).len() implies ((
            #[trigger] fin[n1 + k]) matches CsMember::FieldDecl(f)
                && crate::cs_fields::csfield_like(
                f,
                crate::cs_fields::statics_of(fields@)[k].cs_field,
            )) by {
                assert(fin[n1 + k] == mid2[n1 + k]);
            }
        }
        Ok(())
    }

    /// Assemble the skeleton of one type's model from its definition:
    /// identity, kind flags, names, generic template, and externally
    /// supplied size information. Deny-listed definitions and non-interface
    /// definitions without a parent that are not the root object type are
    /// excluded from generation.
    pub fn make_cs_type(
        metadata: &Metadata,
        tdi: u32,
        tag: CsTypeTag,
        generic_inst_types: Option<&Vec<usize>>,
    ) -> (r: Result<Option<CsType>, BuildError>)
        requires
            metadata.wf(),
            (tdi as int) < metadata.type_definitions@.len(),
        ensures
            r is Ok,
            (r->Ok_0 is None) <==> (metadata.spec_is_blacklisted(tdi) || (
            metadata.type_definitions@[tdi as int].parent_index == crate::metadata::INVALID_INDEX
                && !metadata.type_definitions@[tdi as int].is_interface && !(
            metadata.type_definitions@[tdi as int].namespace@ == "System"@
                && metadata.type_definitions@[tdi as int].name@ == "Object"@))),
            match r {
                Ok(Some(ct)) => {
                    &&& ct.self_tag == tag
                    &&& ct.is_value_type == metadata.type_definitions@[tdi as int].is_value_type
                    &&& ct.is_enum_type == metadata.type_definitions@[tdi as int].is_enum_type
                    &&& ct.is_interface == metadata.type_definitions@[tdi as int].is_interface
                    &&& ct.size_info == Some(metadata.type_definition_sizes@[tdi as int])
                    &&& ct.packing == metadata.type_definition_sizes@[tdi as int].specified_packing
                    &&& ct.members@.len() == 0
                    &&& ct.implementations@.len() == 0
                    &&& ct.parent is None
                    &&& ct.interfaces@.len() == 0
                    &&& ct.nested_types@.len() == 0
                    &&& ct.requirements.wf()
                    &&& (ct.generic_template is Some <==> metadata.type_definitions@[tdi as int].generic_container
                        is Some)
                    &&& ct.cs_name_components@.name
                        == metadata.type_definitions@[tdi as int].name@
                    &&& ct.cs_name_components@.namespace == Some(
                        metadata.type_definitions@[tdi as int].namespace@,
                    )
                    &&& match generic_inst_types {
                        Some(v) => (ct.generic_instantiations_args_types matches Some(g) && g@
                            == v@),
                        None => ct.generic_instantiations_args_types is None,
                    }
                    &&& ct.method_generic_instantiation_map@.len() == 0
                },
                _ => true,
            },
    {
        let t = &metadata.type_definitions[tdi as usize];
        if metadata.is_blacklisted(tdi) {
            return Ok(None);
        }
        proof {
            assert(crate::metadata::type_definition_wf(
                *metadata,
                metadata.type_definitions@[tdi as int],
            ));
        }
        let cpp_template: Option<CsGenericTemplate> = match &t.generic_container {
            Some(ps) => {
                let mut names: Vec<String> = Vec::new();
                let mut i: usize = 0;
                #[verifier::loop_isolation(false)]
                while i < ps.len()
                    decreases ps.len() - i,
                {
                    names.push(metadata.generic_parameters[ps[i] as usize].name.clone());
                    i += 1;
                }
                Some(CsGenericTemplate::make_typenames(names))
            },
            None => None,
        };
        if t.parent_index == crate::metadata::INVALID_INDEX {
            let is_root_object = t.namespace.eq(&String::from_str("System")) && t.name.eq(
                &String::from_str("Object"),
            );
            if !t.is_interface && !is_root_object {
                return Ok(None);
            }
        }
        let size_info = metadata.type_definition_sizes[tdi as usize];
        let is_pointer = !t.is_value_type && !t.is_enum_type;
        let generics_copy: Option<Vec<usize>> = match generic_inst_types {
            Some(v) => {
                let mut out: Vec<usize> = Vec::new();
                let mut i: usize = 0;
                while i < v.len()
                    invariant
                        i <= v@.len(),
                        out@ == v@.take(i as int),
                    decreases v.len() - i,
                {
                    out.push(v[i]);
                    proof {
                        assert(out@ =~= v@.take(i + 1));
                    }
                    i += 1;
                }
                proof {
                    assert(v@.take(v@.len() as int) =~= v@);
                }
                Some(out)
            },
            None => None,
        };
        Ok(
            Some(
                CsType {
                    self_tag: tag,
                    nested: false,
                    prefix_comments: Vec::new(),
                    size_info: Some(size_info),
                    packing: size_info.specified_packing,
                    cs_name_components: NameComponents {
                        name: t.name.clone(),
                        namespace: Some(t.namespace.clone()),
                        declaring_types: None,
                        generics: None,
                        is_pointer,
                    },
                    members: Vec::new(),
                    implementations: Vec::new(),
                    is_value_type: t.is_value_type,
                    is_enum_type: t.is_enum_type,
                    is_reference_type: is_pointer,
                    requirements: CsTypeRequirements::new(),
                    parent: None,
                    interfaces: Vec::new(),
                    generic_template: cpp_template,
                    generic_instantiations_args_types: generics_copy,
                    method_generic_instantiation_map: Vec::new(),
                    is_interface: t.is_interface,
                    nested_types: Vec::new(),
                },
            ),
        )
    }

    /// Populate one type's model from the snapshot, in order: parent link,
    /// interfaces, nested identities, fields with layout, properties, then
    /// methods.
    pub fn fill_from_il2cpp(&mut self, metadata: &Metadata) -> (r: Result<(), BuildError>)
        requires
            metadata.wf(),
            (spec_tag_tdi(*metadata, old(self).self_tag) matches Ok(tdi) && (tdi as int)
                < metadata.type_definitions@.len()),
            ({
                let tdi = spec_tag_tdi(*metadata, old(self).self_tag)->Ok_0;
                forall|i: int|
                    0 <= i < metadata.type_definitions@[tdi as int].field_count
                        && metadata.types@[(#[trigger] metadata.fields@[metadata.type_definitions@[tdi as int].field_start
                        + i]).type_index as int].spec_is_constant() ==> fdv_lookup(
                        metadata.field_default_values@,
                        metadata.type_definitions@[tdi as int].field_start + i,
                    ) is Some
            }),
        ensures
            final(self).self_tag == old(self).self_tag,
            r is Ok ==> {
                let tdi = spec_tag_tdi(*metadata, old(self).self_tag)->Ok_0 as int;
                let td = metadata.type_definitions@[tdi];
                let fin = final(self).members@;
                let kp = kept_props(*metadata, td, td.property_count as int);
                let km = kept_methods(*metadata, td, td.method_count as int);
                &&& (spec_make_parent(*metadata, td) matches Ok(p) && final(self).parent == if p
                    is Some {
                    p
                } else {
                    old(self).parent
                })
                &&& final(self).nested_types@.len() == td.nested_types@.len()
                &&& (forall|k: int|
                    0 <= k < td.nested_types@.len() ==> #[trigger] final(self).nested_types@[k]
                        == CsTypeTag::TypeDefinitionIndex(td.nested_types@[k]))
                &&& fin.subrange(0, old(self).members@.len() as int) == old(self).members@
                &&& exists|n2: int|
                    #![trigger phase_mark(n2)]
                    {
                        &&& old(self).members@.len() <= n2
                        &&& n2 + kp.len() + km.len() == fin.len()
                        &&& (forall|k: int|
                            0 <= k < kp.len() ==> ((#[trigger] fin[n2 + k])
                                matches CsMember::Property(pm) && prop_member_matches(
                                pm,
                                *metadata,
                                td,
                                kp[k],
                            )))
                        &&& (forall|k: int|
                            0 <= k < km.len() ==> ((#[trigger] fin[n2 + kp.len() + k])
                                matches CsMember::MethodDecl(md) && method_member_matches(
                                md,
                                *metadata,
                                km[k],
                                old(self).spec_has_template_names(),
                            )))
                    }
            },
    {
        let tdi = match tag_tdi(metadata, self.self_tag) {
            Ok(t) => t,
            Err(e) => {
                return Err(e);
            },
        };
        match self.make_parents(metadata, tdi) {
            Ok(()) => {},
            Err(e) => {
                return Err(e);
            },
        }
        match self.make_interfaces(metadata, tdi) {
            Ok(()) => {},
            Err(e) => {
                return Err(e);
            },
        }
        self.make_nested_types(metadata, tdi);
        match self.make_fields(metadata, tdi) {
            Ok(()) => {},
            Err(e) => {
                return Err(e);
            },
        }
        let ghost post_fields = self.members@;
        let ghost state_pre_props = *self;
        match self.make_properties(metadata, tdi) {
            Ok(()) => {},
            Err(e) => {
                return Err(e);
            },
        }
        let ghost post_props = self.members@;
        let ghost state_pre_methods = *self;
        match self.make_methods(metadata, tdi) {
            Ok(()) => {},
            Err(e) => {
                return Err(e);
            },
        }
        proof {
            let td = metadata.type_definitions@[tdi as int];
            let fin = self.members@;
            let n2 = post_fields.len() as int;
            let kp = kept_props(*metadata, td, td.property_count as int);
            let km = kept_methods(*metadata, td, td.method_count as int);
            assert(phase_mark(n2));
            assert forall|j: int| 0 <= j < post_props.len() implies fin[j] == post_props[j] by {
                assert(fin.subrange(0, post_props.len() as int)[j] == fin[j]);
            }
            assert forall|k: int| 0 <= k < kp.len() implies ((#[trigger] fin[n2 + k])
                matches CsMember::Property(pm) && prop_member_matches(pm, *metadata, td, kp[k]))
                by {
                assert(fin[n2 + k] == post_props[n2 + k]);
            }
            assert(state_pre_methods.spec_has_template_names() == old(
                self,
            ).spec_has_template_names());
            assert(post_fields.subrange(0, old(self).members@.len() as int) == old(
                self,
            ).members@);
            crate::cs_fields::lemma_members_subrange_chain(post_fields, post_props, fin);
            crate::cs_fields::lemma_members_subrange_chain(
                old(self).members@,
                post_fields,
                fin,
            );
        }
        Ok(())
    }
}

} // verus!
