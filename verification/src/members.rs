use vstd::prelude::*;
use vstd::string::StringExecFns;
use crate::name_components::clone_string_option;
use crate::tags::TypeData;

verus! {

/// Constraint kind of one generic template parameter.
#[derive(Clone, Copy, Debug, PartialEq, Eq, Structural)]
pub enum CsGenericTemplateType {
    /// Any type may instantiate the parameter.
    Any,
    /// Only managed reference types may instantiate the parameter.
    Reference,
}

/// A generic template: the constrained parameter names a generic type or
/// method declares.
pub struct CsGenericTemplate {
    pub names: Vec<(CsGenericTemplateType, String)>,
}

impl CsGenericTemplate {
    /// A template whose parameters all admit any type.
    pub fn make_typenames(names: Vec<String>) -> (r: CsGenericTemplate)
        ensures
            r.names@.len() == names@.len(),
            forall|i: int|
                0 <= i < names@.len() ==> #[trigger] r.names@[i].0 == CsGenericTemplateType::Any
                    && r.names@[i].1 == names@[i],
    {
        let mut out: Vec<(CsGenericTemplateType, String)> = Vec::new();
        let mut i: usize = 0;
        while i < names.len()
            invariant
                i <= names.len(),
                out@.len() == i,
                forall|j: int|
                    0 <= j < i ==> #[trigger] out@[j].0 == CsGenericTemplateType::Any && out@[j].1
                        == names@[j],
            decreases names.len() - i,
        {
            out.push((CsGenericTemplateType::Any, names[i].clone()));
            i += 1;
        }
        CsGenericTemplate { names: out }
    }

    /// A template whose parameters admit only reference types.
    pub fn make_ref_types(names: Vec<String>) -> (r: CsGenericTemplate)
        ensures
            r.names@.len() == names@.len(),
            forall|i: int|
                0 <= i < names@.len() ==> #[trigger] r.names@[i].0
                    == CsGenericTemplateType::Reference && r.names@[i].1 == names@[i],
    {
        let mut out: Vec<(CsGenericTemplateType, String)> = Vec::new();
        let mut i: usize = 0;
        while i < names.len()
            invariant
                i <= names.len(),
                out@.len() == i,
                forall|j: int|
                    0 <= j < i ==> #[trigger] out@[j].0 == CsGenericTemplateType::Reference
                        && out@[j].1 == names@[j],
            decreases names.len() - i,
        {
            out.push((CsGenericTemplateType::Reference, names[i].clone()));
            i += 1;
        }
        CsGenericTemplate { names: out }
    }

    /// The parameter names alone, constraints dropped.
    pub fn just_names(&self) -> (r: Vec<String>)
        ensures
            r@.len() == self.names@.len(),
            forall|i: int| 0 <= i < r@.len() ==> #[trigger] r@[i]@ == self.names@[i].1@,
    {
        let mut out: Vec<String> = Vec::new();
        let mut i: usize = 0;
        while i < self.names.len()
            invariant
                i <= self.names.len(),
                out@.len() == i,
                forall|j: int| 0 <= j < i ==> #[trigger] out@[j]@ == self.names@[j].1@,
            decreases self.names.len() - i,
        {
            out.push(self.names[i].1.clone());
            i += 1;
        }
        out
    }

    /// Whether one of the template's parameters carries exactly this name.
    pub fn contains_name(&self, name: &String) -> (r: bool)
        ensures
            r == exists|i: int| 0 <= i < self.names@.len() && (#[trigger] self.names@[i].1)@
                == name@,
    {
        let mut i: usize = 0;
        while i < self.names.len()
            invariant
                i <= self.names.len(),
                forall|j: int| 0 <= j < i ==> (#[trigger] self.names@[j].1)@ != name@,
            decreases self.names.len() - i,
        {
            if self.names[i].1.eq(name) {
                return true;
            }
            i += 1;
        }
        false
    }
}

impl Clone for CsGenericTemplate {
    fn clone(&self) -> (r: Self)
        ensures
            r.names@.len() == self.names@.len(),
            forall|i: int|
                0 <= i < self.names@.len() ==> #[trigger] r.names@[i].0 == self.names@[i].0
                    && r.names@[i].1@ == self.names@[i].1@,
    {
        let mut out: Vec<(CsGenericTemplateType, String)> = Vec::new();
        let mut i: usize = 0;
        while i < self.names.len()
            invariant
                i <= self.names.len(),
                out@.len() == i,
                forall|j: int|
                    0 <= j < i ==> #[trigger] out@[j].0 == self.names@[j].0 && out@[j].1@
                        == self.names@[j].1@,
            decreases self.names.len() - i,
        {
            out.push((self.names[i].0, self.names[i].1.clone()));
            i += 1;
        }
        CsGenericTemplate { names: out }
    }
}

/// A string paired with an optional comment.
pub struct CsCommentedString {
    pub data: String,
    pub comment: Option<String>,
}

/// A using-alias declaration of the managed-side model.
pub struct CsUsingAlias {
    pub result: String,
    pub alias: String,
    pub template: Option<CsGenericTemplate>,
}

/// A decoded default value. Floating-point constants are carried as their raw
/// IEEE-754 bit patterns, so the decode stays exact.
#[derive(Debug)]
pub enum CsValue {
    String(String),
    Bool(bool),
    U8(u8),
    U16(u16),
    U32(u32),
    U64(u64),
    I8(i8),
    I16(i16),
    I32(i32),
    I64(i64),
    /// Bits of a 32-bit floating-point constant.
    F32Bits(u32),
    /// Bits of a 64-bit floating-point constant.
    F64Bits(u64),
    Object(Vec<u8>),
    ValueType(Vec<u8>),
    Null,
}

impl Clone for CsValue {
    fn clone(&self) -> (r: Self)
        ensures
            r.deep_eq(self),
    {
        match self {
            CsValue::String(s) => CsValue::String(s.clone()),
            CsValue::Bool(b) => CsValue::Bool(*b),
            CsValue::U8(v) => CsValue::U8(*v),
            CsValue::U16(v) => CsValue::U16(*v),
            CsValue::U32(v) => CsValue::U32(*v),
            CsValue::U64(v) => CsValue::U64(*v),
            CsValue::I8(v) => CsValue::I8(*v),
            CsValue::I16(v) => CsValue::I16(*v),
            CsValue::I32(v) => CsValue::I32(*v),
            CsValue::I64(v) => CsValue::I64(*v),
            CsValue::F32Bits(v) => CsValue::F32Bits(*v),
            CsValue::F64Bits(v) => CsValue::F64Bits(*v),
            CsValue::Object(b) => CsValue::Object(clone_bytes(b)),
            CsValue::ValueType(b) => CsValue::ValueType(clone_bytes(b)),
            CsValue::Null => CsValue::Null,
        }
    }
}

impl CsValue {
    /// Value equality of two decoded constants: equal variants and equal
    /// contents, strings and byte blobs by their sequences.
    pub open spec fn deep_eq(&self, other: &CsValue) -> bool {
        match (self, other) {
            (CsValue::String(a), CsValue::String(b)) => a@ == b@,
            (CsValue::Bool(a), CsValue::Bool(b)) => a == b,
            (CsValue::U8(a), CsValue::U8(b)) => a == b,
            (CsValue::U16(a), CsValue::U16(b)) => a == b,
            (CsValue::U32(a), CsValue::U32(b)) => a == b,
            (CsValue::U64(a), CsValue::U64(b)) => a == b,
            (CsValue::I8(a), CsValue::I8(b)) => a == b,
            (CsValue::I16(a), CsValue::I16(b)) => a == b,
            (CsValue::I32(a), CsValue::I32(b)) => a == b,
            (CsValue::I64(a), CsValue::I64(b)) => a == b,
            (CsValue::F32Bits(a), CsValue::F32Bits(b)) => a == b,
            (CsValue::F64Bits(a), CsValue::F64Bits(b)) => a == b,
            (CsValue::Object(a), CsValue::Object(b)) => a@ == b@,
            (CsValue::ValueType(a), CsValue::ValueType(b)) => a@ == b@,
            (CsValue::Null, CsValue::Null) => true,
            _ => false,
        }
    }
}

/// Clone a byte vector, keeping its contents.
pub fn clone_bytes(b: &Vec<u8>) -> (r: Vec<u8>)
    ensures
        r@ == b@,
{
    let mut out: Vec<u8> = Vec::new();
    let mut i: usize = 0;
    while i < b.len()
        invariant
            i <= b.len(),
            out@ == b@.take(i as int),
        decreases b.len() - i,
    {
        out.push(b[i]);
        assert(out@ =~= b@.take(i + 1));
        i += 1;
    }
    assert(b@.take(b.len() as int) =~= b@);
    out
}

/// Clone an optional decoded constant, keeping its value.
pub fn clone_value_option(o: &Option<CsValue>) -> (r: Option<CsValue>)
    ensures
        match *o {
            Some(ref v) => r is Some && r.unwrap().deep_eq(v),
            None => r is None,
        },
{
    match o {
        Some(v) => Some(v.clone()),
        None => None,
    }
}

/// What a field's type is referred to by: a raw metadata record for fields
/// read from the snapshot, or an already-rendered type name for fields the
/// layout pass synthesizes (padding bytes).
pub enum CsFieldType {
    Data(TypeData),
    Rendered(String),
}

impl Clone for CsFieldType {
    fn clone(&self) -> (r: Self)
        ensures
            match (self, r) {
                (CsFieldType::Data(a), CsFieldType::Data(b)) => a == b,
                (CsFieldType::Rendered(a), CsFieldType::Rendered(b)) => a@ == b@,
                _ => false,
            },
    {
        match self {
            CsFieldType::Data(d) => CsFieldType::Data(*d),
            CsFieldType::Rendered(s) => CsFieldType::Rendered(s.clone()),
        }
    }
}

/// One field of a type model, before layout: declaration-level facts plus the
/// decoded default value, when one is recorded.
pub struct CsField {
    pub name: String,
    pub field_ty: CsFieldType,
    pub instance: bool,
    pub readonly: bool,
    /// Whether the field is a compile-time constant of its language.
    pub const_expr: bool,
    pub offset: Option<u32>,
    pub value: Option<CsValue>,
    pub brief_comment: Option<String>,
    pub is_private: bool,
}

impl Clone for CsField {
    fn clone(&self) -> (r: Self)
        ensures
            r.name@ == self.name@,
            match (self.field_ty, r.field_ty) {
                (CsFieldType::Data(a), CsFieldType::Data(b)) => a == b,
                (CsFieldType::Rendered(ref a), CsFieldType::Rendered(ref b)) => a@ == b@,
                _ => false,
            },
            r.instance == self.instance,
            r.readonly == self.readonly,
            r.const_expr == self.const_expr,
            r.offset == self.offset,
            match (self.value, r.value) {
                (Some(ref a), Some(ref b)) => b.deep_eq(a),
                (None, None) => true,
                _ => false,
            },
            match (self.brief_comment, r.brief_comment) {
                (Some(ref a), Some(ref b)) => a@ == b@,
                (None, None) => true,
                _ => false,
            },
            r.is_private == self.is_private,
    {
        CsField {
            name: self.name.clone(),
            field_ty: self.field_ty.clone(),
            instance: self.instance,
            readonly: self.readonly,
            const_expr: self.const_expr,
            offset: self.offset,
            value: clone_value_option(&self.value),
            brief_comment: clone_string_option(&self.brief_comment),
            is_private: self.is_private,
        }
    }
}

/// One property of a type model: the accessor names only; accessor bodies
/// live in the method member list.
pub struct CsPropertyDecl {
    pub name: String,
    pub prop_ty: TypeData,
    pub instance: bool,
    pub getter: Option<String>,
    pub setter: Option<String>,
    /// Whether the accessors take an index argument.
    pub indexable: bool,
    pub brief_comment: Option<String>,
}

/// Modifier bits of one parameter.
#[derive(Clone, Copy, Debug, PartialEq, Eq, Structural)]
pub struct CsParamFlags {
    pub bits: u8,
}

impl CsParamFlags {
    /// No modifier set.
    pub fn empty() -> (r: CsParamFlags)
        ensures
            r.bits == 0,
    {
        CsParamFlags { bits: 0 }
    }
}

/// One parameter of a method member.
pub struct CsParam {
    pub name: String,
    pub il2cpp_ty: TypeData,
    pub modifiers: CsParamFlags,
    pub def_value: Option<CsValue>,
}

/// Estimated native size and address attached to a method member.
#[derive(Clone, Copy, Debug, PartialEq, Eq, Structural)]
pub struct CsMethodData {
    pub estimated_size: usize,
    pub addrs: u64,
}

/// One method of a type model.
pub struct CsMethodDecl {
    pub name: String,
    pub return_type: TypeData,
    pub parameters: Vec<CsParam>,
    pub instance: bool,
    pub template: Option<CsGenericTemplate>,
    pub method_data: Option<CsMethodData>,
    pub brief: Option<String>,
}

/// One constructor of a type model.
pub struct CsConstructor {
    pub cpp_name: String,
    pub parameters: Vec<CsParam>,
    pub template: Option<CsGenericTemplate>,
    pub brief: Option<String>,
}

/// One member of a type model.
pub enum CsMember {
    FieldDecl(CsField),
    MethodDecl(CsMethodDecl),
    Property(CsPropertyDecl),
    ConstructorDecl(CsConstructor),
    NestedUnion(CsNestedUnion),
    NestedStruct(CsNestedStruct),
    CppUsingAlias(CsUsingAlias),
    Comment(CsCommentedString),
    FieldLayout(CsFieldLayout),
}

/// A synthesized nested structure grouping members during layout.
pub struct CsNestedStruct {
    pub declaring_name: String,
    pub base_type: Option<String>,
    pub declarations: Vec<CsMember>,
    pub is_enum: bool,
    pub is_class: bool,
    pub is_private: bool,
    pub brief_comment: Option<String>,
    /// Packing override in bytes; `Some(1)` forces byte packing.
    pub packing: Option<u32>,
}

/// A synthesized union of parallel branches sharing one offset range.
pub struct CsNestedUnion {
    pub declarations: Vec<CsMember>,
    pub brief_comment: Option<String>,
    pub offset: u32,
    pub is_private: bool,
}

/// A field together with the two packing values union synthesis derives.
pub struct CsFieldLayout {
    pub field: CsField,
    /// Leading pad of the byte-exact branch, packed at one byte.
    pub padding: u32,
    /// Leading pad of the naturally-aligned branch.
    pub alignment: u32,
}


/// The rendered text of one decoded constant: booleans and integers in
/// decimal, floating-point constants as their hexadecimal bit patterns,
/// strings verbatim, blobs and null by fixed markers.
pub open spec fn value_render(v: CsValue) -> Seq<char> {
    match v {
        CsValue::Bool(b) => if b {
            "true"@
        } else {
            "false"@
        },
        CsValue::U8(x) => crate::generic_args::dec_spec(x as nat),
        CsValue::U16(x) => crate::generic_args::dec_spec(x as nat),
        CsValue::U32(x) => crate::generic_args::dec_spec(x as nat),
        CsValue::U64(x) => crate::generic_args::dec_spec(x as nat),
        CsValue::I8(x) => if x >= 0 {
            crate::generic_args::dec_spec(x as nat)
        } else {
            "-"@ + crate::generic_args::dec_spec((-(x as int)) as nat)
        },
        CsValue::I16(x) => if x >= 0 {
            crate::generic_args::dec_spec(x as nat)
        } else {
            "-"@ + crate::generic_args::dec_spec((-(x as int)) as nat)
        },
        CsValue::I32(x) => if x >= 0 {
            crate::generic_args::dec_spec(x as nat)
        } else {
            "-"@ + crate::generic_args::dec_spec((-(x as int)) as nat)
        },
        CsValue::I64(x) => if x >= 0 {
            crate::generic_args::dec_spec(x as nat)
        } else {
            "-"@ + crate::generic_args::dec_spec((-(x as int)) as nat)
        },
        CsValue::F32Bits(b) => "0x"@ + crate::cs_fields::hex_spec(b as nat),
        CsValue::F64Bits(b) => "0x"@ + crate::cs_fields::hex_spec(b as nat),
        CsValue::String(s) => s@,
        CsValue::Object(_) => "blob"@,
        CsValue::ValueType(_) => "blob"@,
        CsValue::Null => "null"@,
    }
}

/// Render one decoded constant as text.
pub fn render_value(v: &CsValue) -> (r: String)
    ensures
        r@ == value_render(*v),
{
    match v {
        CsValue::Bool(b) => {
            if *b {
                String::from_str("true")
            } else {
                String::from_str("false")
            }
        },
        CsValue::U8(x) => crate::generic_args::to_decimal_u64(*x as u64),
        CsValue::U16(x) => crate::generic_args::to_decimal_u64(*x as u64),
        CsValue::U32(x) => crate::generic_args::to_decimal_u64(*x as u64),
        CsValue::U64(x) => crate::generic_args::to_decimal_u64(*x),
        CsValue::I8(x) => render_signed(*x as i64),
        CsValue::I16(x) => render_signed(*x as i64),
        CsValue::I32(x) => render_signed(*x as i64),
        CsValue::I64(x) => render_signed(*x),
        CsValue::F32Bits(b) => {
            let mut s = String::from_str("0x");
            let hx = crate::cs_fields::to_hex(*b as u64);
            s.append(hx.as_str());
            s
        },
        CsValue::F64Bits(b) => {
            let mut s = String::from_str("0x");
            let hx = crate::cs_fields::to_hex(*b);
            s.append(hx.as_str());
            s
        },
        CsValue::String(st) => st.clone(),
        CsValue::Object(_) => String::from_str("blob"),
        CsValue::ValueType(_) => String::from_str("blob"),
        CsValue::Null => String::from_str("null"),
    }
}

/// Render a signed number in decimal.
fn render_signed(x: i64) -> (r: String)
    ensures
        x >= 0 ==> r@ == crate::generic_args::dec_spec(x as nat),
        x < 0 ==> r@ == "-"@ + crate::generic_args::dec_spec((-(x as int)) as nat),
{
    if x >= 0 {
        crate::generic_args::to_decimal_u64(x as u64)
    } else {
        let neg: i128 = -(x as i128);
        proof {
            assert(0 <= neg <= 0x8000_0000_0000_0000i128);
        }
        let mag: u64 = neg as u64;
        proof {
            assert(mag == -(x as int));
        }
        let mut s = String::from_str("-");
        let d = crate::generic_args::to_decimal_u64(mag);
        s.append(d.as_str());
        s
    }
}

} // verus!
