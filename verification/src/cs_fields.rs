use vstd::prelude::*;
use vstd::multiset::Multiset;
use vstd::string::StringExecFns;
use crate::members::CsField;
use crate::members::CsFieldType;
use crate::members::CsMember;
use crate::members::CsNestedStruct;
use crate::members::CsNestedUnion;
use crate::members::CsPropertyDecl;
use crate::members::CsValue;
use crate::metadata::Il2CppType;
use crate::builder::CsType;
use crate::tags::TypeData;

verus! {

/// The hexadecimal digit character of one value below sixteen.
pub open spec fn hex_digit_seq(d: nat) -> Seq<char> {
    if d < 10 {
        crate::generic_args::digit_seq(d)
    } else if d == 10 {
        "a"@
    } else if d == 11 {
        "b"@
    } else if d == 12 {
        "c"@
    } else if d == 13 {
        "d"@
    } else if d == 14 {
        "e"@
    } else {
        "f"@
    }
}

/// The lowercase hexadecimal rendering of a number, most significant digit
/// first.
pub open spec fn hex_spec(n: nat) -> Seq<char>
    decreases n,
{
    if n < 16 {
        hex_digit_seq(n)
    } else {
        hex_spec(n / 16) + hex_digit_seq(n % 16)
    }
}

/// Render one hexadecimal digit.
fn hex_digit_str(d: u64) -> (r: &'static str)
    requires
        d < 16,
    ensures
        r@ == hex_digit_seq(d as nat),
{
    if d == 0 {
        "0"
    } else if d == 1 {
        "1"
    } else if d == 2 {
        "2"
    } else if d == 3 {
        "3"
    } else if d == 4 {
        "4"
    } else if d == 5 {
        "5"
    } else if d == 6 {
        "6"
    } else if d == 7 {
        "7"
    } else if d == 8 {
        "8"
    } else if d == 9 {
        "9"
    } else if d == 10 {
        "a"
    } else if d == 11 {
        "b"
    } else if d == 12 {
        "c"
    } else if d == 13 {
        "d"
    } else if d == 14 {
        "e"
    } else {
        "f"
    }
}

/// Render a number in lowercase hexadecimal.
pub fn to_hex(n: u64) -> (r: String)
    ensures
        r@ == hex_spec(n as nat),
    decreases n,
{
    if n < 16 {
        String::from_str(hex_digit_str(n))
    } else {
        let mut s = to_hex(n / 16);
        s.append(hex_digit_str(n % 16));
        s
    }
}

/// One field entering layout: its declaration-level model joined with the
/// externally supplied byte size and offset.
pub struct FieldInfo {
    pub cs_field: CsField,
    /// Index of the field in the snapshot's global field table.
    pub field_index: usize,
    /// The field's raw type record.
    pub field_type: Il2CppType,
    pub is_constant: bool,
    pub is_static: bool,
    pub is_pointer: bool,
    pub offset: Option<u32>,
    pub size: u32,
}

impl Clone for FieldInfo {
    fn clone(&self) -> (r: Self)
        ensures
            csfield_like(r.cs_field, self.cs_field),
            r.field_index == self.field_index,
            r.field_type == self.field_type,
            r.is_constant == self.is_constant,
            r.is_static == self.is_static,
            r.is_pointer == self.is_pointer,
            r.offset == self.offset,
            r.size == self.size,
    {
        FieldInfo {
            cs_field: self.cs_field.clone(),
            field_index: self.field_index,
            field_type: self.field_type,
            is_constant: self.is_constant,
            is_static: self.is_static,
            is_pointer: self.is_pointer,
            offset: self.offset,
            size: self.size,
        }
    }
}

/// Value equality of two optional decoded constants.
pub open spec fn value_opt_eq(a: Option<CsValue>, b: Option<CsValue>) -> bool {
    match (a, b) {
        (Some(x), Some(y)) => x.deep_eq(&y),
        (None, None) => true,
        _ => false,
    }
}

/// Value equality of two optional strings, by view.
pub open spec fn string_opt_eq(a: Option<String>, b: Option<String>) -> bool {
    match (a, b) {
        (Some(x), Some(y)) => x@ == y@,
        (None, None) => true,
        _ => false,
    }
}

/// Value equality of two field type references.
pub open spec fn field_ty_eq(a: CsFieldType, b: CsFieldType) -> bool {
    match (a, b) {
        (CsFieldType::Data(x), CsFieldType::Data(y)) => x == y,
        (CsFieldType::Rendered(x), CsFieldType::Rendered(y)) => x@ == y@,
        _ => false,
    }
}

/// Two field declarations carry the same values everywhere.
pub open spec fn csfield_like(a: CsField, b: CsField) -> bool {
    &&& a.name@ == b.name@
    &&& field_ty_eq(a.field_ty, b.field_ty)
    &&& a.instance == b.instance
    &&& a.readonly == b.readonly
    &&& a.const_expr == b.const_expr
    &&& a.offset == b.offset
    &&& value_opt_eq(a.value, b.value)
    &&& string_opt_eq(a.brief_comment, b.brief_comment)
    &&& a.is_private == b.is_private
}

/// Like [`csfield_like`] but with the name and privacy imposed, as union
/// synthesis renames and publishes fields.
pub open spec fn csfield_like_renamed(
    a: CsField,
    b: CsField,
    name: Seq<char>,
    is_private: bool,
) -> bool {
    &&& a.name@ == name
    &&& field_ty_eq(a.field_ty, b.field_ty)
    &&& a.instance == b.instance
    &&& a.readonly == b.readonly
    &&& a.const_expr == b.const_expr
    &&& a.offset == b.offset
    &&& value_opt_eq(a.value, b.value)
    &&& string_opt_eq(a.brief_comment, b.brief_comment)
    &&& a.is_private == is_private
}

/// The name of a synthesized leading-pad field.
pub open spec fn padded_name(base: Seq<char>, off: nat) -> Seq<char> {
    base + "_padding[0x"@ + hex_spec(off) + "]"@
}

/// The name of a synthesized leading-pad field of the aligned branch.
pub open spec fn aligned_pad_name(base: Seq<char>, off: nat) -> Seq<char> {
    base + "_padding_forAlignment[0x"@ + hex_spec(off) + "]"@
}

/// The alias name the aligned branch gives the real field.
pub open spec fn aligned_field_name(base: Seq<char>) -> Seq<char> {
    base + "_forAlignment"@
}

/// A synthesized byte-array pad field of the given name at the given offset.
pub open spec fn is_pad_field(p: CsField, name: Seq<char>, off: u32, brief: Seq<char>) -> bool {
    &&& p.name@ == name
    &&& field_ty_eq(p.field_ty, p.field_ty) && (p.field_ty matches CsFieldType::Rendered(t)
        && t@ == "uint8_t"@)
    &&& p.offset == Some(off)
    &&& p.instance
    &&& !p.readonly
    &&& !p.const_expr
    &&& p.value is None
    &&& !p.is_private
    &&& string_opt_eq(p.brief_comment, p.brief_comment) && (p.brief_comment matches Some(b)
        && b@ == brief)
}

/// The byte-packed branch synthesized for one explicitly laid out field: a
/// struct packed at one byte, holding the leading pad and the field, so the
/// field sits at its exact byte offset whatever the compiler's alignment.
pub open spec fn is_packed_struct_for(s: CsNestedStruct, f: FieldInfo) -> bool {
    &&& s.declaring_name@ == Seq::<char>::empty()
    &&& s.base_type is None
    &&& !s.is_enum
    &&& !s.is_class
    &&& !s.is_private
    &&& s.packing == Some(1u32)
    &&& s.brief_comment is None
    &&& s.declarations@.len() == 2
    &&& (s.declarations@[0] matches CsMember::FieldDecl(p) && is_pad_field(
        p,
        padded_name(f.cs_field.name@, f.offset->0 as nat),
        f.offset->0,
        "Padding field 0x"@ + hex_spec(f.offset->0 as nat),
    ))
    &&& (s.declarations@[1] matches CsMember::FieldDecl(q) && csfield_like_renamed(
        q,
        f.cs_field,
        f.cs_field.name@,
        false,
    ))
}

/// The naturally-aligned branch synthesized for one explicitly laid out
/// field: the same leading pad and field, packed as the parent demands, so
/// the field keeps the alignment its real type requires.
pub open spec fn is_aligned_struct_for(s: CsNestedStruct, f: FieldInfo) -> bool {
    &&& s.declaring_name@ == Seq::<char>::empty()
    &&& s.base_type is None
    &&& !s.is_enum
    &&& !s.is_class
    &&& !s.is_private
    &&& s.packing is None
    &&& s.brief_comment is None
    &&& s.declarations@.len() == 2
    &&& (s.declarations@[0] matches CsMember::FieldDecl(p) && is_pad_field(
        p,
        aligned_pad_name(f.cs_field.name@, f.offset->0 as nat),
        f.offset->0,
        "Padding field 0x"@ + hex_spec(f.offset->0 as nat) + " for alignment"@,
    ))
    &&& (s.declarations@[1] matches CsMember::FieldDecl(q) && csfield_like_renamed(
        q,
        f.cs_field,
        aligned_field_name(f.cs_field.name@),
        false,
    ))
}

/// Synthesize the two sibling layout branches of one explicitly laid out
/// field: both share a leading pad of the field's offset; one is packed at
/// one byte to pin the exact offset, one at natural alignment to pin the
/// field type's alignment. No single packing can guarantee both at once.
pub fn field_into_offset_structs(field: &FieldInfo) -> (r: (CsNestedStruct, CsNestedStruct))
    requires
        field.offset is Some,
    ensures
        is_packed_struct_for(r.0, *field),
        is_aligned_struct_for(r.1, *field),
{
    let actual_offset = match field.offset {
        Some(o) => o,
        None => 0,
    };
    let hex = to_hex(actual_offset as u64);

    let mut packed_padding_cpp_name = field.cs_field.name.clone();
    packed_padding_cpp_name.append("_padding[0x");
    packed_padding_cpp_name.append(hex.as_str());
    packed_padding_cpp_name.append("]");

    let mut alignment_padding_cpp_name = field.cs_field.name.clone();
    alignment_padding_cpp_name.append("_padding_forAlignment[0x");
    alignment_padding_cpp_name.append(hex.as_str());
    alignment_padding_cpp_name.append("]");

    let mut alignment_cpp_name = field.cs_field.name.clone();
    alignment_cpp_name.append("_forAlignment");

    let mut packed_brief = String::from_str("Padding field 0x");
    packed_brief.append(hex.as_str());
    let mut alignment_brief = String::from_str("Padding field 0x");
    alignment_brief.append(hex.as_str());
    alignment_brief.append(" for alignment");

    let packed_padding_field = CsField {
        brief_comment: Some(packed_brief),
        const_expr: false,
        name: packed_padding_cpp_name,
        field_ty: CsFieldType::Rendered(String::from_str("uint8_t")),
        offset: Some(actual_offset),
        instance: true,
        is_private: false,
        readonly: false,
        value: None,
    };

    let alignment_padding_field = CsField {
        brief_comment: Some(alignment_brief),
        const_expr: false,
        name: alignment_padding_cpp_name,
        field_ty: CsFieldType::Rendered(String::from_str("uint8_t")),
        offset: Some(actual_offset),
        instance: true,
        is_private: false,
        readonly: false,
        value: None,
    };

    let mut alignment_field = field.cs_field.clone();
    alignment_field.name = alignment_cpp_name;
    alignment_field.is_private = false;

    let mut packed_field = field.cs_field.clone();
    packed_field.is_private = false;

    let packed_struct = CsNestedStruct {
        declaring_name: String::new(),
        base_type: None,
        declarations: vec![
            CsMember::FieldDecl(packed_padding_field),
            CsMember::FieldDecl(packed_field),
        ],
        brief_comment: None,
        is_class: false,
        is_enum: false,
        is_private: false,
        packing: Some(1),
    };

    let alignment_struct = CsNestedStruct {
        declaring_name: String::new(),
        base_type: None,
        declarations: vec![
            CsMember::FieldDecl(alignment_padding_field),
            CsMember::FieldDecl(alignment_field),
        ],
        brief_comment: None,
        is_class: false,
        is_enum: false,
        is_private: false,
        packing: None,
    };

    (packed_struct, alignment_struct)
}

/// The smallest recorded offset, or zero when no field carries one.
pub open spec fn spec_min_offset(s: Seq<FieldInfo>) -> u32
    decreases s.len(),
{
    if s.len() == 0 {
        0u32
    } else {
        let rest = spec_min_offset(s.drop_first());
        let first = s[0].offset->0;
        if s.len() == 1 {
            first
        } else if first < rest {
            first
        } else {
            rest
        }
    }
}

/// Pack every explicitly laid out field into one union: each field becomes
/// two sibling branches, byte-packed and naturally aligned, all sharing the
/// union's base offset.
pub fn pack_fields_into_single_union(fields: &Vec<FieldInfo>) -> (r: CsNestedUnion)
    requires
        forall|i: int| 0 <= i < fields@.len() ==> (#[trigger] fields@[i]).offset is Some,
    ensures
        r.offset == spec_min_offset(fields@),
        r.is_private,
        r.declarations@.len() == 2 * fields@.len(),
        forall|i: int|
            0 <= i < fields@.len() ==> ((#[trigger] r.declarations@[2 * i])
                matches CsMember::NestedStruct(s) && is_packed_struct_for(s, fields@[i])),
        forall|i: int|
            0 <= i < fields@.len() ==> ((#[trigger] r.declarations@[2 * i + 1])
                matches CsMember::NestedStruct(s) && is_aligned_struct_for(s, fields@[i])),
    {
    let min_offset = min_offset_of(fields);
    let mut declarations: Vec<CsMember> = Vec::new();
    let mut i: usize = 0;
    while i < fields.len()
        invariant
            i <= fields.len(),
            declarations@.len() == 2 * i,
            forall|j: int|
                0 <= j < i ==> ((#[trigger] declarations@[2 * j])
                    matches CsMember::NestedStruct(s) && is_packed_struct_for(s, fields@[j])),
            forall|j: int|
                0 <= j < i ==> ((#[trigger] declarations@[2 * j + 1])
                    matches CsMember::NestedStruct(s) && is_aligned_struct_for(s, fields@[j])),
            forall|j: int| 0 <= j < fields@.len() ==> (#[trigger] fields@[j]).offset is Some,
        decreases fields.len() - i,
    {
        let structs = field_into_offset_structs(&fields[i]);
        declarations.push(CsMember::NestedStruct(structs.0));
        declarations.push(CsMember::NestedStruct(structs.1));
        i += 1;
    }
    CsNestedUnion {
        brief_comment: Some(
            String::from_str("Explicitly laid out type with union based offsets"),
        ),
        declarations,
        offset: min_offset,
        is_private: true,
    }
}

/// The smallest recorded offset among the fields.
fn min_offset_of(fields: &Vec<FieldInfo>) -> (r: u32)
    requires
        forall|i: int| 0 <= i < fields@.len() ==> (#[trigger] fields@[i]).offset is Some,
    ensures
        r == spec_min_offset(fields@),
{
    let ghost all = fields@;
    if fields.len() == 0 {
        return 0;
    }
    let mut best: u32 = match fields[0].offset {
        Some(o) => o,
        None => 0,
    };
    let mut i: usize = 1;
    proof {
        lemma_min_offset_prefix(all, 1);
    }
    while i < fields.len()
        invariant
            1 <= i <= fields@.len(),
            all == fields@,
            fields@.len() >= 1,
            forall|j: int| 0 <= j < fields@.len() ==> (#[trigger] fields@[j]).offset is Some,
            best == spec_min_offset(all.take(i as int)),
        decreases fields.len() - i,
    {
        let o = match fields[i].offset {
            Some(o) => o,
            None => 0,
        };
        if o < best {
            best = o;
        }
        proof {
            lemma_min_offset_step(all, i as int);
        }
        i += 1;
    }
    proof {
        assert(all.take(all.len() as int) =~= all);
    }
    best
}

/// The minimum of a one-element prefix is its only offset.
proof fn lemma_min_offset_prefix(s: Seq<FieldInfo>, n: int)
    requires
        n == 1,
        s.len() >= 1,
    ensures
        spec_min_offset(s.take(1)) == s[0].offset->0,
{
    assert(s.take(1).len() == 1);
    assert(s.take(1)[0] == s[0]);
}

/// Extending the prefix by one element takes the smaller of the running
/// minimum and the new offset.
proof fn lemma_min_offset_step(s: Seq<FieldInfo>, i: int)
    requires
        1 <= i < s.len(),
    ensures
        spec_min_offset(s.take(i + 1)) == if s[i].offset->0 < spec_min_offset(s.take(i)) {
            s[i].offset->0
        } else {
            spec_min_offset(s.take(i))
        },
{
    lemma_min_offset_last(s.take(i + 1));
    assert(s.take(i + 1).drop_last() =~= s.take(i));
    assert(s.take(i + 1).last() == s[i]);
}

/// The minimum over a non-trivial sequence is the smaller of the minimum of
/// the front and the last offset.
proof fn lemma_min_offset_last(s: Seq<FieldInfo>)
    requires
        s.len() >= 2,
    ensures
        spec_min_offset(s) == if s.last().offset->0 < spec_min_offset(s.drop_last()) {
            s.last().offset->0
        } else {
            spec_min_offset(s.drop_last())
        },
    decreases s.len(),
{
    if s.len() == 2 {
        assert(s.drop_first().len() == 1);
        assert(s.drop_first()[0] == s[1]);
        assert(spec_min_offset(s.drop_first()) == s[1].offset->0);
        assert(s.drop_last().len() == 1);
        assert(s.drop_last()[0] == s[0]);
        assert(spec_min_offset(s.drop_last()) == s[0].offset->0);
        assert(s.last() == s[1]);
        assert(spec_min_offset(s) == if s[0].offset->0 < s[1].offset->0 {
            s[0].offset->0
        } else {
            s[1].offset->0
        });
    } else {
        lemma_min_offset_last(s.drop_first());
        assert(s.drop_first().drop_last() =~= s.drop_last().drop_first());
        assert(s.drop_first().last() == s.last());
        assert(s.drop_last()[0] == s[0]);
        assert(s.drop_last().len() >= 2);
        let a = s[0].offset->0;
        let m1 = spec_min_offset(s.drop_first());
        let m1p = spec_min_offset(s.drop_last().drop_first());
        assert(spec_min_offset(s) == if a < m1 {
            a
        } else {
            m1
        });
        assert(m1 == if s.last().offset->0 < m1p {
            s.last().offset->0
        } else {
            m1p
        });
        assert(spec_min_offset(s.drop_last()) == if a < m1p {
            a
        } else {
            m1p
        });
    }
}


/// Whether two laid-out fields' byte ranges intersect.
pub open spec fn ranges_overlap(a: FieldInfo, b: FieldInfo) -> bool {
    &&& (a.offset->0 as int) < (b.offset->0 as int) + (b.size as int)
    &&& (b.offset->0 as int) < (a.offset->0 as int) + (a.size as int)
}

/// Whether some two fields overlap.
pub open spec fn spec_field_collision(s: Seq<FieldInfo>) -> bool {
    exists|i: int, j: int| 0 <= i < j < s.len() && ranges_overlap(s[i], s[j])
}

/// Decide whether any two instance fields overlap: the trigger for
/// collision-based unionization in automatic layouts.
pub fn field_collision_check(instance_fields: &Vec<FieldInfo>) -> (r: bool)
    requires
        forall|i: int|
            0 <= i < instance_fields@.len() ==> (#[trigger] instance_fields@[i]).offset is Some,
    ensures
        r == spec_field_collision(instance_fields@),
{
    let n = instance_fields.len();
    let mut i: usize = 0;
    while i < n
        invariant
            i <= n,
            n == instance_fields@.len(),
            forall|a: int, b: int|
                0 <= a < b < instance_fields@.len() && a < i ==> !ranges_overlap(
                    instance_fields@[a],
                    instance_fields@[b],
                ),
            forall|k: int|
                0 <= k < instance_fields@.len() ==> (#[trigger] instance_fields@[k]).offset
                    is Some,
        decreases n - i,
    {
        let ai = match instance_fields[i].offset {
            Some(o) => o,
            None => 0,
        };
        let asz = instance_fields[i].size;
        let mut j: usize = i + 1;
        while j < n
            invariant
                i < j <= n,
                i < n,
                n == instance_fields@.len(),
                ai == instance_fields@[i as int].offset->0,
                asz == instance_fields@[i as int].size,
                forall|b: int|
                    i < b < j ==> !ranges_overlap(
                        instance_fields@[i as int],
                        instance_fields@[b],
                    ),
                forall|a: int, b: int|
                    0 <= a < b < instance_fields@.len() && a < i ==> !ranges_overlap(
                        instance_fields@[a],
                        instance_fields@[b],
                    ),
                forall|k: int|
                    0 <= k < instance_fields@.len() ==> (#[trigger] instance_fields@[k]).offset
                        is Some,
            decreases n - j,
        {
            let bo = match instance_fields[j].offset {
                Some(o) => o,
                None => 0,
            };
            let bsz = instance_fields[j].size;
            if (ai as u64) < bo as u64 + bsz as u64 && (bo as u64) < ai as u64 + asz as u64 {
                assert(ranges_overlap(instance_fields@[i as int], instance_fields@[j as int]));
                return true;
            }
            j += 1;
        }
        i += 1;
    }
    false
}

/// One field prepared for the layout sort: its key values beside the record.
pub struct LayoutSlot {
    pub offset: u32,
    pub size: u32,
    /// Position of the field in the original list, the final tie-breaker.
    pub idx: usize,
    pub info: FieldInfo,
}

/// Strict layout order: ascending offset, then descending size, then
/// descending original position. Distinct positions make the order total.
pub open spec fn slot_lt(a: LayoutSlot, b: LayoutSlot) -> bool {
    a.offset < b.offset || (a.offset == b.offset && (a.size > b.size || (a.size == b.size
        && a.idx > b.idx)))
}

/// Non-strict layout order.
pub open spec fn slot_le(a: LayoutSlot, b: LayoutSlot) -> bool {
    slot_lt(a, b) || (a.offset == b.offset && a.size == b.size && a.idx == b.idx)
}

/// Compare two slots in layout order.
pub fn layout_order(a: &LayoutSlot, b: &LayoutSlot) -> (r: core::cmp::Ordering)
    ensures
        (r == core::cmp::Ordering::Less) == slot_lt(*a, *b),
        (r == core::cmp::Ordering::Greater) == slot_lt(*b, *a),
        (r == core::cmp::Ordering::Equal) == (a.offset == b.offset && a.size == b.size && a.idx
            == b.idx),
{
    if a.offset < b.offset {
        core::cmp::Ordering::Less
    } else if a.offset > b.offset {
        core::cmp::Ordering::Greater
    } else if a.size > b.size {
        core::cmp::Ordering::Less
    } else if a.size < b.size {
        core::cmp::Ordering::Greater
    } else if a.idx > b.idx {
        core::cmp::Ordering::Less
    } else if a.idx < b.idx {
        core::cmp::Ordering::Greater
    } else {
        core::cmp::Ordering::Equal
    }
}

/// The field names of a slot list, as a multiset.
pub open spec fn slot_names(s: Seq<LayoutSlot>) -> Multiset<Seq<char>>
    decreases s.len(),
{
    if s.len() == 0 {
        Multiset::empty()
    } else {
        slot_names(s.drop_first()).insert(s[0].info.cs_field.name@)
    }
}

/// Relies on itertools' sorted_by: it collects the elements and sorts them
/// stably in ascending comparator order, so the result is a sorted
/// permutation of the input; every projection of the elements, the field-name
/// multiset included, is preserved.
#[verifier::external_body]
fn sorted_by_layout(v: Vec<LayoutSlot>) -> (r: Vec<LayoutSlot>)
    ensures
        r@.len() == v@.len(),
        r@.to_multiset() == v@.to_multiset(),
        slot_names(r@) == slot_names(v@),
        forall|i: int, j: int| 0 <= i < j < r@.len() ==> slot_le(#[trigger] r@[i], #[trigger] r@[j]),
{
    itertools::Itertools::sorted_by(v.into_iter(), |a, b| layout_order(a, b)).collect()
}

/// The fields grouped under one starting offset during collision-based
/// unionization: parallel branches, each a run of sequentially packed fields.
pub struct FieldInfoSet {
    pub fields: Vec<Vec<FieldInfo>>,
    pub size: u32,
    pub offset: u32,
}

impl FieldInfoSet {
    /// One past the last byte the group covers.
    pub fn max(&self) -> (r: u64)
        ensures
            r == self.size as u64 + self.offset as u64,
    {
        self.size as u64 + self.offset as u64
    }
}

/// The field names of one branch, as a multiset.
pub open spec fn branch_names(b: Seq<FieldInfo>) -> Multiset<Seq<char>>
    decreases b.len(),
{
    if b.len() == 0 {
        Multiset::empty()
    } else {
        branch_names(b.drop_last()).insert(b.last().cs_field.name@)
    }
}

/// The field names of a branch list.
pub open spec fn branches_names(bs: Seq<Vec<FieldInfo>>) -> Multiset<Seq<char>>
    decreases bs.len(),
{
    if bs.len() == 0 {
        Multiset::empty()
    } else {
        branches_names(bs.drop_last()).add(branch_names(bs.last()@))
    }
}

/// The field names grouped in one set.
pub open spec fn set_names(s: FieldInfoSet) -> Multiset<Seq<char>> {
    branches_names(s.fields@)
}

/// The field names of a list of groups.
pub open spec fn sets_names(ss: Seq<FieldInfoSet>) -> Multiset<Seq<char>>
    decreases ss.len(),
{
    if ss.len() == 0 {
        Multiset::empty()
    } else {
        sets_names(ss.drop_last()).add(set_names(ss.last()))
    }
}

/// The names of the plain field declarations in a member list.
pub open spec fn direct_field_names(ms: Seq<CsMember>) -> Multiset<Seq<char>>
    decreases ms.len(),
{
    if ms.len() == 0 {
        Multiset::empty()
    } else {
        direct_field_names(ms.drop_last()).add(
            match ms.last() {
                CsMember::FieldDecl(f) => Multiset::empty().insert(f.name@),
                _ => Multiset::empty(),
            },
        )
    }
}

/// The field names reachable one structure level down.
pub open spec fn union_level_names(ms: Seq<CsMember>) -> Multiset<Seq<char>>
    decreases ms.len(),
{
    if ms.len() == 0 {
        Multiset::empty()
    } else {
        union_level_names(ms.drop_last()).add(
            match ms.last() {
                CsMember::FieldDecl(f) => Multiset::empty().insert(f.name@),
                CsMember::NestedStruct(s) => direct_field_names(s.declarations@),
                _ => Multiset::empty(),
            },
        )
    }
}

/// The field names reachable through the layout structures a member list can
/// hold: plain fields, fields of nested structs, and fields of union branches.
pub open spec fn leaf_names(ms: Seq<CsMember>) -> Multiset<Seq<char>>
    decreases ms.len(),
{
    if ms.len() == 0 {
        Multiset::empty()
    } else {
        leaf_names(ms.drop_last()).add(
            match ms.last() {
                CsMember::FieldDecl(f) => Multiset::empty().insert(f.name@),
                CsMember::NestedStruct(s) => direct_field_names(s.declarations@),
                CsMember::NestedUnion(u) => union_level_names(u.declarations@),
                _ => Multiset::empty(),
            },
        )
    }
}

/// The field names of the fields entering layout.
pub open spec fn fieldinfo_names(s: Seq<FieldInfo>) -> Multiset<Seq<char>>
    decreases s.len(),
{
    if s.len() == 0 {
        Multiset::empty()
    } else {
        fieldinfo_names(s.drop_last()).insert(s.last().cs_field.name@)
    }
}


/// The total byte size of one branch's fields.
pub open spec fn spec_acc_size(b: Seq<FieldInfo>) -> int
    decreases b.len(),
{
    if b.len() == 0 {
        0
    } else {
        spec_acc_size(b.drop_last()) + b.last().size
    }
}

/// Sum the byte sizes of one branch.
fn accumulated_size(fields: &Vec<FieldInfo>) -> (r: u128)
    ensures
        r == spec_acc_size(fields@),
        r <= 0xffff_ffff_ffff_ffffu128 * 0xffff_ffffu128,
{
    let mut acc: u128 = 0;
    let mut i: usize = 0;
    while i < fields.len()
        invariant
            i <= fields.len(),
            acc == spec_acc_size(fields@.take(i as int)),
            acc <= i * 0xffff_ffffu128,
        decreases fields.len() - i,
    {
        proof {
            assert(fields@.take(i + 1).drop_last() =~= fields@.take(i as int));
            assert(fields@.take(i + 1).last() == fields@[i as int]);
            assert((i + 1) * 0xffff_ffffu128 == i * 0xffff_ffffu128 + 0xffff_ffffu128) by (nonlinear_arith);
            assert(i * 0xffff_ffffu128 <= (0xffff_ffff_ffff_ffffu128) * 0xffff_ffffu128) by (nonlinear_arith)
                requires i <= 0xffff_ffff_ffff_ffffu128;
        }
        acc = acc + fields[i].size as u128;
        i += 1;
    }
    proof {
        assert(fields@.take(fields@.len() as int) =~= fields@);
        assert(acc <= 0xffff_ffff_ffff_ffffu128 * 0xffff_ffffu128) by (nonlinear_arith)
            requires
                acc <= i * 0xffff_ffffu128,
                i <= 0xffff_ffff_ffff_ffffu128,
        ;
    }
    acc
}

/// Appending one slot inserts its field name into the name multiset.
proof fn lemma_slot_names_push(s: Seq<LayoutSlot>, e: LayoutSlot)
    ensures
        slot_names(s.push(e)) == slot_names(s).insert(e.info.cs_field.name@),
    decreases s.len(),
{
    if s.len() == 0 {
        assert(s.push(e)[0] == e);
        assert(s.push(e).drop_first() =~= Seq::<LayoutSlot>::empty());
        assert(slot_names(Seq::<LayoutSlot>::empty()) =~= Multiset::<Seq<char>>::empty());
        assert(slot_names(s.push(e)) == slot_names(s.push(e).drop_first()).insert(
            e.info.cs_field.name@,
        ));
        assert(slot_names(s) =~= Multiset::<Seq<char>>::empty());
    } else {
        assert(s.push(e)[0] == s[0]);
        assert(s.push(e).drop_first() =~= s.drop_first().push(e));
        lemma_slot_names_push(s.drop_first(), e);
        assert(slot_names(s.push(e)) == slot_names(s.drop_first().push(e)).insert(
            s[0].info.cs_field.name@,
        ));
        assert(slot_names(s) == slot_names(s.drop_first()).insert(s[0].info.cs_field.name@));
        assert(slot_names(s.drop_first()).insert(e.info.cs_field.name@).insert(
            s[0].info.cs_field.name@,
        ) =~= slot_names(s.drop_first()).insert(s[0].info.cs_field.name@).insert(
            e.info.cs_field.name@,
        ));
    }
}

/// Consuming the front slot removes its field name from the remainder.
proof fn lemma_slot_names_skip(s: Seq<LayoutSlot>, k: int)
    requires
        0 <= k < s.len(),
    ensures
        slot_names(s.skip(k)) == slot_names(s.skip(k + 1)).insert(s[k].info.cs_field.name@),
{
    assert(s.skip(k)[0] == s[k]);
    assert(s.skip(k).drop_first() =~= s.skip(k + 1));
}

/// One overlap group as the grouping specification carries it: its base
/// offset and its parallel branches of fields.
pub struct GroupSpec {
    pub offset: u32,
    pub branches: Seq<Seq<FieldInfo>>,
}

/// One step of the grouping fold: a slot starting past the running extent
/// opens a new group; the extent grows to cover the slot; the slot joins the
/// current group's last branch when it fits after that branch's accumulated
/// end, else it opens a new parallel branch.
pub open spec fn group_step(
    acc: Seq<GroupSpec>,
    cur_max: int,
    slot: LayoutSlot,
) -> (Seq<GroupSpec>, int) {
    let joins = acc.len() > 0 && (slot.offset as int) <= cur_max;
    let acc1 = if !joins {
        acc.push(GroupSpec { offset: slot.offset, branches: Seq::empty() })
    } else {
        acc
    };
    let mx = slot.offset as int + slot.size as int;
    let cur2 = if mx > cur_max {
        mx
    } else {
        cur_max
    };
    let g = acc1.last();
    let append_to_last = g.branches.len() > 0 && (g.offset as int) + spec_acc_size(
        g.branches.last(),
    ) <= slot.offset as int;
    let newb = if append_to_last {
        g.branches.drop_last().push(g.branches.last().push(slot.info))
    } else {
        g.branches.push(seq![slot.info])
    };
    (acc1.drop_last().push(GroupSpec { offset: g.offset, branches: newb }), cur2)
}

/// The grouping fold over the first `n` sorted slots.
pub open spec fn build_groups_rec(slots: Seq<LayoutSlot>, n: int) -> (Seq<GroupSpec>, int)
    decreases n,
{
    if n <= 0 {
        (Seq::empty(), 0)
    } else {
        let st = build_groups_rec(slots, n - 1);
        group_step(st.0, st.1, slots[n - 1])
    }
}

/// The groups the sorted slots fold into.
pub open spec fn build_groups(slots: Seq<LayoutSlot>) -> Seq<GroupSpec> {
    build_groups_rec(slots, slots.len() as int).0
}

/// The groups a set list denotes.
pub open spec fn groups_view(sets: Seq<FieldInfoSet>) -> Seq<GroupSpec> {
    Seq::new(
        sets.len(),
        |i: int|
            GroupSpec {
                offset: sets[i].offset,
                branches: Seq::new(sets[i].fields@.len(), |j: int| sets[i].fields@[j]@),
            },
    )
}

/// One emitted declaration per branch field, in order.
pub open spec fn branch_decls_match(ds: Seq<CsMember>, b: Seq<FieldInfo>) -> bool {
    &&& ds.len() == b.len()
    &&& forall|i: int|
        0 <= i < ds.len() ==> ((#[trigger] ds[i]) matches CsMember::FieldDecl(f)
            && csfield_like(f, b[i].cs_field))
}

/// The declarations of one emitted union, branch by branch: a one-field
/// branch stays a plain field; a longer branch becomes a nested struct of
/// its fields at parent packing.
pub open spec fn union_decls_match(ds: Seq<CsMember>, bs: Seq<Seq<FieldInfo>>) -> bool
    decreases bs.len(),
{
    if bs.len() == 0 {
        ds.len() == 0
    } else {
        let b = bs.last();
        &&& ds.len() >= 1
        &&& (if b.len() == 1 {
            ds.last() matches CsMember::FieldDecl(f) && csfield_like(f, b[0].cs_field)
        } else {
            ds.last() matches CsMember::NestedStruct(st) && st.packing is None
                && branch_decls_match(st.declarations@, b)
        })
        &&& union_decls_match(ds.drop_last(), bs.drop_last())
    }
}

/// How many members one group emits.
pub open spec fn group_chunk_len(g: GroupSpec) -> int {
    if g.branches.len() == 1 {
        g.branches[0].len() as int
    } else {
        1
    }
}

/// The emitted member list, group by group from the back: a single-branch
/// group emits its fields as plain declarations; a group of parallel
/// branches emits one union at the group's offset.
pub open spec fn emitted_matches(ms: Seq<CsMember>, gs: Seq<GroupSpec>) -> bool
    decreases gs.len(),
{
    if gs.len() == 0 {
        ms.len() == 0
    } else {
        let g = gs.last();
        let k = group_chunk_len(g);
        &&& ms.len() >= k
        &&& (if g.branches.len() == 1 {
            branch_decls_match(ms.skip(ms.len() - k), g.branches[0])
        } else {
            ms.last() matches CsMember::NestedUnion(u) && u.offset == g.offset
                && union_decls_match(u.declarations@, g.branches)
        })
        &&& emitted_matches(ms.take(ms.len() - k), gs.drop_last())
    }
}

/// One layout slot relates to its source field: key values drawn from it,
/// the original position as tie-breaker, the record carried by value.
pub open spec fn slot_src_like(s: LayoutSlot, f: FieldInfo, i: int) -> bool {
    &&& s.offset == f.offset->0
    &&& s.size == f.size
    &&& s.idx == i
    &&& shadow_renamed_like(s.info, f, Seq::empty())
}

/// The whole slot list, drawn from the fields pointwise.
pub open spec fn slots_match(sl: Seq<LayoutSlot>, fields: Seq<FieldInfo>) -> bool {
    &&& sl.len() == fields.len()
    &&& forall|i: int| 0 <= i < sl.len() ==> #[trigger] slot_src_like(sl[i], fields[i], i)
}

/// Names one slot list in a composed contract, so a quantifier over it has a
/// term to match on.
pub open spec fn slots_mark(sl: Seq<LayoutSlot>, sorted: Seq<LayoutSlot>) -> bool {
    true
}

/// The instance fields among a list, in order: laid out, neither static nor
/// constant.
pub open spec fn instance_entries(s: Seq<FieldInfo>) -> Seq<FieldInfo>
    decreases s.len(),
{
    if s.len() == 0 {
        Seq::empty()
    } else if is_instance_entry(s.last()) {
        instance_entries(s.drop_last()).push(s.last())
    } else {
        instance_entries(s.drop_last())
    }
}

/// One collected entry relates to its source field: identical everywhere,
/// except that a field shadowed by an already-declared property of the same
/// name is renamed with the collision prefix and made private.
pub open spec fn shadow_renamed_like(e: FieldInfo, src: FieldInfo, ms: Seq<CsMember>) -> bool {
    let shadowed = spec_property_exists(ms, src.cs_field.name@);
    &&& e.cs_field.name@ == if shadowed {
        "_cordl_"@ + src.cs_field.name@
    } else {
        src.cs_field.name@
    }
    &&& e.cs_field.is_private == if shadowed {
        true
    } else {
        src.cs_field.is_private
    }
    &&& field_ty_eq(e.cs_field.field_ty, src.cs_field.field_ty)
    &&& e.cs_field.instance == src.cs_field.instance
    &&& e.cs_field.readonly == src.cs_field.readonly
    &&& e.cs_field.const_expr == src.cs_field.const_expr
    &&& e.cs_field.offset == src.cs_field.offset
    &&& value_opt_eq(e.cs_field.value, src.cs_field.value)
    &&& string_opt_eq(e.cs_field.brief_comment, src.cs_field.brief_comment)
    &&& e.field_index == src.field_index
    &&& e.field_type == src.field_type
    &&& e.is_constant == src.is_constant
    &&& e.is_static == src.is_static
    &&& e.is_pointer == src.is_pointer
    &&& e.offset == src.offset
    &&& e.size == src.size
}

/// The collected entry list is exactly the instance fields of the input,
/// each related to its source by [`shadow_renamed_like`].
pub open spec fn entries_renamed_like(
    es: Seq<FieldInfo>,
    fields: Seq<FieldInfo>,
    ms: Seq<CsMember>,
) -> bool {
    &&& es.len() == instance_entries(fields).len()
    &&& forall|k: int|
        0 <= k < es.len() ==> #[trigger] shadow_renamed_like(
            es[k],
            instance_entries(fields)[k],
            ms,
        )
}

/// One union packs exactly these entries: its offset is their least offset,
/// and its declarations are the byte-exact and aligned branch pair of each
/// entry, in order.
pub open spec fn union_packs_entries(u: CsNestedUnion, es: Seq<FieldInfo>) -> bool {
    &&& u.offset == spec_min_offset(es)
    &&& u.is_private
    &&& u.declarations@.len() == 2 * es.len()
    &&& forall|i: int|
        0 <= i < es.len() ==> ((#[trigger] u.declarations@[2 * i])
            matches CsMember::NestedStruct(st) && is_packed_struct_for(st, es[i]))
    &&& forall|i: int|
        0 <= i < es.len() ==> ((#[trigger] u.declarations@[2 * i + 1])
            matches CsMember::NestedStruct(st) && is_aligned_struct_for(st, es[i]))
}

/// What automatic-layout emission guarantees of its output for the given
/// entries: only fields and unions come out; every entry's name appears
/// exactly once among the leaves; and entries without any overlap come out
/// as exactly the plain field declarations, in order.
pub open spec fn unionized_members_match(ms: Seq<CsMember>, es: Seq<FieldInfo>) -> bool {
    &&& leaf_names(ms) == fieldinfo_names(es)
    &&& forall|i: int|
        0 <= i < ms.len() ==> ((#[trigger] ms[i]) matches CsMember::FieldDecl(_) || ms[i]
            matches CsMember::NestedUnion(_))
    &&& !spec_field_collision(es) ==> ms.len() == es.len() && forall|i: int|
        0 <= i < ms.len() ==> ((#[trigger] ms[i]) matches CsMember::FieldDecl(f)
            && csfield_like(f, es[i].cs_field))
}

/// What emitting a type's instance fields appends: the instance entries of
/// the input, shadow-renamed against the members present beforehand, packed
/// into one union for explicit layouts and laid out per
/// [`unionized_members_match`] otherwise.
pub open spec fn instance_handler_post(
    appended: Seq<CsMember>,
    fields: Seq<FieldInfo>,
    ms0: Seq<CsMember>,
    explicit_layout: bool,
) -> bool {
    exists|es: Seq<FieldInfo>|
        #[trigger] entries_renamed_like(es, fields, ms0) && if explicit_layout {
            appended.len() == 1 && (appended[0] matches CsMember::NestedUnion(u)
                && union_packs_entries(u, es))
        } else {
            unionized_members_match(appended, es)
        }
}

/// Synthesize the member list for one instance-field set: fields stay plain
/// declarations when no two overlap; otherwise the overlapping groups become
/// unions of parallel branches, sequential runs sharing one branch. Either
/// way, every input field appears in the output exactly once.
pub fn make_or_unionize_fields(instance_fields: &Vec<FieldInfo>) -> (r: Vec<CsMember>)
    requires
        forall|i: int|
            0 <= i < instance_fields@.len() ==> (#[trigger] instance_fields@[i]).offset is Some,
    ensures
        unionized_members_match(r@, instance_fields@),
        spec_field_collision(instance_fields@) ==> exists|sl: Seq<LayoutSlot>, sorted: Seq<
            LayoutSlot,
        >|
            #![trigger slots_mark(sl, sorted)]
            {
                &&& slots_match(sl, instance_fields@)
                &&& sorted.len() == sl.len()
                &&& sorted.to_multiset() == sl.to_multiset()
                &&& (forall|i: int, j: int|
                    0 <= i < j < sorted.len() ==> slot_le(sorted[i], sorted[j]))
                &&& emitted_matches(r@, build_groups(sorted))
            },
{
    if !field_collision_check(instance_fields) {
        let mut out: Vec<CsMember> = Vec::new();
        let mut i: usize = 0;
        while i < instance_fields.len()
            invariant
                i <= instance_fields@.len(),
                out@.len() == i,
                forall|j: int|
                    0 <= j < i ==> ((#[trigger] out@[j]) matches CsMember::FieldDecl(f)
                        && csfield_like(f, instance_fields@[j].cs_field)),
                leaf_names(out@) == fieldinfo_names(instance_fields@.take(i as int)),
            decreases instance_fields.len() - i,
        {
            let ghost pre = out@;
            out.push(CsMember::FieldDecl(instance_fields[i].cs_field.clone()));
            proof {
                assert(out@.drop_last() =~= pre);
                assert(instance_fields@.take(i + 1).drop_last() =~= instance_fields@.take(
                    i as int,
                ));
                assert(instance_fields@.take(i + 1).last() == instance_fields@[i as int]);
            }
            i += 1;
        }
        proof {
            assert(instance_fields@.take(instance_fields@.len() as int) =~= instance_fields@);
        }
        return out;
    }

    let mut slots: Vec<LayoutSlot> = Vec::new();
    let mut i: usize = 0;
    while i < instance_fields.len()
        invariant
            i <= instance_fields@.len(),
            forall|j: int|
                0 <= j < instance_fields@.len() ==> (#[trigger] instance_fields@[j]).offset
                    is Some,
            slot_names(slots@) == fieldinfo_names(instance_fields@.take(i as int)),
            slots@.len() == i,
            forall|j: int|
                0 <= j < i ==> #[trigger] slot_src_like(slots@[j], instance_fields@[j], j),
        decreases instance_fields.len() - i,
    {
        let off = match instance_fields[i].offset {
            Some(o) => o,
            None => 0,
        };
        let slot = LayoutSlot {
            offset: off,
            size: instance_fields[i].size,
            idx: i,
            info: instance_fields[i].clone(),
        };
        let ghost pre = slots@;
        let ghost name = slot.info.cs_field.name@;
        slots.push(slot);
        proof {
            assert(slot_src_like(slots@.last(), instance_fields@[i as int], i as int));
            lemma_slot_names_push(pre, slots@.last());
            assert(instance_fields@.take(i + 1).drop_last() =~= instance_fields@.take(i as int));
            assert(instance_fields@.take(i + 1).last() == instance_fields@[i as int]);
        }
        i += 1;
    }
    proof {
        assert(instance_fields@.take(instance_fields@.len() as int) =~= instance_fields@);
    }
    let ghost total = fieldinfo_names(instance_fields@);
    let ghost slots_view = slots@;
    let mut sorted = sorted_by_layout(slots);
    let ghost sorted0 = sorted@;

    let mut sets: Vec<FieldInfoSet> = Vec::new();
    let mut current_max: u64 = 0;
    let ghost mut k: int = 0;
    proof {
        assert(sorted0.skip(0) =~= sorted0);
        assert(groups_view(sets@) =~= build_groups_rec(sorted0, 0).0);
    }
    while sorted.len() > 0
        invariant
            0 <= k <= sorted0.len(),
            sorted@ == sorted0.skip(k),
            slot_names(sorted0) == total,
            sets_names(sets@).add(slot_names(sorted@)) =~= total,
            groups_view(sets@) == build_groups_rec(sorted0, k).0,
            current_max as int == build_groups_rec(sorted0, k).1,
        decreases sorted.len(),
    {
        let ghost pre_consume = sorted@;
        let slot = sorted.remove(0);
        proof {
            assert(pre_consume[0] == sorted0[k]);
            assert(sorted@ =~= sorted0.skip(k + 1));
        }
        let off = slot.offset;
        let size = slot.size;
        let ghost name = slot.info.cs_field.name@;
        let ghost st = build_groups_rec(sorted0, k);
        let ghost stepped = group_step(st.0, st.1, sorted0[k]);
        let mx: u64 = off as u64 + size as u64;
        let joins = sets.len() > 0 && (off as u64) <= current_max;
        let ghost sets_start = sets@;
        if !joins {
            let ghost pre_sets = sets@;
            sets.push(FieldInfoSet { fields: Vec::new(), offset: off, size });
            proof {
                assert(sets@.drop_last() =~= pre_sets);
                assert(branches_names(Seq::<Vec<FieldInfo>>::empty()) =~= Multiset::<
                    Seq<char>,
                >::empty());
                assert(set_names(sets@.last()) =~= Multiset::<Seq<char>>::empty());
                assert(sets_names(sets@) =~= sets_names(pre_sets));
            }
        }
        proof {
            // the exec list now denotes the fold's intermediate accumulator
            let acc1 = if !(st.0.len() > 0 && (sorted0[k].offset as int) <= st.1) {
                st.0.push(GroupSpec { offset: sorted0[k].offset, branches: Seq::empty() })
            } else {
                st.0
            };
            assert forall|t: int| 0 <= t < sets@.len() implies groups_view(sets@)[t] == acc1[t] by {
                if t < sets_start.len() {
                    assert(groups_view(sets_start)[t] == groups_view(sets@)[t]);
                } else {
                    assert(groups_view(sets@)[t].branches =~= Seq::<Seq<FieldInfo>>::empty());
                }
            }
            assert(groups_view(sets@) =~= acc1);
        }
        if mx > current_max {
            current_max = mx;
        }
        let ghost sets_before = sets@;
        let mut c = match sets.pop() {
            Some(c) => c,
            None => {
                proof {
                    assert(false);
                }
                FieldInfoSet { fields: Vec::new(), offset: 0, size: 0 }
            },
        };
        let ghost c0 = c;
        if current_max > c.max() {
            let span64: u64 = current_max - c.offset as u64;
            c.size = if span64 > 0xffff_ffffu64 {
                0xffff_ffffu32
            } else {
                span64 as u32
            };
        }
        proof {
            assert(set_names(c) == set_names(c0));
        }
        let append_to_last = if c.fields.len() == 0 {
            false
        } else {
            let last_acc = accumulated_size(&c.fields[c.fields.len() - 1]);
            c.offset as u128 + last_acc <= off as u128
        };
        proof {
            let g = groups_view(sets_before).last();
            assert(g.offset == c.offset);
            assert(g.branches.len() == c.fields@.len());
            if c.fields@.len() > 0 {
                assert(g.branches.last() =~= c.fields@.last()@);
            }
        }
        if append_to_last {
            let ghost branches0 = c.fields@;
            let mut b = match c.fields.pop() {
                Some(b) => b,
                None => {
                    proof {
                        assert(false);
                    }
                    Vec::new()
                },
            };
            let ghost b0 = b@;
            b.push(slot.info);
            proof {
                assert(b@.drop_last() =~= b0);
                assert(b@.last().cs_field.name@ == name);
                assert(branch_names(b@) == branch_names(b0).insert(name));
            }
            let ghost fields_mid = c.fields@;
            c.fields.push(b);
            proof {
                assert(fields_mid =~= branches0.drop_last());
                assert(c.fields@.drop_last() =~= branches0.drop_last());
                assert(c.fields@.last()@.drop_last() =~= branches0.last()@);
                assert(c.fields@.last()@ =~= branches0.last()@.push(sorted0[k].info));
                assert(branch_names(c.fields@.last()@) == branch_names(branches0.last()@).insert(
                    name,
                ));
                assert(branches_names(c.fields@) =~= branches_names(branches0).insert(name));
                assert(set_names(c) =~= set_names(c0).insert(name));
            }
        } else {
            let mut b: Vec<FieldInfo> = Vec::new();
            b.push(slot.info);
            let ghost branches0 = c.fields@;
            c.fields.push(b);
            proof {
                assert(c.fields@.drop_last() =~= branches0);
                assert(c.fields@.last()@.len() == 1);
                assert(c.fields@.last()@.drop_last() =~= Seq::<FieldInfo>::empty());
                assert(c.fields@.last()@ =~= seq![sorted0[k].info]);
                assert(c.fields@.last()@.last().cs_field.name@ == name);
                assert(branch_names(c.fields@.last()@.drop_last()) =~= Multiset::<
                    Seq<char>,
                >::empty());
                assert(branch_names(c.fields@.last()@) =~= Multiset::<Seq<char>>::empty().insert(
                    name,
                ));
                assert(branches_names(c.fields@) =~= branches_names(branches0).insert(name));
                assert(set_names(c) =~= set_names(c0).insert(name));
            }
        }
        let ghost sets_mid = sets@;
        sets.push(c);
        proof {
            assert(sets_mid =~= sets_before.drop_last());
            assert(sets@.drop_last() =~= sets_before.drop_last());
            assert(sets@.last() == c);
            assert(set_names(c) =~= set_names(sets_before.last()).insert(name));
            assert(sets_names(sets@) =~= sets_names(sets_before).insert(name));
            assert(slot_names(pre_consume) == slot_names(sorted@).insert(name));
            assert(sets_names(sets@).add(slot_names(sorted@)) =~= sets_names(sets_before).add(
                slot_names(pre_consume),
            ));
            // the fold step lands on the same groups
            assert(stepped == build_groups_rec(sorted0, k + 1));
            assert forall|t: int| 0 <= t < sets@.len() implies groups_view(sets@)[t]
                == stepped.0[t] by {
                if t < sets@.len() - 1 {
                    assert(groups_view(sets_before)[t] == groups_view(sets@)[t]);
                } else {
                    assert(groups_view(sets@)[t].offset == c.offset);
                    assert(groups_view(sets@)[t].branches =~~= stepped.0[t].branches);
                }
            }
            assert(groups_view(sets@) =~= stepped.0);
            assert(current_max as int == stepped.1);
            k = k + 1;
        }
    }
    proof {
        assert(slot_names(sorted@) =~= Multiset::<Seq<char>>::empty());
        assert(sets_names(sets@) =~= total);
        assert(k == sorted0.len());
        assert(groups_view(sets@) == build_groups(sorted0));
    }
    let mut out: Vec<CsMember> = Vec::new();
    let mut w: usize = 0;
    proof {
        assert(groups_view(sets@.take(0)).len() == 0);
        assert(emitted_matches(Seq::<CsMember>::empty(), groups_view(sets@.take(0))));
    }
    while w < sets.len()
        invariant
            w <= sets@.len(),
            sets_names(sets@) =~= total,
            leaf_names(out@) == sets_names(sets@.take(w as int)),
            emitted_matches(out@, groups_view(sets@.take(w as int))),
            groups_view(sets@) == build_groups(sorted0),
            forall|i: int|
                0 <= i < out@.len() ==> ((#[trigger] out@[i]) matches CsMember::FieldDecl(_)
                    || out@[i] matches CsMember::NestedUnion(_)),
        decreases sets.len() - w,
    {
        let fs = &sets[w];
        let ghost out_pre = out@;
        if fs.fields.len() == 1 {
            let branch = &fs.fields[0];
            let mut t: usize = 0;
            while t < branch.len()
                invariant
                    t <= branch@.len(),
                    branch@ == sets@[w as int].fields@[0]@,
                    w < sets@.len(),
                    out@.len() == out_pre.len() + t,
                    out@.subrange(0, out_pre.len() as int) == out_pre,
                    branch_decls_match(
                        out@.skip(out_pre.len() as int),
                        branch@.take(t as int),
                    ),
                    leaf_names(out@) == leaf_names(out_pre).add(
                        branch_names(branch@.take(t as int)),
                    ),
                    forall|i: int|
                        0 <= i < out@.len() ==> ((#[trigger] out@[i])
                            matches CsMember::FieldDecl(_) || out@[i]
                            matches CsMember::NestedUnion(_)),
                decreases branch.len() - t,
            {
                let ghost pre = out@;
                out.push(CsMember::FieldDecl(branch[t].cs_field.clone()));
                proof {
                    assert(out@.drop_last() =~= pre);
                    assert(out@.subrange(0, out_pre.len() as int) =~= pre.subrange(
                        0,
                        out_pre.len() as int,
                    ));
                    assert(out@.skip(out_pre.len() as int) =~= pre.skip(
                        out_pre.len() as int,
                    ).push(out@.last()));
                    assert(branch@.take(t + 1) =~= branch@.take(t as int).push(
                        branch@[t as int],
                    ));
                    assert(branch_decls_match(
                        out@.skip(out_pre.len() as int),
                        branch@.take(t + 1),
                    ));
                    assert(branch@.take(t + 1).drop_last() =~= branch@.take(t as int));
                    assert(branch@.take(t + 1).last() == branch@[t as int]);
                    assert(leaf_names(out@) =~= leaf_names(pre).insert(
                        branch@[t as int].cs_field.name@,
                    ));
                    assert(leaf_names(pre).insert(branch@[t as int].cs_field.name@)
                        =~= leaf_names(out_pre).add(branch_names(branch@.take(t + 1))));
                }
                t += 1;
            }
            proof {
                assert(branch@.take(branch@.len() as int) =~= branch@);
                let bs = sets@[w as int].fields@;
                assert(bs.len() == 1);
                assert(bs.drop_last().len() == 0);
                assert(branches_names(bs.drop_last()) =~= Multiset::<Seq<char>>::empty());
                assert(branches_names(bs) == branches_names(bs.drop_last()).add(
                    branch_names(bs.last()@),
                ));
                assert(branches_names(bs) =~= branch_names(bs.last()@));
                assert(bs.last()@ == branch@);
                assert(leaf_names(out@) =~= leaf_names(out_pre).add(
                    set_names(sets@[w as int]),
                ));
                // one chunk of plain declarations, matching the group
                let gs1 = groups_view(sets@.take(w + 1));
                assert(gs1.drop_last() =~= groups_view(sets@.take(w as int)));
                assert(gs1.last().branches.len() == 1);
                assert(gs1.last().branches[0] =~= branch@);
                assert(out@.take(out_pre.len() as int) =~= out_pre);
                assert(out@.skip(out_pre.len() as int) =~= out@.skip(
                    out@.len() - group_chunk_len(gs1.last()),
                ));
                assert(emitted_matches(out@, gs1));
            }
        } else {
            let mut decls: Vec<CsMember> = Vec::new();
            let mut q: usize = 0;
            while q < fs.fields.len()
                invariant
                    q <= fs.fields@.len(),
                    fs.fields@ == sets@[w as int].fields@,
                    w < sets@.len(),
                    union_level_names(decls@) == branches_names(fs.fields@.take(q as int)),
                    union_decls_match(
                        decls@,
                        groups_view(sets@)[w as int].branches.take(q as int),
                    ),
                decreases fs.fields.len() - q,
            {
                let branch = &fs.fields[q];
                let ghost decls_pre = decls@;
                if branch.len() == 1 {
                    decls.push(CsMember::FieldDecl(branch[0].cs_field.clone()));
                    proof {
                        assert(decls@.drop_last() =~= decls_pre);
                        let b = fs.fields@.take(q + 1).last()@;
                        assert(fs.fields@.take(q + 1).drop_last() =~= fs.fields@.take(q as int));
                        assert(fs.fields@.take(q + 1).last() == fs.fields@[q as int]);
                        assert(b.len() == 1);
                        assert(b.drop_last().len() == 0);
                        assert(branch_names(b.drop_last()) =~= Multiset::<Seq<char>>::empty());
                        assert(branch_names(b) =~= Multiset::<Seq<char>>::empty().insert(
                            b.last().cs_field.name@,
                        ));
                        assert(b.last() == branch@[0]);
                        assert(union_level_names(decls@) =~= branches_names(
                            fs.fields@.take(q + 1),
                        ));
                        let gb = groups_view(sets@)[w as int].branches;
                        assert(gb.take(q + 1).drop_last() =~= gb.take(q as int));
                        assert(gb.take(q + 1).last() =~= branch@);
                        assert(union_decls_match(decls@, gb.take(q + 1)));
                    }
                } else {
                    let mut inner: Vec<CsMember> = Vec::new();
                    let mut t: usize = 0;
                    while t < branch.len()
                        invariant
                            t <= branch@.len(),
                            branch@ == sets@[w as int].fields@[q as int]@,
                            q < sets@[w as int].fields@.len(),
                            w < sets@.len(),
                            direct_field_names(inner@) == branch_names(branch@.take(t as int)),
                            branch_decls_match(inner@, branch@.take(t as int)),
                        decreases branch.len() - t,
                    {
                        let ghost pre = inner@;
                        inner.push(CsMember::FieldDecl(branch[t].cs_field.clone()));
                        proof {
                            assert(inner@.drop_last() =~= pre);
                            assert(branch@.take(t + 1).drop_last() =~= branch@.take(t as int));
                            assert(branch@.take(t + 1).last() == branch@[t as int]);
                            assert(branch@.take(t + 1) =~= branch@.take(t as int).push(
                                branch@[t as int],
                            ));
                            assert(branch_decls_match(inner@, branch@.take(t + 1)));
                            assert(direct_field_names(inner@) =~= branch_names(
                                branch@.take(t + 1),
                            ));
                        }
                        t += 1;
                    }
                    proof {
                        assert(branch@.take(branch@.len() as int) =~= branch@);
                    }
                    let mut brief = String::from_str("Anonymous struct offset 0x");
                    let hx = to_hex(fs.offset as u64);
                    brief.append(hx.as_str());
                    brief.append(", size 0x");
                    let hs = to_hex(fs.size as u64);
                    brief.append(hs.as_str());
                    decls.push(
                        CsMember::NestedStruct(
                            CsNestedStruct {
                                base_type: None,
                                declaring_name: String::new(),
                                is_enum: false,
                                is_class: false,
                                is_private: false,
                                declarations: inner,
                                brief_comment: Some(brief),
                                packing: None,
                            },
                        ),
                    );
                    proof {
                        assert(decls@.drop_last() =~= decls_pre);
                        assert(fs.fields@.take(q + 1).drop_last() =~= fs.fields@.take(q as int));
                        assert(fs.fields@.take(q + 1).last() == fs.fields@[q as int]);
                        assert(union_level_names(decls@) =~= branches_names(
                            fs.fields@.take(q + 1),
                        ));
                        let gb = groups_view(sets@)[w as int].branches;
                        assert(gb.take(q + 1).drop_last() =~= gb.take(q as int));
                        assert(gb.take(q + 1).last() =~= branch@);
                        assert(branch_decls_match(inner@, branch@));
                        assert(union_decls_match(decls@, gb.take(q + 1)));
                    }
                }
                q += 1;
            }
            proof {
                assert(fs.fields@.take(fs.fields@.len() as int) =~= fs.fields@);
            }
            let mut brief = String::from_str("Anonymous union offset 0x");
            let hx = to_hex(fs.offset as u64);
            brief.append(hx.as_str());
            brief.append(", size 0x");
            let hs = to_hex(fs.size as u64);
            brief.append(hs.as_str());
            out.push(
                CsMember::NestedUnion(
                    CsNestedUnion {
                        brief_comment: Some(brief),
                        declarations: decls,
                        offset: fs.offset,
                        is_private: false,
                    },
                ),
            );
            proof {
                assert(out@.drop_last() =~= out_pre);
                assert(leaf_names(out@) =~= leaf_names(out_pre).add(
                    set_names(sets@[w as int]),
                ));
                let gs1 = groups_view(sets@.take(w + 1));
                assert(gs1.drop_last() =~= groups_view(sets@.take(w as int)));
                let gb = groups_view(sets@)[w as int].branches;
                assert(gb.take(gb.len() as int) =~= gb);
                assert(gs1.last().branches =~= gb);
                assert(union_decls_match(decls@, gs1.last().branches));
                assert(gs1.last().branches.len() != 1);
                assert(group_chunk_len(gs1.last()) == 1);
                assert(out@.take(out@.len() - 1) =~= out_pre);
                assert(emitted_matches(out@, gs1));
            }
        }
        proof {
            assert(sets@.take(w + 1).drop_last() =~= sets@.take(w as int));
            assert(sets@.take(w + 1).last() == sets@[w as int]);
            assert(leaf_names(out@) =~= sets_names(sets@.take(w + 1)));
        }
        w += 1;
    }
    proof {
        assert(sets@.take(sets@.len() as int) =~= sets@);
        assert(leaf_names(out@) =~= fieldinfo_names(instance_fields@));
        assert(instance_fields@.take(instance_fields@.len() as int) =~= instance_fields@);
        assert(slots_match(slots_view, instance_fields@));
        assert(slots_mark(slots_view, sorted0));
        assert(groups_view(sets@.take(sets@.len() as int)) =~= groups_view(sets@));
        assert(emitted_matches(out@, build_groups(sorted0)));
    }
    out
}


/// The backing-field name of a field hidden behind a synthesized property.
pub open spec fn backing_name(base: Seq<char>) -> Seq<char> {
    "___"@ + base
}

/// Rename a field to its property-backing form.
pub fn fixup_backing_field(name: &String) -> (r: String)
    ensures
        r@ == backing_name(name@),
{
    let mut s = String::from_str("___");
    s.append(name.as_str());
    s
}

/// The property declaration synthesized over one instance field: accessor
/// names only; accessor bodies live among the method members.
pub fn prop_decl_from_fieldinfo(field_info: &FieldInfo) -> (r: CsPropertyDecl)
    ensures
        r.name@ == field_info.cs_field.name@,
        (match field_info.cs_field.field_ty {
            CsFieldType::Data(d) => r.prop_ty == d,
            CsFieldType::Rendered(_) => r.prop_ty == TypeData::ArrayType,
        }),
        r.instance,
        !r.indexable,
        (r.getter matches Some(g) && g@ == "__get_"@ + field_info.cs_field.name@),
        (r.setter matches Some(t) && t@ == "__set_"@ + field_info.cs_field.name@),
        r.brief_comment is None,
{
    let prop_ty = match field_info.cs_field.field_ty {
        CsFieldType::Data(d) => d,
        CsFieldType::Rendered(_) => TypeData::ArrayType,
    };
    let mut getter = String::from_str("__get_");
    getter.append(field_info.cs_field.name.as_str());
    let mut setter = String::from_str("__set_");
    setter.append(field_info.cs_field.name.as_str());
    CsPropertyDecl {
        name: field_info.cs_field.name.clone(),
        prop_ty,
        instance: true,
        getter: Some(getter),
        setter: Some(setter),
        indexable: false,
        brief_comment: None,
    }
}

/// The instance fields among a field list: laid out, neither static nor
/// constant.
pub open spec fn is_instance_entry(f: FieldInfo) -> bool {
    f.offset is Some && !f.is_static && !f.is_constant
}

/// Whether a member list declares a property of this name.
pub open spec fn spec_property_exists(ms: Seq<CsMember>, name: Seq<char>) -> bool {
    exists|i: int|
        0 <= i < ms.len() && ((#[trigger] ms[i]) matches CsMember::Property(p) && p.name@ == name)
}

/// Whether a property of this name is already declared.
fn property_exists(members: &Vec<CsMember>, name: &String) -> (r: bool)
    ensures
        r == spec_property_exists(members@, name@),
{
    let mut i: usize = 0;
    while i < members.len()
        invariant
            i <= members@.len(),
            forall|j: int|
                0 <= j < i ==> !((#[trigger] members@[j]) matches CsMember::Property(p) && p.name@
                    == name@),
        decreases members.len() - i,
    {
        match &members[i] {
            CsMember::Property(p) => {
                if p.name.eq(name) {
                    assert((members@[i as int]) matches CsMember::Property(q) && q.name@ == name@);
                    return true;
                }
            },
            _ => {},
        }
        i += 1;
    }
    false
}

/// Emit this type's instance fields: explicitly laid out types pack into one
/// union of byte-exact and aligned branches; automatic layouts emit plain
/// fields, grouped into unions only where offsets collide. A field shadowed
/// by a property of the same name is renamed and made private first.
pub fn handle_instance_fields(
    cs_type: &mut CsType,
    fields: &Vec<FieldInfo>,
    explicit_layout: bool,
)
    ensures
        final(cs_type).members@.len() >= old(cs_type).members@.len(),
        final(cs_type).members@.subrange(0, old(cs_type).members@.len() as int) == old(
            cs_type,
        ).members@,
        *final(cs_type) == (CsType {
            members: final(cs_type).members,
            ..*old(cs_type)
        }),
        instance_handler_post(
            final(cs_type).members@.skip(old(cs_type).members@.len() as int),
            fields@,
            old(cs_type).members@,
            explicit_layout,
        ),
{
    let ghost members0 = cs_type.members@;
    let mut instance_field_decls: Vec<FieldInfo> = Vec::new();
    let mut i: usize = 0;
    #[verifier::loop_isolation(false)]
    while i < fields.len()
        invariant
            i <= fields@.len(),
            *cs_type == *old(cs_type),
            forall|j: int|
                0 <= j < instance_field_decls@.len() ==> (
                #[trigger] instance_field_decls@[j]).offset is Some,
            entries_renamed_like(
                instance_field_decls@,
                fields@.take(i as int),
                members0,
            ),
        decreases fields.len() - i,
    {
        proof {
            assert(fields@.take(i + 1).drop_last() =~= fields@.take(i as int));
            assert(fields@.take(i + 1).last() == fields@[i as int]);
        }
        let f = &fields[i];
        if f.offset.is_some() && !f.is_static && !f.is_constant {
            let mut d = f.clone();
            if property_exists(&cs_type.members, &d.cs_field.name) {
                let mut renamed = String::from_str("_cordl_");
                renamed.append(d.cs_field.name.as_str());
                d.cs_field.name = renamed;
                d.cs_field.is_private = true;
            }
            instance_field_decls.push(d);
            proof {
                assert(is_instance_entry(fields@[i as int]));
                assert(shadow_renamed_like(
                    instance_field_decls@.last(),
                    fields@[i as int],
                    members0,
                ));
                assert(instance_entries(fields@.take(i + 1)) == instance_entries(
                    fields@.take(i as int),
                ).push(fields@[i as int]));
            }
        } else {
            proof {
                assert(!is_instance_entry(fields@[i as int]));
                assert(instance_entries(fields@.take(i + 1)) == instance_entries(
                    fields@.take(i as int),
                ));
            }
        }
        i += 1;
    }
    proof {
        assert(fields@.take(fields@.len() as int) =~= fields@);
    }

    if explicit_layout {
        let u = pack_fields_into_single_union(&instance_field_decls);
        let ghost uspec = u;
        cs_type.members.push(CsMember::NestedUnion(u));
        proof {
            assert(cs_type.members@.subrange(0, members0.len() as int) =~= members0);
            let appended = cs_type.members@.skip(members0.len() as int);
            assert(appended =~= seq![cs_type.members@.last()]);
            assert(union_packs_entries(uspec, instance_field_decls@));
            assert(entries_renamed_like(instance_field_decls@, fields@, members0)
                && appended.len() == 1 && (appended[0] matches CsMember::NestedUnion(uu)
                && union_packs_entries(uu, instance_field_decls@)));
            assert(instance_handler_post(appended, fields@, members0, explicit_layout));
        }
    } else {
        let mut emitted = make_or_unionize_fields(&instance_field_decls);
        let ghost em = emitted@;
        cs_type.members.append(&mut emitted);
        proof {
            assert(cs_type.members@.subrange(0, members0.len() as int) =~= members0);
            let appended = cs_type.members@.skip(members0.len() as int);
            assert(appended =~= em);
            assert(entries_renamed_like(instance_field_decls@, fields@, members0)
                && unionized_members_match(appended, instance_field_decls@));
            assert(instance_handler_post(appended, fields@, members0, explicit_layout));
        }
    }
}


/// The non-static, non-constant fields of a list, in order: the fields the
/// property synthesis walks.
pub open spec fn prop_entries(s: Seq<FieldInfo>) -> Seq<FieldInfo>
    decreases s.len(),
{
    if s.len() == 0 {
        Seq::empty()
    } else if !s.last().is_constant && !s.last().is_static {
        prop_entries(s.drop_last()).push(s.last())
    } else {
        prop_entries(s.drop_last())
    }
}

/// The property synthesized over one instance field: same name, accessor
/// names derived from it, never indexable.
pub open spec fn field_prop_like(pm: CsPropertyDecl, src: FieldInfo) -> bool {
    &&& pm.name@ == src.cs_field.name@
    &&& pm.instance
    &&& !pm.indexable
    &&& (pm.getter matches Some(g) && g@ == "__get_"@ + src.cs_field.name@)
    &&& (pm.setter matches Some(t) && t@ == "__set_"@ + src.cs_field.name@)
    &&& pm.brief_comment is None
    &&& match src.cs_field.field_ty {
        CsFieldType::Data(d) => pm.prop_ty == d,
        CsFieldType::Rendered(_) => pm.prop_ty == TypeData::ArrayType,
    }
}

/// One backing field relates to its source: identical everywhere, except
/// that its name takes the property-backing prefix.
pub open spec fn fieldinfo_backing_like(e: FieldInfo, src: FieldInfo) -> bool {
    &&& e.cs_field.name@ == backing_name(src.cs_field.name@)
    &&& e.cs_field.is_private == src.cs_field.is_private
    &&& field_ty_eq(e.cs_field.field_ty, src.cs_field.field_ty)
    &&& e.cs_field.instance == src.cs_field.instance
    &&& e.cs_field.readonly == src.cs_field.readonly
    &&& e.cs_field.const_expr == src.cs_field.const_expr
    &&& e.cs_field.offset == src.cs_field.offset
    &&& value_opt_eq(e.cs_field.value, src.cs_field.value)
    &&& string_opt_eq(e.cs_field.brief_comment, src.cs_field.brief_comment)
    &&& e.field_index == src.field_index
    &&& e.field_type == src.field_type
    &&& e.is_constant == src.is_constant
    &&& e.is_static == src.is_static
    &&& e.is_pointer == src.is_pointer
    &&& e.offset == src.offset
    &&& e.size == src.size
}

/// The whole field list, backing-renamed pointwise.
pub open spec fn backing_renamed_like(bs: Seq<FieldInfo>, fields: Seq<FieldInfo>) -> bool {
    &&& bs.len() == fields.len()
    &&& forall|k: int|
        0 <= k < bs.len() ==> #[trigger] fieldinfo_backing_like(bs[k], fields[k])
}

/// Why layout aborted for the affected type.
#[derive(Debug)]
pub enum LayoutError {
    /// The type reached layout without any usable size information: fatal
    /// for the type, and transitively for anything embedding it by value.
    MissingSizeInfo,
}

/// Emit a value type's fields. Explicit layouts first surface each instance
/// field as a property over a renamed private backing field, then pack the
/// backing fields into one union; automatic layouts emit fields directly.
pub fn handle_valuetype_fields(
    cs_type: &mut CsType,
    fields: &Vec<FieldInfo>,
    explicit_layout: bool,
)
    ensures
        final(cs_type).members@.len() >= old(cs_type).members@.len(),
        final(cs_type).members@.subrange(0, old(cs_type).members@.len() as int) == old(
            cs_type,
        ).members@,
        *final(cs_type) == (CsType { members: final(cs_type).members, ..*old(cs_type) }),
        !explicit_layout ==> instance_handler_post(
            final(cs_type).members@.skip(old(cs_type).members@.len() as int),
            fields@,
            old(cs_type).members@,
            false,
        ),
        explicit_layout ==> final(cs_type).members@.len() >= old(cs_type).members@.len()
            + prop_entries(fields@).len() && (forall|k: int|
            0 <= k < prop_entries(fields@).len() ==> ((#[trigger] final(cs_type).members@[old(
                cs_type,
            ).members@.len() + k]) matches CsMember::Property(pm) && field_prop_like(
                pm,
                prop_entries(fields@)[k],
            ))) && (exists|bs: Seq<FieldInfo>|
            #[trigger] backing_renamed_like(bs, fields@) && instance_handler_post(
                final(cs_type).members@.skip(
                    old(cs_type).members@.len() + prop_entries(fields@).len() as int,
                ),
                bs,
                final(cs_type).members@.take(
                    old(cs_type).members@.len() + prop_entries(fields@).len() as int,
                ),
                true,
            )),
{
    if explicit_layout {
    let ghost members0 = cs_type.members@;
    let mut i: usize = 0;
    #[verifier::loop_isolation(false)]
    while i < fields.len()
        invariant
            i <= fields@.len(),
            cs_type.members@.len() == members0.len() + prop_entries(fields@.take(i as int)).len(),
            cs_type.members@.subrange(0, members0.len() as int) == members0,
            *cs_type == (CsType { members: cs_type.members, ..*old(cs_type) }),
            forall|k: int|
                0 <= k < prop_entries(fields@.take(i as int)).len() ==> ((
                #[trigger] cs_type.members@[members0.len() + k]) matches CsMember::Property(pm)
                    && field_prop_like(pm, prop_entries(fields@.take(i as int))[k])),
        decreases fields.len() - i,
    {
        proof {
            assert(fields@.take(i + 1).drop_last() =~= fields@.take(i as int));
            assert(fields@.take(i + 1).last() == fields@[i as int]);
        }
        let f = &fields[i];
        if !f.is_constant && !f.is_static {
            let prop = prop_decl_from_fieldinfo(f);
            let ghost pre = cs_type.members@;
            cs_type.members.push(CsMember::Property(prop));
            proof {
                assert(cs_type.members@.subrange(0, members0.len() as int) =~= pre.subrange(
                    0,
                    members0.len() as int,
                ));
                assert(prop_entries(fields@.take(i + 1)) == prop_entries(
                    fields@.take(i as int),
                ).push(fields@[i as int]));
                assert((cs_type.members@.last()) matches CsMember::Property(pm)
                    && field_prop_like(pm, fields@[i as int]));
                assert forall|j: int| 0 <= j < pre.len() implies cs_type.members@[j] == pre[j] by {
                    assert(cs_type.members@ == pre.push(cs_type.members@.last()));
                }
            }
        } else {
            proof {
                assert(prop_entries(fields@.take(i + 1)) == prop_entries(fields@.take(i as int)));
            }
        }
        i += 1;
    }
    proof {
        assert(fields@.take(fields@.len() as int) =~= fields@);
    }
    let backing_fields = rename_backing(fields);
    let ghost mid = cs_type.members@;
    handle_instance_fields(cs_type, &backing_fields, explicit_layout);
    proof {
        lemma_members_subrange_chain(old(cs_type).members@, mid, cs_type.members@);
        assert(cs_type.members@.subrange(0, mid.len() as int) =~= mid);
        assert(cs_type.members@.take(mid.len() as int) =~= mid);
        assert forall|j: int| 0 <= j < mid.len() implies cs_type.members@[j] == mid[j] by {
            assert(cs_type.members@.subrange(0, mid.len() as int)[j] == cs_type.members@[j]);
        }
        assert(backing_renamed_like(backing_fields@, fields@) && instance_handler_post(
            cs_type.members@.skip(mid.len() as int),
            backing_fields@,
            cs_type.members@.take(mid.len() as int),
            explicit_layout,
        ));
        assert forall|k: int| 0 <= k < prop_entries(fields@).len() implies ((
        #[trigger] cs_type.members@[members0.len() + k]) matches CsMember::Property(pm)
            && field_prop_like(pm, prop_entries(fields@)[k])) by {
            assert(cs_type.members@[members0.len() + k] == mid[members0.len() + k]);
        }
    }
    } else {
        handle_instance_fields(cs_type, fields, false);
    }
}

/// Emit a reference type's fields: each instance field becomes a property
/// over a renamed private backing field, then the backing fields are laid
/// out like any instance fields.
pub fn handle_referencetype_fields(
    cs_type: &mut CsType,
    fields: &Vec<FieldInfo>,
    explicit_layout: bool,
)
    ensures
        final(cs_type).members@.len() >= old(cs_type).members@.len(),
        final(cs_type).members@.subrange(0, old(cs_type).members@.len() as int) == old(
            cs_type,
        ).members@,
        *final(cs_type) == (CsType { members: final(cs_type).members, ..*old(cs_type) }),
        final(cs_type).members@.len() >= old(cs_type).members@.len() + prop_entries(
            fields@,
        ).len(),
        forall|k: int|
            0 <= k < prop_entries(fields@).len() ==> ((#[trigger] final(cs_type).members@[old(
                cs_type,
            ).members@.len() + k]) matches CsMember::Property(pm) && field_prop_like(
                pm,
                prop_entries(fields@)[k],
            )),
        exists|bs: Seq<FieldInfo>|
            #[trigger] backing_renamed_like(bs, fields@) && instance_handler_post(
                final(cs_type).members@.skip(
                    old(cs_type).members@.len() + prop_entries(fields@).len() as int,
                ),
                bs,
                final(cs_type).members@.take(
                    old(cs_type).members@.len() + prop_entries(fields@).len() as int,
                ),
                explicit_layout,
            ),
{
    let ghost members0 = cs_type.members@;
    let mut i: usize = 0;
    #[verifier::loop_isolation(false)]
    while i < fields.len()
        invariant
            i <= fields@.len(),
            cs_type.members@.len() == members0.len() + prop_entries(fields@.take(i as int)).len(),
            cs_type.members@.subrange(0, members0.len() as int) == members0,
            *cs_type == (CsType { members: cs_type.members, ..*old(cs_type) }),
            forall|k: int|
                0 <= k < prop_entries(fields@.take(i as int)).len() ==> ((
                #[trigger] cs_type.members@[members0.len() + k]) matches CsMember::Property(pm)
                    && field_prop_like(pm, prop_entries(fields@.take(i as int))[k])),
        decreases fields.len() - i,
    {
        proof {
            assert(fields@.take(i + 1).drop_last() =~= fields@.take(i as int));
            assert(fields@.take(i + 1).last() == fields@[i as int]);
        }
        let f = &fields[i];
        if !f.is_constant && !f.is_static {
            let prop = prop_decl_from_fieldinfo(f);
            let ghost pre = cs_type.members@;
            cs_type.members.push(CsMember::Property(prop));
            proof {
                assert(cs_type.members@.subrange(0, members0.len() as int) =~= pre.subrange(
                    0,
                    members0.len() as int,
                ));
                assert(prop_entries(fields@.take(i + 1)) == prop_entries(
                    fields@.take(i as int),
                ).push(fields@[i as int]));
                assert((cs_type.members@.last()) matches CsMember::Property(pm)
                    && field_prop_like(pm, fields@[i as int]));
                assert forall|j: int| 0 <= j < pre.len() implies cs_type.members@[j] == pre[j] by {
                    assert(cs_type.members@ == pre.push(cs_type.members@.last()));
                }
            }
        } else {
            proof {
                assert(prop_entries(fields@.take(i + 1)) == prop_entries(fields@.take(i as int)));
            }
        }
        i += 1;
    }
    proof {
        assert(fields@.take(fields@.len() as int) =~= fields@);
    }
    let backing_fields = rename_backing(fields);
    let ghost mid = cs_type.members@;
    handle_instance_fields(cs_type, &backing_fields, explicit_layout);
    proof {
        lemma_members_subrange_chain(old(cs_type).members@, mid, cs_type.members@);
        assert(cs_type.members@.subrange(0, mid.len() as int) =~= mid);
        assert(cs_type.members@.take(mid.len() as int) =~= mid);
        assert forall|j: int| 0 <= j < mid.len() implies cs_type.members@[j] == mid[j] by {
            assert(cs_type.members@.subrange(0, mid.len() as int)[j] == cs_type.members@[j]);
        }
        assert(backing_renamed_like(backing_fields@, fields@) && instance_handler_post(
            cs_type.members@.skip(mid.len() as int),
            backing_fields@,
            cs_type.members@.take(mid.len() as int),
            explicit_layout,
        ));
        assert forall|k: int| 0 <= k < prop_entries(fields@).len() implies ((
        #[trigger] cs_type.members@[members0.len() + k]) matches CsMember::Property(pm)
            && field_prop_like(pm, prop_entries(fields@)[k])) by {
            assert(cs_type.members@[members0.len() + k] == mid[members0.len() + k]);
        }
    }
}

/// Rename every field to its property-backing form.
fn rename_backing(fields: &Vec<FieldInfo>) -> (r: Vec<FieldInfo>)
    ensures
        backing_renamed_like(r@, fields@),
{
    let mut out: Vec<FieldInfo> = Vec::new();
    let mut i: usize = 0;
    while i < fields.len()
        invariant
            i <= fields@.len(),
            out@.len() == i,
            forall|j: int| 0 <= j < i ==> #[trigger] fieldinfo_backing_like(out@[j], fields@[j]),
        decreases fields.len() - i,
    {
        let mut f = fields[i].clone();
        f.cs_field.name = fixup_backing_field(&f.cs_field.name);
        out.push(f);
        proof {
            assert(fieldinfo_backing_like(out@.last(), fields@[i as int]));
        }
        i += 1;
    }
    out
}

/// A member list is trivially its own prefix.
pub proof fn lemma_members_prefix_refl(a: Seq<CsMember>)
    ensures
        a.subrange(0, a.len() as int) == a,
{
    assert(a.subrange(0, a.len() as int) =~= a);
}

/// A member-list prefix relation survives a second extension.
pub proof fn lemma_members_subrange_chain(a: Seq<CsMember>, b: Seq<CsMember>, c: Seq<CsMember>)
    requires
        a.len() <= b.len() <= c.len(),
        b.subrange(0, a.len() as int) == a,
        c.subrange(0, b.len() as int) == b,
    ensures
        c.subrange(0, a.len() as int) == a,
{
    assert forall|i: int| 0 <= i < a.len() implies c.subrange(0, a.len() as int)[i] == a[i] by {
        assert(b.subrange(0, a.len() as int)[i] == a[i]);
        assert(c.subrange(0, b.len() as int)[i] == b[i]);
    }
    assert(c.subrange(0, a.len() as int) =~= a);
}

/// The static non-constant fields of a list, in order.
pub open spec fn statics_of(s: Seq<FieldInfo>) -> Seq<FieldInfo>
    decreases s.len(),
{
    if s.len() == 0 {
        Seq::empty()
    } else if s.last().is_static && !s.last().is_constant {
        statics_of(s.drop_last()).push(s.last())
    } else {
        statics_of(s.drop_last())
    }
}

/// Emit one declaration per static non-constant field, in field order.
pub fn handle_static_fields(cs_type: &mut CsType, fields: &Vec<FieldInfo>)
    ensures
        final(cs_type).members@.len() == old(cs_type).members@.len() + statics_of(
            fields@,
        ).len(),
        final(cs_type).members@.subrange(0, old(cs_type).members@.len() as int) == old(
            cs_type,
        ).members@,
        forall|k: int|
            0 <= k < statics_of(fields@).len() ==> ((#[trigger] final(cs_type).members@[old(
                cs_type,
            ).members@.len() + k]) matches CsMember::FieldDecl(f) && csfield_like(
                f,
                statics_of(fields@)[k].cs_field,
            )),
        *final(cs_type) == (CsType { members: final(cs_type).members, ..*old(cs_type) }),
{
    let ghost members0 = cs_type.members@;
    let mut i: usize = 0;
    #[verifier::loop_isolation(false)]
    while i < fields.len()
        invariant
            i <= fields@.len(),
            cs_type.members@.len() == members0.len() + statics_of(fields@.take(i as int)).len(),
            cs_type.members@.subrange(0, members0.len() as int) == members0,
            forall|k: int|
                0 <= k < statics_of(fields@.take(i as int)).len() ==> ((
                #[trigger] cs_type.members@[members0.len() + k])
                    matches CsMember::FieldDecl(f) && csfield_like(
                    f,
                    statics_of(fields@.take(i as int))[k].cs_field,
                )),
            *cs_type == (CsType { members: cs_type.members, ..*old(cs_type) }),
        decreases fields.len() - i,
    {
        proof {
            assert(fields@.take(i + 1).drop_last() =~= fields@.take(i as int));
            assert(fields@.take(i + 1).last() == fields@[i as int]);
        }
        let f = &fields[i];
        if f.is_static && !f.is_constant {
            let ghost pre = cs_type.members@;
            cs_type.members.push(CsMember::FieldDecl(f.cs_field.clone()));
            proof {
                assert(cs_type.members@.subrange(0, members0.len() as int) =~= pre.subrange(
                    0,
                    members0.len() as int,
                ));
            }
        }
        i += 1;
    }
    proof {
        assert(fields@.take(fields@.len() as int) =~= fields@);
    }
}

/// The constant fields of a list, in order.
pub open spec fn consts_of(s: Seq<FieldInfo>) -> Seq<FieldInfo>
    decreases s.len(),
{
    if s.len() == 0 {
        Seq::empty()
    } else if s.last().is_constant {
        consts_of(s.drop_last()).push(s.last())
    } else {
        consts_of(s.drop_last())
    }
}

/// Emit one declaration per constant field: constants of built-in primitive
/// type become compile-time constants carrying their decoded value; constants
/// of other types become plain static declarations without an inline value.
/// Every constant field must carry a decoded default value.
pub fn handle_const_fields(cs_type: &mut CsType, fields: &Vec<FieldInfo>)
    requires
        forall|i: int|
            0 <= i < fields@.len() && (#[trigger] fields@[i]).is_constant ==> fields@[i].cs_field.value
                is Some,
    ensures
        final(cs_type).members@.len() == old(cs_type).members@.len() + consts_of(fields@).len(),
        final(cs_type).members@.subrange(0, old(cs_type).members@.len() as int) == old(
            cs_type,
        ).members@,
        forall|k: int|
            0 <= k < consts_of(fields@).len() ==> ((#[trigger] final(cs_type).members@[old(
                cs_type,
            ).members@.len() + k]) matches CsMember::FieldDecl(f) && !f.instance && f.const_expr
                == crate::metadata::spec_is_primitive_builtin(
                consts_of(fields@)[k].field_type.ty,
            ) && f.name@ == consts_of(fields@)[k].cs_field.name@ && (
            crate::metadata::spec_is_primitive_builtin(consts_of(fields@)[k].field_type.ty)
                ==> value_opt_eq(f.value, consts_of(fields@)[k].cs_field.value)) && (
            !crate::metadata::spec_is_primitive_builtin(consts_of(fields@)[k].field_type.ty)
                ==> f.value is None && (f.brief_comment matches Some(b) && b@ == "Field "@
                + consts_of(fields@)[k].cs_field.name@ + " value: "@
                + crate::members::value_render(consts_of(fields@)[k].cs_field.value->0)))),
        *final(cs_type) == (CsType { members: final(cs_type).members, ..*old(cs_type) }),
{
    let ghost members0 = cs_type.members@;
    let mut i: usize = 0;
    #[verifier::loop_isolation(false)]
    while i < fields.len()
        invariant
            i <= fields@.len(),
            cs_type.members@.len() == members0.len() + consts_of(fields@.take(i as int)).len(),
            cs_type.members@.subrange(0, members0.len() as int) == members0,
            forall|k: int|
                0 <= k < consts_of(fields@.take(i as int)).len() ==> ((
                #[trigger] cs_type.members@[members0.len() + k])
                    matches CsMember::FieldDecl(f) && !f.instance && f.const_expr
                    == crate::metadata::spec_is_primitive_builtin(
                    consts_of(fields@.take(i as int))[k].field_type.ty,
                ) && f.name@ == consts_of(fields@.take(i as int))[k].cs_field.name@ && (
                crate::metadata::spec_is_primitive_builtin(
                    consts_of(fields@.take(i as int))[k].field_type.ty,
                ) ==> value_opt_eq(f.value, consts_of(fields@.take(i as int))[k].cs_field.value))
                    && (!crate::metadata::spec_is_primitive_builtin(
                    consts_of(fields@.take(i as int))[k].field_type.ty,
                ) ==> f.value is None && (f.brief_comment matches Some(b) && b@ == "Field "@
                    + consts_of(fields@.take(i as int))[k].cs_field.name@ + " value: "@
                    + crate::members::value_render(
                    consts_of(fields@.take(i as int))[k].cs_field.value->0,
                )))),
            *cs_type == (CsType { members: cs_type.members, ..*old(cs_type) }),
        decreases fields.len() - i,
    {
        proof {
            assert(fields@.take(i + 1).drop_last() =~= fields@.take(i as int));
            assert(fields@.take(i + 1).last() == fields@[i as int]);
        }
        let f = &fields[i];
        if f.is_constant {
            let primitive = crate::metadata::is_primitive_builtin(f.field_type.ty);
            let mut brief = String::from_str("Field ");
            brief.append(f.cs_field.name.as_str());
            let mut decl = f.cs_field.clone();
            decl.instance = false;
            decl.readonly = f.field_type.is_constant();
            if primitive {
                decl.const_expr = true;
            } else {
                brief.append(" value: ");
                match &f.cs_field.value {
                    Some(v) => {
                        let rendered = crate::members::render_value(v);
                        brief.append(rendered.as_str());
                    },
                    None => {
                        proof {
                            assert(false);
                        }
                    },
                }
                decl.const_expr = false;
                decl.value = None;
            }
            decl.brief_comment = Some(brief);
            let ghost pre = cs_type.members@;
            cs_type.members.push(CsMember::FieldDecl(decl));
            proof {
                assert(cs_type.members@.subrange(0, members0.len() as int) =~= pre.subrange(
                    0,
                    members0.len() as int,
                ));
            }
        }
        i += 1;
    }
    proof {
        assert(fields@.take(fields@.len() as int) =~= fields@);
    }
}

} // verus!
