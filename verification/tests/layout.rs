use cordl::CppMember;
use cordl::CppType;
use cordl::CppTypeRequirements;
use cordl::CsField;
use cordl::CsFieldType;
use cordl::CsMember;
use cordl::CsTypeTag;
use cordl::FieldInfo;
use cordl::Il2CppType;
use cordl::Il2CppTypeEnum;
use cordl::Metadata;
use cordl::NameComponents;
use cordl::SizeInfo;
use cordl::TypeData;
use cordl::field_collision_check;
use cordl::field_into_offset_structs;
use cordl::make_or_unionize_fields;
use cordl::pack_fields_into_single_union;

fn field(name: &str, offset: u32, size: u32) -> FieldInfo {
    FieldInfo {
        cs_field: CsField {
            name: name.to_string(),
            field_ty: CsFieldType::Rendered("int32_t".to_string()),
            instance: true,
            readonly: false,
            const_expr: false,
            offset: Some(offset),
            value: None,
            brief_comment: None,
            is_private: false,
        },
        field_index: 0,
        field_type: Il2CppType {
            ty: Il2CppTypeEnum::I4,
            data: TypeData::ArrayType,
            attrs: 0,
            byref: false,
            valuetype: true,
        },
        is_constant: false,
        is_static: false,
        is_pointer: false,
        offset: Some(offset),
        size,
    }
}

fn field_names_of(members: &[CsMember]) -> Vec<String> {
    let mut out = Vec::new();
    for m in members {
        if let CsMember::FieldDecl(f) = m {
            out.push(f.name.clone());
        }
    }
    out
}

#[test]
fn collision_check_detects_overlap() {
    let fields = vec![field("a", 0, 4), field("b", 0, 8), field("c", 8, 4)];
    assert!(field_collision_check(&fields));
    let disjoint = vec![field("a", 0, 4), field("b", 4, 4), field("c", 8, 4)];
    assert!(!field_collision_check(&disjoint));
}

#[test]
fn colliding_fields_form_one_union() {
    // Fields A(offset 0, size 4), B(offset 0, size 8), C(offset 8, size 4):
    // one union whose branches are {B} and {A, C in sequence}.
    let fields = vec![field("A", 0, 4), field("B", 0, 8), field("C", 8, 4)];
    let members = make_or_unionize_fields(&fields);
    assert_eq!(members.len(), 1);
    match &members[0] {
        CsMember::NestedUnion(u) => {
            assert_eq!(u.offset, 0);
            assert_eq!(u.declarations.len(), 2);
            match &u.declarations[0] {
                CsMember::FieldDecl(f) => assert_eq!(f.name, "B"),
                _ => panic!("expected the single-field branch to stay a plain field"),
            }
            match &u.declarations[1] {
                CsMember::NestedStruct(s) => {
                    assert_eq!(field_names_of(&s.declarations), vec!["A", "C"]);
                }
                _ => panic!("expected the two-field branch to become a nested struct"),
            }
        }
        _ => panic!("expected one union"),
    }
}

#[test]
fn sequential_fields_stay_plain() {
    // End-to-end field part: sizes 1,1,2,4 at offsets 0,1,2,4: no collision,
    // so no union is synthesized and the fields stay in order.
    let fields = vec![
        field("a", 0, 1),
        field("b", 1, 1),
        field("c", 2, 2),
        field("d", 4, 4),
    ];
    let members = make_or_unionize_fields(&fields);
    assert_eq!(members.len(), 4);
    assert_eq!(field_names_of(&members), vec!["a", "b", "c", "d"]);
}

#[test]
fn explicit_field_gets_two_offset_structs() {
    // A field at offset 0x10, size 4: two struct variants, each with a
    // 0x10-byte leading pad and the field; one byte-packed, one naturally
    // packed.
    let f = field("health", 0x10, 4);
    let (packed, aligned) = field_into_offset_structs(&f);
    assert_eq!(packed.packing, Some(1));
    assert_eq!(packed.declarations.len(), 2);
    match &packed.declarations[0] {
        CsMember::FieldDecl(p) => {
            assert_eq!(p.name, "health_padding[0x10]");
            match &p.field_ty {
                CsFieldType::Rendered(t) => assert_eq!(t, "uint8_t"),
                _ => panic!("expected a rendered pad type"),
            }
            assert_eq!(p.offset, Some(0x10));
        }
        _ => panic!("expected the leading pad"),
    }
    match &packed.declarations[1] {
        CsMember::FieldDecl(p) => assert_eq!(p.name, "health"),
        _ => panic!("expected the field itself"),
    }
    assert_eq!(aligned.packing, None);
    match &aligned.declarations[0] {
        CsMember::FieldDecl(p) => assert_eq!(p.name, "health_padding_forAlignment[0x10]"),
        _ => panic!("expected the aligned leading pad"),
    }
    match &aligned.declarations[1] {
        CsMember::FieldDecl(p) => assert_eq!(p.name, "health_forAlignment"),
        _ => panic!("expected the aligned field alias"),
    }
}

#[test]
fn explicit_layout_packs_one_union() {
    let fields = vec![field("x", 4, 4), field("y", 8, 4)];
    let u = pack_fields_into_single_union(&fields);
    assert_eq!(u.offset, 4);
    assert!(u.is_private);
    assert_eq!(u.declarations.len(), 4);
}

fn cpp_type_with_sizes(size_info: Option<SizeInfo>, packing: Option<u32>) -> CppType {
    CppType {
        self_tag: CsTypeTag::TypeDefinitionIndex(0),
        nested: false,
        cpp_name_components: NameComponents {
            name: "Subject".to_string(),
            namespace: Some("Game".to_string()),
            declaring_types: None,
            generics: None,
            is_pointer: false,
        },
        cs_name_components: NameComponents {
            name: "Subject".to_string(),
            namespace: Some("Game".to_string()),
            declaring_types: None,
            generics: None,
            is_pointer: false,
        },
        is_value_type: true,
        is_enum_type: false,
        is_reference_type: false,
        requirements: CppTypeRequirements::new(),
        cpp_template: None,
        generic_instantiations_args_types: None,
        method_generic_instantiation_map: Vec::new(),
        packing,
        size_info,
        declarations: Vec::new(),
        nonmember_declarations: Vec::new(),
        parent: None,
        interfaces: Vec::new(),
        prefix_comments: Vec::new(),
    }
}

fn metadata_with_table_size(instance_size: u32) -> Metadata {
    Metadata {
        type_definitions: Vec::new(),
        types: Vec::new(),
        type_sizes: Vec::new(),
        generic_classes: Vec::new(),
        generic_insts: Vec::new(),
        generic_parameters: Vec::new(),
        fields: Vec::new(),
        methods: Vec::new(),
        parameters: Vec::new(),
        properties: Vec::new(),
        field_offsets: Vec::new(),
        type_definition_sizes: vec![SizeInfo {
            instance_size,
            calculated_instance_size: 0,
            natural_alignment: 0,
            specified_packing: None,
        }],
        field_default_values: Vec::new(),
        parameter_default_values: Vec::new(),
        default_value_data: Vec::new(),
        method_calculations: Vec::new(),
        blacklisted_types: Vec::new(),
        object_size: 0x10,
    }
}

#[test]
fn size_padding_emits_rounded_remainder() {
    // Calculated size 0x18, reported size 0x20, packing 8: one trailing pad
    // field of size 0x8.
    let m = metadata_with_table_size(0x20);
    let mut t = cpp_type_with_sizes(
        Some(SizeInfo {
            instance_size: 0x20,
            calculated_instance_size: 0x18,
            natural_alignment: 8,
            specified_packing: Some(8),
        }),
        Some(8),
    );
    t.create_size_padding(&m, 0);
    assert_eq!(t.declarations.len(), 1);
    match &t.declarations[0] {
        CppMember::FieldDecl(f) => {
            assert_eq!(f.cpp_name, "_cordl_size_padding[0x8]");
            assert_eq!(f.field_ty, "uint8_t");
            assert_eq!(f.offset, Some(0x20));
            assert!(f.instance);
        }
        _ => panic!("expected the trailing pad field"),
    }
}

#[test]
fn size_padding_skips_zero_rounded_remainder() {
    // Calculated size 0x1f, reported size 0x20, packing 8: the remainder
    // rounds down to zero and no pad field is emitted.
    let m = metadata_with_table_size(0x20);
    let mut t = cpp_type_with_sizes(
        Some(SizeInfo {
            instance_size: 0x20,
            calculated_instance_size: 0x1f,
            natural_alignment: 0,
            specified_packing: Some(8),
        }),
        Some(8),
    );
    t.create_size_padding(&m, 0);
    assert!(t.declarations.is_empty());
}

#[test]
fn size_padding_skips_matching_sizes() {
    let m = metadata_with_table_size(0x20);
    let mut t = cpp_type_with_sizes(
        Some(SizeInfo {
            instance_size: 0x20,
            calculated_instance_size: 0x20,
            natural_alignment: 8,
            specified_packing: None,
        }),
        None,
    );
    t.create_size_padding(&m, 0);
    assert!(t.declarations.is_empty());
}

#[test]
fn end_to_end_value_type_layout() {
    // A value type with fields of size 1,1,2,4 at offsets 0,1,2,4 and a
    // reported size of 12 against a computed size of 8: no union, plus one
    // trailing pad of size 4 covering bytes 8..12.
    let fields = vec![
        field("a", 0, 1),
        field("b", 1, 1),
        field("c", 2, 2),
        field("d", 4, 4),
    ];
    let members = make_or_unionize_fields(&fields);
    assert_eq!(field_names_of(&members), vec!["a", "b", "c", "d"]);
    assert!(members.iter().all(|m| matches!(m, CsMember::FieldDecl(_))));

    let m = metadata_with_table_size(12);
    let mut t = cpp_type_with_sizes(
        Some(SizeInfo {
            instance_size: 12,
            calculated_instance_size: 8,
            natural_alignment: 4,
            specified_packing: Some(4),
        }),
        Some(4),
    );
    t.create_size_padding(&m, 0);
    assert_eq!(t.declarations.len(), 1);
    match &t.declarations[0] {
        CppMember::FieldDecl(f) => {
            assert_eq!(f.cpp_name, "_cordl_size_padding[0x4]");
            assert_eq!(f.offset, Some(12));
        }
        _ => panic!("expected the trailing pad field"),
    }
}

#[test]
fn size_assert_needs_size_info() {
    let mut t = cpp_type_with_sizes(None, None);
    match t.create_size_assert() {
        Err(cordl::LayoutError::MissingSizeInfo) => {}
        _ => panic!("expected the missing-size-information error"),
    }
    let mut t2 = cpp_type_with_sizes(
        Some(SizeInfo {
            instance_size: 0x20,
            calculated_instance_size: 0x20,
            natural_alignment: 8,
            specified_packing: None,
        }),
        None,
    );
    t2.create_size_assert().unwrap();
    assert_eq!(t2.nonmember_declarations.len(), 1);
    match &t2.nonmember_declarations[0] {
        cordl::CppNonMember::StaticAssert(a) => {
            assert_eq!(
                a.condition,
                "::cordl_internals::size_check_v<Game::Subject, 0x20>"
            );
        }
        _ => panic!("expected the static size assertion"),
    }
}

#[test]
fn backing_field_renaming() {
    assert_eq!(cordl::fixup_backing_field(&"value".to_string()), "___value");
}

#[test]
fn explicit_layout_fields_become_properties_over_one_union() {
    let fields = vec![field("x", 0, 4), field("y", 0, 4)];
    let mut t = cordl::CsType {
        self_tag: CsTypeTag::TypeDefinitionIndex(0),
        nested: false,
        prefix_comments: Vec::new(),
        size_info: None,
        packing: None,
        cs_name_components: NameComponents {
            name: "Raw".to_string(),
            namespace: Some("Game".to_string()),
            declaring_types: None,
            generics: None,
            is_pointer: false,
        },
        members: Vec::new(),
        implementations: Vec::new(),
        is_value_type: true,
        is_enum_type: false,
        is_reference_type: false,
        requirements: cordl::CsTypeRequirements::new(),
        parent: None,
        interfaces: Vec::new(),
        generic_template: None,
        generic_instantiations_args_types: None,
        method_generic_instantiation_map: Vec::new(),
        is_interface: false,
        nested_types: Vec::new(),
    };
    cordl::handle_valuetype_fields(&mut t, &fields, true);
    let mut props = Vec::new();
    let mut unions = 0;
    for m in &t.members {
        match m {
            CsMember::Property(p) => props.push(p.name.clone()),
            CsMember::NestedUnion(u) => {
                unions += 1;
                // two branches per field, byte-exact and aligned
                assert_eq!(u.declarations.len(), 4);
            }
            _ => {}
        }
    }
    assert_eq!(props, vec!["x", "y"]);
    assert_eq!(unions, 1);
}

#[test]
fn classof_call_renders_full_name() {
    let t = cpp_type_with_sizes(None, None);
    assert_eq!(
        t.classof_cpp_name(),
        "::il2cpp_utils::il2cpp_type_check::il2cpp_no_arg_class<Game::Subject>::get"
    );
}
