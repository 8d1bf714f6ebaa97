use cordl::BuildError;
use cordl::CsMember;
use cordl::CsType;
use cordl::CsTypeTag;
use cordl::CsValue;
use cordl::FieldDefaultValue;
use cordl::Il2CppFieldDefinition;
use cordl::Il2CppMethodDefinition;
use cordl::Il2CppParameterDefinition;
use cordl::Il2CppPropertyDefinition;
use cordl::Il2CppType;
use cordl::Il2CppTypeDefinition;
use cordl::Il2CppTypeEnum;
use cordl::Metadata;
use cordl::SizeInfo;
use cordl::TypeData;
use cordl::default_value_blob;

fn empty_metadata() -> Metadata {
    Metadata {
        type_definitions: Vec::new(),
        types: Vec::new(),
        type_sizes: Vec::new(),
        generic_classes: Vec::new(),
        generic_insts: Vec::new(),
        generic_parameters: Vec::new(),
        fields: Vec::new(),
        methods: Vec::new(),
        parameters: Vec::new(),
        properties: Vec::new(),
        field_offsets: Vec::new(),
        type_definition_sizes: Vec::new(),
        field_default_values: Vec::new(),
        parameter_default_values: Vec::new(),
        default_value_data: Vec::new(),
        method_calculations: Vec::new(),
        blacklisted_types: Vec::new(),
        object_size: 0x10,
    }
}

fn record(ty: Il2CppTypeEnum, data: TypeData, attrs: u16, valuetype: bool) -> Il2CppType {
    Il2CppType {
        ty,
        data,
        attrs,
        byref: false,
        valuetype,
    }
}

#[test]
fn blob_decodes_integers() {
    let mut m = empty_metadata();
    m.default_value_data = vec![0x2a, 0x00, 0x00, 0x00, 0xff, 0xff, 0xff, 0xff];
    let i4 = record(Il2CppTypeEnum::I4, TypeData::ArrayType, 0, true);
    assert!(matches!(
        default_value_blob(&m, &i4, 0),
        Ok(CsValue::I32(0x2a))
    ));
    assert!(matches!(
        default_value_blob(&m, &i4, 4),
        Ok(CsValue::I32(-1))
    ));
    let u2 = record(Il2CppTypeEnum::U2, TypeData::ArrayType, 0, true);
    assert!(matches!(
        default_value_blob(&m, &u2, 0),
        Ok(CsValue::U16(0x2a))
    ));
    let b = record(Il2CppTypeEnum::Boolean, TypeData::ArrayType, 0, true);
    assert!(matches!(default_value_blob(&m, &b, 0), Ok(CsValue::Bool(true))));
    assert!(matches!(
        default_value_blob(&m, &b, 1),
        Ok(CsValue::Bool(false))
    ));
}

#[test]
fn blob_decodes_strings() {
    let mut m = empty_metadata();
    // length 2, then "Hi"
    m.default_value_data = vec![0x02, 0x00, 0x00, 0x00, b'H', b'i'];
    let st = record(Il2CppTypeEnum::String, TypeData::ArrayType, 0, false);
    match default_value_blob(&m, &st, 0) {
        Ok(CsValue::String(s)) => assert_eq!(s, "Hi"),
        _ => panic!("expected a decoded string"),
    }
    // length -1 denotes the empty string
    m.default_value_data = vec![0xff, 0xff, 0xff, 0xff];
    match default_value_blob(&m, &st, 0) {
        Ok(CsValue::String(s)) => assert_eq!(s, ""),
        _ => panic!("expected the empty string"),
    }
}

#[test]
fn blob_rejects_truncated_and_unknown() {
    let mut m = empty_metadata();
    m.default_value_data = vec![0x01];
    let i4 = record(Il2CppTypeEnum::I4, TypeData::ArrayType, 0, true);
    assert!(matches!(
        default_value_blob(&m, &i4, 0),
        Err(BuildError::TruncatedBlob)
    ));
    let var = record(Il2CppTypeEnum::Var, TypeData::ArrayType, 0, false);
    assert!(matches!(
        default_value_blob(&m, &var, 0),
        Err(BuildError::UnsupportedBlobType)
    ));
}

#[test]
fn blob_float_bits_are_exact() {
    let mut m = empty_metadata();
    m.default_value_data = vec![0x00, 0x00, 0x80, 0x3f];
    let r4 = record(Il2CppTypeEnum::R4, TypeData::ArrayType, 0, true);
    match default_value_blob(&m, &r4, 0) {
        Ok(CsValue::F32Bits(bits)) => assert_eq!(f32::from_bits(bits), 1.0f32),
        _ => panic!("expected raw float bits"),
    }
}

fn one_type_metadata() -> Metadata {
    let mut m = empty_metadata();
    m.type_definitions.push(Il2CppTypeDefinition {
        name: "Player".to_string(),
        namespace: "Game".to_string(),
        parent_index: 0,
        declaring_type_index: cordl::INVALID_INDEX,
        byval_type_index: 0,
        generic_container: None,
        field_start: 0,
        field_count: 2,
        method_start: 0,
        method_count: 2,
        property_start: 0,
        property_count: 1,
        interfaces: Vec::new(),
        nested_types: vec![0],
        is_value_type: false,
        is_enum_type: false,
        is_interface: false,
        is_explicit_layout: false,
    });
    // types: 0 = parent object record, 1 = int32 record, 2 = static int32 record
    m.types.push(record(
        Il2CppTypeEnum::Object,
        TypeData::TypeDefinitionIndex(0),
        0,
        false,
    ));
    m.types.push(record(Il2CppTypeEnum::I4, TypeData::ArrayType, 0, true));
    m.types
        .push(record(Il2CppTypeEnum::I4, TypeData::ArrayType, 0x10, true));
    m.type_sizes = vec![8, 4, 4];
    m.fields.push(Il2CppFieldDefinition {
        name: "health".to_string(),
        type_index: 1,
    });
    m.fields.push(Il2CppFieldDefinition {
        name: "count".to_string(),
        type_index: 2,
    });
    m.methods.push(Il2CppMethodDefinition {
        name: "get_Health".to_string(),
        return_type: 1,
        parameter_start: 0,
        parameter_count: 0,
        generic_container: None,
        is_static: false,
        is_virtual: false,
        is_abstract: false,
        is_final: false,
    });
    m.methods.push(Il2CppMethodDefinition {
        name: "set_Health".to_string(),
        return_type: 0,
        parameter_start: 0,
        parameter_count: 1,
        generic_container: None,
        is_static: false,
        is_virtual: false,
        is_abstract: false,
        is_final: false,
    });
    m.parameters.push(Il2CppParameterDefinition {
        name: "value".to_string(),
        type_index: 1,
    });
    m.properties.push(Il2CppPropertyDefinition {
        name: "Health".to_string(),
        get: 0,
        set: 1,
    });
    m.field_offsets = vec![vec![0x10, 0x18]];
    m.type_definition_sizes = vec![SizeInfo {
        instance_size: 0x18,
        calculated_instance_size: 0x18,
        natural_alignment: 8,
        specified_packing: None,
    }];
    m
}

#[test]
fn build_and_fill_one_type() {
    let m = one_type_metadata();
    let tag = CsTypeTag::TypeDefinitionIndex(0);
    let mut t = CsType::make_cs_type(&m, 0, tag, None).unwrap().unwrap();
    assert_eq!(t.self_tag, tag);
    assert!(t.members.is_empty());
    assert_eq!(t.size_info.unwrap().instance_size, 0x18);
    t.fill_from_il2cpp(&m).unwrap();
    // parent linked
    assert_eq!(t.parent, Some(CsTypeTag::TypeDefinitionIndex(0)));
    // nested type recorded
    assert_eq!(t.nested_types, vec![CsTypeTag::TypeDefinitionIndex(0)]);
    // one instance field, one static field, one property, two methods
    let mut props = 0;
    let mut methods = 0;
    let mut fields = 0;
    for member in &t.members {
        match member {
            CsMember::Property(p) => {
                props += 1;
                if p.name == "Health" {
                    assert_eq!(p.getter.as_deref(), Some("get_Health"));
                    assert_eq!(p.setter.as_deref(), Some("set_Health"));
                } else {
                    // the property synthesized over the instance field
                    assert_eq!(p.name, "health");
                    assert_eq!(p.getter.as_deref(), Some("__get_health"));
                }
            }
            CsMember::MethodDecl(d) => {
                methods += 1;
                assert!(d.name == "get_Health" || d.name == "set_Health");
            }
            CsMember::FieldDecl(_) => fields += 1,
            _ => {}
        }
    }
    assert_eq!(props, 2);
    assert_eq!(methods, 2);
    assert!(fields >= 2);
}

#[test]
fn blacklisted_type_is_skipped() {
    let mut m = one_type_metadata();
    m.blacklisted_types.push(0);
    let r = CsType::make_cs_type(&m, 0, CsTypeTag::TypeDefinitionIndex(0), None).unwrap();
    assert!(r.is_none());
}

#[test]
fn parentless_non_interface_is_skipped() {
    let mut m = one_type_metadata();
    m.type_definitions[0].parent_index = cordl::INVALID_INDEX;
    let r = CsType::make_cs_type(&m, 0, CsTypeTag::TypeDefinitionIndex(0), None).unwrap();
    assert!(r.is_none());
    // ... but the root object type itself is kept.
    m.type_definitions[0].namespace = "System".to_string();
    m.type_definitions[0].name = "Object".to_string();
    let r2 = CsType::make_cs_type(&m, 0, CsTypeTag::TypeDefinitionIndex(0), None).unwrap();
    assert!(r2.is_some());
}

#[test]
fn static_property_is_dropped() {
    let mut m = one_type_metadata();
    m.methods[0].is_static = true;
    m.methods[1].is_static = true;
    let tag = CsTypeTag::TypeDefinitionIndex(0);
    let mut t = CsType::make_cs_type(&m, 0, tag, None).unwrap().unwrap();
    t.make_properties(&m, 0).unwrap();
    assert!(t.members.is_empty());
}

#[test]
fn type_initializer_produces_no_member() {
    let mut m = one_type_metadata();
    m.methods[0].name = ".cctor".to_string();
    let tag = CsTypeTag::TypeDefinitionIndex(0);
    let mut t = CsType::make_cs_type(&m, 0, tag, None).unwrap().unwrap();
    t.create_method(0, &m, false).unwrap();
    assert!(t.members.is_empty());
    t.create_method(1, &m, false).unwrap();
    assert_eq!(t.members.len(), 1);
}

#[test]
fn generic_method_request_records_arguments_only() {
    let mut m = one_type_metadata();
    m.generic_insts.push(vec![1, 2]);
    let tag = CsTypeTag::TypeDefinitionIndex(0);
    let mut t = CsType::make_cs_type(&m, 0, tag, None).unwrap().unwrap();
    t.add_method_generic_inst(1, 0, &m);
    assert_eq!(t.method_generic_instantiation_map.len(), 1);
    assert_eq!(t.method_generic_instantiation_map[0].0, 1);
    assert_eq!(t.method_generic_instantiation_map[0].1, vec![1, 2]);
    // a generic-instantiation request emits no new member
    t.create_method(1, &m, true).unwrap();
    assert!(t.members.is_empty());
}

#[test]
fn field_defaults_are_decoded() {
    let mut m = one_type_metadata();
    m.types[1] = record(Il2CppTypeEnum::I4, TypeData::ArrayType, 0x10 | 0x40, true);
    m.field_default_values.push(FieldDefaultValue {
        field_index: 0,
        type_index: 1,
        data_index: Some(0),
    });
    m.default_value_data = vec![0x07, 0x00, 0x00, 0x00];
    match cordl::field_default_value(&m, 0) {
        Ok(Some(CsValue::I32(7))) => {}
        _ => panic!("expected the decoded constant"),
    }
    match cordl::field_default_value(&m, 1) {
        Ok(None) => {}
        _ => panic!("expected no recorded default"),
    }
}

#[test]
fn constant_field_becomes_const_member() {
    let mut m = one_type_metadata();
    // make field 0 a literal constant with a recorded value
    m.types[1] = record(Il2CppTypeEnum::I4, TypeData::ArrayType, 0x40, true);
    m.field_default_values.push(FieldDefaultValue {
        field_index: 0,
        type_index: 1,
        data_index: Some(0),
    });
    m.default_value_data = vec![0x2a, 0x00, 0x00, 0x00];
    let tag = CsTypeTag::TypeDefinitionIndex(0);
    let mut t = CsType::make_cs_type(&m, 0, tag, None).unwrap().unwrap();
    t.make_fields(&m, 0).unwrap();
    let consts: Vec<_> = t
        .members
        .iter()
        .filter_map(|mm| match mm {
            CsMember::FieldDecl(f) if f.const_expr => Some(f.name.clone()),
            _ => None,
        })
        .collect();
    assert_eq!(consts, vec!["health".to_string()]);
}

#[test]
fn nullable_parameter_default_unboxes() {
    let mut m = one_type_metadata();
    m.type_definitions.push(Il2CppTypeDefinition {
        name: "Nullable`1".to_string(),
        namespace: "System".to_string(),
        parent_index: cordl::INVALID_INDEX,
        declaring_type_index: cordl::INVALID_INDEX,
        byval_type_index: 1,
        generic_container: None,
        field_start: 0,
        field_count: 0,
        method_start: 0,
        method_count: 0,
        property_start: 0,
        property_count: 0,
        interfaces: Vec::new(),
        nested_types: Vec::new(),
        is_value_type: true,
        is_enum_type: false,
        is_interface: false,
        is_explicit_layout: false,
    });
    m.field_offsets.push(Vec::new());
    m.type_definition_sizes.push(SizeInfo {
        instance_size: 8,
        calculated_instance_size: 8,
        natural_alignment: 4,
        specified_packing: None,
    });
    m.types.push(record(
        Il2CppTypeEnum::Valuetype,
        TypeData::TypeDefinitionIndex(1),
        0,
        true,
    ));
    m.type_sizes.push(8);
    m.parameter_default_values.push(cordl::ParameterDefaultValue {
        parameter_index: 0,
        type_index: 3,
        data_index: Some(0),
    });
    m.default_value_data = vec![0x05, 0x00, 0x00, 0x00];
    match cordl::param_default_value(&m, 0) {
        Ok(Some(CsValue::I32(5))) => {}
        _ => panic!("expected the unboxed decoded constant"),
    }
}

#[test]
fn enum_type_takes_no_parent_link() {
    let mut m = one_type_metadata();
    m.type_definitions[0].is_enum_type = true;
    let tag = CsTypeTag::TypeDefinitionIndex(0);
    let mut t = CsType::make_cs_type(&m, 0, tag, None).unwrap().unwrap();
    t.make_parents(&m, 0).unwrap();
    assert_eq!(t.parent, None);
}

#[test]
fn property_with_one_instance_accessor_is_kept() {
    // Only properties whose accessors are all static are dropped; a static
    // getter beside an instance setter keeps the property.
    let mut m = one_type_metadata();
    m.methods[0].is_static = true;
    let tag = CsTypeTag::TypeDefinitionIndex(0);
    let mut t = CsType::make_cs_type(&m, 0, tag, None).unwrap().unwrap();
    t.make_properties(&m, 0).unwrap();
    assert_eq!(t.members.len(), 1);
    match &t.members[0] {
        CsMember::Property(p) => {
            assert_eq!(p.name, "Health");
            assert_eq!(p.getter.as_deref(), Some("get_Health"));
        }
        _ => panic!("expected the kept property"),
    }
}

#[test]
fn method_instantiation_reregistration_supersedes() {
    let mut m = one_type_metadata();
    m.generic_insts.push(vec![1]);
    m.generic_insts.push(vec![2]);
    let tag = CsTypeTag::TypeDefinitionIndex(0);
    let mut t = CsType::make_cs_type(&m, 0, tag, None).unwrap().unwrap();
    t.add_method_generic_inst(1, 0, &m);
    t.add_method_generic_inst(1, 1, &m);
    // the later registration is the one resolution reads
    assert_eq!(t.method_generic_instantiation_map.len(), 2);
    assert_eq!(t.method_generic_instantiation_map.last().unwrap().1, vec![2]);
}

#[test]
fn non_primitive_constant_brief_carries_value() {
    let mut m = one_type_metadata();
    // field 0 is a constant of a non-primitive (value-type) shape whose
    // recorded default decodes as a 32-bit integer
    m.types[1] = record(
        Il2CppTypeEnum::Valuetype,
        TypeData::TypeDefinitionIndex(0),
        0x40,
        true,
    );
    m.field_default_values.push(FieldDefaultValue {
        field_index: 0,
        type_index: 2,
        data_index: Some(0),
    });
    m.types[2] = record(Il2CppTypeEnum::I4, TypeData::ArrayType, 0x40, true);
    m.default_value_data = vec![0x2a, 0x00, 0x00, 0x00];
    let tag = CsTypeTag::TypeDefinitionIndex(0);
    let mut t = CsType::make_cs_type(&m, 0, tag, None).unwrap().unwrap();
    t.make_fields(&m, 0).unwrap();
    let briefs: Vec<_> = t
        .members
        .iter()
        .filter_map(|mm| match mm {
            CsMember::FieldDecl(f) if !f.instance && !f.const_expr && f.name == "health" => {
                f.brief_comment.clone()
            }
            _ => None,
        })
        .collect();
    assert_eq!(briefs, vec!["Field health value: 42".to_string()]);
}
