use cordl::CppContextCollection;
use cordl::CppContextEntry;
use cordl::CppType;
use cordl::CppTypeRequirements;
use cordl::CsTypeTag;
use cordl::Il2CppGenericClass;
use cordl::Il2CppType;
use cordl::Il2CppTypeDefinition;
use cordl::Il2CppTypeEnum;
use cordl::Metadata;
use cordl::NameComponents;
use cordl::SizeInfo;
use cordl::TypeData;
use cordl::TypeUsage;

fn empty_metadata() -> Metadata {
    Metadata {
        type_definitions: Vec::new(),
        types: Vec::new(),
        type_sizes: Vec::new(),
        generic_classes: Vec::new(),
        generic_insts: Vec::new(),
        generic_parameters: Vec::new(),
        fields: Vec::new(),
        methods: Vec::new(),
        parameters: Vec::new(),
        properties: Vec::new(),
        field_offsets: Vec::new(),
        type_definition_sizes: Vec::new(),
        field_default_values: Vec::new(),
        parameter_default_values: Vec::new(),
        default_value_data: Vec::new(),
        method_calculations: Vec::new(),
        blacklisted_types: Vec::new(),
        object_size: 0x10,
    }
}

fn simple_type_def(namespace: &str, name: &str) -> Il2CppTypeDefinition {
    Il2CppTypeDefinition {
        name: name.to_string(),
        namespace: namespace.to_string(),
        parent_index: cordl::INVALID_INDEX,
        declaring_type_index: cordl::INVALID_INDEX,
        byval_type_index: 0,
        generic_container: None,
        field_start: 0,
        field_count: 0,
        method_start: 0,
        method_count: 0,
        property_start: 0,
        property_count: 0,
        interfaces: Vec::new(),
        nested_types: Vec::new(),
        is_value_type: false,
        is_enum_type: false,
        is_interface: false,
        is_explicit_layout: false,
    }
}

fn class_record(tdi: u32) -> Il2CppType {
    Il2CppType {
        ty: Il2CppTypeEnum::Class,
        data: TypeData::TypeDefinitionIndex(tdi),
        attrs: 0,
        byref: false,
        valuetype: false,
    }
}

fn resolver_type(tag: CsTypeTag, name: &str) -> CppType {
    CppType {
        self_tag: tag,
        nested: false,
        cpp_name_components: NameComponents {
            name: name.to_string(),
            namespace: Some("Game".to_string()),
            declaring_types: None,
            generics: None,
            is_pointer: false,
        },
        cs_name_components: NameComponents {
            name: name.to_string(),
            namespace: Some("Game".to_string()),
            declaring_types: None,
            generics: None,
            is_pointer: false,
        },
        is_value_type: false,
        is_enum_type: false,
        is_reference_type: true,
        requirements: CppTypeRequirements::new(),
        cpp_template: None,
        generic_instantiations_args_types: None,
        method_generic_instantiation_map: Vec::new(),
        packing: None,
        size_info: None,
        declarations: Vec::new(),
        nonmember_declarations: Vec::new(),
        parent: None,
        interfaces: Vec::new(),
        prefix_comments: Vec::new(),
    }
}

fn entry_for(tag: CsTypeTag, name: &str) -> CppContextEntry {
    CppContextEntry {
        tag,
        context_root_tag: tag,
        cpp_name_components: NameComponents {
            name: name.to_string(),
            namespace: Some("Game".to_string()),
            declaring_types: None,
            generics: None,
            is_pointer: false,
        },
        is_value_type: false,
        is_enum_type: false,
        nested: false,
        cpp_template: None,
        generic_instantiation_args: None,
        typedef_path: format!("Game/{name}.hpp"),
        typeimpl_path: format!("Game/{name}_impl.hpp"),
    }
}

#[test]
fn primitive_names() {
    let m = empty_metadata();
    let ctx = CppContextCollection { entries: Vec::new() };
    let this = resolver_type(CsTypeTag::TypeDefinitionIndex(0), "Owner");
    let mut reqs = CppTypeRequirements::new();
    let i4 = Il2CppType {
        ty: Il2CppTypeEnum::I4,
        data: TypeData::ArrayType,
        attrs: 0,
        byref: false,
        valuetype: true,
    };
    let r = this
        .cppify_name_il2cpp_recurse(&mut reqs, &ctx, &m, &i4, 0, None, TypeUsage::TypeName, 8)
        .unwrap();
    assert_eq!(r.name, "int32_t");
    assert_eq!(reqs.required_def_includes.len(), 1);
    assert_eq!(reqs.required_def_includes[0].path, "cstdint");
}

#[test]
fn string_name_and_header() {
    let m = empty_metadata();
    let ctx = CppContextCollection { entries: Vec::new() };
    let this = resolver_type(CsTypeTag::TypeDefinitionIndex(0), "Owner");
    let mut reqs = CppTypeRequirements::new();
    let st = Il2CppType {
        ty: Il2CppTypeEnum::String,
        data: TypeData::ArrayType,
        attrs: 0,
        byref: false,
        valuetype: false,
    };
    let r = this
        .cppify_name_il2cpp_recurse(&mut reqs, &ctx, &m, &st, 0, None, TypeUsage::TypeName, 8)
        .unwrap();
    assert_eq!(r.name, "::StringW");
    assert_eq!(
        reqs.required_def_includes[0].path,
        "beatsaber-hook/shared/utils/typedefs-string.hpp"
    );
}

#[test]
fn resolving_twice_is_idempotent() {
    // Same (raw type, context, usage) twice: identical structured name, and
    // the requirement lists gain no duplicate entries on the second pass.
    let mut m = empty_metadata();
    m.type_definitions.push(simple_type_def("Game", "Owner"));
    m.type_definitions.push(simple_type_def("Game", "Other"));
    m.types.push(class_record(0));
    m.types.push(class_record(1));
    m.type_sizes = vec![8, 8];
    m.type_definition_sizes = vec![
        SizeInfo {
            instance_size: 0x10,
            calculated_instance_size: 0x10,
            natural_alignment: 8,
            specified_packing: None,
        };
        2
    ];
    m.field_offsets = vec![Vec::new(), Vec::new()];
    let own_tag = CsTypeTag::TypeDefinitionIndex(0);
    let other_tag = CsTypeTag::TypeDefinitionIndex(1);
    let ctx = CppContextCollection {
        entries: vec![entry_for(own_tag, "Owner"), entry_for(other_tag, "Other")],
    };
    let this = resolver_type(own_tag, "Owner");
    let mut reqs = CppTypeRequirements::new();
    let typ = class_record(1);
    let first = this
        .cppify_name_il2cpp_recurse(&mut reqs, &ctx, &m, &typ, 2, None, TypeUsage::Field, 8)
        .unwrap();
    let deps_after_first = reqs.depending_types.len();
    let defs_after_first = reqs.required_def_includes.len();
    let second = this
        .cppify_name_il2cpp_recurse(&mut reqs, &ctx, &m, &typ, 2, None, TypeUsage::Field, 8)
        .unwrap();
    assert_eq!(first.combine_all(), second.combine_all());
    assert_eq!(first.name, "Other");
    assert_eq!(reqs.depending_types.len(), deps_after_first);
    assert_eq!(reqs.required_def_includes.len(), defs_after_first);
    assert_eq!(reqs.depending_types, vec![other_tag]);
}

#[test]
fn self_reference_short_circuits() {
    let mut m = empty_metadata();
    m.type_definitions.push(simple_type_def("Game", "Owner"));
    m.types.push(class_record(0));
    m.type_sizes = vec![8];
    m.type_definition_sizes = vec![SizeInfo {
        instance_size: 0x10,
        calculated_instance_size: 0x10,
        natural_alignment: 8,
        specified_packing: None,
    }];
    m.field_offsets = vec![Vec::new()];
    let own_tag = CsTypeTag::TypeDefinitionIndex(0);
    let ctx = CppContextCollection { entries: Vec::new() };
    let this = resolver_type(own_tag, "Owner");
    let mut reqs = CppTypeRequirements::new();
    let typ = class_record(0);
    let r = this
        .cppify_name_il2cpp_recurse(&mut reqs, &ctx, &m, &typ, 4, None, TypeUsage::Field, 8)
        .unwrap();
    assert_eq!(r.name, "Owner");
    assert!(reqs.depending_types.is_empty());
    assert!(reqs.required_def_includes.is_empty());
}

#[test]
fn self_generic_instantiation_resolves_without_self_dependency() {
    // A field typed as a generic instantiation of the type under
    // construction, with one reference-typed argument: resolution completes
    // and records no dependency at name-only depth.
    let mut m = empty_metadata();
    m.type_definitions.push(simple_type_def("Game", "Box"));
    m.type_definitions.push(simple_type_def("Game", "Payload"));
    // types: 0 = Box typedef record, 1 = Payload class record, 2 = the
    // instantiation record Box<Payload>
    m.types.push(class_record(0));
    m.types.push(class_record(1));
    m.types.push(Il2CppType {
        ty: Il2CppTypeEnum::Genericinst,
        data: TypeData::GenericClassIndex(0),
        attrs: 0,
        byref: false,
        valuetype: false,
    });
    m.type_sizes = vec![8, 8, 8];
    m.generic_classes.push(Il2CppGenericClass {
        type_index: 0,
        class_inst_index: Some(0),
    });
    m.generic_insts.push(vec![1]);
    m.type_definition_sizes = vec![
        SizeInfo {
            instance_size: 0x10,
            calculated_instance_size: 0x10,
            natural_alignment: 8,
            specified_packing: None,
        };
        2
    ];
    m.field_offsets = vec![Vec::new(), Vec::new()];
    let inst_tag = CsTypeTag::GenericInstantiation(0);
    let def_tag = CsTypeTag::TypeDefinitionIndex(0);
    let arg_tag = CsTypeTag::TypeDefinitionIndex(1);
    let ctx = CppContextCollection {
        entries: vec![
            entry_for(inst_tag, "Box"),
            entry_for(def_tag, "Box"),
            entry_for(arg_tag, "Payload"),
        ],
    };
    let this = resolver_type(inst_tag, "Box");
    let mut reqs = CppTypeRequirements::new();
    let field_type = m.types[2];
    let r = this
        .cppify_name_il2cpp_recurse(&mut reqs, &ctx, &m, &field_type, 0, None, TypeUsage::Field, 8)
        .unwrap();
    assert_eq!(r.name, "Box");
    assert_eq!(r.generics, Some(vec!["Game::Payload".to_string()]));
    assert!(reqs.depending_types.is_empty());

    // Even at full-definition depth the type never records itself as a
    // dependency; only the generic definition is linked.
    let mut deep_reqs = CppTypeRequirements::new();
    this.cppify_name_il2cpp_recurse(
        &mut deep_reqs,
        &ctx,
        &m,
        &field_type,
        2,
        None,
        TypeUsage::Field,
        8,
    )
    .unwrap();
    assert!(!deep_reqs.depending_types.contains(&inst_tag));
    assert!(deep_reqs.depending_types.contains(&def_tag));
}

#[test]
fn denied_reference_widens_to_object_handle() {
    // A deny-listed referent in a widening (reference) context resolves to
    // the root opaque-object handle and records no dependency edge.
    let mut m = empty_metadata();
    m.type_definitions.push(simple_type_def("Game", "Owner"));
    m.type_definitions.push(simple_type_def("Game", "Hidden"));
    m.types.push(class_record(0));
    m.types.push(class_record(1));
    m.type_sizes = vec![8, 8];
    m.type_definition_sizes = vec![
        SizeInfo {
            instance_size: 0x10,
            calculated_instance_size: 0x10,
            natural_alignment: 8,
            specified_packing: None,
        };
        2
    ];
    m.field_offsets = vec![Vec::new(), Vec::new()];
    m.blacklisted_types.push(1);
    let ctx = CppContextCollection { entries: Vec::new() };
    let this = resolver_type(CsTypeTag::TypeDefinitionIndex(0), "Owner");
    let mut reqs = CppTypeRequirements::new();
    let typ = class_record(1);
    let r = this
        .cppify_name_il2cpp_recurse(&mut reqs, &ctx, &m, &typ, 4, None, TypeUsage::TypeName, 8)
        .unwrap();
    assert_eq!(r.name, "Il2CppObject");
    assert!(r.is_pointer);
    assert!(reqs.depending_types.is_empty());
    assert!(reqs.required_def_includes.is_empty());
    assert!(reqs.forward_declares.is_empty());
}

#[test]
fn denied_value_type_takes_kind_wrapper() {
    let mut m = empty_metadata();
    m.type_definitions.push(simple_type_def("Game", "Owner"));
    let mut hidden = simple_type_def("Game", "HiddenEnum");
    hidden.is_enum_type = true;
    m.type_definitions.push(hidden);
    m.types.push(class_record(0));
    m.types.push(Il2CppType {
        ty: Il2CppTypeEnum::Valuetype,
        data: TypeData::TypeDefinitionIndex(1),
        attrs: 0,
        byref: false,
        valuetype: true,
    });
    m.type_sizes = vec![8, 8];
    m.type_definition_sizes = vec![
        SizeInfo {
            instance_size: 0x10,
            calculated_instance_size: 0x10,
            natural_alignment: 8,
            specified_packing: None,
        };
        2
    ];
    m.field_offsets = vec![Vec::new(), Vec::new()];
    m.blacklisted_types.push(1);
    let ctx = CppContextCollection { entries: Vec::new() };
    let this = resolver_type(CsTypeTag::TypeDefinitionIndex(0), "Owner");
    let mut reqs = CppTypeRequirements::new();
    let typ = m.types[1];
    let r = this
        .cppify_name_il2cpp_recurse(&mut reqs, &ctx, &m, &typ, 4, None, TypeUsage::TypeName, 8)
        .unwrap();
    assert_eq!(r.name, "::bs_hook::EnumType");
}

#[test]
fn array_wraps_element() {
    let mut m = empty_metadata();
    m.types.push(Il2CppType {
        ty: Il2CppTypeEnum::I4,
        data: TypeData::ArrayType,
        attrs: 0,
        byref: false,
        valuetype: true,
    });
    m.type_sizes = vec![4];
    let ctx = CppContextCollection { entries: Vec::new() };
    let this = resolver_type(CsTypeTag::TypeDefinitionIndex(0), "Owner");
    let mut reqs = CppTypeRequirements::new();
    let arr = Il2CppType {
        ty: Il2CppTypeEnum::Szarray,
        data: TypeData::TypeIndex(0),
        attrs: 0,
        byref: false,
        valuetype: false,
    };
    let r = this
        .cppify_name_il2cpp_recurse(&mut reqs, &ctx, &m, &arr, 0, None, TypeUsage::Field, 8)
        .unwrap();
    assert_eq!(r.name, "ArrayW");
    assert_eq!(
        r.generics,
        Some(vec!["int32_t".to_string(), "::Array<int32_t>*".to_string()])
    );
    assert_eq!(
        reqs.required_def_includes[0].path,
        "beatsaber-hook/shared/utils/typedefs-array.hpp"
    );
}

#[test]
fn unresolved_generic_parameter_reports_name() {
    let mut m = empty_metadata();
    m.generic_parameters.push(cordl::Il2CppGenericParameter {
        name: "TValue".to_string(),
        owner_is_method: false,
        owner_index: 0,
        num: 0,
    });
    let ctx = CppContextCollection { entries: Vec::new() };
    let this = resolver_type(CsTypeTag::TypeDefinitionIndex(0), "Owner");
    let mut reqs = CppTypeRequirements::new();
    let var = Il2CppType {
        ty: Il2CppTypeEnum::Var,
        data: TypeData::GenericParameterIndex(0),
        attrs: 0,
        byref: false,
        valuetype: false,
    };
    let r = this.cppify_name_il2cpp_recurse(&mut reqs, &ctx, &m, &var, 0, None, TypeUsage::Field, 8);
    match r {
        Err(cordl::ResolveError::UnresolvedGenericArgument(name)) => {
            assert_eq!(name, "TValue");
        }
        _ => panic!("expected an unresolved generic argument error"),
    }
}

#[test]
fn missing_context_is_reported() {
    let mut m = empty_metadata();
    m.type_definitions.push(simple_type_def("Game", "Owner"));
    m.type_definitions.push(simple_type_def("Game", "Other"));
    m.types.push(class_record(0));
    m.types.push(class_record(1));
    m.type_sizes = vec![8, 8];
    m.type_definition_sizes = vec![
        SizeInfo {
            instance_size: 0x10,
            calculated_instance_size: 0x10,
            natural_alignment: 8,
            specified_packing: None,
        };
        2
    ];
    m.field_offsets = vec![Vec::new(), Vec::new()];
    let ctx = CppContextCollection { entries: Vec::new() };
    let this = resolver_type(CsTypeTag::TypeDefinitionIndex(0), "Owner");
    let mut reqs = CppTypeRequirements::new();
    let typ = class_record(1);
    let r = this.cppify_name_il2cpp_recurse(&mut reqs, &ctx, &m, &typ, 0, None, TypeUsage::Field, 8);
    match r {
        Err(cordl::ResolveError::MissingContext(tag)) => {
            assert_eq!(tag, CsTypeTag::TypeDefinitionIndex(1));
        }
        _ => panic!("expected a missing-context error"),
    }
}

#[test]
fn reference_args_share_one_widened_identity() {
    // Two different reference-typed arguments widen to the same placeholder:
    // the instantiation identity does not depend on which reference type
    // fills the slot.
    let mut m = empty_metadata();
    m.type_definitions.push(simple_type_def("Game", "A"));
    m.type_definitions.push(simple_type_def("Game", "B"));
    m.types.push(class_record(0));
    m.types.push(class_record(1));
    m.type_sizes = vec![8, 8];
    m.type_definition_sizes = vec![
        SizeInfo {
            instance_size: 0x10,
            calculated_instance_size: 0x10,
            natural_alignment: 8,
            specified_packing: None,
        };
        2
    ];
    m.field_offsets = vec![Vec::new(), Vec::new()];
    let ctx = CppContextCollection { entries: Vec::new() };
    let mut this = resolver_type(CsTypeTag::TypeDefinitionIndex(5), "Owner");
    let mut targs1: Vec<(String, String)> = Vec::new();
    let r1 = cordl::parse_generic_arg(
        &m.types[0].clone(),
        "T".to_string(),
        &mut this,
        &ctx,
        &m,
        &mut targs1,
        8,
    )
    .unwrap();
    let mut targs2: Vec<(String, String)> = Vec::new();
    let r2 = cordl::parse_generic_arg(
        &m.types[1].clone(),
        "T".to_string(),
        &mut this,
        &ctx,
        &m,
        &mut targs2,
        8,
    )
    .unwrap();
    assert_eq!(r1.combine_all(), r2.combine_all());
    assert_eq!(r1.combine_all(), "T");
    assert_eq!(targs1.len(), 1);
    assert_eq!(targs1[0].0, "::il2cpp_utils::il2cpp_reference_type");
    assert_eq!(targs1[0].1, "T");
    assert_eq!(targs2[0].0, "::il2cpp_utils::il2cpp_reference_type");
}

#[test]
fn value_args_take_distinct_identities() {
    let m = empty_metadata();
    let ctx = CppContextCollection { entries: Vec::new() };
    let mut this = resolver_type(CsTypeTag::TypeDefinitionIndex(5), "Owner");
    let i4 = Il2CppType {
        ty: Il2CppTypeEnum::I4,
        data: TypeData::ArrayType,
        attrs: 0,
        byref: false,
        valuetype: true,
    };
    let i8t = Il2CppType {
        ty: Il2CppTypeEnum::I8,
        data: TypeData::ArrayType,
        attrs: 0,
        byref: false,
        valuetype: true,
    };
    let mut targs: Vec<(String, String)> = Vec::new();
    let r1 = cordl::parse_generic_arg(&i4, "T".to_string(), &mut this, &ctx, &m, &mut targs, 8)
        .unwrap();
    let r2 = cordl::parse_generic_arg(&i8t, "T".to_string(), &mut this, &ctx, &m, &mut targs, 8)
        .unwrap();
    assert_eq!(r1.combine_all(), "int32_t");
    assert_eq!(r2.combine_all(), "int64_t");
    assert_ne!(r1.combine_all(), r2.combine_all());
    assert!(targs.is_empty());
}

#[test]
fn enum_marker_argument_takes_backed_by_constraint() {
    let mut m = empty_metadata();
    m.type_definitions.push(simple_type_def("System", "Int32Enum"));
    m.types.push(Il2CppType {
        ty: Il2CppTypeEnum::Valuetype,
        data: TypeData::TypeDefinitionIndex(0),
        attrs: 0,
        byref: false,
        valuetype: true,
    });
    m.type_sizes = vec![4];
    m.type_definition_sizes = vec![SizeInfo {
        instance_size: 4,
        calculated_instance_size: 4,
        natural_alignment: 4,
        specified_packing: None,
    }];
    m.field_offsets = vec![Vec::new()];
    let ctx = CppContextCollection { entries: Vec::new() };
    let mut this = resolver_type(CsTypeTag::TypeDefinitionIndex(5), "Owner");
    let mut targs: Vec<(String, String)> = Vec::new();
    let r = cordl::parse_generic_arg(
        &m.types[0].clone(),
        "TEnum".to_string(),
        &mut this,
        &ctx,
        &m,
        &mut targs,
        8,
    )
    .unwrap();
    assert_eq!(r.combine_all(), "TEnum");
    assert_eq!(targs.len(), 1);
    assert_eq!(targs[0].0, "::cordl_internals::is_or_is_backed_by<int32_t>");
    assert_eq!(targs[0].1, "TEnum");
}

#[test]
fn byref_wrapping() {
    let mut this = resolver_type(CsTypeTag::TypeDefinitionIndex(0), "Owner");
    let out_param = Il2CppType {
        ty: Il2CppTypeEnum::I4,
        data: TypeData::ArrayType,
        attrs: 0x2,
        byref: true,
        valuetype: true,
    };
    assert_eq!(
        this.il2cpp_byref("int32_t".to_string(), &out_param),
        "ByRef<int32_t>"
    );
    let in_param = Il2CppType {
        ty: Il2CppTypeEnum::I4,
        data: TypeData::ArrayType,
        attrs: 0x1,
        byref: true,
        valuetype: true,
    };
    assert_eq!(
        this.il2cpp_byref("int32_t".to_string(), &in_param),
        "ByRefConst<int32_t>"
    );
    let plain = Il2CppType {
        ty: Il2CppTypeEnum::I4,
        data: TypeData::ArrayType,
        attrs: 0,
        byref: false,
        valuetype: true,
    };
    assert_eq!(this.il2cpp_byref("int32_t".to_string(), &plain), "int32_t");
    assert_eq!(
        reqs_paths(&this.requirements),
        vec!["beatsaber-hook/shared/utils/byref.hpp".to_string()]
    );
}

fn reqs_paths(reqs: &CppTypeRequirements) -> Vec<String> {
    reqs.required_def_includes.iter().map(|i| i.path.clone()).collect()
}

#[test]
fn exhausted_budget_is_reported() {
    let m = empty_metadata();
    let ctx = CppContextCollection { entries: Vec::new() };
    let this = resolver_type(CsTypeTag::TypeDefinitionIndex(0), "Owner");
    let mut reqs = CppTypeRequirements::new();
    let i4 = Il2CppType {
        ty: Il2CppTypeEnum::I4,
        data: TypeData::ArrayType,
        attrs: 0,
        byref: false,
        valuetype: true,
    };
    let r = this.cppify_name_il2cpp_recurse(&mut reqs, &ctx, &m, &i4, 0, None, TypeUsage::Field, 0);
    assert!(matches!(r, Err(cordl::ResolveError::RecursionLimit)));
}

#[test]
fn method_generic_parameter_substitutes_from_method_map() {
    let mut m = empty_metadata();
    m.generic_parameters.push(cordl::Il2CppGenericParameter {
        name: "TResult".to_string(),
        owner_is_method: true,
        owner_index: 7,
        num: 0,
    });
    m.types.push(Il2CppType {
        ty: Il2CppTypeEnum::I8,
        data: TypeData::ArrayType,
        attrs: 0,
        byref: false,
        valuetype: true,
    });
    m.type_sizes = vec![8];
    let ctx = CppContextCollection { entries: Vec::new() };
    let mut this = resolver_type(CsTypeTag::TypeDefinitionIndex(0), "Owner");
    let mvar = Il2CppType {
        ty: Il2CppTypeEnum::Mvar,
        data: TypeData::GenericParameterIndex(0),
        attrs: 0,
        byref: false,
        valuetype: false,
    };
    // without a recorded instantiation the literal parameter name is used
    let mut reqs = CppTypeRequirements::new();
    let bare = this
        .cppify_name_il2cpp_recurse(&mut reqs, &ctx, &m, &mvar, 0, None, TypeUsage::ReturnType, 8)
        .unwrap();
    assert_eq!(bare.name, "TResult");
    // with a recorded instantiation the concrete argument is substituted
    this.method_generic_instantiation_map.push((7, vec![0]));
    let subst = this
        .cppify_name_il2cpp_recurse(&mut reqs, &ctx, &m, &mvar, 0, None, TypeUsage::ReturnType, 8)
        .unwrap();
    assert_eq!(subst.name, "int64_t");
}

#[test]
fn type_generic_parameter_substitutes_from_own_arguments() {
    let mut m = empty_metadata();
    m.generic_parameters.push(cordl::Il2CppGenericParameter {
        name: "T".to_string(),
        owner_is_method: false,
        owner_index: 0,
        num: 0,
    });
    m.types.push(Il2CppType {
        ty: Il2CppTypeEnum::I4,
        data: TypeData::ArrayType,
        attrs: 0,
        byref: false,
        valuetype: true,
    });
    m.type_sizes = vec![4];
    let ctx = CppContextCollection { entries: Vec::new() };
    let mut this = resolver_type(CsTypeTag::GenericInstantiation(0), "Box");
    this.generic_instantiations_args_types = Some(vec![0]);
    this.cpp_name_components.generics = Some(vec!["int32_t".to_string()]);
    let var = Il2CppType {
        ty: Il2CppTypeEnum::Var,
        data: TypeData::GenericParameterIndex(0),
        attrs: 0,
        byref: false,
        valuetype: false,
    };
    let mut reqs = CppTypeRequirements::new();
    let r = this
        .cppify_name_il2cpp_recurse(&mut reqs, &ctx, &m, &var, 0, None, TypeUsage::Field, 8)
        .unwrap();
    assert_eq!(r.name, "int32_t");
    assert!(!r.is_pointer);
}
