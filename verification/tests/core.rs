use cordl::CppInclude;
use cordl::CppParam;
use cordl::CppTypeRequirements;
use cordl::CsGenericTemplate;
use cordl::CsGenericTemplateType;
use cordl::RustTypeRequirements;
use cordl::Visibility;
use cordl::to_decimal;
use cordl::to_hex;

#[test]
fn decimal_rendering() {
    assert_eq!(to_decimal(0), "0");
    assert_eq!(to_decimal(7), "7");
    assert_eq!(to_decimal(10), "10");
    assert_eq!(to_decimal(90125), "90125");
}

#[test]
fn hex_rendering() {
    assert_eq!(to_hex(0), "0");
    assert_eq!(to_hex(0x10), "10");
    assert_eq!(to_hex(0x1f), "1f");
    assert_eq!(to_hex(0xdeadbeef), "deadbeef");
}

#[test]
fn template_typenames() {
    let t = CsGenericTemplate::make_typenames(vec!["T".to_string(), "TKey".to_string()]);
    assert_eq!(t.names.len(), 2);
    assert_eq!(t.names[0].0, CsGenericTemplateType::Any);
    assert_eq!(t.names[0].1, "T");
    assert_eq!(t.names[1].1, "TKey");
    let names = t.just_names();
    assert_eq!(names, vec!["T".to_string(), "TKey".to_string()]);
}

#[test]
fn template_ref_types() {
    let t = CsGenericTemplate::make_ref_types(vec!["T".to_string()]);
    assert_eq!(t.names[0].0, CsGenericTemplateType::Reference);
    assert!(t.contains_name(&"T".to_string()));
    assert!(!t.contains_name(&"U".to_string()));
}

#[test]
fn params_render_forms() {
    let params = vec![
        CppParam {
            name: "count".to_string(),
            ty: "int32_t".to_string(),
            modifiers: "".to_string(),
            def_value: Some("0".to_string()),
        },
        CppParam {
            name: "label".to_string(),
            ty: "::StringW".to_string(),
            modifiers: " const".to_string(),
            def_value: None,
        },
    ];
    assert_eq!(
        CppParam::params_as_args(&params),
        vec!["int32_t count = 0".to_string(), "::StringW const label".to_string()]
    );
    assert_eq!(
        CppParam::params_as_args_no_default(&params),
        vec!["int32_t count".to_string(), "::StringW const label".to_string()]
    );
    assert_eq!(
        CppParam::params_names(&params),
        vec!["count".to_string(), "label".to_string()]
    );
    assert_eq!(
        CppParam::params_types(&params),
        vec!["int32_t".to_string(), "::StringW".to_string()]
    );
    assert_eq!(
        CppParam::params_il2cpp_types(&params),
        vec![
            "::il2cpp_utils::ExtractType(count)".to_string(),
            "::il2cpp_utils::ExtractType(label)".to_string()
        ]
    );
}

#[test]
fn include_constructors() {
    let sys = CppInclude::new_system("cstdint".to_string());
    assert_eq!(sys.path, "cstdint");
    assert!(sys.system);
    let local = CppInclude::new("beatsaber-hook/shared/utils/byref.hpp".to_string());
    assert!(!local.system);
}

#[test]
fn requirement_includes_deduplicate() {
    let mut reqs = CppTypeRequirements::new();
    reqs.needs_int_include();
    reqs.needs_int_include();
    reqs.needs_math_include();
    assert_eq!(reqs.required_def_includes.len(), 2);
    assert_eq!(reqs.required_def_includes[0].path, "cstdint");
    assert!(reqs.required_def_includes[0].system);
    assert_eq!(reqs.required_def_includes[1].path, "cmath");
}

#[test]
fn requirement_wrapper_header() {
    let mut reqs = CppTypeRequirements::new();
    reqs.need_wrapper();
    assert_eq!(
        reqs.required_def_includes[0].path,
        "beatsaber-hook/shared/utils/base-wrapper-type.hpp"
    );
    assert!(!reqs.required_def_includes[0].system);
}

#[test]
fn dependency_tags_deduplicate() {
    let mut reqs = CppTypeRequirements::new();
    reqs.add_dependency_tag(cordl::CsTypeTag::TypeDefinitionIndex(4));
    reqs.add_dependency_tag(cordl::CsTypeTag::TypeDefinitionIndex(4));
    reqs.add_dependency_tag(cordl::CsTypeTag::GenericInstantiation(4));
    assert_eq!(reqs.depending_types.len(), 2);
}

#[test]
fn rust_modules_deduplicate() {
    let mut reqs = RustTypeRequirements::new();
    reqs.needs_object_include();
    reqs.needs_object_include();
    reqs.needs_array_include();
    reqs.needs_byref_include();
    assert_eq!(reqs.get_modules().len(), 2);
    assert_eq!(reqs.get_modules()[0], "quest_hook::libil2cpp::Il2CppObject");
    assert_eq!(reqs.get_modules()[1], "quest_hook::libil2cpp::Il2CppArray");
    reqs.add_module("quest_hook::libil2cpp::Il2CppString");
    assert_eq!(reqs.get_modules().len(), 3);
}

#[test]
fn visibility_keywords() {
    assert_eq!(Visibility::Public.to_string(), "pub");
    assert_eq!(Visibility::PublicCrate.to_string(), "pub(crate)");
    assert_eq!(Visibility::Private.to_string(), "");
}

#[test]
fn name_components_render() {
    let nc = cordl::NameComponents {
        name: "List".to_string(),
        namespace: Some("System::Collections::Generic".to_string()),
        declaring_types: None,
        generics: Some(vec!["int32_t".to_string(), "::StringW".to_string()]),
        is_pointer: true,
    };
    assert_eq!(
        nc.combine_all(),
        "System::Collections::Generic::List<int32_t, ::StringW>*"
    );
    let np = nc.remove_pointer();
    assert_eq!(
        np.combine_all(),
        "System::Collections::Generic::List<int32_t, ::StringW>"
    );
}

#[test]
fn name_components_declaring_chain() {
    let nc = cordl::NameComponents {
        name: "Inner".to_string(),
        namespace: Some("Game".to_string()),
        declaring_types: Some(vec!["Outer".to_string()]),
        generics: None,
        is_pointer: false,
    };
    assert_eq!(nc.combine_all(), "Game::Outer::Inner");
}
