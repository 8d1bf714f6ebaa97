//! Model-building and layout core for a metadata-to-native-binding generator.
//!
//! Given an in-memory snapshot of an ahead-of-time-compiled managed runtime's
//! type metadata, this library reconstructs, for every managed type, a
//! memory-layout-exact structural model: resolved structured names for every
//! referenced type, per-field byte offsets and sizes, synthesized unions for
//! overlapping layouts, trailing padding reconciling computed and reported
//! sizes, and a per-type record of forward-reference versus full-definition
//! requirements. Emission of target-language syntax, command-line handling and
//! file writing are outside this crate.

mod builder;
mod cpp_members;
mod cs_fields;
mod generic_args;
mod laws;
mod members;
mod metadata;
mod name_components;
mod offsets;
mod requirements;
mod resolver;
mod rust_reqs;
mod tags;

pub use builder::BuildError;
pub use builder::CsType;
pub use builder::CsTypeRequirements;
pub use builder::blob_decodes_to;
pub use builder::default_value_blob;
pub use builder::fdv_lookup;
pub use builder::field_default_value;
pub use builder::param_default_value;
pub use builder::pdv_lookup;
pub use builder::read_u16_le;
pub use builder::read_u32_le;
pub use builder::read_u64_le;
pub use builder::spec_make_parent;
pub use builder::spec_tag_tdi;
pub use builder::spec_unbox_nullable;
pub use builder::tag_tdi;
pub use builder::unbox_nullable_valuetype;
pub use builder::utf8_lossy_of;
pub use cpp_members::CppCommentedString;
pub use cpp_members::CppConstructorDecl;
pub use cpp_members::CppConstructorImpl;
pub use cpp_members::CppField;
pub use cpp_members::CppFieldDecl;
pub use cpp_members::CppFieldDeclView;
pub use cpp_members::CppForwardDeclare;
pub use cpp_members::CppForwardDeclareGroup;
pub use cpp_members::CppForwardDeclareView;
pub use cpp_members::CppInclude;
pub use cpp_members::CppIncludeView;
pub use cpp_members::CppMember;
pub use cpp_members::CppMethodData;
pub use cpp_members::CppMethodDecl;
pub use cpp_members::CppMethodImpl;
pub use cpp_members::CppMethodSizeStruct;
pub use cpp_members::CppNonMember;
pub use cpp_members::CppParam;
pub use cpp_members::CppProperty;
pub use cpp_members::CppStaticAssert;
pub use cpp_members::CppStructSpecialization;
pub use cpp_members::CppTemplate;
pub use cpp_members::CppUsingAlias;
pub use cpp_members::forward_declare_eq;
pub use cpp_members::include_eq;
pub use cpp_members::param_as_arg_spec;
pub use cpp_members::param_il2cpp_type_spec;
pub use cpp_members::string_option_eq;
pub use cpp_members::string_vec_eq;
pub use cs_fields::FieldInfo;
pub use cs_fields::FieldInfoSet;
pub use cs_fields::LayoutError;
pub use cs_fields::backing_name;
pub use cs_fields::branch_names;
pub use cs_fields::branches_names;
pub use cs_fields::consts_of;
pub use cs_fields::csfield_like;
pub use cs_fields::csfield_like_renamed;
pub use cs_fields::field_collision_check;
pub use cs_fields::field_into_offset_structs;
pub use cs_fields::field_ty_eq;
pub use cs_fields::fieldinfo_names;
pub use cs_fields::fixup_backing_field;
pub use cs_fields::handle_const_fields;
pub use cs_fields::handle_instance_fields;
pub use cs_fields::handle_referencetype_fields;
pub use cs_fields::handle_static_fields;
pub use cs_fields::handle_valuetype_fields;
pub use cs_fields::hex_spec;
pub use cs_fields::is_aligned_struct_for;
pub use cs_fields::is_packed_struct_for;
pub use cs_fields::is_pad_field;
pub use cs_fields::leaf_names;
pub use cs_fields::make_or_unionize_fields;
pub use cs_fields::pack_fields_into_single_union;
pub use cs_fields::prop_decl_from_fieldinfo;
pub use cs_fields::ranges_overlap;
pub use cs_fields::spec_field_collision;
pub use cs_fields::spec_min_offset;
pub use cs_fields::statics_of;
pub use cs_fields::to_hex;
pub use cs_fields::value_opt_eq;
pub use generic_args::backed_by_constraint;
pub use generic_args::dec_spec;
pub use generic_args::parse_generic_arg;
pub use generic_args::reference_constraint;
pub use generic_args::spec_enum_discriminator;
pub use generic_args::targs_pushed_one;
pub use generic_args::to_decimal;
pub use laws::law_denied_reference_widens;
pub use laws::law_resolve_args_idempotent;
pub use laws::law_resolve_idempotent;
pub use laws::law_self_instantiation_resolves;
pub use laws::law_self_reference_short_circuits;
pub use laws::law_value_args_distinct;
pub use laws::same_resolver_state;
pub use members::CsCommentedString;
pub use members::CsConstructor;
pub use members::CsField;
pub use members::CsFieldLayout;
pub use members::CsFieldType;
pub use members::CsGenericTemplate;
pub use members::CsGenericTemplateType;
pub use members::CsMember;
pub use members::CsMethodData;
pub use members::CsMethodDecl;
pub use members::CsNestedStruct;
pub use members::CsNestedUnion;
pub use members::CsParam;
pub use members::CsParamFlags;
pub use members::CsPropertyDecl;
pub use members::CsUsingAlias;
pub use members::CsValue;
pub use members::clone_bytes;
pub use members::clone_value_option;
pub use metadata::FieldDefaultValue;
pub use metadata::INVALID_INDEX;
pub use metadata::Il2CppFieldDefinition;
pub use metadata::Il2CppGenericClass;
pub use metadata::Il2CppGenericParameter;
pub use metadata::Il2CppMethodDefinition;
pub use metadata::Il2CppParameterDefinition;
pub use metadata::Il2CppPropertyDefinition;
pub use metadata::Il2CppType;
pub use metadata::Il2CppTypeDefinition;
pub use metadata::Il2CppTypeEnum;
pub use metadata::Metadata;
pub use metadata::MethodCalculation;
pub use metadata::ParameterDefaultValue;
pub use metadata::SizeInfo;
pub use metadata::TypeUsage;
pub use metadata::is_primitive_builtin;
pub use metadata::metadata_wf;
pub use metadata::spec_is_primitive_builtin;
pub use name_components::NameComponents;
pub use name_components::NameComponentsView;
pub use name_components::combine_all_spec;
pub use name_components::join_comma;
pub use name_components::join_scoped;
pub use offsets::align_up;
pub use offsets::closest_packing;
pub use offsets::size_padding_name;
pub use offsets::size_padding_spec;
pub use requirements::CppTypeRequirements;
pub use requirements::fwd_in;
pub use requirements::fwds_unique;
pub use requirements::inc_view;
pub use requirements::include_in;
pub use requirements::includes_unique;
pub use requirements::tags_unique;
pub use resolver::CppContextCollection;
pub use resolver::CppContextEntry;
pub use resolver::CppType;
pub use resolver::ResolveError;
pub use resolver::ResolveErrorView;
pub use resolver::byref_fixed_name_spec;
pub use resolver::ctx_get;
pub use resolver::data_independent_kind;
pub use resolver::is_class_kind;
pub use resolver::is_strict_class_kind;
pub use resolver::method_args_lookup;
pub use resolver::names_has;
pub use resolver::ncv;
pub use resolver::object_pointer_ncv;
pub use resolver::reqs_extends;
pub use resolver::resolve_result_matches;
pub use resolver::spec_resolve_args;
pub use resolver::spec_resolve_name;
pub use resolver::tag_from_type_data;
pub use resolver::template_has_name;
pub use resolver::type_data_tag;
pub use resolver::wrapper_name_spec;
pub use resolver::wrapper_type_for_tdi;
pub use rust_reqs::RustTypeRequirements;
pub use rust_reqs::Visibility;
pub use tags::CsTypeTag;
pub use tags::TypeData;
