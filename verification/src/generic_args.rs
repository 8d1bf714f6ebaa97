use vstd::prelude::*;
use vstd::string::StringExecFns;
use crate::metadata::Il2CppType;
use crate::metadata::Il2CppTypeEnum;
use crate::metadata::Metadata;
use crate::metadata::TypeUsage;
use crate::name_components::NameComponents;
use crate::resolver::CppContextCollection;
use crate::resolver::CppType;
use crate::resolver::ResolveError;
use crate::resolver::ncv;
use crate::resolver::resolve_result_matches;
use crate::resolver::spec_resolve_name;
use crate::tags::TypeData;

verus! {

/// The decimal digit character of one value below ten.
pub open spec fn digit_seq(d: nat) -> Seq<char> {
    if d == 0 {
        "0"@
    } else if d == 1 {
        "1"@
    } else if d == 2 {
        "2"@
    } else if d == 3 {
        "3"@
    } else if d == 4 {
        "4"@
    } else if d == 5 {
        "5"@
    } else if d == 6 {
        "6"@
    } else if d == 7 {
        "7"@
    } else if d == 8 {
        "8"@
    } else {
        "9"@
    }
}

/// The decimal rendering of a number, most significant digit first.
pub open spec fn dec_spec(n: nat) -> Seq<char>
    decreases n,
{
    if n < 10 {
        digit_seq(n)
    } else {
        dec_spec(n / 10) + digit_seq(n % 10)
    }
}

/// Render one digit.
fn digit_str(d: usize) -> (r: &'static str)
    requires
        d < 10,
    ensures
        r@ == digit_seq(d as nat),
{
    if d == 0 {
        "0"
    } else if d == 1 {
        "1"
    } else if d == 2 {
        "2"
    } else if d == 3 {
        "3"
    } else if d == 4 {
        "4"
    } else if d == 5 {
        "5"
    } else if d == 6 {
        "6"
    } else if d == 7 {
        "7"
    } else if d == 8 {
        "8"
    } else {
        "9"
    }
}

/// Render a number in decimal.
pub fn to_decimal(n: usize) -> (r: String)
    ensures
        r@ == dec_spec(n as nat),
    decreases n,
{
    if n < 10 {
        String::from_str(digit_str(n))
    } else {
        let mut s = to_decimal(n / 10);
        s.append(digit_str(n % 10));
        s
    }
}

/// Render a wide number in decimal.
pub fn to_decimal_u64(n: u64) -> (r: String)
    ensures
        r@ == dec_spec(n as nat),
    decreases n,
{
    if n < 10 {
        String::from_str(digit_str((n % 10) as usize))
    } else {
        let mut s = to_decimal_u64(n / 10);
        s.append(digit_str((n % 10) as usize));
        s
    }
}

/// The constraint naming a managed-object handle: every reference-typed
/// generic argument shares one instantiation under it.
pub open spec fn reference_constraint() -> Seq<char> {
    "::il2cpp_utils::il2cpp_reference_type"@
}

/// The constraint naming "is, or is backed by, this integer type", used for
/// value-typed arguments whose representation is a fixed-width integer.
pub open spec fn backed_by_constraint(inner: Seq<char>) -> Seq<char> {
    "::cordl_internals::is_or_is_backed_by<"@ + inner + ">"@
}

/// The built-in integer kind a well-known enum-representation marker type
/// stands for, when the referent is one of those markers.
pub open spec fn spec_enum_discriminator(m: Metadata, t: Il2CppType) -> Option<Il2CppTypeEnum> {
    match t.data {
        TypeData::TypeDefinitionIndex(tdi) => {
            let td = m.type_definitions@[tdi as int];
            if td.namespace@ != "System"@ {
                None
            } else if td.name@ == "SByteEnum"@ {
                Some(Il2CppTypeEnum::I1)
            } else if td.name@ == "Int16Enum"@ {
                Some(Il2CppTypeEnum::I2)
            } else if td.name@ == "Int32Enum"@ {
                Some(Il2CppTypeEnum::I4)
            } else if td.name@ == "Int64Enum"@ {
                Some(Il2CppTypeEnum::I8)
            } else if td.name@ == "ByteEnum"@ {
                Some(Il2CppTypeEnum::U1)
            } else if td.name@ == "UInt16Enum"@ {
                Some(Il2CppTypeEnum::U2)
            } else if td.name@ == "UInt32Enum"@ {
                Some(Il2CppTypeEnum::U4)
            } else if td.name@ == "UInt64Enum"@ {
                Some(Il2CppTypeEnum::U8)
            } else {
                None
            }
        },
        _ => None,
    }
}

/// Executable form of [`spec_enum_discriminator`].
fn enum_discriminator(m: &Metadata, t: &Il2CppType) -> (r: Option<Il2CppTypeEnum>)
    requires
        m.wf(),
        crate::metadata::type_record_wf(*m, *t),
    ensures
        r == spec_enum_discriminator(*m, *t),
{
    match t.data {
        TypeData::TypeDefinitionIndex(tdi) => {
            let td = &m.type_definitions[tdi as usize];
            let sys = String::from_str("System");
            if !td.namespace.eq(&sys) {
                return None;
            }
            if td.name.eq(&String::from_str("SByteEnum")) {
                Some(Il2CppTypeEnum::I1)
            } else if td.name.eq(&String::from_str("Int16Enum")) {
                Some(Il2CppTypeEnum::I2)
            } else if td.name.eq(&String::from_str("Int32Enum")) {
                Some(Il2CppTypeEnum::I4)
            } else if td.name.eq(&String::from_str("Int64Enum")) {
                Some(Il2CppTypeEnum::I8)
            } else if td.name.eq(&String::from_str("ByteEnum")) {
                Some(Il2CppTypeEnum::U1)
            } else if td.name.eq(&String::from_str("UInt16Enum")) {
                Some(Il2CppTypeEnum::U2)
            } else if td.name.eq(&String::from_str("UInt32Enum")) {
                Some(Il2CppTypeEnum::U4)
            } else if td.name.eq(&String::from_str("UInt64Enum")) {
                Some(Il2CppTypeEnum::U8)
            } else {
                None
            }
        },
        _ => None,
    }
}

/// Whether a constraint list extends another by exactly the given pairs of
/// (constraint, parameter name) views.
pub open spec fn targs_pushed_one(
    post: Seq<(String, String)>,
    pre: Seq<(String, String)>,
    constraint: Seq<char>,
    name: Seq<char>,
) -> bool {
    &&& post.len() == pre.len() + 1
    &&& post.subrange(0, pre.len() as int) == pre
    &&& post.last().0@ == constraint
    &&& post.last().1@ == name
}

/// Widen one concrete generic argument used as a structural member.
///
/// A reference-typed argument becomes the placeholder `gen_name`, constrained
/// to be a managed-object handle: all reference arguments share one
/// instantiation. A value-typed argument backed by a fixed-width integer
/// (one of the enum-representation markers) becomes the placeholder
/// constrained to be, or be backed by, that integer type. Any other
/// value-typed argument resolves to its own concrete name, so distinct
/// value-typed arguments produce distinct instantiations; a nested
/// instantiation recurses into its arguments, mangling placeholder names
/// with the running constraint count to keep them distinct.
pub fn parse_generic_arg(
    t: &Il2CppType,
    gen_name: String,
    cpp_type: &mut CppType,
    ctx_collection: &CppContextCollection,
    metadata: &Metadata,
    template_args: &mut Vec<(String, String)>,
    fuel: usize,
) -> (r: Result<NameComponents, ResolveError>)
    requires
        old(cpp_type).requirements.wf(),
        metadata.wf(),
        old(cpp_type).generics_wf(*metadata),
        crate::metadata::type_record_wf(*metadata, *t),
    ensures
        final(cpp_type).requirements.wf(),
        *final(cpp_type) == (CppType {
            requirements: final(cpp_type).requirements,
            ..*old(cpp_type)
        }),
        old(template_args)@.is_prefix_of(final(template_args)@),
        !t.valuetype ==> {
            &&& r is Ok
            &&& r->Ok_0@ == ncv(gen_name@)
            &&& targs_pushed_one(
                final(template_args)@,
                old(template_args)@,
                reference_constraint(),
                gen_name@,
            )
        },
        t.valuetype && spec_enum_discriminator(*metadata, *t) is Some && fuel >= 1 ==> {
            &&& r is Ok
            &&& r->Ok_0@ == ncv(gen_name@)
            &&& final(template_args)@.len() == old(template_args)@.len() + 1
            &&& final(template_args)@.last().1@ == gen_name@
        },
        t.valuetype && spec_enum_discriminator(*metadata, *t) is None && !(t.data
            is GenericClassIndex) ==> {
            &&& final(template_args)@ == old(template_args)@
            &&& resolve_result_matches(
                r,
                spec_resolve_name(
                    *metadata,
                    *ctx_collection,
                    *old(cpp_type),
                    *t,
                    0,
                    match old(cpp_type).generic_instantiations_args_types {
                        Some(ref v) => Some(v@),
                        None => None,
                    },
                    TypeUsage::TypeName,
                    fuel as nat,
                ),
            )
        },
    decreases fuel,
{
    if !t.valuetype {
        let ghost pre = template_args@;
        template_args.push((
            String::from_str("::il2cpp_utils::il2cpp_reference_type"),
            gen_name.clone(),
        ));
        proof {
            assert(template_args@.subrange(0, pre.len() as int) =~= pre);
            assert(pre.is_prefix_of(template_args@));
        }
        return Ok(NameComponents::from_name(gen_name));
    }

    let disc = enum_discriminator(metadata, t);
    match disc {
        Some(e) => {
            let inner_enum_type = Il2CppType {
                ty: e,
                data: TypeData::ArrayType,
                attrs: 0xffff,
                byref: false,
                valuetype: true,
            };
            let inner_res = cpp_type.cppify_name_il2cpp(
                ctx_collection,
                metadata,
                &inner_enum_type,
                0,
                TypeUsage::GenericArg,
                fuel,
            );
            let inner = match inner_res {
                Ok(nc) => nc,
                Err(err) => {
                    proof {
                        lemma_prefix_refl(template_args@);
                        if fuel >= 1 {
                            assert(spec_resolve_name(
                                *metadata,
                                *ctx_collection,
                                *old(cpp_type),
                                inner_enum_type,
                                0,
                                match old(cpp_type).generic_instantiations_args_types {
                                    Some(ref v) => Some(v@),
                                    None => None,
                                },
                                TypeUsage::GenericArg,
                                fuel as nat,
                            ) is Ok);
                        }
                    }
                    return Err(err);
                },
            };
            let inner_formatted = inner.combine_all();
            let mut constraint = String::from_str("::cordl_internals::is_or_is_backed_by<");
            constraint.append(inner_formatted.as_str());
            constraint.append(">");
            let ghost pre = template_args@;
            template_args.push((constraint, gen_name.clone()));
            proof {
                assert(template_args@.subrange(0, pre.len() as int) =~= pre);
                assert(pre.is_prefix_of(template_args@));
            }
            return Ok(NameComponents::from_name(gen_name));
        },
        None => {},
    }

    let inner_type_res = cpp_type.cppify_name_il2cpp(
        ctx_collection,
        metadata,
        t,
        0,
        TypeUsage::TypeName,
        fuel,
    );

    match t.data {
        TypeData::GenericClassIndex(gen_class_idx) => {
            let gc = metadata.generic_classes[gen_class_idx];
            let gen_class_ty = metadata.types[gc.type_index];
            let gen_class_tdi = match gen_class_ty.data {
                TypeData::TypeDefinitionIndex(tdi) => tdi,
                _ => {
                    proof {
                        lemma_prefix_refl(template_args@);
                    }
                    return Err(ResolveError::UnexpectedTypeData);
                },
            };
            let ci = match gc.class_inst_index {
                Some(ci) => ci,
                None => {
                    proof {
                        lemma_prefix_refl(template_args@);
                    }
                    return Err(ResolveError::UnexpectedTypeData);
                },
            };
            let non_generic_inner = match cpp_type.cppify_name_il2cpp(
                ctx_collection,
                metadata,
                &gen_class_ty,
                0,
                TypeUsage::GenericArg,
                fuel,
            ) {
                Ok(nc) => nc,
                Err(err) => {
                    proof {
                        lemma_prefix_refl(template_args@);
                    }
                    return Err(err);
                },
            };
            if fuel == 0 {
                proof {
                    lemma_prefix_refl(template_args@);
                }
                return Err(ResolveError::RecursionLimit);
            }
            let gen_container = match &metadata.type_definitions[gen_class_tdi
                as usize].generic_container {
                Some(ps) => ps,
                None => {
                    proof {
                        lemma_prefix_refl(template_args@);
                    }
                    return Err(ResolveError::UnexpectedTypeData);
                },
            };
            let mut inner_generic_params: Vec<String> = Vec::new();
            let mut j: usize = 0;
            let ghost pre_args = template_args@;
            proof {
                lemma_prefix_refl(pre_args);
            }
            #[verifier::loop_isolation(false)]
            while j < metadata.generic_insts[ci].len()
                invariant
                    j <= metadata.generic_insts@[ci as int]@.len(),
                    final_fields_only(*cpp_type, *old(cpp_type)),
                    cpp_type.requirements.wf(),
                    pre_args.is_prefix_of(template_args@),
                decreases metadata.generic_insts@[ci as int]@.len() - j,
            {
                let u = metadata.generic_insts[ci][j];
                let inner_t = &metadata.types[u];
                let param_name: String = if j < gen_container.len() {
                    let gp_idx = gen_container[j];
                    metadata.generic_parameters[gp_idx as usize].name.clone()
                } else {
                    String::from_str("T")
                };
                let mut mangled = param_name;
                mangled.append("_cordlgen_");
                let count = to_decimal(template_args.len());
                mangled.append(count.as_str());
                let ghost pre_rec = template_args@;
                let rec = parse_generic_arg(
                    inner_t,
                    mangled,
                    cpp_type,
                    ctx_collection,
                    metadata,
                    template_args,
                    fuel - 1,
                );
                proof {
                    lemma_prefix_trans(pre_args, pre_rec, template_args@);
                }
                match rec {
                    Ok(nc) => {
                        inner_generic_params.push(nc.combine_all());
                    },
                    Err(err) => {
                        return Err(err);
                    },
                }
                j += 1;
            }
            Ok(
                NameComponents {
                    generics: Some(inner_generic_params),
                    name: non_generic_inner.name,
                    namespace: non_generic_inner.namespace,
                    declaring_types: non_generic_inner.declaring_types,
                    is_pointer: non_generic_inner.is_pointer,
                },
            )
        },
        _ => {
            proof {
                lemma_prefix_refl(template_args@);
            }
            inner_type_res
        },
    }
}

/// All fields of `post` but the requirement accumulator equal those of `pre`.
pub open spec fn final_fields_only(post: CppType, pre: CppType) -> bool {
    post == (CppType { requirements: post.requirements, ..pre })
}

/// A sequence is a prefix of itself.
proof fn lemma_prefix_refl<T>(s: Seq<T>)
    ensures
        s.is_prefix_of(s),
{
    assert(s =~= s.subrange(0, s.len() as int));
}

/// Prefixes compose.
proof fn lemma_prefix_trans<T>(a: Seq<T>, b: Seq<T>, c: Seq<T>)
    requires
        a.is_prefix_of(b),
        b.is_prefix_of(c),
    ensures
        a.is_prefix_of(c),
{
    assert forall|i: int| 0 <= i < a.len() implies a[i] == c.subrange(0, a.len() as int)[i] by {
        assert(a[i] == b.subrange(0, a.len() as int)[i]);
        assert(b[i] == c.subrange(0, b.len() as int)[i]);
    }
    assert(a =~= c.subrange(0, a.len() as int));
}

} // verus!
