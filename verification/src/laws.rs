use vstd::prelude::*;
use crate::metadata::Il2CppType;
use crate::metadata::Il2CppTypeEnum;
use crate::metadata::Metadata;
use crate::metadata::TypeUsage;
use crate::name_components::NameComponentsView;
use crate::resolver::CppContextCollection;
use crate::resolver::CppType;
use crate::resolver::ResolveErrorView;
use crate::resolver::ctx_get;
use crate::resolver::ncv;
use crate::resolver::object_pointer_ncv;
use crate::resolver::spec_resolve_args;
use crate::resolver::spec_resolve_name;
use crate::resolver::tag_from_type_data;
use crate::tags::CsTypeTag;
use crate::tags::TypeData;

verus! {

/// Two resolution states agree on everything resolution reads: they may
/// differ only in the accumulated requirements.
pub open spec fn same_resolver_state(a: CppType, b: CppType) -> bool {
    b == (CppType { requirements: b.requirements, ..a })
}

/// Name resolution never reads the requirement accumulator: two states that
/// differ only in accumulated requirements resolve every reference to the
/// same structured name. With this, resolving the same (raw type, generic
/// context, usage) twice is idempotent: the second resolution returns the
/// identical structured name, and since each accumulator list stays
/// duplicate-free by construction, no duplicate dependency entries arise.
pub proof fn law_resolve_idempotent(
    m: Metadata,
    ctx: CppContextCollection,
    a: CppType,
    b: CppType,
    typ: Il2CppType,
    depth: nat,
    declaring: Option<Seq<usize>>,
    usage: TypeUsage,
    fuel: nat,
)
    requires
        same_resolver_state(a, b),
    ensures
        spec_resolve_name(m, ctx, a, typ, depth, declaring, usage, fuel) == spec_resolve_name(
            m,
            ctx,
            b,
            typ,
            depth,
            declaring,
            usage,
            fuel,
        ),
    decreases fuel, 1int, 0int,
{
    if fuel == 0 {
    } else {
        let next_depth: nat = if depth > 0 {
            (depth - 1) as nat
        } else {
            0
        };
        if typ.ty == Il2CppTypeEnum::Szarray || typ.ty == Il2CppTypeEnum::Ptr {
            match typ.data {
                TypeData::TypeIndex(e) => {
                    law_resolve_idempotent(
                        m,
                        ctx,
                        a,
                        b,
                        m.types@[e as int],
                        depth,
                        declaring,
                        usage,
                        (fuel - 1) as nat,
                    );
                },
                _ => {},
            }
        } else if typ.ty == Il2CppTypeEnum::Mvar {
            match typ.data {
                TypeData::GenericParameterIndex(index) => {
                    let param = m.generic_parameters@[index as int];
                    if param.owner_is_method {
                        match crate::resolver::method_args_lookup(
                            a.method_generic_instantiation_map@,
                            param.owner_index,
                        ) {
                            Some(args) => {
                                if (param.num as int) < args.len() {
                                    law_resolve_idempotent(
                                        m,
                                        ctx,
                                        a,
                                        b,
                                        m.types@[args[param.num as int] as int],
                                        depth,
                                        declaring,
                                        TypeUsage::GenericArg,
                                        (fuel - 1) as nat,
                                    );
                                }
                            },
                            None => {},
                        }
                    }
                },
                _ => {},
            }
        } else if typ.ty == Il2CppTypeEnum::Genericinst {
            match typ.data {
                TypeData::GenericClassIndex(e) => {
                    let gc = m.generic_classes@[e as int];
                    match gc.class_inst_index {
                        Some(ci) => {
                            let inst = m.generic_insts@[ci as int]@;
                            let generic_type_def = m.types@[gc.type_index as int];
                            match generic_type_def.data {
                                TypeData::TypeDefinitionIndex(_tdi) => {
                                    law_resolve_args_idempotent(
                                        m,
                                        ctx,
                                        a,
                                        b,
                                        inst,
                                        next_depth,
                                        declaring,
                                        fuel,
                                    );
                                    law_resolve_idempotent(
                                        m,
                                        ctx,
                                        a,
                                        b,
                                        generic_type_def,
                                        depth,
                                        Some(inst),
                                        usage,
                                        (fuel - 1) as nat,
                                    );
                                },
                                _ => {},
                            }
                        },
                        None => {},
                    }
                },
                _ => {},
            }
        } else {
        }
    }
}

/// List form of [`law_resolve_idempotent`]: rendering the argument list of
/// one instantiation reads nothing of the accumulator either.
pub proof fn law_resolve_args_idempotent(
    m: Metadata,
    ctx: CppContextCollection,
    a: CppType,
    b: CppType,
    args: Seq<usize>,
    next_depth: nat,
    declaring: Option<Seq<usize>>,
    fuel: nat,
)
    requires
        same_resolver_state(a, b),
    ensures
        spec_resolve_args(m, ctx, a, args, next_depth, declaring, fuel) == spec_resolve_args(
            m,
            ctx,
            b,
            args,
            next_depth,
            declaring,
            fuel,
        ),
    decreases fuel, 0int, args.len(),
{
    if args.len() == 0 {
    } else if fuel == 0 {
    } else {
        let t = m.types@[args[0] as int];
        let d: nat = if t.valuetype {
            next_depth
        } else {
            0
        };
        law_resolve_idempotent(
            m,
            ctx,
            a,
            b,
            t,
            d,
            declaring,
            TypeUsage::GenericArg,
            (fuel - 1) as nat,
        );
        law_resolve_args_idempotent(
            m,
            ctx,
            a,
            b,
            args.drop_first(),
            next_depth,
            declaring,
            fuel,
        );
    }
}

/// A reference to the type under construction short-circuits: it resolves to
/// the type's own rendered name at any remaining budget, so a self-referential
/// reference never exhausts the recursion budget. Together with the
/// resolver's guarantee that a self-reference of strict class kind leaves the
/// requirement accumulator untouched, a type never records itself as a
/// dependency when it names itself.
pub proof fn law_self_reference_short_circuits(
    m: Metadata,
    ctx: CppContextCollection,
    this: CppType,
    typ: Il2CppType,
    depth: nat,
    declaring: Option<Seq<usize>>,
    usage: TypeUsage,
    fuel: nat,
)
    requires
        fuel >= 1,
        crate::resolver::is_class_kind(typ.ty),
        tag_from_type_data(typ.data) == Some(this.self_tag),
    ensures
        spec_resolve_name(m, ctx, this, typ, depth, declaring, usage, fuel) == Ok::<
            NameComponentsView,
            ResolveErrorView,
        >(this.cpp_name_components@),
{
}

/// A field whose type is a generic instantiation of the type under
/// construction, instantiated with one plain reference-typed argument,
/// resolves within a constant recursion budget: the argument degrades to a
/// name-only reference and the definition is a direct class reference, so no
/// unbounded recursion arises and the budget is never exhausted.
pub proof fn law_self_instantiation_resolves(
    m: Metadata,
    ctx: CppContextCollection,
    this: CppType,
    typ: Il2CppType,
    e: usize,
    declaring: Option<Seq<usize>>,
    usage: TypeUsage,
    fuel: nat,
)
    requires
        fuel >= 3,
        typ.ty == Il2CppTypeEnum::Genericinst,
        typ.data == TypeData::GenericClassIndex(e),
        e < m.generic_classes@.len(),
        this.self_tag == CsTypeTag::GenericInstantiation(e),
        m.generic_classes@[e as int].class_inst_index is Some,
        ({
            let gc = m.generic_classes@[e as int];
            let ci = gc.class_inst_index->0;
            &&& ci < m.generic_insts@.len()
            &&& gc.type_index < m.types@.len()
            &&& {
                let inst = m.generic_insts@[ci as int]@;
                let def = m.types@[gc.type_index as int];
                &&& inst.len() == 1
                &&& inst[0] < m.types@.len()
                &&& {
                    let arg = m.types@[inst[0] as int];
                    &&& arg.ty == Il2CppTypeEnum::Class
                    &&& !arg.valuetype
                    &&& arg.data is TypeDefinitionIndex
                    &&& tag_from_type_data(arg.data) != Some(this.self_tag)
                    &&& !m.spec_is_blacklisted(arg.data->TypeDefinitionIndex_0)
                    &&& ctx_get(ctx, tag_from_type_data(arg.data)->0) is Some
                }
                &&& {
                    let def = m.types@[gc.type_index as int];
                    &&& def.ty == Il2CppTypeEnum::Class
                    &&& def.data is TypeDefinitionIndex
                    &&& tag_from_type_data(def.data) != Some(this.self_tag)
                    &&& !m.spec_is_blacklisted(def.data->TypeDefinitionIndex_0)
                    &&& ctx_get(ctx, tag_from_type_data(def.data)->0) is Some
                }
                &&& ctx_get(ctx, this.self_tag) is Some
            }
        }),
    ensures
        spec_resolve_name(m, ctx, this, typ, 0, declaring, usage, fuel) is Ok,
{
    let gc = m.generic_classes@[e as int];
    let ci = gc.class_inst_index->0;
    let inst = m.generic_insts@[ci as int]@;
    let arg = m.types@[inst[0] as int];
    let def = m.types@[gc.type_index as int];
    assert(spec_resolve_name(m, ctx, this, arg, 0, declaring, TypeUsage::GenericArg, (fuel
        - 1) as nat) is Ok);
    assert(inst.drop_first() =~= Seq::<usize>::empty());
    assert(spec_resolve_args(m, ctx, this, inst.drop_first(), 0, declaring, fuel) == Ok::<
        Seq<Seq<char>>,
        ResolveErrorView,
    >(Seq::empty()));
    assert(spec_resolve_args(m, ctx, this, inst, 0, declaring, fuel) is Ok);
    assert(spec_resolve_name(m, ctx, this, def, 0, Some(inst), usage, (fuel - 1) as nat) is Ok);
}

/// A deny-listed referent used in a widening (reference) context resolves to
/// the root opaque-object handle name. Together with the resolver's guarantee
/// that such a resolution leaves the requirement accumulator untouched, no
/// dependency edge is recorded for it.
pub proof fn law_denied_reference_widens(
    m: Metadata,
    ctx: CppContextCollection,
    this: CppType,
    typ: Il2CppType,
    depth: nat,
    declaring: Option<Seq<usize>>,
    usage: TypeUsage,
    fuel: nat,
)
    requires
        fuel >= 1,
        typ.ty == Il2CppTypeEnum::Class,
        typ.data is TypeDefinitionIndex,
        m.spec_is_blacklisted(typ.data->TypeDefinitionIndex_0),
        tag_from_type_data(typ.data) != Some(this.self_tag),
    ensures
        spec_resolve_name(m, ctx, this, typ, depth, declaring, usage, fuel) == Ok::<
            NameComponentsView,
            ResolveErrorView,
        >(object_pointer_ncv()),
{
}

/// Two different fixed-width value-typed arguments resolve to distinct
/// concrete names, so their instantiations carry distinct identities.
pub proof fn law_value_args_distinct(
    m: Metadata,
    ctx: CppContextCollection,
    this: CppType,
    t1: Il2CppType,
    t2: Il2CppType,
    declaring: Option<Seq<usize>>,
    usage: TypeUsage,
    fuel: nat,
)
    requires
        fuel >= 1,
        t1.ty == Il2CppTypeEnum::I4,
        t2.ty == Il2CppTypeEnum::I8,
    ensures
        spec_resolve_name(m, ctx, this, t1, 0, declaring, usage, fuel) != spec_resolve_name(
            m,
            ctx,
            this,
            t2,
            0,
            declaring,
            usage,
            fuel,
        ),
{
    reveal_strlit("int32_t");
    reveal_strlit("int64_t");
    assert(spec_resolve_name(m, ctx, this, t1, 0, declaring, usage, fuel) == Ok::<
        NameComponentsView,
        ResolveErrorView,
    >(ncv("int32_t"@)));
    assert(spec_resolve_name(m, ctx, this, t2, 0, declaring, usage, fuel) == Ok::<
        NameComponentsView,
        ResolveErrorView,
    >(ncv("int64_t"@)));
    assert("int32_t"@[3] == '3');
    assert("int64_t"@[3] == '6');
    assert("int32_t"@ != "int64_t"@);
}


/// The static type-initializer name, revealed once for every caller that
/// compares against it.
pub proof fn lemma_strlit_cctor()
    ensures
        ".cctor"@.len() == 6,
{
    reveal_strlit(".cctor");
}

} // verus!
