use vstd::prelude::*;
use vstd::string::StringExecFns;
use crate::cpp_members::CppForwardDeclare;
use crate::cpp_members::CppInclude;
use crate::cpp_members::CppMember;
use crate::cpp_members::CppNonMember;
use crate::cpp_members::CppTemplate;
use crate::metadata::Il2CppType;
use crate::metadata::Il2CppTypeDefinition;
use crate::metadata::Il2CppTypeEnum;
use crate::metadata::Metadata;
use crate::metadata::SizeInfo;
use crate::metadata::TypeUsage;
use crate::name_components::NameComponents;
use crate::name_components::NameComponentsView;
use crate::name_components::combine_all_spec;
use crate::requirements::CppTypeRequirements;
use crate::tags::CsTypeTag;
use crate::tags::TypeData;

verus! {

/// Why a resolution aborted for the affected type.
#[derive(Debug)]
pub enum ResolveError {
    /// A type or method generic parameter had no concrete argument in scope
    /// and the enclosing type is not an unspecialized template; carries the
    /// parameter's name.
    UnresolvedGenericArgument(String),
    /// A referenced type has no registered emission context.
    MissingContext(CsTypeTag),
    /// A raw type record carried a payload its tag cannot carry.
    UnexpectedTypeData,
    /// The recursion budget was exhausted; only malformed, cyclic metadata
    /// reaches this.
    RecursionLimit,
}

/// Mathematical value of a resolution error.
pub enum ResolveErrorView {
    UnresolvedGenericArgument(Seq<char>),
    MissingContext(CsTypeTag),
    UnexpectedTypeData,
    RecursionLimit,
}

impl View for ResolveError {
    type V = ResolveErrorView;

    open spec fn view(&self) -> ResolveErrorView {
        match self {
            ResolveError::UnresolvedGenericArgument(s) => ResolveErrorView::UnresolvedGenericArgument(
                s@,
            ),
            ResolveError::MissingContext(t) => ResolveErrorView::MissingContext(*t),
            ResolveError::UnexpectedTypeData => ResolveErrorView::UnexpectedTypeData,
            ResolveError::RecursionLimit => ResolveErrorView::RecursionLimit,
        }
    }
}

/// What the resolver knows of one already-registered type: its identity, the
/// root identity of its emission unit, its rendered name, and the include
/// paths of its definition and implementation headers.
pub struct CppContextEntry {
    pub tag: CsTypeTag,
    pub context_root_tag: CsTypeTag,
    pub cpp_name_components: NameComponents,
    pub is_value_type: bool,
    pub is_enum_type: bool,
    pub nested: bool,
    pub cpp_template: Option<CppTemplate>,
    pub generic_instantiation_args: Option<Vec<String>>,
    pub typedef_path: String,
    pub typeimpl_path: String,
}

/// The registered types the resolver can refer to.
pub struct CppContextCollection {
    pub entries: Vec<CppContextEntry>,
}

/// Index of the first entry registered under `tag`, if any.
pub open spec fn ctx_index_of(entries: Seq<CppContextEntry>, tag: CsTypeTag) -> Option<int>
    decreases entries.len(),
{
    if entries.len() == 0 {
        None
    } else if entries[0].tag == tag {
        Some(0)
    } else {
        match ctx_index_of(entries.drop_first(), tag) {
            Some(i) => Some(i + 1),
            None => None,
        }
    }
}

/// The first entry registered under `tag`, if any.
pub open spec fn ctx_get(ctx: CppContextCollection, tag: CsTypeTag) -> Option<CppContextEntry> {
    match ctx_index_of(ctx.entries@, tag) {
        Some(i) => Some(ctx.entries@[i]),
        None => None,
    }
}

impl CppContextCollection {
    /// Look up the first entry registered under `tag`.
    pub fn get_cpp_type(&self, tag: CsTypeTag) -> (r: Option<&CppContextEntry>)
        ensures
            match r {
                Some(e) => ctx_get(*self, tag) == Some(*e),
                None => ctx_get(*self, tag) is None,
            },
    {
        let ghost all = self.entries@;
        let mut i: usize = 0;
        proof {
            assert(all.skip(0) =~= all);
        }
        while i < self.entries.len()
            invariant
                i <= self.entries.len(),
                all == self.entries@,
                forall|j: int| 0 <= j < i ==> (#[trigger] all[j]).tag != tag,
                ctx_index_of(all, tag) == match ctx_index_of(all.skip(i as int), tag) {
                    Some(k) => Some(k + i),
                    None => None::<int>,
                },
            decreases self.entries.len() - i,
        {
            if self.entries[i].tag == tag {
                proof {
                    assert(all.skip(i as int)[0] == all[i as int]);
                    assert(ctx_index_of(all.skip(i as int), tag) == Some(0int));
                }
                return Some(&self.entries[i]);
            }
            proof {
                assert(all.skip(i as int)[0] == all[i as int]);
                assert(all.skip(i as int).drop_first() =~= all.skip(i + 1));
            }
            i += 1;
        }
        proof {
            assert(all.skip(all.len() as int).len() == 0);
        }
        None
    }
}

/// One type under construction: its identity, rendered and managed names,
/// kind flags, generic machinery, accumulated requirements, and the rendered
/// declarations the layout pass appends to.
pub struct CppType {
    pub self_tag: CsTypeTag,
    pub nested: bool,
    pub cpp_name_components: NameComponents,
    pub cs_name_components: NameComponents,
    pub is_value_type: bool,
    pub is_enum_type: bool,
    pub is_reference_type: bool,
    pub requirements: CppTypeRequirements,
    pub cpp_template: Option<CppTemplate>,
    /// Concrete generic argument type indices of this instantiation, if any.
    pub generic_instantiations_args_types: Option<Vec<usize>>,
    /// Per method index, the concrete generic arguments of one requested
    /// method instantiation.
    pub method_generic_instantiation_map: Vec<(u32, Vec<usize>)>,
    pub packing: Option<u32>,
    pub size_info: Option<SizeInfo>,
    pub declarations: Vec<CppMember>,
    pub nonmember_declarations: Vec<CppNonMember>,
    pub parent: Option<String>,
    pub interfaces: Vec<String>,
    pub prefix_comments: Vec<String>,
}

/// Lookup in the per-method generic-argument map: the most recent
/// registration for a method supersedes earlier ones.
pub open spec fn method_args_lookup(entries: Seq<(u32, Vec<usize>)>, key: u32) -> Option<
    Seq<usize>,
>
    decreases entries.len(),
{
    if entries.len() == 0 {
        None
    } else if entries.last().0 == key {
        Some(entries.last().1@)
    } else {
        method_args_lookup(entries.drop_last(), key)
    }
}

impl CppType {
    /// Bounds consistency of this type's own generic machinery against the
    /// snapshot: every recorded concrete argument is a valid type index.
    pub open spec fn generics_wf(&self, m: Metadata) -> bool {
        &&& match self.generic_instantiations_args_types {
            Some(ref v) => forall|i: int|
                0 <= i < v@.len() ==> (#[trigger] v@[i]) < m.types@.len(),
            None => true,
        }
        &&& forall|k: int, j: int|
            0 <= k < self.method_generic_instantiation_map@.len() && 0 <= j
                < self.method_generic_instantiation_map@[k].1@.len() ==> (
            #[trigger] self.method_generic_instantiation_map@[k].1@[j]) < m.types@.len()
    }

    /// Look up the concrete generic arguments recorded for a method.
    pub fn method_args(&self, method_index: u32) -> (r: Option<&Vec<usize>>)
        ensures
            match r {
                Some(v) => method_args_lookup(self.method_generic_instantiation_map@, method_index)
                    == Some(v@),
                None => method_args_lookup(
                    self.method_generic_instantiation_map@,
                    method_index,
                ) is None,
            },
    {
        let entries = &self.method_generic_instantiation_map;
        let ghost all = entries@;
        proof {
            assert(all.take(all.len() as int) =~= all);
        }
        let mut i: usize = entries.len();
        while i > 0
            invariant
                i <= entries.len(),
                all == entries@,
                all == self.method_generic_instantiation_map@,
                method_args_lookup(all, method_index) == method_args_lookup(
                    all.take(i as int),
                    method_index,
                ),
            decreases i,
        {
            i -= 1;
            if entries[i].0 == method_index {
                proof {
                    assert(all.take(i + 1).last() == all[i as int]);
                }
                return Some(&entries[i].1);
            }
            proof {
                assert(all.take(i + 1).last() == all[i as int]);
                assert(all.take(i + 1).drop_last() =~= all.take(i as int));
            }
        }
        proof {
            assert(all.take(0).len() == 0);
        }
        None
    }
}

/// The canonical identity a raw payload denotes, when it denotes one.
pub open spec fn tag_from_type_data(d: TypeData) -> Option<CsTypeTag> {
    match d {
        TypeData::TypeDefinitionIndex(tdi) => Some(CsTypeTag::TypeDefinitionIndex(tdi)),
        TypeData::GenericClassIndex(gci) => Some(CsTypeTag::GenericInstantiation(gci)),
        _ => None,
    }
}

/// Executable form of [`tag_from_type_data`].
pub fn type_data_tag(d: TypeData) -> (r: Option<CsTypeTag>)
    ensures
        r == tag_from_type_data(d),
{
    match d {
        TypeData::TypeDefinitionIndex(tdi) => Some(CsTypeTag::TypeDefinitionIndex(tdi)),
        TypeData::GenericClassIndex(gci) => Some(CsTypeTag::GenericInstantiation(gci)),
        _ => None,
    }
}

/// The raw type kinds the class-reference branch of the resolver handles.
pub open spec fn is_class_kind(t: Il2CppTypeEnum) -> bool {
    t == Il2CppTypeEnum::Object || t == Il2CppTypeEnum::Valuetype || t == Il2CppTypeEnum::Class
        || t == Il2CppTypeEnum::Typedbyref || t == Il2CppTypeEnum::I || t == Il2CppTypeEnum::U
}

/// The raw type kinds whose class-reference branch never adds a primitive
/// include first (the native integer kinds do).
pub open spec fn is_strict_class_kind(t: Il2CppTypeEnum) -> bool {
    t == Il2CppTypeEnum::Object || t == Il2CppTypeEnum::Valuetype || t == Il2CppTypeEnum::Class
        || t == Il2CppTypeEnum::Typedbyref
}

/// The opaque wrapper name substituted for a deny-listed definition, chosen
/// by the definition's kind: enums, value types, interfaces, and reference
/// types each degrade to their root handle type.
pub open spec fn wrapper_name_spec(td: Il2CppTypeDefinition) -> Seq<char> {
    if td.is_enum_type {
        "::bs_hook::EnumType"@
    } else if td.is_value_type {
        "::bs_hook::ValueType"@
    } else if td.is_interface {
        "::cordl_internals::InterfaceW"@
    } else {
        "Il2CppObject"@
    }
}

/// A structured-name view holding only a base name.
pub open spec fn ncv(name: Seq<char>) -> NameComponentsView {
    NameComponentsView {
        name,
        namespace: None,
        declaring_types: None,
        generics: None,
        is_pointer: false,
    }
}

/// The root object handle as a pointer-shaped structured name.
pub open spec fn object_pointer_ncv() -> NameComponentsView {
    NameComponentsView {
        name: "Il2CppObject"@,
        namespace: None,
        declaring_types: None,
        generics: None,
        is_pointer: true,
    }
}

/// Whether one of `names` has exactly this character sequence.
pub open spec fn names_has(names: Seq<String>, name: Seq<char>) -> bool {
    exists|i: int| 0 <= i < names.len() && (#[trigger] names[i])@ == name
}

/// Whether a template head declares a parameter with exactly this name.
pub open spec fn template_has_name(t: Option<CppTemplate>, name: Seq<char>) -> bool {
    match t {
        Some(tpl) => names_has(tpl.names@, name),
        None => false,
    }
}

/// Executable form of [`template_has_name`].
pub fn template_contains(t: &Option<CppTemplate>, name: &String) -> (r: bool)
    ensures
        r == template_has_name(*t, name@),
{
    match t {
        Some(tpl) => {
            let mut i: usize = 0;
            while i < tpl.names.len()
                invariant
                    *t == Some(*tpl),
                    i <= tpl.names.len(),
                    forall|j: int| 0 <= j < i ==> (#[trigger] tpl.names@[j])@ != name@,
                decreases tpl.names.len() - i,
            {
                if tpl.names[i].eq(name) {
                    proof {
                        assert(*t == Some(*tpl));
                        let w: int = i as int;
                        assert(0 <= w < tpl.names@.len());
                        assert((tpl.names@[w])@ == name@);
                        assert(names_has(tpl.names@, name@));
                        assert(template_has_name(*t, name@));
                    }
                    return true;
                }
                i += 1;
            }
            false
        },
        None => false,
    }
}

/// The structured name `spec_resolve_name` gives the referent of one raw type
/// record, in the state `this` resolves from: the single mathematical
/// description of name resolution. `fuel` bounds recursion depth; every
/// well-formed snapshot resolves within a fuel of its type-table length plus
/// the include depth plus one.
pub open spec fn spec_resolve_name(
    m: Metadata,
    ctx: CppContextCollection,
    this: CppType,
    typ: Il2CppType,
    depth: nat,
    declaring: Option<Seq<usize>>,
    usage: TypeUsage,
    fuel: nat,
) -> Result<NameComponentsView, ResolveErrorView>
    decreases fuel, 1int, 0int,
{
    if fuel == 0 {
        Err(ResolveErrorView::RecursionLimit)
    } else {
        let next_depth: nat = if depth > 0 {
            (depth - 1) as nat
        } else {
            0
        };
        if is_class_kind(typ.ty) {
            match tag_from_type_data(typ.data) {
                None => Err(ResolveErrorView::UnexpectedTypeData),
                Some(tag) => {
                    if tag == this.self_tag {
                        Ok(this.cpp_name_components@)
                    } else {
                        let black = match typ.data {
                            TypeData::TypeDefinitionIndex(tdi) => m.spec_is_blacklisted(tdi),
                            _ => false,
                        };
                        if black {
                            if typ.ty == Il2CppTypeEnum::Class {
                                Ok(object_pointer_ncv())
                            } else {
                                match typ.data {
                                    TypeData::TypeDefinitionIndex(tdi) => Ok(
                                        ncv(wrapper_name_spec(m.type_definitions@[tdi as int])),
                                    ),
                                    _ => Err(ResolveErrorView::UnexpectedTypeData),
                                }
                            }
                        } else {
                            match ctx_get(ctx, tag) {
                                None => Err(ResolveErrorView::MissingContext(tag)),
                                Some(entry) => match ctx_get(ctx, this.self_tag) {
                                    None => Err(ResolveErrorView::MissingContext(this.self_tag)),
                                    Some(_own) => Ok(entry.cpp_name_components@),
                                },
                            }
                        }
                    }
                },
            }
        } else if typ.ty == Il2CppTypeEnum::Szarray {
            match typ.data {
                TypeData::TypeIndex(e) => match spec_resolve_name(
                    m,
                    ctx,
                    this,
                    m.types@[e as int],
                    depth,
                    declaring,
                    usage,
                    (fuel - 1) as nat,
                ) {
                    Ok(elem) => {
                        let elem_str = combine_all_spec(elem);
                        Ok(
                            NameComponentsView {
                                name: "ArrayW"@,
                                namespace: Some(Seq::empty()),
                                declaring_types: None,
                                generics: Some(
                                    seq![elem_str, "::Array<"@ + elem_str + ">*"@],
                                ),
                                is_pointer: false,
                            },
                        )
                    },
                    Err(e) => Err(e),
                },
                _ => Err(ResolveErrorView::UnexpectedTypeData),
            }
        } else if typ.ty == Il2CppTypeEnum::Array {
            Ok(object_pointer_ncv())
        } else if typ.ty == Il2CppTypeEnum::Mvar {
            match typ.data {
                TypeData::GenericParameterIndex(index) => {
                    let param = m.generic_parameters@[index as int];
                    if !param.owner_is_method {
                        Err(ResolveErrorView::UnexpectedTypeData)
                    } else {
                        match method_args_lookup(
                            this.method_generic_instantiation_map@,
                            param.owner_index,
                        ) {
                            None => Ok(ncv(param.name@)),
                            Some(args) => {
                                if (param.num as int) >= args.len() {
                                    Err(ResolveErrorView::UnexpectedTypeData)
                                } else {
                                    spec_resolve_name(
                                        m,
                                        ctx,
                                        this,
                                        m.types@[args[param.num as int] as int],
                                        depth,
                                        declaring,
                                        TypeUsage::GenericArg,
                                        (fuel - 1) as nat,
                                    )
                                }
                            },
                        }
                    }
                },
                _ => Err(ResolveErrorView::UnexpectedTypeData),
            }
        } else if typ.ty == Il2CppTypeEnum::Var {
            match typ.data {
                TypeData::GenericParameterIndex(index) => {
                    let param = m.generic_parameters@[index as int];
                    let ty_idx_opt = match this.generic_instantiations_args_types {
                        Some(ref v) => if (param.num as int) < v@.len() {
                            Some(v@[param.num as int])
                        } else {
                            None
                        },
                        None => None,
                    };
                    match ty_idx_opt {
                        None => {
                            if template_has_name(this.cpp_template, param.name@) {
                                Ok(ncv(param.name@))
                            } else {
                                Err(ResolveErrorView::UnresolvedGenericArgument(param.name@))
                            }
                        },
                        Some(ty_idx) => {
                            let ty_var = m.types@[ty_idx as int];
                            match this.cpp_name_components.generics {
                                None => Err(
                                    ResolveErrorView::UnresolvedGenericArgument(param.name@),
                                ),
                                Some(ref gens) => {
                                    if (param.num as int) >= gens@.len() {
                                        Err(
                                            ResolveErrorView::UnresolvedGenericArgument(
                                                param.name@,
                                            ),
                                        )
                                    } else {
                                        let resolved_var = gens.deep_view()[param.num as int];
                                        let is_pointer = !ty_var.valuetype && !template_has_name(
                                            this.cpp_template,
                                            resolved_var,
                                        );
                                        Ok(
                                            NameComponentsView {
                                                name: resolved_var,
                                                namespace: None,
                                                declaring_types: None,
                                                generics: None,
                                                is_pointer,
                                            },
                                        )
                                    }
                                },
                            }
                        },
                    }
                },
                _ => Err(ResolveErrorView::UnexpectedTypeData),
            }
        } else if typ.ty == Il2CppTypeEnum::Genericinst {
            match typ.data {
                TypeData::GenericClassIndex(e) => {
                    let gc = m.generic_classes@[e as int];
                    match gc.class_inst_index {
                        None => Err(ResolveErrorView::UnexpectedTypeData),
                        Some(ci) => {
                            let inst = m.generic_insts@[ci as int]@;
                            let generic_type_def = m.types@[gc.type_index as int];
                            match generic_type_def.data {
                                TypeData::TypeDefinitionIndex(_tdi) => {
                                    match spec_resolve_args(
                                        m,
                                        ctx,
                                        this,
                                        inst,
                                        next_depth,
                                        declaring,
                                        fuel,
                                    ) {
                                        Err(e2) => Err(e2),
                                        Ok(arg_names) => match spec_resolve_name(
                                            m,
                                            ctx,
                                            this,
                                            generic_type_def,
                                            depth,
                                            Some(inst),
                                            usage,
                                            (fuel - 1) as nat,
                                        ) {
                                            Err(e3) => Err(e3),
                                            Ok(def_name) => Ok(
                                                NameComponentsView {
                                                    generics: Some(arg_names),
                                                    ..def_name
                                                },
                                            ),
                                        },
                                    }
                                },
                                _ => Err(ResolveErrorView::UnexpectedTypeData),
                            }
                        },
                    }
                },
                _ => Err(ResolveErrorView::UnexpectedTypeData),
            }
        } else if typ.ty == Il2CppTypeEnum::I1 {
            Ok(ncv("int8_t"@))
        } else if typ.ty == Il2CppTypeEnum::I2 {
            Ok(ncv("int16_t"@))
        } else if typ.ty == Il2CppTypeEnum::I4 {
            Ok(ncv("int32_t"@))
        } else if typ.ty == Il2CppTypeEnum::I8 {
            Ok(ncv("int64_t"@))
        } else if typ.ty == Il2CppTypeEnum::U1 {
            Ok(ncv("uint8_t"@))
        } else if typ.ty == Il2CppTypeEnum::U2 {
            Ok(ncv("uint16_t"@))
        } else if typ.ty == Il2CppTypeEnum::U4 {
            Ok(ncv("uint32_t"@))
        } else if typ.ty == Il2CppTypeEnum::U8 {
            Ok(ncv("uint64_t"@))
        } else if typ.ty == Il2CppTypeEnum::R4 {
            Ok(ncv("float_t"@))
        } else if typ.ty == Il2CppTypeEnum::R8 {
            Ok(ncv("double_t"@))
        } else if typ.ty == Il2CppTypeEnum::Void {
            Ok(ncv("void"@))
        } else if typ.ty == Il2CppTypeEnum::Boolean {
            Ok(ncv("bool"@))
        } else if typ.ty == Il2CppTypeEnum::Char {
            Ok(ncv("char16_t"@))
        } else if typ.ty == Il2CppTypeEnum::String {
            Ok(ncv("::StringW"@))
        } else if typ.ty == Il2CppTypeEnum::Ptr {
            match typ.data {
                TypeData::TypeIndex(e) => match spec_resolve_name(
                    m,
                    ctx,
                    this,
                    m.types@[e as int],
                    depth,
                    declaring,
                    usage,
                    (fuel - 1) as nat,
                ) {
                    Ok(elem) => {
                        let elem_str = combine_all_spec(elem);
                        Ok(
                            NameComponentsView {
                                name: "Ptr"@,
                                namespace: Some("cordl_internals"@),
                                declaring_types: None,
                                generics: Some(seq![elem_str]),
                                is_pointer: false,
                            },
                        )
                    },
                    Err(e) => Err(e),
                },
                _ => Err(ResolveErrorView::UnexpectedTypeData),
            }
        } else {
            Ok(ncv("/* UNKNOWN TYPE! */"@))
        }
    }
}

/// The rendered generic-argument strings of one instantiation: each concrete
/// argument resolved (value-typed arguments keep the remaining include depth,
/// reference-typed arguments degrade to depth zero) and rendered.
pub open spec fn spec_resolve_args(
    m: Metadata,
    ctx: CppContextCollection,
    this: CppType,
    args: Seq<usize>,
    next_depth: nat,
    declaring: Option<Seq<usize>>,
    fuel: nat,
) -> Result<Seq<Seq<char>>, ResolveErrorView>
    decreases fuel, 0int, args.len(),
{
    if args.len() == 0 {
        Ok(Seq::empty())
    } else if fuel == 0 {
        Err(ResolveErrorView::RecursionLimit)
    } else {
        let t = m.types@[args[0] as int];
        let d: nat = if t.valuetype {
            next_depth
        } else {
            0
        };
        match spec_resolve_name(m, ctx, this, t, d, declaring, TypeUsage::GenericArg, (fuel
            - 1) as nat) {
            Err(e) => Err(e),
            Ok(nc) => match spec_resolve_args(
                m,
                ctx,
                this,
                args.drop_first(),
                next_depth,
                declaring,
                fuel,
            ) {
                Err(e) => Err(e),
                Ok(rest) => Ok(seq![combine_all_spec(nc)] + rest),
            },
        }
    }
}

/// Whether an executable resolution result carries exactly the mathematical
/// one.
pub open spec fn resolve_result_matches(
    r: Result<NameComponents, ResolveError>,
    s: Result<NameComponentsView, ResolveErrorView>,
) -> bool {
    match (r, s) {
        (Ok(nc), Ok(v)) => nc@ == v,
        (Err(e), Err(ev)) => e@ == ev,
        _ => false,
    }
}


/// View of an optional borrowed argument list.
pub open spec fn decl_view(d: Option<&Vec<usize>>) -> Option<Seq<usize>> {
    match d {
        Some(v) => Some(v@),
        None => None,
    }
}

/// `post` extends `pre`: every requirement list of `pre` is a prefix of the
/// corresponding list of `post`. Resolution only appends requirements.
pub open spec fn reqs_extends(post: CppTypeRequirements, pre: CppTypeRequirements) -> bool {
    &&& pre.forward_declares@.is_prefix_of(post.forward_declares@)
    &&& pre.required_def_includes@.is_prefix_of(post.required_def_includes@)
    &&& pre.required_impl_includes@.is_prefix_of(post.required_impl_includes@)
    &&& pre.depending_types@.is_prefix_of(post.depending_types@)
}

/// A sequence is a prefix of itself and of itself with one element appended.
pub proof fn lemma_prefix_push_or_same<T>(pre: Seq<T>, post: Seq<T>, e: T)
    requires
        post == pre || post == pre.push(e),
    ensures
        pre.is_prefix_of(post),
{
    if post == pre {
        assert(pre =~= post.subrange(0, pre.len() as int));
    } else {
        assert(pre =~= post.subrange(0, pre.len() as int));
    }
}

/// Prefix extension is reflexive.
pub proof fn lemma_reqs_extends_refl(a: CppTypeRequirements)
    ensures
        reqs_extends(a, a),
{
    assert(a.forward_declares@ =~= a.forward_declares@.subrange(
        0,
        a.forward_declares@.len() as int,
    ));
    assert(a.required_def_includes@ =~= a.required_def_includes@.subrange(
        0,
        a.required_def_includes@.len() as int,
    ));
    assert(a.required_impl_includes@ =~= a.required_impl_includes@.subrange(
        0,
        a.required_impl_includes@.len() as int,
    ));
    assert(a.depending_types@ =~= a.depending_types@.subrange(
        0,
        a.depending_types@.len() as int,
    ));
}

/// One prefix step.
proof fn lemma_seq_prefix_trans<T>(a: Seq<T>, b: Seq<T>, c: Seq<T>)
    requires
        a.is_prefix_of(b),
        b.is_prefix_of(c),
    ensures
        a.is_prefix_of(c),
{
    assert forall|i: int| 0 <= i < a.len() implies a[i] == c.subrange(0, a.len() as int)[i] by {
        assert(a[i] == b.subrange(0, a.len() as int)[i]);
        assert(b[i] == c.subrange(0, b.len() as int)[i]);
    }
    assert(a =~= c.subrange(0, a.len() as int));
}

/// Prefix extension is transitive.
pub proof fn lemma_reqs_extends_trans(
    a: CppTypeRequirements,
    b: CppTypeRequirements,
    c: CppTypeRequirements,
)
    requires
        reqs_extends(b, a),
        reqs_extends(c, b),
    ensures
        reqs_extends(c, a),
{
    lemma_seq_prefix_trans(a.forward_declares@, b.forward_declares@, c.forward_declares@);
    lemma_seq_prefix_trans(
        a.required_def_includes@,
        b.required_def_includes@,
        c.required_def_includes@,
    );
    lemma_seq_prefix_trans(
        a.required_impl_includes@,
        b.required_impl_includes@,
        c.required_impl_includes@,
    );
    lemma_seq_prefix_trans(a.depending_types@, b.depending_types@, c.depending_types@);
}

/// The opaque wrapper name substituted for a deny-listed definition.
pub fn wrapper_type_for_tdi(td: &Il2CppTypeDefinition) -> (r: String)
    ensures
        r@ == wrapper_name_spec(*td),
{
    if td.is_enum_type {
        String::from_str("::bs_hook::EnumType")
    } else if td.is_value_type {
        String::from_str("::bs_hook::ValueType")
    } else if td.is_interface {
        String::from_str("::cordl_internals::InterfaceW")
    } else {
        String::from_str("Il2CppObject")
    }
}

/// The forward declaration standing for an already-registered type.
pub fn forward_declare_from_entry(entry: &CppContextEntry) -> (r: CppForwardDeclare)
    ensures
        r@ == fwd_view_of_entry(*entry),
{
    let namespace = if entry.nested {
        None
    } else {
        match entry.cpp_name_components.namespace {
            Some(ref ns) => Some(ns.clone()),
            None => Some(String::new()),
        }
    };
    let r = CppForwardDeclare {
        is_struct: entry.is_value_type,
        namespace,
        name: entry.cpp_name_components.name.clone(),
        templates: match entry.cpp_template {
            Some(ref t) => Some(t.clone()),
            None => None,
        },
        literals: crate::name_components::clone_string_vec_option(
            &entry.generic_instantiation_args,
        ),
    };
    proof {
        assert(r@ =~= fwd_view_of_entry(*entry));
    }
    r
}

/// Raw type kinds whose resolution never reads the record's payload.
pub open spec fn data_independent_kind(t: Il2CppTypeEnum) -> bool {
    !(is_class_kind(t) || t == Il2CppTypeEnum::Szarray || t == Il2CppTypeEnum::Ptr || t
        == Il2CppTypeEnum::Mvar || t == Il2CppTypeEnum::Var || t == Il2CppTypeEnum::Genericinst)
}

impl CppType {
    /// Resolve one raw type record to its structured name, recording
    /// emission requirements as a side effect: the recursive heart of name
    /// resolution. The returned name is exactly [`spec_resolve_name`] of the
    /// inputs; requirement lists only grow and stay duplicate-free; a
    /// self-reference or a deny-listed reference of strict class kind leaves
    /// the requirements untouched.
    #[verifier::rlimit(100)]
    pub fn cppify_name_il2cpp_recurse(
        &self,
        requirements: &mut CppTypeRequirements,
        ctx_collection: &CppContextCollection,
        metadata: &Metadata,
        typ: &Il2CppType,
        include_depth: usize,
        declaring_generic_inst_types: Option<&Vec<usize>>,
        typ_usage: TypeUsage,
        fuel: usize,
    ) -> (r: Result<NameComponents, ResolveError>)
        requires
            old(requirements).wf(),
            metadata.wf(),
            self.generics_wf(*metadata),
            crate::metadata::type_record_wf(*metadata, *typ) || data_independent_kind(typ.ty),
        ensures
            final(requirements).wf(),
            reqs_extends(*final(requirements), *old(requirements)),
            resolve_result_matches(
                r,
                spec_resolve_name(
                    *metadata,
                    *ctx_collection,
                    *self,
                    *typ,
                    include_depth as nat,
                    decl_view(declaring_generic_inst_types),
                    typ_usage,
                    fuel as nat,
                ),
            ),
            is_strict_class_kind(typ.ty) && tag_from_type_data(typ.data) == Some(self.self_tag)
                ==> *final(requirements) == *old(requirements),
            is_strict_class_kind(typ.ty) && tag_from_type_data(typ.data) != Some(self.self_tag)
                && (match typ.data {
                TypeData::TypeDefinitionIndex(tdi) => metadata.spec_is_blacklisted(tdi),
                _ => false,
            }) ==> *final(requirements) == *old(requirements),
            include_depth == 0 ==> final(requirements).depending_types@ == old(
                requirements,
            ).depending_types@,
            !old(requirements).depending_types@.contains(self.self_tag)
                ==> !final(requirements).depending_types@.contains(self.self_tag),
            fuel >= 1 && (typ.ty == Il2CppTypeEnum::I1 || typ.ty == Il2CppTypeEnum::I2 || typ.ty
                == Il2CppTypeEnum::I4 || typ.ty == Il2CppTypeEnum::I8 || typ.ty
                == Il2CppTypeEnum::U1 || typ.ty == Il2CppTypeEnum::U2 || typ.ty
                == Il2CppTypeEnum::U4 || typ.ty == Il2CppTypeEnum::U8)
                ==> crate::requirements::include_in(
                final(requirements).required_def_includes@,
                crate::requirements::inc_view("cstdint"@, true),
            ),
            fuel >= 1 && (typ.ty == Il2CppTypeEnum::R4 || typ.ty == Il2CppTypeEnum::R8)
                ==> crate::requirements::include_in(
                final(requirements).required_def_includes@,
                crate::requirements::inc_view("cmath"@, true),
            ),
            fuel >= 1 && typ.ty == Il2CppTypeEnum::String ==> crate::requirements::include_in(
                final(requirements).required_def_includes@,
                crate::requirements::inc_view(
                    "beatsaber-hook/shared/utils/typedefs-string.hpp"@,
                    false,
                ),
            ),
            fuel >= 1 && typ.ty == Il2CppTypeEnum::Szarray ==> crate::requirements::include_in(
                final(requirements).required_def_includes@,
                crate::requirements::inc_view(
                    "beatsaber-hook/shared/utils/typedefs-array.hpp"@,
                    false,
                ),
            ),
            fuel >= 1 && is_class_kind(typ.ty) && include_depth > 0 && (tag_from_type_data(
                typ.data,
            ) matches Some(t) && t != self.self_tag) && !class_data_blacklisted(
                *metadata,
                typ.data,
            ) ==> final(requirements).depending_types@.contains(
                tag_from_type_data(typ.data)->0,
            ),
            fuel >= 1 && is_class_kind(typ.ty) && (tag_from_type_data(typ.data) matches Some(t)
                && t != self.self_tag) && !class_data_blacklisted(*metadata, typ.data) && (
            ctx_get(*ctx_collection, tag_from_type_data(typ.data)->0) matches Some(entry) && (
            ctx_get(*ctx_collection, self.self_tag) matches Some(own)
                && own.context_root_tag != entry.context_root_tag)) ==> {
                let entry = ctx_get(*ctx_collection, tag_from_type_data(typ.data)->0)->0;
                if include_depth > 0 {
                    crate::requirements::include_in(
                        final(requirements).required_def_includes@,
                        crate::requirements::inc_view(entry.typedef_path@, false),
                    ) && crate::requirements::include_in(
                        final(requirements).required_impl_includes@,
                        crate::requirements::inc_view(entry.typeimpl_path@, false),
                    )
                } else {
                    crate::requirements::fwd_in(
                        final(requirements).forward_declares@,
                        (
                            fwd_view_of_entry(entry),
                            crate::requirements::inc_view(entry.typedef_path@, false),
                        ),
                    )
                }
            },
            fuel >= 1 && typ.ty == Il2CppTypeEnum::Genericinst && include_depth > 0 && (typ.data
                matches TypeData::GenericClassIndex(e)
                && metadata.generic_classes@[e as int].class_inst_index is Some && (
            metadata.types@[metadata.generic_classes@[e as int].type_index as int].data
                matches TypeData::TypeDefinitionIndex(_tdi))) ==> {
                let e = typ.data->GenericClassIndex_0;
                let dtdi = metadata.types@[metadata.generic_classes@[e as int].type_index as int].data->TypeDefinitionIndex_0;
                &&& (CsTypeTag::TypeDefinitionIndex(dtdi) == self.self_tag
                    || final(requirements).depending_types@.contains(
                    CsTypeTag::TypeDefinitionIndex(dtdi),
                ))
                &&& (CsTypeTag::GenericInstantiation(e) == self.self_tag
                    || final(requirements).depending_types@.contains(
                    CsTypeTag::GenericInstantiation(e),
                ))
            },
        decreases fuel, 1int,
    {
        let ghost req0 = *requirements;
        proof {
            lemma_reqs_extends_refl(req0);
        }
        let ghost sspec = spec_resolve_name(
            *metadata,
            *ctx_collection,
            *self,
            *typ,
            include_depth as nat,
            decl_view(declaring_generic_inst_types),
            typ_usage,
            fuel as nat,
        );
        if fuel == 0 {
            proof {
                lemma_reqs_extends_refl(*requirements);
            }
            return Err(ResolveError::RecursionLimit);
        }
        let add_include = include_depth > 0;
        let next_include_depth = if add_include {
            include_depth - 1
        } else {
            0
        };

        match typ.ty {
            Il2CppTypeEnum::I1 | Il2CppTypeEnum::U1 | Il2CppTypeEnum::I2 | Il2CppTypeEnum::U2
                | Il2CppTypeEnum::I4 | Il2CppTypeEnum::U4 | Il2CppTypeEnum::I8
                | Il2CppTypeEnum::U8 | Il2CppTypeEnum::I | Il2CppTypeEnum::U => {
                requirements.needs_int_include();
            },
            Il2CppTypeEnum::R4 | Il2CppTypeEnum::R8 => {
                requirements.needs_math_include();
            },
            _ => {},
        }
        proof {
            lemma_reqs_extends_refl(req0);
        }

        match typ.ty {
            Il2CppTypeEnum::Object | Il2CppTypeEnum::Valuetype | Il2CppTypeEnum::Class
                | Il2CppTypeEnum::Typedbyref | Il2CppTypeEnum::I | Il2CppTypeEnum::U => {
                let tag = match type_data_tag(typ.data) {
                    Some(t) => t,
                    None => {
                        proof {
                            lemma_reqs_extends_refl(req0);
                            assert(reqs_extends(*requirements, req0));
                        }
                        return Err(ResolveError::UnexpectedTypeData);
                    },
                };
                if tag == self.self_tag {
                    proof {
                        lemma_reqs_extends_refl(req0);
                        assert(reqs_extends(*requirements, req0));
                    }
                    return Ok(self.cpp_name_components.clone());
                }
                let black = match typ.data {
                    TypeData::TypeDefinitionIndex(tdi) => metadata.is_blacklisted(tdi),
                    _ => false,
                };
                if black {
                    proof {
                        lemma_reqs_extends_refl(req0);
                        assert(reqs_extends(*requirements, req0));
                    }
                    if matches!(typ.ty, Il2CppTypeEnum::Class) {
                        return Ok(
                            NameComponents {
                                name: String::from_str("Il2CppObject"),
                                namespace: None,
                                declaring_types: None,
                                generics: None,
                                is_pointer: true,
                            },
                        );
                    }
                    match typ.data {
                        TypeData::TypeDefinitionIndex(tdi) => {
                            let td = &metadata.type_definitions[tdi as usize];
                            return Ok(NameComponents::from_name(wrapper_type_for_tdi(td)));
                        },
                        _ => {
                            return Err(ResolveError::UnexpectedTypeData);
                        },
                    }
                }
                if add_include {
                    let ghost pre = *requirements;
                    requirements.add_dependency_tag(tag);
                    proof {
                        lemma_prefix_push_or_same(
                            pre.depending_types@,
                            requirements.depending_types@,
                            tag,
                        );
                        lemma_push_keeps_absent(
                            pre.depending_types@,
                            requirements.depending_types@,
                            tag,
                            self.self_tag,
                        );
                        lemma_add_records_tag(
                            pre.depending_types@,
                            requirements.depending_types@,
                            tag,
                        );
                        lemma_reqs_extends_refl(pre);
                        assert(reqs_extends(*requirements, pre));
                        lemma_reqs_extends_trans(req0, pre, *requirements);
                    }
                }
                let ghost req_dep = *requirements;
                proof {
                    lemma_reqs_extends_refl(req_dep);
                }
                let entry = match ctx_collection.get_cpp_type(tag) {
                    Some(e) => e,
                    None => {
                        proof {
                            lemma_reqs_extends_refl(req0);
                            assert(reqs_extends(*requirements, req0));
                        }
                        return Err(ResolveError::MissingContext(tag));
                    },
                };
                let own_entry = match ctx_collection.get_cpp_type(self.self_tag) {
                    Some(e) => e,
                    None => {
                        proof {
                            lemma_reqs_extends_refl(req0);
                            assert(reqs_extends(*requirements, req0));
                        }
                        return Err(ResolveError::MissingContext(self.self_tag));
                    },
                };
                let own_context = own_entry.context_root_tag == entry.context_root_tag;
                let result = entry.cpp_name_components.clone();
                if !own_context {
                    let typedef_incl = CppInclude::new(entry.typedef_path.clone());
                    if add_include {
                        let typeimpl_incl = CppInclude::new(entry.typeimpl_path.clone());
                        let ghost pre1 = *requirements;
                        let ghost inc1 = typedef_incl;
                        requirements.add_def_include(Some(tag), typedef_incl);
                        proof {
                            lemma_prefix_push_or_same(
                                pre1.required_def_includes@,
                                requirements.required_def_includes@,
                                inc1,
                            );
                            lemma_prefix_push_or_same(
                                pre1.depending_types@,
                                requirements.depending_types@,
                                tag,
                            );
                            lemma_push_keeps_absent(
                                pre1.depending_types@,
                                requirements.depending_types@,
                                tag,
                                self.self_tag,
                            );
                            lemma_add_records_include(
                                pre1.required_def_includes@,
                                requirements.required_def_includes@,
                                inc1,
                            );
                            lemma_reqs_extends_refl(pre1);
                            assert(reqs_extends(*requirements, pre1));
                            lemma_reqs_extends_trans(req0, pre1, *requirements);
                            lemma_reqs_extends_trans(req_dep, pre1, *requirements);
                        }
                        let ghost pre2 = *requirements;
                        let ghost inc2 = typeimpl_incl;
                        requirements.add_impl_include(Some(tag), typeimpl_incl);
                        proof {
                            lemma_prefix_push_or_same(
                                pre2.required_impl_includes@,
                                requirements.required_impl_includes@,
                                inc2,
                            );
                            lemma_prefix_push_or_same(
                                pre2.depending_types@,
                                requirements.depending_types@,
                                tag,
                            );
                            lemma_push_keeps_absent(
                                pre2.depending_types@,
                                requirements.depending_types@,
                                tag,
                                self.self_tag,
                            );
                            lemma_add_records_include(
                                pre2.required_impl_includes@,
                                requirements.required_impl_includes@,
                                inc2,
                            );
                            lemma_reqs_extends_refl(pre2);
                            assert(reqs_extends(*requirements, pre2));
                            lemma_reqs_extends_trans(req0, pre2, *requirements);
                            lemma_reqs_extends_trans(req_dep, pre2, *requirements);
                            lemma_prefix_keeps_include(
                                pre2.required_def_includes@,
                                requirements.required_def_includes@,
                                inc1@,
                            );
                            if add_include {
                                lemma_prefix_keeps_tag(
                                    req_dep.depending_types@,
                                    requirements.depending_types@,
                                    tag,
                                );
                            }
                        }
                    } else {
                        let fwd = forward_declare_from_entry(entry);
                        let ghost pair = (fwd, typedef_incl);
                        let ghost pre3 = *requirements;
                        requirements.add_forward_declare((fwd, typedef_incl));
                        proof {
                            lemma_prefix_push_or_same(
                                pre3.forward_declares@,
                                requirements.forward_declares@,
                                pair,
                            );
                            lemma_add_records_fwd(
                                pre3.forward_declares@,
                                requirements.forward_declares@,
                                pair,
                            );
                            lemma_reqs_extends_refl(pre3);
                            assert(reqs_extends(*requirements, pre3));
                            lemma_reqs_extends_trans(req0, pre3, *requirements);
                            lemma_reqs_extends_trans(req_dep, pre3, *requirements);
                        }
                    }
                }
                proof {
                    lemma_reqs_extends_refl(req0);
                    assert(reqs_extends(*requirements, req0));
                }
                Ok(result)
            },
            Il2CppTypeEnum::Szarray => {
                requirements.needs_arrayw_include();
                proof {
                    lemma_reqs_extends_refl(req0);
                    assert(reqs_extends(*requirements, req0));
                    assert(crate::requirements::include_in(
                        requirements.required_def_includes@,
                        crate::requirements::inc_view(
                            "beatsaber-hook/shared/utils/typedefs-array.hpp"@,
                            false,
                        ),
                    ));
                }
                match typ.data {
                    TypeData::TypeIndex(e) => {
                        let ghost pre = *requirements;
                        let inner = &metadata.types[e];
                        let generic = match self.cppify_name_il2cpp_recurse(
                            requirements,
                            ctx_collection,
                            metadata,
                            inner,
                            include_depth,
                            declaring_generic_inst_types,
                            typ_usage,
                            fuel - 1,
                        ) {
                            Ok(g) => g,
                            Err(err) => {
                                proof {
                                    lemma_reqs_extends_trans(req0, pre, *requirements);
                                    lemma_prefix_keeps_include(
                                        pre.required_def_includes@,
                                        requirements.required_def_includes@,
                                        crate::requirements::inc_view(
                                            "beatsaber-hook/shared/utils/typedefs-array.hpp"@,
                                            false,
                                        ),
                                    );
                                }
                                return Err(err);
                            },
                        };
                        proof {
                            lemma_reqs_extends_trans(req0, pre, *requirements);
                            lemma_prefix_keeps_include(
                                pre.required_def_includes@,
                                requirements.required_def_includes@,
                                crate::requirements::inc_view(
                                    "beatsaber-hook/shared/utils/typedefs-array.hpp"@,
                                    false,
                                ),
                            );
                        }
                        let generic_formatted = generic.combine_all();
                        let mut backing = String::from_str("::Array<");
                        backing.append(generic_formatted.as_str());
                        backing.append(">*");
                        let gens = vec![generic_formatted, backing];
                        let r = NameComponents {
                            name: String::from_str("ArrayW"),
                            namespace: Some(String::new()),
                            declaring_types: None,
                            generics: Some(gens),
                            is_pointer: false,
                        };
                        proof {
                            assert(r@.generics is Some);
                            assert(r@.generics.unwrap() =~= sspec->Ok_0.generics.unwrap());
                            assert(r@ == sspec->Ok_0);
                        }
                        Ok(r)
                    },
                    _ => Err(ResolveError::UnexpectedTypeData),
                }
            },
            Il2CppTypeEnum::Array => {
                proof {
                    lemma_reqs_extends_refl(req0);
                    assert(reqs_extends(*requirements, req0));
                }
                Ok(
                    NameComponents {
                        name: String::from_str("Il2CppObject"),
                        namespace: None,
                        declaring_types: None,
                        generics: None,
                        is_pointer: true,
                    },
                )
            },
            Il2CppTypeEnum::Mvar => {
                proof {
                    lemma_reqs_extends_refl(req0);
                    assert(reqs_extends(*requirements, req0));
                }
                match typ.data {
                    TypeData::GenericParameterIndex(index) => {
                        let param = &metadata.generic_parameters[index as usize];
                        if !param.owner_is_method {
                            return Err(ResolveError::UnexpectedTypeData);
                        }
                        let method_index = param.owner_index;
                        let args = match self.method_args(method_index) {
                            None => {
                                return Ok(NameComponents::from_name(param.name.clone()));
                            },
                            Some(a) => a,
                        };
                        if (param.num as usize) >= args.len() {
                            return Err(ResolveError::UnexpectedTypeData);
                        }
                        let ty_idx = args[param.num as usize];
                        proof {
                            lemma_method_args_in_map(
                                self.method_generic_instantiation_map@,
                                method_index,
                            );
                            let k = choose|k: int|
                                0 <= k < self.method_generic_instantiation_map@.len() && (
                                #[trigger] self.method_generic_instantiation_map@[k]).1@
                                    == method_args_lookup(
                                    self.method_generic_instantiation_map@,
                                    method_index,
                                ).unwrap();
                            assert(self.method_generic_instantiation_map@[k].1@[param.num as int]
                                < metadata.types@.len());
                        }
                        let inner = &metadata.types[ty_idx];
                        let ghost pre = *requirements;
                        let res = self.cppify_name_il2cpp_recurse(
                            requirements,
                            ctx_collection,
                            metadata,
                            inner,
                            include_depth,
                            declaring_generic_inst_types,
                            TypeUsage::GenericArg,
                            fuel - 1,
                        );
                        proof {
                            lemma_reqs_extends_trans(req0, pre, *requirements);
                        }
                        res
                    },
                    _ => Err(ResolveError::UnexpectedTypeData),
                }
            },
            Il2CppTypeEnum::Var => {
                proof {
                    lemma_reqs_extends_refl(req0);
                    assert(reqs_extends(*requirements, req0));
                }
                match typ.data {
                    TypeData::GenericParameterIndex(index) => {
                        let param = &metadata.generic_parameters[index as usize];
                        let ty_idx_opt: Option<usize> = match self
                            .generic_instantiations_args_types {
                            Some(ref v) => {
                                if (param.num as usize) < v.len() {
                                    Some(v[param.num as usize])
                                } else {
                                    None
                                }
                            },
                            None => None,
                        };
                        match ty_idx_opt {
                            None => {
                                if template_contains(&self.cpp_template, &param.name) {
                                    Ok(NameComponents::from_name(param.name.clone()))
                                } else {
                                    Err(
                                        ResolveError::UnresolvedGenericArgument(
                                            param.name.clone(),
                                        ),
                                    )
                                }
                            },
                            Some(ty_idx) => {
                                let ty_var = &metadata.types[ty_idx];
                                match self.cpp_name_components.generics {
                                    None => Err(
                                        ResolveError::UnresolvedGenericArgument(
                                            param.name.clone(),
                                        ),
                                    ),
                                    Some(ref gens) => {
                                        if (param.num as usize) >= gens.len() {
                                            Err(
                                                ResolveError::UnresolvedGenericArgument(
                                                    param.name.clone(),
                                                ),
                                            )
                                        } else {
                                            let resolved_var = gens[param.num as usize].clone();
                                            let in_template = template_contains(
                                                &self.cpp_template,
                                                &resolved_var,
                                            );
                                            let is_pointer = !ty_var.valuetype && !in_template;
                                            Ok(
                                                NameComponents {
                                                    name: resolved_var,
                                                    namespace: None,
                                                    declaring_types: None,
                                                    generics: None,
                                                    is_pointer,
                                                },
                                            )
                                        }
                                    },
                                }
                            },
                        }
                    },
                    _ => Err(ResolveError::UnexpectedTypeData),
                }
            },
            Il2CppTypeEnum::Genericinst => {
                proof {
                    lemma_reqs_extends_refl(req0);
                    assert(reqs_extends(*requirements, req0));
                }
                match typ.data {
                    TypeData::GenericClassIndex(e) => {
                        let gc = metadata.generic_classes[e];
                        let ci = match gc.class_inst_index {
                            Some(ci) => ci,
                            None => {
                                return Err(ResolveError::UnexpectedTypeData);
                            },
                        };
                        let inst = &metadata.generic_insts[ci];
                        let generic_type_def = metadata.types[gc.type_index];
                        let tdi = match generic_type_def.data {
                            TypeData::TypeDefinitionIndex(tdi) => tdi,
                            _ => {
                                return Err(ResolveError::UnexpectedTypeData);
                            },
                        };
                        if add_include {
                            if CsTypeTag::TypeDefinitionIndex(tdi) != self.self_tag {
                                let ghost pre = *requirements;
                                requirements.add_dependency_tag(
                                    CsTypeTag::TypeDefinitionIndex(tdi),
                                );
                                proof {
                                    lemma_prefix_push_or_same(
                                        pre.depending_types@,
                                        requirements.depending_types@,
                                        CsTypeTag::TypeDefinitionIndex(tdi),
                                    );
                                    lemma_push_keeps_absent(
                                        pre.depending_types@,
                                        requirements.depending_types@,
                                        CsTypeTag::TypeDefinitionIndex(tdi),
                                        self.self_tag,
                                    );
                                    lemma_add_records_tag(
                                        pre.depending_types@,
                                        requirements.depending_types@,
                                        CsTypeTag::TypeDefinitionIndex(tdi),
                                    );
                                    lemma_reqs_extends_refl(pre);
                                    assert(reqs_extends(*requirements, pre));
                                    lemma_reqs_extends_trans(req0, pre, *requirements);
                                }
                            }
                            if CsTypeTag::GenericInstantiation(e) != self.self_tag {
                                let ghost pre2 = *requirements;
                                requirements.add_dependency_tag(
                                    CsTypeTag::GenericInstantiation(e),
                                );
                                proof {
                                    lemma_prefix_push_or_same(
                                        pre2.depending_types@,
                                        requirements.depending_types@,
                                        CsTypeTag::GenericInstantiation(e),
                                    );
                                    lemma_push_keeps_absent(
                                        pre2.depending_types@,
                                        requirements.depending_types@,
                                        CsTypeTag::GenericInstantiation(e),
                                        self.self_tag,
                                    );
                                    lemma_add_records_tag(
                                        pre2.depending_types@,
                                        requirements.depending_types@,
                                        CsTypeTag::GenericInstantiation(e),
                                    );
                                    lemma_reqs_extends_refl(pre2);
                                    assert(reqs_extends(*requirements, pre2));
                                    lemma_reqs_extends_trans(req0, pre2, *requirements);
                                    if CsTypeTag::TypeDefinitionIndex(tdi) != self.self_tag {
                                        lemma_prefix_keeps_tag(
                                            pre2.depending_types@,
                                            requirements.depending_types@,
                                            CsTypeTag::TypeDefinitionIndex(tdi),
                                        );
                                    }
                                }
                            }
                        }
                        proof {
                            assert forall|j: int|
                                0 <= j < inst@.len() implies (#[trigger] inst@[j])
                                < metadata.types@.len() by {
                                assert(metadata.generic_insts@[ci as int]@[j]
                                    < metadata.types@.len());
                            }
                        }
                        let ghost req_pre_args = *requirements;
                        proof {
                            if add_include {
                                if CsTypeTag::TypeDefinitionIndex(tdi) != self.self_tag {
                                    assert(req_pre_args.depending_types@.contains(
                                        CsTypeTag::TypeDefinitionIndex(tdi),
                                    ));
                                }
                                if CsTypeTag::GenericInstantiation(e) != self.self_tag {
                                    assert(req_pre_args.depending_types@.contains(
                                        CsTypeTag::GenericInstantiation(e),
                                    ));
                                }
                            }
                        }
                        let args_res = self.resolve_generic_args(
                            requirements,
                            ctx_collection,
                            metadata,
                            inst,
                            next_include_depth,
                            declaring_generic_inst_types,
                            fuel,
                        );
                        proof {
                            lemma_reqs_extends_trans(req0, req_pre_args, *requirements);
                            if add_include {
                                if CsTypeTag::TypeDefinitionIndex(tdi) != self.self_tag {
                                    lemma_prefix_keeps_tag(
                                        req_pre_args.depending_types@,
                                        requirements.depending_types@,
                                        CsTypeTag::TypeDefinitionIndex(tdi),
                                    );
                                }
                                if CsTypeTag::GenericInstantiation(e) != self.self_tag {
                                    lemma_prefix_keeps_tag(
                                        req_pre_args.depending_types@,
                                        requirements.depending_types@,
                                        CsTypeTag::GenericInstantiation(e),
                                    );
                                }
                            }
                        }
                        let generic_types_formatted = match args_res {
                            Ok(v) => v,
                            Err(err) => {
                                return Err(err);
                            },
                        };
                        let ghost req_post_args = *requirements;
                        let ghost pre_def = *requirements;
                        let def_res = self.cppify_name_il2cpp_recurse(
                            requirements,
                            ctx_collection,
                            metadata,
                            &generic_type_def,
                            include_depth,
                            Some(inst),
                            typ_usage,
                            fuel - 1,
                        );
                        proof {
                            lemma_reqs_extends_trans(req_pre_args, pre_def, *requirements);
                            lemma_reqs_extends_trans(req0, req_pre_args, *requirements);
                            if add_include {
                                if CsTypeTag::TypeDefinitionIndex(tdi) != self.self_tag {
                                    lemma_prefix_keeps_tag(
                                        req_post_args.depending_types@,
                                        requirements.depending_types@,
                                        CsTypeTag::TypeDefinitionIndex(tdi),
                                    );
                                }
                                if CsTypeTag::GenericInstantiation(e) != self.self_tag {
                                    lemma_prefix_keeps_tag(
                                        req_post_args.depending_types@,
                                        requirements.depending_types@,
                                        CsTypeTag::GenericInstantiation(e),
                                    );
                                }
                            }
                        }
                        match def_res {
                            Err(err) => Err(err),
                            Ok(def_name) => {
                                let r = NameComponents {
                                    generics: Some(generic_types_formatted),
                                    name: def_name.name,
                                    namespace: def_name.namespace,
                                    declaring_types: def_name.declaring_types,
                                    is_pointer: def_name.is_pointer,
                                };
                                proof {
                                    assert(r@ == sspec->Ok_0);
                                }
                                Ok(r)
                            },
                        }
                    },
                    _ => Err(ResolveError::UnexpectedTypeData),
                }
            },
            Il2CppTypeEnum::I1 => {
                proof {
                    lemma_reqs_extends_refl(req0);
                    assert(reqs_extends(*requirements, req0));
                }
                Ok(NameComponents::from_name(String::from_str("int8_t")))
            },
            Il2CppTypeEnum::I2 => {
                proof {
                    lemma_reqs_extends_refl(req0);
                    assert(reqs_extends(*requirements, req0));
                }
                Ok(NameComponents::from_name(String::from_str("int16_t")))
            },
            Il2CppTypeEnum::I4 => {
                proof {
                    lemma_reqs_extends_refl(req0);
                    assert(reqs_extends(*requirements, req0));
                }
                Ok(NameComponents::from_name(String::from_str("int32_t")))
            },
            Il2CppTypeEnum::I8 => {
                proof {
                    lemma_reqs_extends_refl(req0);
                    assert(reqs_extends(*requirements, req0));
                }
                Ok(NameComponents::from_name(String::from_str("int64_t")))
            },
            Il2CppTypeEnum::U1 => {
                proof {
                    lemma_reqs_extends_refl(req0);
                    assert(reqs_extends(*requirements, req0));
                }
                Ok(NameComponents::from_name(String::from_str("uint8_t")))
            },
            Il2CppTypeEnum::U2 => {
                proof {
                    lemma_reqs_extends_refl(req0);
                    assert(reqs_extends(*requirements, req0));
                }
                Ok(NameComponents::from_name(String::from_str("uint16_t")))
            },
            Il2CppTypeEnum::U4 => {
                proof {
                    lemma_reqs_extends_refl(req0);
                    assert(reqs_extends(*requirements, req0));
                }
                Ok(NameComponents::from_name(String::from_str("uint32_t")))
            },
            Il2CppTypeEnum::U8 => {
                proof {
                    lemma_reqs_extends_refl(req0);
                    assert(reqs_extends(*requirements, req0));
                }
                Ok(NameComponents::from_name(String::from_str("uint64_t")))
            },
            Il2CppTypeEnum::R4 => {
                proof {
                    lemma_reqs_extends_refl(req0);
                    assert(reqs_extends(*requirements, req0));
                }
                Ok(NameComponents::from_name(String::from_str("float_t")))
            },
            Il2CppTypeEnum::R8 => {
                proof {
                    lemma_reqs_extends_refl(req0);
                    assert(reqs_extends(*requirements, req0));
                }
                Ok(NameComponents::from_name(String::from_str("double_t")))
            },
            Il2CppTypeEnum::Void => {
                proof {
                    lemma_reqs_extends_refl(req0);
                    assert(reqs_extends(*requirements, req0));
                }
                Ok(NameComponents::from_name(String::from_str("void")))
            },
            Il2CppTypeEnum::Boolean => {
                proof {
                    lemma_reqs_extends_refl(req0);
                    assert(reqs_extends(*requirements, req0));
                }
                Ok(NameComponents::from_name(String::from_str("bool")))
            },
            Il2CppTypeEnum::Char => {
                proof {
                    lemma_reqs_extends_refl(req0);
                    assert(reqs_extends(*requirements, req0));
                }
                Ok(NameComponents::from_name(String::from_str("char16_t")))
            },
            Il2CppTypeEnum::String => {
                requirements.needs_stringw_include();
                proof {
                    lemma_reqs_extends_refl(req0);
                    assert(reqs_extends(*requirements, req0));
                }
                Ok(NameComponents::from_name(String::from_str("::StringW")))
            },
            Il2CppTypeEnum::Ptr => {
                proof {
                    lemma_reqs_extends_refl(req0);
                    assert(reqs_extends(*requirements, req0));
                }
                match typ.data {
                    TypeData::TypeIndex(e) => {
                        let ghost pre = *requirements;
                        let inner = &metadata.types[e];
                        let generic = match self.cppify_name_il2cpp_recurse(
                            requirements,
                            ctx_collection,
                            metadata,
                            inner,
                            include_depth,
                            declaring_generic_inst_types,
                            typ_usage,
                            fuel - 1,
                        ) {
                            Ok(g) => g,
                            Err(err) => {
                                proof {
                                    lemma_reqs_extends_trans(req0, pre, *requirements);
                                }
                                return Err(err);
                            },
                        };
                        proof {
                            lemma_reqs_extends_trans(req0, pre, *requirements);
                        }
                        let generic_formatted = generic.combine_all();
                        let gens = vec![generic_formatted];
                        let r = NameComponents {
                            name: String::from_str("Ptr"),
                            namespace: Some(String::from_str("cordl_internals")),
                            declaring_types: None,
                            generics: Some(gens),
                            is_pointer: false,
                        };
                        proof {
                            assert(r@.generics.unwrap() =~= sspec->Ok_0.generics.unwrap());
                            assert(r@ == sspec->Ok_0);
                        }
                        Ok(r)
                    },
                    _ => Err(ResolveError::UnexpectedTypeData),
                }
            },
            _ => {
                proof {
                    lemma_reqs_extends_refl(req0);
                    assert(reqs_extends(*requirements, req0));
                }
                Ok(NameComponents::from_name(String::from_str("/* UNKNOWN TYPE! */")))
            },
        }
    }

    /// Resolve and render every concrete generic argument of one
    /// instantiation: value-typed arguments keep the remaining include depth,
    /// reference-typed arguments degrade to depth zero.
    fn resolve_generic_args(
        &self,
        requirements: &mut CppTypeRequirements,
        ctx_collection: &CppContextCollection,
        metadata: &Metadata,
        inst: &Vec<usize>,
        next_include_depth: usize,
        declaring_generic_inst_types: Option<&Vec<usize>>,
        fuel: usize,
    ) -> (r: Result<Vec<String>, ResolveError>)
        requires
            fuel >= 1,
            old(requirements).wf(),
            metadata.wf(),
            self.generics_wf(*metadata),
            forall|j: int| 0 <= j < inst@.len() ==> (#[trigger] inst@[j]) < metadata.types@.len(),
        ensures
            final(requirements).wf(),
            reqs_extends(*final(requirements), *old(requirements)),
            next_include_depth == 0 ==> final(requirements).depending_types@ == old(
                requirements,
            ).depending_types@,
            !old(requirements).depending_types@.contains(self.self_tag)
                ==> !final(requirements).depending_types@.contains(self.self_tag),
            match r {
                Ok(v) => spec_resolve_args(
                    *metadata,
                    *ctx_collection,
                    *self,
                    inst@,
                    next_include_depth as nat,
                    decl_view(declaring_generic_inst_types),
                    fuel as nat,
                ) == Ok::<Seq<Seq<char>>, ResolveErrorView>(v.deep_view()),
                Err(e) => spec_resolve_args(
                    *metadata,
                    *ctx_collection,
                    *self,
                    inst@,
                    next_include_depth as nat,
                    decl_view(declaring_generic_inst_types),
                    fuel as nat,
                ) == Err::<Seq<Seq<char>>, ResolveErrorView>(e@),
            },
        decreases fuel, 0int,
    {
        let ghost req_pre_args = *requirements;
        let ghost argspec = spec_resolve_args(
            *metadata,
            *ctx_collection,
            *self,
            inst@,
            next_include_depth as nat,
            decl_view(declaring_generic_inst_types),
            fuel as nat,
        );
        let mut generic_types_formatted: Vec<String> = Vec::new();
        let mut k: usize = 0;
        proof {
            lemma_reqs_extends_refl(req_pre_args);
            assert(inst@.skip(0) =~= inst@);
        }
        #[verifier::loop_isolation(false)]
        while k < inst.len()
            invariant
                k <= inst.len(),
                requirements.wf(),
                reqs_extends(*requirements, req_pre_args),
                next_include_depth == 0 ==> requirements.depending_types@
                    == req_pre_args.depending_types@,
                !req_pre_args.depending_types@.contains(self.self_tag)
                    ==> !requirements.depending_types@.contains(self.self_tag),
                argspec == match spec_resolve_args(
                    *metadata,
                    *ctx_collection,
                    *self,
                    inst@.skip(k as int),
                    next_include_depth as nat,
                    decl_view(declaring_generic_inst_types),
                    fuel as nat,
                ) {
                    Ok(rest) => Ok(generic_types_formatted.deep_view() + rest),
                    Err(err) => Err(err),
                },
            decreases inst.len() - k,
        {
            let t_idx = inst[k];
            let gen_arg_t = &metadata.types[t_idx];
            let d = if gen_arg_t.valuetype {
                next_include_depth
            } else {
                0
            };
            let ghost pre_child = *requirements;
            let child = self.cppify_name_il2cpp_recurse(
                requirements,
                ctx_collection,
                metadata,
                gen_arg_t,
                d,
                declaring_generic_inst_types,
                TypeUsage::GenericArg,
                fuel - 1,
            );
            proof {
                lemma_reqs_extends_trans(req_pre_args, pre_child, *requirements);
                assert(inst@.skip(k as int)[0] == inst@[k as int]);
                assert(inst@.skip(k as int).drop_first() =~= inst@.skip(k + 1));
            }
            match child {
                Err(err) => {
                    return Err(err);
                },
                Ok(nc) => {
                    let ghost pre_names = generic_types_formatted.deep_view();
                    let formatted = nc.combine_all();
                    generic_types_formatted.push(formatted);
                    proof {
                        assert(generic_types_formatted.deep_view() =~= pre_names.push(
                            combine_all_spec(nc@),
                        ));
                        let rest_k = spec_resolve_args(
                            *metadata,
                            *ctx_collection,
                            *self,
                            inst@.skip(k as int),
                            next_include_depth as nat,
                            decl_view(declaring_generic_inst_types),
                            fuel as nat,
                        );
                        let rest_k1 = spec_resolve_args(
                            *metadata,
                            *ctx_collection,
                            *self,
                            inst@.skip(k + 1),
                            next_include_depth as nat,
                            decl_view(declaring_generic_inst_types),
                            fuel as nat,
                        );
                        match rest_k1 {
                            Ok(rest) => {
                                assert(rest_k == Ok::<Seq<Seq<char>>, ResolveErrorView>(
                                    seq![combine_all_spec(nc@)] + rest,
                                ));
                                assert(pre_names + (seq![combine_all_spec(nc@)] + rest)
                                    =~= generic_types_formatted.deep_view() + rest);
                            },
                            Err(err) => {
                                assert(rest_k == Err::<Seq<Seq<char>>, ResolveErrorView>(err));
                            },
                        }
                    }
                },
            }
            k += 1;
        }
        proof {
            assert(inst@.skip(inst@.len() as int).len() == 0);
            assert(argspec == Ok::<Seq<Seq<char>>, ResolveErrorView>(
                generic_types_formatted.deep_view() + Seq::empty(),
            ));
            assert(generic_types_formatted.deep_view() + Seq::empty()
                =~= generic_types_formatted.deep_view());
        }
        Ok(generic_types_formatted)
    }
}

/// A successful lookup in the per-method generic-argument map returns the
/// list of one of its entries.
pub proof fn lemma_method_args_in_map(entries: Seq<(u32, Vec<usize>)>, key: u32)
    requires
        method_args_lookup(entries, key) is Some,
    ensures
        exists|k: int|
            0 <= k < entries.len() && (#[trigger] entries[k]).1@ == method_args_lookup(
                entries,
                key,
            ).unwrap(),
    decreases entries.len(),
{
    if entries.len() == 0 {
    } else if entries.last().0 == key {
        assert((entries[entries.len() - 1]).1@ == method_args_lookup(entries, key).unwrap());
    } else {
        lemma_method_args_in_map(entries.drop_last(), key);
        let k = choose|k: int|
            0 <= k < entries.drop_last().len() && (#[trigger] entries.drop_last()[k]).1@
                == method_args_lookup(entries.drop_last(), key).unwrap();
        assert((entries[k]).1@ == method_args_lookup(entries, key).unwrap());
    }
}


/// The rendered by-reference form of a parameter's type name: output and
/// reference-typed `ref` uses wrap in `ByRef`, input-only uses wrap in
/// `ByRefConst`, and plain uses stay as they are.
pub open spec fn byref_fixed_name_spec(t: Il2CppType, name: Seq<char>) -> Seq<char> {
    if t.spec_is_param_out() || (t.byref && !t.valuetype) {
        "ByRef<"@ + name + ">"@
    } else if t.spec_is_param_in() {
        "ByRefConst<"@ + name + ">"@
    } else {
        name
    }
}

impl CppType {
    /// Resolve one raw type record against this type's own accumulator: the
    /// accumulator is cloned, grown by the resolution, and stored back.
    pub fn cppify_name_il2cpp(
        &mut self,
        ctx_collection: &CppContextCollection,
        metadata: &Metadata,
        typ: &Il2CppType,
        include_depth: usize,
        typ_usage: TypeUsage,
        fuel: usize,
    ) -> (r: Result<NameComponents, ResolveError>)
        requires
            old(self).requirements.wf(),
            metadata.wf(),
            old(self).generics_wf(*metadata),
            crate::metadata::type_record_wf(*metadata, *typ) || data_independent_kind(typ.ty),
        ensures
            final(self).requirements.wf(),
            *final(self) == (CppType { requirements: final(self).requirements, ..*old(self) }),
            reqs_view_extends(final(self).requirements, old(self).requirements),
            !old(self).requirements.depending_types@.contains(old(self).self_tag)
                ==> !final(self).requirements.depending_types@.contains(old(self).self_tag),
            include_depth == 0 ==> final(self).requirements.depending_types@ == old(
                self,
            ).requirements.depending_types@,
            resolve_result_matches(
                r,
                spec_resolve_name(
                    *metadata,
                    *ctx_collection,
                    *old(self),
                    *typ,
                    include_depth as nat,
                    match old(self).generic_instantiations_args_types {
                        Some(ref v) => Some(v@),
                        None => None,
                    },
                    typ_usage,
                    fuel as nat,
                ),
            ),
    {
        let mut reqs = self.requirements.clone();
        let r = self.cppify_name_il2cpp_recurse(
            &mut reqs,
            ctx_collection,
            metadata,
            typ,
            include_depth,
            self.generic_instantiations_args_types.as_ref(),
            typ_usage,
            fuel,
        );
        proof {
            let pre = old(self).requirements;
            let cl_len_def = pre.required_def_includes@.len();
            assert forall|i: int| 0 <= i < pre.required_def_includes@.len() implies (
            #[trigger] reqs.required_def_includes@[i])@ == pre.required_def_includes@[i]@ by {
                assert(reqs.required_def_includes@.subrange(0, cl_len_def as int)[i]
                    == reqs.required_def_includes@[i]);
            }
            assert forall|i: int| 0 <= i < pre.required_impl_includes@.len() implies (
            #[trigger] reqs.required_impl_includes@[i])@ == pre.required_impl_includes@[i]@ by {
                assert(reqs.required_impl_includes@.subrange(
                    0,
                    pre.required_impl_includes@.len() as int,
                )[i] == reqs.required_impl_includes@[i]);
            }
            assert forall|i: int| 0 <= i < pre.forward_declares@.len() implies ((
            #[trigger] reqs.forward_declares@[i]).0@, reqs.forward_declares@[i].1@) == (
            pre.forward_declares@[i].0@, pre.forward_declares@[i].1@) by {
                assert(reqs.forward_declares@.subrange(0, pre.forward_declares@.len() as int)[i]
                    == reqs.forward_declares@[i]);
            }
            assert(reqs_view_extends(reqs, pre));
        }
        self.requirements = reqs;
        r
    }

    /// Wrap a rendered type name for a by-reference parameter use, recording
    /// the by-reference header requirement when a wrapper is used.
    pub fn il2cpp_byref(&mut self, cpp_name: String, typ: &Il2CppType) -> (r: String)
        requires
            old(self).requirements.wf(),
        ensures
            final(self).requirements.wf(),
            *final(self) == (CppType { requirements: final(self).requirements, ..*old(self) }),
            r@ == byref_fixed_name_spec(*typ, cpp_name@),
    {
        if typ.is_param_out() || (typ.byref && !typ.valuetype) {
            let mut reqs = self.requirements.clone();
            reqs.needs_byref_include();
            self.requirements = reqs;
            let mut s = String::from_str("ByRef<");
            s.append(cpp_name.as_str());
            s.append(">");
            return s;
        }
        if typ.is_param_in() {
            let mut reqs = self.requirements.clone();
            reqs.needs_byref_include();
            self.requirements = reqs;
            let mut s = String::from_str("ByRefConst<");
            s.append(cpp_name.as_str());
            s.append(">");
            return s;
        }
        cpp_name
    }

    /// The rendered call through which the runtime class object of this
    /// type is obtained.
    pub fn classof_cpp_name(&self) -> (r: String)
        ensures
            r@ == "::il2cpp_utils::il2cpp_type_check::il2cpp_no_arg_class<"@ + combine_all_spec(
                self.cpp_name_components@,
            ) + ">::get"@,
    {
        let mut s = String::from_str(
            "::il2cpp_utils::il2cpp_type_check::il2cpp_no_arg_class<",
        );
        let name = self.cpp_name_components.combine_all();
        s.append(name.as_str());
        s.append(">::get");
        s
    }

    /// A rendered type name as value types carry it, and with a trailing `*`
    /// for reference types.
    pub fn type_name_byref_fixup(ty: &Il2CppType, name: &String) -> (r: String)
        ensures
            ty.valuetype ==> r@ == name@,
            !ty.valuetype ==> r@ == name@ + "*"@,
    {
        if ty.valuetype {
            name.clone()
        } else {
            let mut s = name.clone();
            s.append("*");
            s
        }
    }
}


/// Recording one identity that is not `x` cannot make `x` recorded.
pub proof fn lemma_push_keeps_absent(
    pre: Seq<CsTypeTag>,
    post: Seq<CsTypeTag>,
    t: CsTypeTag,
    x: CsTypeTag,
)
    requires
        post == pre || post == pre.push(t),
        t != x,
    ensures
        !pre.contains(x) ==> !post.contains(x),
{
    if !pre.contains(x) && post == pre.push(t) {
        assert forall|i: int| 0 <= i < post.len() implies post[i] != x by {
            if i < pre.len() {
                assert(post[i] == pre[i]);
            } else {
                assert(post[i] == t);
            }
        }
    }
}


/// An include stays recorded when the list only grows.
pub proof fn lemma_prefix_keeps_include(
    pre: Seq<CppInclude>,
    post: Seq<CppInclude>,
    x: crate::cpp_members::CppIncludeView,
)
    requires
        pre.is_prefix_of(post),
        crate::requirements::include_in(pre, x),
    ensures
        crate::requirements::include_in(post, x),
{
    let i = choose|i: int| 0 <= i < pre.len() && (#[trigger] pre[i])@ == x;
    assert(post.subrange(0, pre.len() as int)[i] == pre[i]);
    assert(post[i]@ == x);
}

/// A dependency tag stays recorded when the list only grows.
pub proof fn lemma_prefix_keeps_tag(pre: Seq<CsTypeTag>, post: Seq<CsTypeTag>, x: CsTypeTag)
    requires
        pre.is_prefix_of(post),
        pre.contains(x),
    ensures
        post.contains(x),
{
    let i = choose|i: int| 0 <= i < pre.len() && pre[i] == x;
    assert(post.subrange(0, pre.len() as int)[i] == pre[i]);
    assert(post[i] == x);
}

/// A forward-declaration pair stays recorded when the list only grows.
pub proof fn lemma_prefix_keeps_fwd(
    pre: Seq<(CppForwardDeclare, CppInclude)>,
    post: Seq<(CppForwardDeclare, CppInclude)>,
    x: (crate::cpp_members::CppForwardDeclareView, crate::cpp_members::CppIncludeView),
)
    requires
        pre.is_prefix_of(post),
        crate::requirements::fwd_in(pre, x),
    ensures
        crate::requirements::fwd_in(post, x),
{
    let i = choose|i: int| 0 <= i < pre.len() && ((#[trigger] pre[i]).0@, pre[i].1@) == x;
    assert(post.subrange(0, pre.len() as int)[i] == pre[i]);
    assert((post[i].0@, post[i].1@) == x);
}

/// The forward declaration a registered type is named by: its kind, its
/// namespace unless nested, its rendered base name, template head and
/// instantiation literals.
pub open spec fn fwd_view_of_entry(e: CppContextEntry) -> crate::cpp_members::CppForwardDeclareView {
    crate::cpp_members::CppForwardDeclareView {
        is_struct: e.is_value_type,
        namespace: if e.nested {
            None
        } else {
            match e.cpp_name_components@.namespace {
                Some(ns) => Some(ns),
                None => Some(Seq::empty()),
            }
        },
        name: e.cpp_name_components@.name,
        templates: match e.cpp_template {
            Some(ref t) => Some(t.names.deep_view()),
            None => None,
        },
        literals: match e.generic_instantiation_args {
            Some(ref v) => Some(v.deep_view()),
            None => None,
        },
    }
}


/// Recording an include leaves it recorded: the accumulator either already
/// held its view or appended it.
pub proof fn lemma_add_records_include(pre: Seq<CppInclude>, post: Seq<CppInclude>, e: CppInclude)
    requires
        post == if crate::requirements::include_in(pre, e@) {
            pre
        } else {
            pre.push(e)
        },
    ensures
        crate::requirements::include_in(post, e@),
{
    if !crate::requirements::include_in(pre, e@) {
        assert(post[post.len() - 1]@ == e@);
    }
}

/// Recording a forward-declaration pair leaves it recorded.
pub proof fn lemma_add_records_fwd(
    pre: Seq<(CppForwardDeclare, CppInclude)>,
    post: Seq<(CppForwardDeclare, CppInclude)>,
    e: (CppForwardDeclare, CppInclude),
)
    requires
        post == if crate::requirements::fwd_in(pre, (e.0@, e.1@)) {
            pre
        } else {
            pre.push(e)
        },
    ensures
        crate::requirements::fwd_in(post, (e.0@, e.1@)),
{
    if !crate::requirements::fwd_in(pre, (e.0@, e.1@)) {
        assert((post[post.len() - 1].0@, post[post.len() - 1].1@) == (e.0@, e.1@));
    }
}

/// Recording a dependency tag leaves it recorded.
pub proof fn lemma_add_records_tag(pre: Seq<CsTypeTag>, post: Seq<CsTypeTag>, t: CsTypeTag)
    requires
        post == if pre.contains(t) {
            pre
        } else {
            pre.push(t)
        },
    ensures
        post.contains(t),
{
    if !pre.contains(t) {
        assert(post[post.len() - 1] == t);
    }
}

/// Whether a class-shaped payload names a deny-listed definition.
pub open spec fn class_data_blacklisted(m: Metadata, d: TypeData) -> bool {
    match d {
        TypeData::TypeDefinitionIndex(tdi) => m.spec_is_blacklisted(tdi),
        _ => false,
    }
}


/// The accumulator only grew, judged by recorded values: dependency tags by
/// value, includes and forward declarations by their views. The wrapper's
/// clone step renews the strings, so growth across it is stated this way.
pub open spec fn reqs_view_extends(post: CppTypeRequirements, pre: CppTypeRequirements) -> bool {
    &&& pre.depending_types@.is_prefix_of(post.depending_types@)
    &&& pre.required_def_includes@.len() <= post.required_def_includes@.len()
    &&& forall|i: int|
        0 <= i < pre.required_def_includes@.len() ==> (
        #[trigger] post.required_def_includes@[i])@ == pre.required_def_includes@[i]@
    &&& pre.required_impl_includes@.len() <= post.required_impl_includes@.len()
    &&& forall|i: int|
        0 <= i < pre.required_impl_includes@.len() ==> (
        #[trigger] post.required_impl_includes@[i])@ == pre.required_impl_includes@[i]@
    &&& pre.forward_declares@.len() <= post.forward_declares@.len()
    &&& forall|i: int|
        0 <= i < pre.forward_declares@.len() ==> ((#[trigger] post.forward_declares@[i]).0@,
        post.forward_declares@[i].1@) == (pre.forward_declares@[i].0@,
        pre.forward_declares@[i].1@)
}

} // verus!
