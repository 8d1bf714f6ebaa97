use vstd::prelude::*;
use vstd::string::StringExecFns;
use crate::name_components::clone_string_option;

verus! {

/// A target-language template head: the parameter names it declares.
pub struct CppTemplate {
    pub names: Vec<String>,
}

impl Clone for CppTemplate {
    fn clone(&self) -> (r: Self)
        ensures
            r.names.deep_view() == self.names.deep_view(),
    {
        CppTemplate { names: crate::name_components::clone_string_vec(&self.names) }
    }
}

/// A struct specialization head emitted ahead of a definition.
pub struct CppStructSpecialization {
    pub name: String,
    pub namespace: Option<String>,
    pub is_struct: bool,
    pub template: CppTemplate,
}

/// A group of forward declarations sharing one namespace.
pub struct CppForwardDeclareGroup {
    pub namespace: Option<String>,
    pub items: Vec<CppForwardDeclare>,
    pub group_items: Vec<CppForwardDeclareGroup>,
}

/// One forward declaration: enough of a type's head to name it before its
/// definition is seen.
pub struct CppForwardDeclare {
    pub is_struct: bool,
    pub namespace: Option<String>,
    pub name: String,
    pub templates: Option<CppTemplate>,
    pub literals: Option<Vec<String>>,
}

/// Mathematical value of a forward declaration.
pub struct CppForwardDeclareView {
    pub is_struct: bool,
    pub namespace: Option<Seq<char>>,
    pub name: Seq<char>,
    pub templates: Option<Seq<Seq<char>>>,
    pub literals: Option<Seq<Seq<char>>>,
}

impl View for CppForwardDeclare {
    type V = CppForwardDeclareView;

    open spec fn view(&self) -> CppForwardDeclareView {
        CppForwardDeclareView {
            is_struct: self.is_struct,
            namespace: match self.namespace {
                Some(ref s) => Some(s@),
                None => None,
            },
            name: self.name@,
            templates: match self.templates {
                Some(ref t) => Some(t.names.deep_view()),
                None => None,
            },
            literals: match self.literals {
                Some(ref v) => Some(v.deep_view()),
                None => None,
            },
        }
    }
}

/// A string paired with an optional comment.
pub struct CppCommentedString {
    pub data: String,
    pub comment: Option<String>,
}

/// One include directive: its path and whether it is a system include.
pub struct CppInclude {
    pub path: String,
    pub system: bool,
}

/// Mathematical value of an include directive.
pub struct CppIncludeView {
    pub path: Seq<char>,
    pub system: bool,
}

impl View for CppInclude {
    type V = CppIncludeView;

    open spec fn view(&self) -> CppIncludeView {
        CppIncludeView { path: self.path@, system: self.system }
    }
}

impl CppInclude {
    /// A system include of the given path.
    pub fn new_system(path: String) -> (r: CppInclude)
        ensures
            r@.path == path@,
            r@.system,
    {
        CppInclude { path, system: true }
    }

    /// A quoted (non-system) include of the given path.
    pub fn new(path: String) -> (r: CppInclude)
        ensures
            r@.path == path@,
            !r@.system,
    {
        CppInclude { path, system: false }
    }
}

impl Clone for CppInclude {
    fn clone(&self) -> (r: Self)
        ensures
            r@ == self@,
    {
        CppInclude { path: self.path.clone(), system: self.system }
    }
}

/// Value equality of two include directives.
pub fn include_eq(a: &CppInclude, b: &CppInclude) -> (r: bool)
    ensures
        r == (a@ == b@),
{
    let same = a.path.eq(&b.path) && a.system == b.system;
    proof {
        if same {
            assert(a@ =~= b@);
        } else {
            assert(a@ != b@);
        }
    }
    same
}

/// A using-alias declaration of the target-language model.
pub struct CppUsingAlias {
    pub alias: String,
    pub result: String,
    pub namespaze: Option<String>,
    pub template: Option<CppTemplate>,
}

/// Estimated native size and address attached to a target-language method.
#[derive(Clone, Copy, Debug, PartialEq, Eq, Structural)]
pub struct CppMethodData {
    pub estimated_size: usize,
    pub addrs: u64,
}

/// The data a method-size helper record carries.
pub struct CppMethodSizeStruct {
    pub cpp_method_name: String,
    pub complete_type_name: String,
    pub ret_ty: String,
    pub instance: bool,
    pub params: Vec<CppParam>,
    pub method_data: CppMethodData,
    pub template: CppTemplate,
    pub interface_clazz_of: String,
    pub is_final: bool,
    pub slot: Option<u16>,
}

/// One rendered field of the target-language model.
pub struct CppField {
    pub name: String,
    pub ty: String,
    pub offset: u32,
    pub instance: bool,
    pub readonly: bool,
    pub classof_call: String,
    pub literal_value: Option<String>,
    pub use_wrapper: bool,
}

/// One field declaration produced by the layout pass, rendered names and all.
pub struct CppFieldDecl {
    pub cpp_name: String,
    pub field_ty: String,
    pub offset: Option<u32>,
    pub instance: bool,
    pub readonly: bool,
    pub const_expr: bool,
    pub value: Option<String>,
    pub brief_comment: Option<String>,
    pub is_private: bool,
}

/// Mathematical value of a layout-produced field declaration.
pub struct CppFieldDeclView {
    pub cpp_name: Seq<char>,
    pub field_ty: Seq<char>,
    pub offset: Option<u32>,
    pub instance: bool,
    pub readonly: bool,
    pub const_expr: bool,
    pub value: Option<Seq<char>>,
    pub brief_comment: Option<Seq<char>>,
    pub is_private: bool,
}

impl View for CppFieldDecl {
    type V = CppFieldDeclView;

    open spec fn view(&self) -> CppFieldDeclView {
        CppFieldDeclView {
            cpp_name: self.cpp_name@,
            field_ty: self.field_ty@,
            offset: self.offset,
            instance: self.instance,
            readonly: self.readonly,
            const_expr: self.const_expr,
            value: match self.value {
                Some(ref s) => Some(s@),
                None => None,
            },
            brief_comment: match self.brief_comment {
                Some(ref s) => Some(s@),
                None => None,
            },
            is_private: self.is_private,
        }
    }
}

/// One parameter of a rendered method: the strings the emitter will splice.
pub struct CppParam {
    pub name: String,
    pub ty: String,
    pub modifiers: String,
    pub def_value: Option<String>,
}

/// The rendered argument form of one parameter: type, modifiers, a space, the
/// name, and `= value` when a default is present.
pub open spec fn param_as_arg_spec(ty: Seq<char>, modifiers: Seq<char>, name: Seq<char>, def_value: Option<Seq<char>>) -> Seq<char> {
    match def_value {
        Some(v) => ty + modifiers + " "@ + name + " = "@ + v,
        None => ty + modifiers + " "@ + name,
    }
}

/// The rendered type-extraction call of one parameter.
pub open spec fn param_il2cpp_type_spec(name: Seq<char>) -> Seq<char> {
    "::il2cpp_utils::ExtractType("@ + name + ")"@
}

impl CppParam {
    /// Render each parameter as an argument, defaults included.
    pub fn params_as_args(params: &Vec<CppParam>) -> (r: Vec<String>)
        ensures
            r@.len() == params@.len(),
            forall|i: int|
                0 <= i < params@.len() ==> (#[trigger] r@[i])@ == param_as_arg_spec(
                    params@[i].ty@,
                    params@[i].modifiers@,
                    params@[i].name@,
                    match params@[i].def_value {
                        Some(ref v) => Some(v@),
                        None => None,
                    },
                ),
    {
        let mut out: Vec<String> = Vec::new();
        let mut i: usize = 0;
        while i < params.len()
            invariant
                i <= params.len(),
                out@.len() == i,
                forall|j: int|
                    0 <= j < i ==> (#[trigger] out@[j])@ == param_as_arg_spec(
                        params@[j].ty@,
                        params@[j].modifiers@,
                        params@[j].name@,
                        match params@[j].def_value {
                            Some(ref v) => Some(v@),
                            None => None,
                        },
                    ),
            decreases params.len() - i,
        {
            let p = &params[i];
            let mut s = p.ty.clone();
            s.append(p.modifiers.as_str());
            s.append(" ");
            s.append(p.name.as_str());
            match p.def_value {
                Some(ref v) => {
                    s.append(" = ");
                    s.append(v.as_str());
                },
                None => {},
            }
            out.push(s);
            i += 1;
        }
        out
    }

    /// Render each parameter as an argument, defaults dropped.
    pub fn params_as_args_no_default(params: &Vec<CppParam>) -> (r: Vec<String>)
        ensures
            r@.len() == params@.len(),
            forall|i: int|
                0 <= i < params@.len() ==> (#[trigger] r@[i])@ == param_as_arg_spec(
                    params@[i].ty@,
                    params@[i].modifiers@,
                    params@[i].name@,
                    None,
                ),
    {
        let mut out: Vec<String> = Vec::new();
        let mut i: usize = 0;
        while i < params.len()
            invariant
                i <= params.len(),
                out@.len() == i,
                forall|j: int|
                    0 <= j < i ==> (#[trigger] out@[j])@ == param_as_arg_spec(
                        params@[j].ty@,
                        params@[j].modifiers@,
                        params@[j].name@,
                        None,
                    ),
            decreases params.len() - i,
        {
            let p = &params[i];
            let mut s = p.ty.clone();
            s.append(p.modifiers.as_str());
            s.append(" ");
            s.append(p.name.as_str());
            out.push(s);
            i += 1;
        }
        out
    }

    /// The name of each parameter.
    pub fn params_names(params: &Vec<CppParam>) -> (r: Vec<String>)
        ensures
            r@.len() == params@.len(),
            forall|i: int| 0 <= i < params@.len() ==> (#[trigger] r@[i])@ == params@[i].name@,
    {
        let mut out: Vec<String> = Vec::new();
        let mut i: usize = 0;
        while i < params.len()
            invariant
                i <= params.len(),
                out@.len() == i,
                forall|j: int| 0 <= j < i ==> (#[trigger] out@[j])@ == params@[j].name@,
            decreases params.len() - i,
        {
            out.push(params[i].name.clone());
            i += 1;
        }
        out
    }

    /// The rendered type of each parameter.
    pub fn params_types(params: &Vec<CppParam>) -> (r: Vec<String>)
        ensures
            r@.len() == params@.len(),
            forall|i: int| 0 <= i < params@.len() ==> (#[trigger] r@[i])@ == params@[i].ty@,
    {
        let mut out: Vec<String> = Vec::new();
        let mut i: usize = 0;
        while i < params.len()
            invariant
                i <= params.len(),
                out@.len() == i,
                forall|j: int| 0 <= j < i ==> (#[trigger] out@[j])@ == params@[j].ty@,
            decreases params.len() - i,
        {
            out.push(params[i].ty.clone());
            i += 1;
        }
        out
    }

    /// The rendered runtime type-extraction call of each parameter.
    pub fn params_il2cpp_types(params: &Vec<CppParam>) -> (r: Vec<String>)
        ensures
            r@.len() == params@.len(),
            forall|i: int|
                0 <= i < params@.len() ==> (#[trigger] r@[i])@ == param_il2cpp_type_spec(
                    params@[i].name@,
                ),
    {
        let mut out: Vec<String> = Vec::new();
        let mut i: usize = 0;
        while i < params.len()
            invariant
                i <= params.len(),
                out@.len() == i,
                forall|j: int|
                    0 <= j < i ==> (#[trigger] out@[j])@ == param_il2cpp_type_spec(
                        params@[j].name@,
                    ),
            decreases params.len() - i,
        {
            let mut s = String::from_str("::il2cpp_utils::ExtractType(");
            s.append(params[i].name.as_str());
            s.append(")");
            out.push(s);
            i += 1;
        }
        out
    }
}

/// One rendered method declaration.
pub struct CppMethodDecl {
    pub cpp_name: String,
    pub return_type: String,
    pub parameters: Vec<CppParam>,
    pub instance: bool,
    pub template: CppTemplate,
    pub suffix_modifiers: String,
    pub prefix_modifiers: String,
    pub method_data: Option<CppMethodData>,
    pub is_virtual: bool,
}

/// One rendered method implementation.
pub struct CppMethodImpl {
    pub cpp_method_name: String,
    pub cs_method_name: String,
    pub holder_cpp_namespaze: String,
    pub holder_cpp_name: String,
    pub return_type: String,
    pub parameters: Vec<CppParam>,
    pub instance: bool,
    pub template: CppTemplate,
    pub suffix_modifiers: String,
    pub prefix_modifiers: String,
}

/// One rendered constructor declaration.
pub struct CppConstructorDecl {
    pub ty: String,
    pub parameters: Vec<CppParam>,
    pub template: CppTemplate,
}

/// One rendered constructor implementation.
pub struct CppConstructorImpl {
    pub holder_cpp_ty_name: String,
    pub parameters: Vec<CppParam>,
    pub is_constexpr: bool,
    pub template: CppTemplate,
}

/// One rendered property with its accessor records.
pub struct CppProperty {
    pub name: String,
    pub ty: String,
    pub setter: Option<CppMethodData>,
    pub getter: Option<CppMethodData>,
    pub abstr: bool,
    pub instance: bool,
    pub classof_call: String,
}

/// One member of a rendered type.
pub enum CppMember {
    Field(CppField),
    FieldDecl(CppFieldDecl),
    MethodDecl(CppMethodDecl),
    MethodImpl(CppMethodImpl),
    Property(CppProperty),
    Comment(CppCommentedString),
    ConstructorDecl(CppConstructorDecl),
    ConstructorImpl(CppConstructorImpl),
}

/// A static size assertion emitted beside a rendered type.
pub struct CppStaticAssert {
    pub condition: String,
    pub message: Option<String>,
}

/// A declaration emitted beside a rendered type rather than inside it.
pub enum CppNonMember {
    SizeStruct(CppMethodSizeStruct),
    StaticAssert(CppStaticAssert),
    Comment(CppCommentedString),
}

impl Clone for CppForwardDeclare {
    fn clone(&self) -> (r: Self)
        ensures
            r@ == self@,
    {
        let r = CppForwardDeclare {
            is_struct: self.is_struct,
            namespace: clone_string_option(&self.namespace),
            name: self.name.clone(),
            templates: match self.templates {
                Some(ref t) => Some(t.clone()),
                None => None,
            },
            literals: crate::name_components::clone_string_vec_option(&self.literals),
        };
        proof {
            assert(r@ =~= self@);
        }
        r
    }
}

/// Value equality of two forward declarations.
pub fn forward_declare_eq(a: &CppForwardDeclare, b: &CppForwardDeclare) -> (r: bool)
    ensures
        r == (a@ == b@),
{
    let head = a.is_struct == b.is_struct && a.name.eq(&b.name) && string_option_eq(
        &a.namespace,
        &b.namespace,
    );
    let tpl = match (&a.templates, &b.templates) {
        (Some(ta), Some(tb)) => string_vec_eq(&ta.names, &tb.names),
        (None, None) => true,
        _ => false,
    };
    let lit = match (&a.literals, &b.literals) {
        (Some(la), Some(lb)) => string_vec_eq(la, lb),
        (None, None) => true,
        _ => false,
    };
    let same = head && tpl && lit;
    proof {
        if same {
            assert(a@ =~= b@);
        } else {
            assert(a@ != b@);
        }
    }
    same
}

/// Value equality of two optional strings.
pub fn string_option_eq(a: &Option<String>, b: &Option<String>) -> (r: bool)
    ensures
        r == match (*a, *b) {
            (Some(ref x), Some(ref y)) => x@ == y@,
            (None, None) => true,
            _ => false,
        },
{
    match (a, b) {
        (Some(x), Some(y)) => x.eq(y),
        (None, None) => true,
        _ => false,
    }
}

/// Value equality of two string lists.
pub fn string_vec_eq(a: &Vec<String>, b: &Vec<String>) -> (r: bool)
    ensures
        r == (a.deep_view() == b.deep_view()),
{
    if a.len() != b.len() {
        assert(a.deep_view().len() != b.deep_view().len());
        return false;
    }
    let mut i: usize = 0;
    while i < a.len()
        invariant
            i <= a.len(),
            a@.len() == b@.len(),
            forall|j: int| 0 <= j < i ==> a.deep_view()[j] == b.deep_view()[j],
        decreases a.len() - i,
    {
        if !a[i].eq(&b[i]) {
            assert(a.deep_view()[i as int] != b.deep_view()[i as int]);
            return false;
        }
        i += 1;
    }
    assert(a.deep_view() =~= b.deep_view());
    true
}

} // verus!
