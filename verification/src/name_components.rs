use vstd::prelude::*;
use vstd::string::StringExecFns;

verus! {

/// Structured name of a resolved type reference: namespace, enclosing type
/// names, base name, already-rendered generic arguments, and whether the
/// rendered form is pointer-shaped.
pub struct NameComponents {
    pub name: String,
    pub namespace: Option<String>,
    pub declaring_types: Option<Vec<String>>,
    pub generics: Option<Vec<String>>,
    pub is_pointer: bool,
}

/// Mathematical value of a [`NameComponents`]: every string as its character
/// sequence.
pub struct NameComponentsView {
    pub name: Seq<char>,
    pub namespace: Option<Seq<char>>,
    pub declaring_types: Option<Seq<Seq<char>>>,
    pub generics: Option<Seq<Seq<char>>>,
    pub is_pointer: bool,
}

impl View for NameComponents {
    type V = NameComponentsView;

    open spec fn view(&self) -> NameComponentsView {
        NameComponentsView {
            name: self.name@,
            namespace: match self.namespace {
                Some(ref s) => Some(s@),
                None => None,
            },
            declaring_types: match self.declaring_types {
                Some(ref v) => Some(v.deep_view()),
                None => None,
            },
            generics: match self.generics {
                Some(ref v) => Some(v.deep_view()),
                None => None,
            },
            is_pointer: self.is_pointer,
        }
    }
}

/// The sequences of `parts`, joined with `", "` between neighbours.
pub open spec fn join_comma(parts: Seq<Seq<char>>) -> Seq<char>
    decreases parts.len(),
{
    if parts.len() == 0 {
        Seq::empty()
    } else if parts.len() == 1 {
        parts[0]
    } else {
        join_comma(parts.drop_last()) + ", "@ + parts.last()
    }
}

/// Each sequence of `parts` followed by `"::"`, concatenated in order.
pub open spec fn join_scoped(parts: Seq<Seq<char>>) -> Seq<char>
    decreases parts.len(),
{
    if parts.len() == 0 {
        Seq::empty()
    } else {
        join_scoped(parts.drop_last()) + parts.last() + "::"@
    }
}

/// The single rendered form of a structured name: `namespace::` if a namespace
/// is present, then each enclosing type followed by `::`, then the base name,
/// then `<` generics `>` if generic arguments are present, then `*` if the
/// form is pointer-shaped.
pub open spec fn combine_all_spec(v: NameComponentsView) -> Seq<char> {
    (match v.namespace {
        Some(ns) => ns + "::"@,
        None => Seq::empty(),
    }) + (match v.declaring_types {
        Some(ds) => join_scoped(ds),
        None => Seq::empty(),
    }) + v.name + (match v.generics {
        Some(gs) => "<"@ + join_comma(gs) + ">"@,
        None => Seq::empty(),
    }) + (if v.is_pointer {
        "*"@
    } else {
        Seq::<char>::empty()
    })
}

impl NameComponents {
    /// A structured name holding only a base name.
    pub fn from_name(name: String) -> (r: NameComponents)
        ensures
            r@.name == name@,
            r@.namespace is None,
            r@.declaring_types is None,
            r@.generics is None,
            !r@.is_pointer,
    {
        NameComponents {
            name,
            namespace: None,
            declaring_types: None,
            generics: None,
            is_pointer: false,
        }
    }

    /// The same name rendered as a non-pointer form.
    pub fn remove_pointer(&self) -> (r: NameComponents)
        ensures
            r@ == (NameComponentsView { is_pointer: false, ..self@ }),
    {
        NameComponents {
            name: self.name.clone(),
            namespace: clone_string_option(&self.namespace),
            declaring_types: clone_string_vec_option(&self.declaring_types),
            generics: clone_string_vec_option(&self.generics),
            is_pointer: false,
        }
    }

    /// Render the structured name as one string.
    pub fn combine_all(&self) -> (r: String)
        ensures
            r@ == combine_all_spec(self@),
    {
        let mut out = String::new();
        match self.namespace {
            Some(ref ns) => {
                out.append(ns.as_str());
                out.append("::");
            },
            None => {},
        }
        match self.declaring_types {
            Some(ref ds) => {
                let joined = join_all_scoped(ds);
                out.append(joined.as_str());
            },
            None => {},
        }
        out.append(self.name.as_str());
        match self.generics {
            Some(ref gs) => {
                out.append("<");
                let joined = join_all_comma(gs);
                out.append(joined.as_str());
                out.append(">");
            },
            None => {},
        }
        if self.is_pointer {
            out.append("*");
        }
        assert(r_matches_combine(out@, self@)) by {
            assert(out@ =~= combine_all_spec(self@));
        }
        out
    }
}

/// Helper goal predicate, kept separate so the extensional-equality step in
/// `combine_all` has a stable shape.
pub open spec fn r_matches_combine(r: Seq<char>, v: NameComponentsView) -> bool {
    r == combine_all_spec(v)
}

impl Clone for NameComponents {
    fn clone(&self) -> (r: Self)
        ensures
            r@ == self@,
    {
        NameComponents {
            name: self.name.clone(),
            namespace: clone_string_option(&self.namespace),
            declaring_types: clone_string_vec_option(&self.declaring_types),
            generics: clone_string_vec_option(&self.generics),
            is_pointer: self.is_pointer,
        }
    }
}

/// Clone an optional string, keeping its character sequence.
pub fn clone_string_option(o: &Option<String>) -> (r: Option<String>)
    ensures
        match *o {
            Some(ref s) => r is Some && r.unwrap()@ == s@,
            None => r is None,
        },
{
    match o {
        Some(s) => Some(s.clone()),
        None => None,
    }
}

/// Clone an optional list of strings, keeping every character sequence.
pub fn clone_string_vec_option(o: &Option<Vec<String>>) -> (r: Option<Vec<String>>)
    ensures
        match *o {
            Some(ref v) => r is Some && r.unwrap().deep_view() == v.deep_view(),
            None => r is None,
        },
{
    match o {
        Some(v) => Some(clone_string_vec(v)),
        None => None,
    }
}

/// Clone a list of strings, keeping every character sequence.
pub fn clone_string_vec(v: &Vec<String>) -> (r: Vec<String>)
    ensures
        r.deep_view() == v.deep_view(),
{
    let mut out: Vec<String> = Vec::new();
    let mut i: usize = 0;
    while i < v.len()
        invariant
            i <= v.len(),
            out@.len() == i,
            forall|j: int| 0 <= j < i ==> out.deep_view()[j] == v.deep_view()[j],
        decreases v.len() - i,
    {
        let ghost prev = out@;
        let s = v[i].clone();
        assert(s@ == v.deep_view()[i as int]);
        out.push(s);
        proof {
            assert forall|j: int| 0 <= j < i + 1 implies out.deep_view()[j]
                == v.deep_view()[j] by {
                assert(out@ == prev.push(s));
                if j < i {
                    assert(out@[j] == prev[j]);
                } else {
                    assert(out@[j] == s);
                }
            }
        }
        i += 1;
    }
    assert(out.deep_view() =~= v.deep_view());
    out
}

/// Join rendered names with `", "`, as `join_comma` describes.
pub fn join_all_comma(parts: &Vec<String>) -> (r: String)
    ensures
        r@ == join_comma(parts.deep_view()),
{
    let mut out = String::new();
    let mut i: usize = 0;
    while i < parts.len()
        invariant
            i <= parts.len(),
            out@ == join_comma(parts.deep_view().take(i as int)),
        decreases parts.len() - i,
    {
        if i > 0 {
            out.append(", ");
        }
        out.append(parts[i].as_str());
        proof {
            let pre = parts.deep_view().take(i as int);
            let post = parts.deep_view().take(i + 1 as int);
            assert(post.drop_last() =~= pre);
            assert(post.last() == parts.deep_view()[i as int]);
            if i == 0 {
                assert(out@ =~= join_comma(post));
            } else {
                assert(out@ =~= join_comma(post));
            }
        }
        i += 1;
    }
    assert(parts.deep_view().take(parts.len() as int) =~= parts.deep_view());
    out
}

/// Join rendered names each followed by `"::"`, as `join_scoped` describes.
pub fn join_all_scoped(parts: &Vec<String>) -> (r: String)
    ensures
        r@ == join_scoped(parts.deep_view()),
{
    let mut out = String::new();
    let mut i: usize = 0;
    while i < parts.len()
        invariant
            i <= parts.len(),
            out@ == join_scoped(parts.deep_view().take(i as int)),
        decreases parts.len() - i,
    {
        out.append(parts[i].as_str());
        out.append("::");
        proof {
            let pre = parts.deep_view().take(i as int);
            let post = parts.deep_view().take(i + 1 as int);
            assert(post.drop_last() =~= pre);
            assert(post.last() == parts.deep_view()[i as int]);
            assert(out@ =~= join_scoped(post));
        }
        i += 1;
    }
    assert(parts.deep_view().take(parts.len() as int) =~= parts.deep_view());
    out
}

} // verus!
