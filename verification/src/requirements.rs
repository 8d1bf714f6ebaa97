use vstd::prelude::*;
use vstd::string::StringExecFns;
use crate::cpp_members::CppForwardDeclare;
use crate::cpp_members::CppForwardDeclareView;
use crate::cpp_members::CppInclude;
use crate::cpp_members::CppIncludeView;
use crate::cpp_members::forward_declare_eq;
use crate::cpp_members::include_eq;
use crate::tags::CsTypeTag;

verus! {

/// Whether some element of `s` has the view `x`.
pub open spec fn include_in(s: Seq<CppInclude>, x: CppIncludeView) -> bool {
    exists|i: int| 0 <= i < s.len() && (#[trigger] s[i])@ == x
}

/// Whether some pair of `s` has the views `x`.
pub open spec fn fwd_in(
    s: Seq<(CppForwardDeclare, CppInclude)>,
    x: (CppForwardDeclareView, CppIncludeView),
) -> bool {
    exists|i: int| 0 <= i < s.len() && ((#[trigger] s[i]).0@, s[i].1@) == x
}

/// No two elements of `s` share a view.
pub open spec fn includes_unique(s: Seq<CppInclude>) -> bool {
    forall|i: int, j: int| 0 <= i < j < s.len() ==> (#[trigger] s[i])@ != (#[trigger] s[j])@
}

/// No two pairs of `s` share their views.
pub open spec fn fwds_unique(s: Seq<(CppForwardDeclare, CppInclude)>) -> bool {
    forall|i: int, j: int|
        0 <= i < j < s.len() ==> ((#[trigger] s[i]).0@, s[i].1@) != ((#[trigger] s[j]).0@, s[j].1@)
}

/// No tag occurs twice in `s`.
pub open spec fn tags_unique(s: Seq<CsTypeTag>) -> bool {
    forall|i: int, j: int| 0 <= i < j < s.len() ==> s[i] != s[j]
}

/// Find whether an include with this view is already recorded.
fn contains_include(v: &Vec<CppInclude>, x: &CppInclude) -> (r: bool)
    ensures
        r == include_in(v@, x@),
{
    let mut i: usize = 0;
    while i < v.len()
        invariant
            i <= v.len(),
            forall|j: int| 0 <= j < i ==> (#[trigger] v@[j])@ != x@,
        decreases v.len() - i,
    {
        if include_eq(&v[i], x) {
            return true;
        }
        i += 1;
    }
    false
}

/// Find whether a forward-declaration pair with these views is recorded.
fn contains_fwd(
    v: &Vec<(CppForwardDeclare, CppInclude)>,
    x: &(CppForwardDeclare, CppInclude),
) -> (r: bool)
    ensures
        r == fwd_in(v@, (x.0@, x.1@)),
{
    let mut i: usize = 0;
    while i < v.len()
        invariant
            i <= v.len(),
            forall|j: int| 0 <= j < i ==> ((#[trigger] v@[j]).0@, v@[j].1@) != (x.0@, x.1@),
        decreases v.len() - i,
    {
        if forward_declare_eq(&v[i].0, &x.0) && include_eq(&v[i].1, &x.1) {
            return true;
        }
        i += 1;
    }
    false
}

/// Find whether a tag is already recorded.
fn contains_tag(v: &Vec<CsTypeTag>, x: CsTypeTag) -> (r: bool)
    ensures
        r == v@.contains(x),
{
    let mut i: usize = 0;
    while i < v.len()
        invariant
            i <= v.len(),
            forall|j: int| 0 <= j < i ==> v@[j] != x,
        decreases v.len() - i,
    {
        if v[i] == x {
            return true;
        }
        i += 1;
    }
    false
}

/// Per-type accumulator of emission requirements: forward declarations,
/// definition and implementation includes, and the set of type identities the
/// type depends on. Every list is duplicate-free; recording the same
/// requirement twice leaves the accumulator unchanged.
pub struct CppTypeRequirements {
    pub forward_declares: Vec<(CppForwardDeclare, CppInclude)>,
    pub required_def_includes: Vec<CppInclude>,
    pub required_impl_includes: Vec<CppInclude>,
    pub depending_types: Vec<CsTypeTag>,
}

impl CppTypeRequirements {
    /// All lists duplicate-free.
    pub open spec fn wf(&self) -> bool {
        &&& fwds_unique(self.forward_declares@)
        &&& includes_unique(self.required_def_includes@)
        &&& includes_unique(self.required_impl_includes@)
        &&& tags_unique(self.depending_types@)
    }

    /// The recorded dependency identities, as a set.
    pub open spec fn deps(&self) -> Set<CsTypeTag> {
        self.depending_types@.to_set()
    }

    /// An empty accumulator.
    pub fn new() -> (r: CppTypeRequirements)
        ensures
            r.wf(),
            r.forward_declares@.len() == 0,
            r.required_def_includes@.len() == 0,
            r.required_impl_includes@.len() == 0,
            r.depending_types@.len() == 0,
    {
        CppTypeRequirements {
            forward_declares: Vec::new(),
            required_def_includes: Vec::new(),
            required_impl_includes: Vec::new(),
            depending_types: Vec::new(),
        }
    }

    /// Record a forward declaration with the include where the full
    /// definition can later be found. Recording a pair already present
    /// changes nothing.
    pub fn add_forward_declare(&mut self, cpp_data: (CppForwardDeclare, CppInclude))
        requires
            old(self).wf(),
        ensures
            final(self).wf(),
            final(self).forward_declares@ == if fwd_in(
                old(self).forward_declares@,
                (cpp_data.0@, cpp_data.1@),
            ) {
                old(self).forward_declares@
            } else {
                old(self).forward_declares@.push(cpp_data)
            },
            final(self).required_def_includes@ == old(self).required_def_includes@,
            final(self).required_impl_includes@ == old(self).required_impl_includes@,
            final(self).depending_types@ == old(self).depending_types@,
    {
        if !contains_fwd(&self.forward_declares, &cpp_data) {
            self.forward_declares.push(cpp_data);
        }
    }

    /// Record that this type's definition needs the given include, and a
    /// dependency on the included type when its identity is known.
    pub fn add_def_include(&mut self, dep_tag: Option<CsTypeTag>, cpp_include: CppInclude)
        requires
            old(self).wf(),
        ensures
            final(self).wf(),
            final(self).required_def_includes@ == if include_in(
                old(self).required_def_includes@,
                cpp_include@,
            ) {
                old(self).required_def_includes@
            } else {
                old(self).required_def_includes@.push(cpp_include)
            },
            final(self).depending_types@ == match dep_tag {
                Some(tag) => if old(self).depending_types@.contains(tag) {
                    old(self).depending_types@
                } else {
                    old(self).depending_types@.push(tag)
                },
                None => old(self).depending_types@,
            },
            final(self).forward_declares@ == old(self).forward_declares@,
            final(self).required_impl_includes@ == old(self).required_impl_includes@,
    {
        match dep_tag {
            Some(tag) => {
                if !contains_tag(&self.depending_types, tag) {
                    self.depending_types.push(tag);
                }
            },
            None => {},
        }
        if !contains_include(&self.required_def_includes, &cpp_include) {
            self.required_def_includes.push(cpp_include);
        }
    }

    /// Record that this type's implementation needs the given include, and a
    /// dependency on the included type when its identity is known.
    pub fn add_impl_include(&mut self, dep_tag: Option<CsTypeTag>, cpp_include: CppInclude)
        requires
            old(self).wf(),
        ensures
            final(self).wf(),
            final(self).required_impl_includes@ == if include_in(
                old(self).required_impl_includes@,
                cpp_include@,
            ) {
                old(self).required_impl_includes@
            } else {
                old(self).required_impl_includes@.push(cpp_include)
            },
            final(self).depending_types@ == match dep_tag {
                Some(tag) => if old(self).depending_types@.contains(tag) {
                    old(self).depending_types@
                } else {
                    old(self).depending_types@.push(tag)
                },
                None => old(self).depending_types@,
            },
            final(self).forward_declares@ == old(self).forward_declares@,
            final(self).required_def_includes@ == old(self).required_def_includes@,
    {
        match dep_tag {
            Some(tag) => {
                if !contains_tag(&self.depending_types, tag) {
                    self.depending_types.push(tag);
                }
            },
            None => {},
        }
        if !contains_include(&self.required_impl_includes, &cpp_include) {
            self.required_impl_includes.push(cpp_include);
        }
    }

    /// Record a dependency on a type identity. Recording a tag already
    /// present changes nothing.
    pub fn add_dependency_tag(&mut self, tag: CsTypeTag)
        requires
            old(self).wf(),
        ensures
            final(self).wf(),
            final(self).depending_types@ == if old(self).depending_types@.contains(tag) {
                old(self).depending_types@
            } else {
                old(self).depending_types@.push(tag)
            },
            final(self).deps() == old(self).deps().insert(tag),
            final(self).forward_declares@ == old(self).forward_declares@,
            final(self).required_def_includes@ == old(self).required_def_includes@,
            final(self).required_impl_includes@ == old(self).required_impl_includes@,
    {
        if !contains_tag(&self.depending_types, tag) {
            self.depending_types.push(tag);
            proof {
                assert(self.depending_types@.drop_last() == old(self).depending_types@);
                assert(self.depending_types@.to_set() =~= old(self).depending_types@.to_set()
                    .insert(tag)) by {
                    let post = self.depending_types@;
                    let pre = old(self).depending_types@;
                    assert forall|t: CsTypeTag| post.to_set().contains(t) implies pre.to_set()
                        .insert(tag).contains(t) by {
                        let i = choose|i: int| 0 <= i < post.len() && post[i] == t;
                        if i < pre.len() {
                            assert(pre.contains(t));
                        }
                    }
                    assert forall|t: CsTypeTag| pre.to_set().insert(tag).contains(t) implies post
                        .to_set().contains(t) by {
                        if t == tag {
                            assert(post[post.len() - 1] == tag);
                            assert(post.contains(t));
                        } else {
                            let i = choose|i: int| 0 <= i < pre.len() && pre[i] == t;
                            assert(post[i] == t);
                            assert(post.contains(t));
                        }
                    }
                }
            }
        } else {
            proof {
                assert(self.depending_types@.to_set() =~= self.depending_types@.to_set().insert(
                    tag,
                )) by {
                    assert(self.depending_types@.to_set().contains(tag));
                }
            }
        }
    }

    /// Record that the type's definition needs exactly one more include (by
    /// value), everything else unchanged: the stated relation of this type's
    /// `needs`-family of requirement shorthands.
    pub open spec fn def_includes_grown_by(
        &self,
        pre: CppTypeRequirements,
        x: CppIncludeView,
    ) -> bool {
        &&& forall|y: CppIncludeView|
            #[trigger] include_in(self.required_def_includes@, y) <==> (include_in(
                pre.required_def_includes@,
                y,
            ) || y == x)
        &&& pre.required_def_includes@.is_prefix_of(self.required_def_includes@)
        &&& self.depending_types@ == pre.depending_types@
        &&& self.forward_declares@ == pre.forward_declares@
        &&& self.required_impl_includes@ == pre.required_impl_includes@
    }

    /// Record that this type needs the shared object-wrapper base header.
    pub fn need_wrapper(&mut self)
        requires
            old(self).wf(),
        ensures
            final(self).wf(),
            final(self).def_includes_grown_by(
                *old(self),
                inc_view("beatsaber-hook/shared/utils/base-wrapper-type.hpp"@, false),
            ),
    {
        let inc = CppInclude::new(
            String::from_str("beatsaber-hook/shared/utils/base-wrapper-type.hpp"),
        );
        let ghost pre = *self;
        let ghost e = inc;
        self.add_def_include(None, inc);
        proof {
            if !include_in(pre.required_def_includes@, e@) {
                lemma_include_grown(pre.required_def_includes@, e);
            }
            lemma_prefix_of_push_or_same(
                pre.required_def_includes@,
                self.required_def_includes@,
                e,
            );
        }
    }

    /// Record that this type needs the fixed-width integer header.
    pub fn needs_int_include(&mut self)
        requires
            old(self).wf(),
        ensures
            final(self).wf(),
            final(self).def_includes_grown_by(*old(self), inc_view("cstdint"@, true)),
    {
        let inc = CppInclude::new_system(String::from_str("cstdint"));
        let ghost pre = *self;
        let ghost e = inc;
        self.add_def_include(None, inc);
        proof {
            if !include_in(pre.required_def_includes@, e@) {
                lemma_include_grown(pre.required_def_includes@, e);
            }
            lemma_prefix_of_push_or_same(
                pre.required_def_includes@,
                self.required_def_includes@,
                e,
            );
        }
    }

    /// Record that this type needs the byte-definitions header.
    pub fn needs_byte_include(&mut self)
        requires
            old(self).wf(),
        ensures
            final(self).wf(),
            final(self).def_includes_grown_by(*old(self), inc_view("cstddef"@, true)),
    {
        let inc = CppInclude::new_system(String::from_str("cstddef"));
        let ghost pre = *self;
        let ghost e = inc;
        self.add_def_include(None, inc);
        proof {
            if !include_in(pre.required_def_includes@, e@) {
                lemma_include_grown(pre.required_def_includes@, e);
            }
            lemma_prefix_of_push_or_same(
                pre.required_def_includes@,
                self.required_def_includes@,
                e,
            );
        }
    }

    /// Record that this type needs the mathematics header.
    pub fn needs_math_include(&mut self)
        requires
            old(self).wf(),
        ensures
            final(self).wf(),
            final(self).def_includes_grown_by(*old(self), inc_view("cmath"@, true)),
    {
        let inc = CppInclude::new_system(String::from_str("cmath"));
        let ghost pre = *self;
        let ghost e = inc;
        self.add_def_include(None, inc);
        proof {
            if !include_in(pre.required_def_includes@, e@) {
                lemma_include_grown(pre.required_def_includes@, e);
            }
            lemma_prefix_of_push_or_same(
                pre.required_def_includes@,
                self.required_def_includes@,
                e,
            );
        }
    }

    /// Record that this type needs the managed-string wrapper header.
    pub fn needs_stringw_include(&mut self)
        requires
            old(self).wf(),
        ensures
            final(self).wf(),
            final(self).def_includes_grown_by(
                *old(self),
                inc_view("beatsaber-hook/shared/utils/typedefs-string.hpp"@, false),
            ),
    {
        let inc = CppInclude::new(
            String::from_str("beatsaber-hook/shared/utils/typedefs-string.hpp"),
        );
        let ghost pre = *self;
        let ghost e = inc;
        self.add_def_include(None, inc);
        proof {
            if !include_in(pre.required_def_includes@, e@) {
                lemma_include_grown(pre.required_def_includes@, e);
            }
            lemma_prefix_of_push_or_same(
                pre.required_def_includes@,
                self.required_def_includes@,
                e,
            );
        }
    }

    /// Record that this type needs the managed-array wrapper header.
    pub fn needs_arrayw_include(&mut self)
        requires
            old(self).wf(),
        ensures
            final(self).wf(),
            final(self).def_includes_grown_by(
                *old(self),
                inc_view("beatsaber-hook/shared/utils/typedefs-array.hpp"@, false),
            ),
    {
        let inc = CppInclude::new(
            String::from_str("beatsaber-hook/shared/utils/typedefs-array.hpp"),
        );
        let ghost pre = *self;
        let ghost e = inc;
        self.add_def_include(None, inc);
        proof {
            if !include_in(pre.required_def_includes@, e@) {
                lemma_include_grown(pre.required_def_includes@, e);
            }
            lemma_prefix_of_push_or_same(
                pre.required_def_includes@,
                self.required_def_includes@,
                e,
            );
        }
    }

    /// Record that this type needs the by-reference wrapper header.
    pub fn needs_byref_include(&mut self)
        requires
            old(self).wf(),
        ensures
            final(self).wf(),
            final(self).def_includes_grown_by(
                *old(self),
                inc_view("beatsaber-hook/shared/utils/byref.hpp"@, false),
            ),
    {
        let inc = CppInclude::new(String::from_str("beatsaber-hook/shared/utils/byref.hpp"));
        let ghost pre = *self;
        let ghost e = inc;
        self.add_def_include(None, inc);
        proof {
            if !include_in(pre.required_def_includes@, e@) {
                lemma_include_grown(pre.required_def_includes@, e);
            }
            lemma_prefix_of_push_or_same(
                pre.required_def_includes@,
                self.required_def_includes@,
                e,
            );
        }
    }

    /// Record that this type needs the enum wrapper header.
    pub fn needs_enum_include(&mut self)
        requires
            old(self).wf(),
        ensures
            final(self).wf(),
            final(self).def_includes_grown_by(
                *old(self),
                inc_view("beatsaber-hook/shared/utils/enum-type.hpp"@, false),
            ),
    {
        let inc = CppInclude::new(String::from_str("beatsaber-hook/shared/utils/enum-type.hpp"));
        let ghost pre = *self;
        let ghost e = inc;
        self.add_def_include(None, inc);
        proof {
            if !include_in(pre.required_def_includes@, e@) {
                lemma_include_grown(pre.required_def_includes@, e);
            }
            lemma_prefix_of_push_or_same(
                pre.required_def_includes@,
                self.required_def_includes@,
                e,
            );
        }
    }

    /// Record that this type needs the value-type wrapper header.
    pub fn needs_value_include(&mut self)
        requires
            old(self).wf(),
        ensures
            final(self).wf(),
            final(self).def_includes_grown_by(
                *old(self),
                inc_view("beatsaber-hook/shared/utils/value-type.hpp"@, false),
            ),
    {
        let inc = CppInclude::new(String::from_str("beatsaber-hook/shared/utils/value-type.hpp"));
        let ghost pre = *self;
        let ghost e = inc;
        self.add_def_include(None, inc);
        proof {
            if !include_in(pre.required_def_includes@, e@) {
                lemma_include_grown(pre.required_def_includes@, e);
            }
            lemma_prefix_of_push_or_same(
                pre.required_def_includes@,
                self.required_def_includes@,
                e,
            );
        }
    }
}

/// An include view from its parts.
pub open spec fn inc_view(path: Seq<char>, system: bool) -> CppIncludeView {
    CppIncludeView { path, system }
}

/// Pushing one include onto a list grows the set of recorded include views
/// by exactly that include's view.
proof fn lemma_include_grown(pre: Seq<CppInclude>, e: CppInclude)
    ensures
        forall|y: CppIncludeView|
            #[trigger] include_in(pre.push(e), y) <==> (include_in(pre, y) || e@ == y),
{
    assert forall|y: CppIncludeView| #[trigger]
        include_in(pre.push(e), y) implies (include_in(pre, y) || e@ == y) by {
        let i = choose|i: int| 0 <= i < pre.push(e).len() && (pre.push(e)[i])@ == y;
        if i < pre.len() {
            assert(pre[i]@ == y);
        } else {
            assert(pre.push(e)[i] == e);
        }
    }
    assert forall|y: CppIncludeView| (include_in(pre, y) || e@ == y) implies #[trigger]
        include_in(pre.push(e), y) by {
        if include_in(pre, y) {
            let i = choose|i: int| 0 <= i < pre.len() && (pre[i])@ == y;
            assert(pre.push(e)[i]@ == y);
        } else {
            assert(pre.push(e)[pre.len() as int]@ == y);
        }
    }
}


/// A list is a prefix of itself and of itself with one element appended.
proof fn lemma_prefix_of_push_or_same(pre: Seq<CppInclude>, post: Seq<CppInclude>, e: CppInclude)
    requires
        post == pre || post == pre.push(e),
    ensures
        pre.is_prefix_of(post),
{
    assert(pre =~= post.subrange(0, pre.len() as int));
}


impl Clone for CppTypeRequirements {
    /// Clone the accumulator. Dependency tags are copied exactly; the other
    /// lists keep their views, so well-formedness carries over.
    fn clone(&self) -> (r: Self)
        ensures
            r.depending_types@ == self.depending_types@,
            r.forward_declares@.len() == self.forward_declares@.len(),
            forall|i: int|
                0 <= i < self.forward_declares@.len() ==> ((#[trigger] r.forward_declares@[i]).0@,
                r.forward_declares@[i].1@) == (self.forward_declares@[i].0@,
                self.forward_declares@[i].1@),
            r.required_def_includes@.len() == self.required_def_includes@.len(),
            forall|i: int|
                0 <= i < self.required_def_includes@.len() ==> (
                #[trigger] r.required_def_includes@[i])@ == self.required_def_includes@[i]@,
            r.required_impl_includes@.len() == self.required_impl_includes@.len(),
            forall|i: int|
                0 <= i < self.required_impl_includes@.len() ==> (
                #[trigger] r.required_impl_includes@[i])@ == self.required_impl_includes@[i]@,
            self.wf() ==> r.wf(),
    {
        let mut fwds: Vec<(CppForwardDeclare, CppInclude)> = Vec::new();
        let mut i: usize = 0;
        while i < self.forward_declares.len()
            invariant
                i <= self.forward_declares.len(),
                fwds@.len() == i,
                forall|j: int|
                    0 <= j < i ==> ((#[trigger] fwds@[j]).0@, fwds@[j].1@) == (
                    self.forward_declares@[j].0@, self.forward_declares@[j].1@),
            decreases self.forward_declares.len() - i,
        {
            fwds.push((self.forward_declares[i].0.clone(), self.forward_declares[i].1.clone()));
            i += 1;
        }
        let mut defs: Vec<CppInclude> = Vec::new();
        let mut j: usize = 0;
        while j < self.required_def_includes.len()
            invariant
                j <= self.required_def_includes.len(),
                defs@.len() == j,
                forall|k: int|
                    0 <= k < j ==> (#[trigger] defs@[k])@ == self.required_def_includes@[k]@,
            decreases self.required_def_includes.len() - j,
        {
            defs.push(self.required_def_includes[j].clone());
            j += 1;
        }
        let mut impls: Vec<CppInclude> = Vec::new();
        let mut k: usize = 0;
        while k < self.required_impl_includes.len()
            invariant
                k <= self.required_impl_includes.len(),
                impls@.len() == k,
                forall|w: int|
                    0 <= w < k ==> (#[trigger] impls@[w])@ == self.required_impl_includes@[w]@,
            decreases self.required_impl_includes.len() - k,
        {
            impls.push(self.required_impl_includes[k].clone());
            k += 1;
        }
        let mut tags: Vec<CsTypeTag> = Vec::new();
        let mut w: usize = 0;
        while w < self.depending_types.len()
            invariant
                w <= self.depending_types.len(),
                tags@ == self.depending_types@.take(w as int),
            decreases self.depending_types.len() - w,
        {
            tags.push(self.depending_types[w]);
            assert(tags@ =~= self.depending_types@.take(w + 1));
            w += 1;
        }
        assert(self.depending_types@.take(self.depending_types@.len() as int)
            =~= self.depending_types@);
        CppTypeRequirements {
            forward_declares: fwds,
            required_def_includes: defs,
            required_impl_includes: impls,
            depending_types: tags,
        }
    }
}

} // verus!
