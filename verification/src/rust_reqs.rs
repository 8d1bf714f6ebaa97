use vstd::prelude::*;
use vstd::string::StringExecFns;
use crate::resolver::names_has;

verus! {

/// Visibility of one emitted item.
#[derive(Clone, Copy, Debug, PartialEq, Eq, Structural)]
pub enum Visibility {
    Public,
    PublicCrate,
    Private,
}

impl Visibility {
    /// The keyword text of the visibility.
    pub fn to_string(&self) -> (r: String)
        ensures
            *self == Visibility::Public ==> r@ == "pub"@,
            *self == Visibility::PublicCrate ==> r@ == "pub(crate)"@,
            *self == Visibility::Private ==> r@ == ""@,
    {
        match self {
            Visibility::Public => String::from_str("pub"),
            Visibility::PublicCrate => String::from_str("pub(crate)"),
            Visibility::Private => String::from_str(""),
        }
    }
}

/// Per-type accumulator of the module paths an emitted type needs brought
/// into scope, duplicate-free.
pub struct RustTypeRequirements {
    pub required_modules: Vec<String>,
}

impl RustTypeRequirements {
    /// No module path recorded twice.
    pub open spec fn wf(&self) -> bool {
        forall|i: int, j: int|
            0 <= i < j < self.required_modules@.len() ==> (#[trigger] self.required_modules@[i])@
                != (#[trigger] self.required_modules@[j])@
    }

    /// An empty accumulator.
    pub fn new() -> (r: RustTypeRequirements)
        ensures
            r.wf(),
            r.required_modules@.len() == 0,
    {
        RustTypeRequirements { required_modules: Vec::new() }
    }

    /// Record one needed module path. Recording a path already present
    /// changes nothing.
    pub fn add_module(&mut self, module: &str)
        requires
            old(self).wf(),
        ensures
            final(self).wf(),
            names_has(final(self).required_modules@, module@),
            forall|x: Seq<char>|
                #[trigger] names_has(final(self).required_modules@, x) <==> (names_has(
                    old(self).required_modules@,
                    x,
                ) || x == module@),
    {
        let ghost pre = self.required_modules@;
        let mut i: usize = 0;
        #[verifier::loop_isolation(false)]
        while i < self.required_modules.len()
            invariant
                i <= self.required_modules@.len(),
                *self == *old(self),
                forall|j: int| 0 <= j < i ==> (#[trigger] self.required_modules@[j])@ != module@,
            decreases self.required_modules.len() - i,
        {
            let m = &self.required_modules[i];
            if str_eq(m.as_str(), module) {
                proof {
                    assert(names_has(self.required_modules@, module@));
                    lemma_names_grown_same(self.required_modules@, module@);
                }
                return ;
            }
            i += 1;
        }
        let owned = module.to_owned();
        self.required_modules.push(owned);
        proof {
            assert(self.required_modules@.subrange(0, pre.len() as int) =~= pre);
            assert(self.required_modules@.last()@ == module@);
            lemma_names_grown_push(pre, self.required_modules@, module@);
        }
    }

    /// Record that an emitted type needs the shared object wrapper.
    pub fn needs_object_include(&mut self)
        requires
            old(self).wf(),
        ensures
            final(self).wf(),
            names_has(final(self).required_modules@, "quest_hook::libil2cpp::Il2CppObject"@),
    {
        self.add_module("quest_hook::libil2cpp::Il2CppObject");
    }

    /// Record that an emitted type needs the shared array wrapper.
    pub fn needs_array_include(&mut self)
        requires
            old(self).wf(),
        ensures
            final(self).wf(),
            names_has(final(self).required_modules@, "quest_hook::libil2cpp::Il2CppArray"@),
    {
        self.add_module("quest_hook::libil2cpp::Il2CppArray");
    }

    /// Record that an emitted type needs the shared string wrapper.
    pub fn needs_string_include(&mut self)
        requires
            old(self).wf(),
        ensures
            final(self).wf(),
            names_has(final(self).required_modules@, "quest_hook::libil2cpp::Il2CppString"@),
    {
        self.add_module("quest_hook::libil2cpp::Il2CppString");
    }

    /// By-reference uses need no module on this side; kept for symmetry with
    /// the other requirement shorthands.
    pub fn needs_byref_include(&mut self)
        requires
            old(self).wf(),
        ensures
            final(self).wf(),
            *final(self) == *old(self),
    {
    }

    /// Input-only by-reference uses need no module on this side either.
    pub fn needs_byref_const_include(&mut self)
        requires
            old(self).wf(),
        ensures
            final(self).wf(),
            *final(self) == *old(self),
    {
    }

    /// The recorded module paths.
    pub fn get_modules(&self) -> (r: &Vec<String>)
        ensures
            r@ == self.required_modules@,
    {
        &self.required_modules
    }
}

/// Character-for-character equality of two string slices.
fn str_eq(a: &str, b: &str) -> (r: bool)
    ensures
        r == (a@ == b@),
{
    let sa = a.to_owned();
    let sb = b.to_owned();
    sa.eq(&sb)
}

/// Recording a present path leaves the recorded-path set unchanged.
proof fn lemma_names_grown_same(s: Seq<String>, x: Seq<char>)
    requires
        names_has(s, x),
    ensures
        forall|y: Seq<char>| #[trigger] names_has(s, y) <==> (names_has(s, y) || y == x),
{
}

/// Appending one path grows the recorded-path set by exactly that path.
proof fn lemma_names_grown_push(pre: Seq<String>, post: Seq<String>, x: Seq<char>)
    requires
        post.len() == pre.len() + 1,
        post.subrange(0, pre.len() as int) == pre,
        post.last()@ == x,
    ensures
        forall|y: Seq<char>| #[trigger] names_has(post, y) <==> (names_has(pre, y) || y == x),
{
    assert forall|y: Seq<char>| #[trigger] names_has(post, y) implies (names_has(pre, y) || y
        == x) by {
        let i = choose|i: int| 0 <= i < post.len() && (#[trigger] post[i])@ == y;
        if i < pre.len() {
            assert(pre[i] == post.subrange(0, pre.len() as int)[i]);
            assert(pre[i]@ == y);
        }
    }
    assert forall|y: Seq<char>| (names_has(pre, y) || y == x) implies #[trigger] names_has(
        post,
        y,
    ) by {
        if names_has(pre, y) {
            let i = choose|i: int| 0 <= i < pre.len() && (#[trigger] pre[i])@ == y;
            assert(post.subrange(0, pre.len() as int)[i] == pre[i]);
            assert(post[i]@ == y);
        } else {
            assert(post[post.len() - 1]@ == y);
        }
    }
}

} // verus!
