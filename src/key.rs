use vstd::prelude::*;

verus! {

/// A composite identity: a type descriptor and a name.
///
/// Two keys are equal exactly when both parts are equal, so one name can be
/// reused by unrelated types without collision.
#[derive(Clone, Debug, Eq, Hash)]
pub struct TypedKey {
    pub tid: u64,
    pub name: String,
}

/// The mathematical value of a key: its type descriptor and its name.
pub type KeyView = (u64, Seq<char>);

impl View for TypedKey {
    type V = KeyView;

    open spec fn view(&self) -> KeyView {
        (self.tid, self.name@)
    }
}

impl TypedKey {
    /// The key of type descriptor `tid` and name `name`.
    pub fn new(tid: u64, name: &str) -> (r: TypedKey)
        ensures
            r@ == (tid, name@),
    {
        TypedKey { tid, name: name.to_owned() }
    }

    /// Whether both keys have the same type descriptor and name.
    pub fn same(&self, other: &TypedKey) -> (r: bool)
        ensures
            r == (self@ == other@),
    {
        self.tid == other.tid && self.name == other.name
    }

    /// A second key equal to this one.
    pub fn duplicate(&self) -> (r: TypedKey)
        ensures
            r@ == self@,
    {
        TypedKey { tid: self.tid, name: self.name.clone() }
    }
}

impl PartialEq for TypedKey {
    fn eq(&self, other: &TypedKey) -> (r: bool) {
        self.same(other)
    }
}

impl vstd::std_specs::cmp::PartialEqSpecImpl for TypedKey {
    open spec fn obeys_eq_spec() -> bool {
        true
    }

    open spec fn eq_spec(&self, other: &TypedKey) -> bool {
        self@ == other@
    }
}

} // verus!
