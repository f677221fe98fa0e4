//! Template variables: the values a caller binds to a module and the
//! contexts templates are rendered against. Bindings are threaded down the
//! module tree by copy, never mutated in place.

use vstd::prelude::*;

verus! {

/// A scalar variable value, as a configuration document can carry it.
#[derive(Debug, Clone, PartialEq)]
pub enum VarValue {
    Null,
    Bool(bool),
    Int(i64),
    Str(String),
}

/// One entry of a template context: either a scalar, or a table of
/// scalars (a module's caller-supplied bindings grouped under one key).
#[derive(Debug, Clone, PartialEq)]
pub enum VarEntry {
    Value(VarValue),
    Table(Vec<(String, VarValue)>),
}

/// The bindings a caller supplies when it references a module.
pub type Bindings = Vec<(String, VarValue)>;

/// A template rendering context: named entries, in declaration order.
pub type VarMap = Vec<(String, VarEntry)>;

/// Whether the supplied bindings contain a variable of the given name.
pub open spec fn has_binding(bindings: Seq<(String, VarValue)>, name: Seq<char>) -> bool {
    exists|k: int| 0 <= k < bindings.len() && bindings[k].0@ == name
}

/// Look a name up among supplied bindings.
pub fn binding_present(bindings: &Bindings, name: &String) -> (r: bool)
    ensures
        r == has_binding(bindings@, name@),
{
    let mut k: usize = 0;
    while k < bindings.len()
        invariant
            0 <= k <= bindings@.len(),
            forall|j: int| 0 <= j < k ==> bindings@[j].0@ != name@,
        decreases bindings@.len() - k,
    {
        if bindings[k].0.eq(name) {
            return true;
        }
        k += 1;
    }
    false
}

} // verus!
