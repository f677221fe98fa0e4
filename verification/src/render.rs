//! The boundary to the outside template renderer. The library builds the
//! rendering context from its own variable values and hands it over; what
//! the renderer produces is treated as an arbitrary outcome — templates
//! may consult functions beyond their input — and every consumer of
//! rendered text takes it as an explicit argument.

use vstd::prelude::*;
use crate::config::vars::{VarEntry, VarMap, VarValue};

verus! {

/// The renderer's error; opaque to the library, carried through for
/// reporting.
#[verifier::external_type_specification]
#[verifier::external_body]
pub struct ExTeraError(tera::Error);

/// A value of the outside renderer's data model; opaque to the library.
#[verifier::external_type_specification]
#[verifier::external_body]
pub struct ExTeraValue(tera::Value);

/// Relies on tera::Value's From conversions: wraps one scalar of the
/// library as one scalar template value of the same kind.
#[verifier::external_body]
fn scalar_value(v: &VarValue) -> tera::Value {
    match v {
        VarValue::Null => tera::Value::from(None::<bool>),
        VarValue::Bool(b) => tera::Value::from(*b),
        VarValue::Int(i) => tera::Value::from(*i),
        VarValue::Str(s) => tera::Value::from(s.as_str()),
    }
}

/// Relies on tera::Value's From conversion for maps: groups named scalars
/// as one table value, keyed by the given names.
#[verifier::external_body]
fn table_value(entries: Vec<(String, tera::Value)>) -> tera::Value {
    let mut m: std::collections::BTreeMap<String, tera::Value> = std::collections::BTreeMap::new();
    for (k, v) in entries {
        m.insert(k, v);
    }
    tera::Value::from(m)
}

/// Convert a context of the library into renderer values, entry by entry,
/// keeping names and order.
pub(crate) fn context_values(ctx: &VarMap) -> (out: Vec<(String, tera::Value)>)
    ensures
        out@.len() == ctx@.len(),
        forall|k: int| 0 <= k < ctx@.len() ==> out@[k].0@ == ctx@[k].0@,
{
    let mut out: Vec<(String, tera::Value)> = Vec::new();
    let mut i: usize = 0;
    while i < ctx.len()
        invariant
            0 <= i <= ctx@.len(),
            out@.len() == i,
            forall|k: int| 0 <= k < i ==> out@[k].0@ == ctx@[k].0@,
        decreases ctx@.len() - i,
    {
        let name = ctx[i].0.clone();
        match &ctx[i].1 {
            VarEntry::Value(v) => {
                out.push((name, scalar_value(v)));
            },
            VarEntry::Table(table) => {
                let mut inner: Vec<(String, tera::Value)> = Vec::new();
                let mut j: usize = 0;
                while j < table.len()
                    invariant
                        0 <= j <= table@.len(),
                    decreases table@.len() - j,
                {
                    inner.push((table[j].0.clone(), scalar_value(&table[j].1)));
                    j += 1;
                }
                out.push((name, table_value(inner)));
            },
        }
        i += 1;
    }
    out
}

/// Relies on Tera::one_off: renders the template text against a context
/// holding exactly the given entries, with auto-escaping off. The output
/// may depend on more than the inputs (templates can call functions of
/// the renderer), so nothing is assumed about it.
#[verifier::external_body]
fn tera_one_off(input: &str, entries: Vec<(String, tera::Value)>) -> Result<String, tera::Error> {
    let mut ctx = tera::Context::new();
    for (k, v) in entries {
        ctx.insert_value(k, v);
    }
    tera::Tera::one_off(input, &ctx, false)
}

/// Render template text against a context of the library. The rendered
/// text is returned for the caller to gate and write; a renderer failure
/// is handed back as it came.
pub(crate) fn render(input: &str, ctx: &VarMap) -> Result<String, tera::Error> {
    let entries = context_values(ctx);
    tera_one_off(input, entries)
}

} // verus!
