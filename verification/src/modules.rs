//! The module resolver: a module is a named, reusable configuration
//! fragment with a declared variable schema, composed by reference with
//! caller-supplied bindings. Validation is strict in both directions —
//! every required variable must be supplied, every supplied variable must
//! be declared — and the first violation aborts, naming the module and
//! the offending variable. Resolution is deliberately uncached: two
//! sibling references to one module re-read and re-validate independently.

use vstd::prelude::*;
use crate::config::Config;
use crate::config::vars::{Bindings, VarEntry, VarMap, binding_present, has_binding};
use crate::render::render;
use crate::result::ApplyError;

verus! {

/// One declared variable of a module's schema.
#[derive(Debug)]
pub struct VarDef {
    pub required: bool,
    pub kind: String,
}

/// A module's own header: its name and its variable schema, in
/// declaration order with each name declared once.
#[derive(Debug)]
pub struct ModuleConfig {
    pub name: String,
    pub vars: Vec<(String, VarDef)>,
}

/// A loaded module document: the header and the configuration it carries.
#[derive(Debug)]
pub struct Module {
    pub module: ModuleConfig,
    pub config: Config,
}

/// Whether the schema declares a variable of the given name.
pub open spec fn has_declaration(decl: Seq<(String, VarDef)>, name: Seq<char>) -> bool {
    exists|k: int| 0 <= k < decl.len() && decl[k].0@ == name
}

/// Every required variable of the schema is supplied.
pub open spec fn all_required_supplied(
    decl: Seq<(String, VarDef)>,
    sup: Seq<(String, crate::config::vars::VarValue)>,
) -> bool {
    forall|k: int|
        0 <= k < decl.len() && decl[k].1.required ==> has_binding(sup, #[trigger] decl[k].0@)
}

/// Every supplied variable is declared by the schema.
pub open spec fn all_supplied_declared(
    decl: Seq<(String, VarDef)>,
    sup: Seq<(String, crate::config::vars::VarValue)>,
) -> bool {
    forall|k: int| 0 <= k < sup.len() ==> has_declaration(decl, #[trigger] sup[k].0@)
}

/// The bindings satisfy the schema: strict in both directions.
pub open spec fn valid_bindings(
    decl: Seq<(String, VarDef)>,
    sup: Seq<(String, crate::config::vars::VarValue)>,
) -> bool {
    all_required_supplied(decl, sup) && all_supplied_declared(decl, sup)
}

/// The first declared variable, from position `i` on, that is required
/// but not supplied; the schema's length when there is none.
pub open spec fn first_missing(
    decl: Seq<(String, VarDef)>,
    sup: Seq<(String, crate::config::vars::VarValue)>,
    i: int,
) -> int
    decreases decl.len() - i,
{
    if i < 0 || i >= decl.len() {
        decl.len() as int
    } else if decl[i].1.required && !has_binding(sup, decl[i].0@) {
        i
    } else {
        first_missing(decl, sup, i + 1)
    }
}

/// The first supplied variable, from position `i` on, that the schema
/// does not declare; the number of bindings when there is none.
pub open spec fn first_unknown(
    decl: Seq<(String, VarDef)>,
    sup: Seq<(String, crate::config::vars::VarValue)>,
    i: int,
) -> int
    decreases sup.len() - i,
{
    if i < 0 || i >= sup.len() {
        sup.len() as int
    } else if !has_declaration(decl, sup[i].0@) {
        i
    } else {
        first_unknown(decl, sup, i + 1)
    }
}

/// The message that names a required variable the caller did not supply.
pub open spec fn spec_missing_var_msg(var: Seq<char>, module: Seq<char>) -> Seq<char> {
    "missing required var "@ + var + " for module "@ + module
}

/// The message that names a supplied variable the schema does not declare.
pub open spec fn spec_unknown_var_msg(var: Seq<char>, module: Seq<char>) -> Seq<char> {
    "unknown var "@ + var + " for module "@ + module
}

fn missing_var_msg(var: &String, module: &String) -> (r: String)
    ensures
        r@ == spec_missing_var_msg(var@, module@),
{
    let mut r = String::from_str("missing required var ");
    r.append(var.as_str());
    r.append(" for module ");
    r.append(module.as_str());
    r
}

fn unknown_var_msg(var: &String, module: &String) -> (r: String)
    ensures
        r@ == spec_unknown_var_msg(var@, module@),
{
    let mut r = String::from_str("unknown var ");
    r.append(var.as_str());
    r.append(" for module ");
    r.append(module.as_str());
    r
}

/// Look a name up among the schema's declarations.
fn declaration_present(decl: &Vec<(String, VarDef)>, name: &String) -> (r: bool)
    ensures
        r == has_declaration(decl@, name@),
{
    let mut k: usize = 0;
    while k < decl.len()
        invariant
            0 <= k <= decl@.len(),
            forall|j: int| 0 <= j < k ==> decl@[j].0@ != name@,
        decreases decl@.len() - k,
    {
        if decl[k].0.eq(name) {
            return true;
        }
        k += 1;
    }
    false
}

impl Module {
    /// Validate caller-supplied bindings against this module's schema.
    /// Succeeds exactly when every required variable is supplied and every
    /// supplied variable is declared. Otherwise the first violation is
    /// reported — missing variables first, in declaration order, then
    /// undeclared ones in supply order — naming the module and the
    /// offending variable.
    pub fn validate(&self, vars: &Bindings) -> (r: Result<(), ApplyError>)
        ensures
            r is Ok <==> valid_bindings(self.module.vars@, vars@),
            !all_required_supplied(self.module.vars@, vars@) ==> {
                let m = first_missing(self.module.vars@, vars@, 0);
                &&& 0 <= m < self.module.vars@.len()
                &&& r matches Err(ApplyError::Custom(msg)) && msg@ == spec_missing_var_msg(
                    self.module.vars@[m].0@,
                    self.module.name@,
                )
            },
            all_required_supplied(self.module.vars@, vars@) && !all_supplied_declared(
                self.module.vars@,
                vars@,
            ) ==> {
                let u = first_unknown(self.module.vars@, vars@, 0);
                &&& 0 <= u < vars@.len()
                &&& r matches Err(ApplyError::Custom(msg)) && msg@ == spec_unknown_var_msg(
                    vars@[u].0@,
                    self.module.name@,
                )
            },
    {
        let decl = &self.module.vars;
        let mut i: usize = 0;
        while i < decl.len()
            invariant
                decl == &self.module.vars,
                0 <= i <= decl@.len(),
                first_missing(decl@, vars@, 0) == first_missing(decl@, vars@, i as int),
                forall|j: int|
                    0 <= j < i && decl@[j].1.required ==> has_binding(vars@, #[trigger] decl@[j].0@),
            decreases decl@.len() - i,
        {
            if decl[i].1.required && !binding_present(vars, &decl[i].0) {
                proof {
                    assert(first_missing(decl@, vars@, i as int) == i as int);
                    assert(!all_required_supplied(decl@, vars@)) by {
                        assert(decl@[i as int].1.required && !has_binding(
                            vars@,
                            decl@[i as int].0@,
                        ));
                    }
                }
                return Err(ApplyError::Custom(missing_var_msg(&decl[i].0, &self.module.name)));
            }
            i += 1;
            proof {
                assert(first_missing(decl@, vars@, i - 1) == first_missing(decl@, vars@, i as int));
            }
        }
        let mut k: usize = 0;
        while k < vars.len()
            invariant
                decl == &self.module.vars,
                0 <= k <= vars@.len(),
                all_required_supplied(decl@, vars@),
                first_missing(decl@, vars@, 0) == decl@.len(),
                first_unknown(decl@, vars@, 0) == first_unknown(decl@, vars@, k as int),
                forall|j: int| 0 <= j < k ==> has_declaration(decl@, #[trigger] vars@[j].0@),
            decreases vars@.len() - k,
        {
            if !declaration_present(decl, &vars[k].0) {
                proof {
                    assert(first_unknown(decl@, vars@, k as int) == k as int);
                    assert(!all_supplied_declared(decl@, vars@)) by {
                        assert(!has_declaration(decl@, vars@[k as int].0@));
                    }
                }
                return Err(ApplyError::Custom(unknown_var_msg(&vars[k].0, &self.module.name)));
            }
            k += 1;
            proof {
                assert(first_unknown(decl@, vars@, k - 1) == first_unknown(decl@, vars@, k as int));
            }
        }
        Ok(())
    }
}

/// The fixed default root under which module documents are looked up.
pub fn default_modules_root() -> (r: String)
    ensures
        r@ == "/usr/share/compute/modules"@,
{
    String::from_str("/usr/share/compute/modules")
}

/// The path of a module's document under the modules root.
pub open spec fn spec_module_document_path(root: Seq<char>, name: Seq<char>) -> Seq<char> {
    root + "/"@ + name + ".json5"@
}

/// Where a module's document is looked up: `<root>/<name>.json5`.
pub fn module_document_path(root: &str, name: &str) -> (r: String)
    ensures
        r@ == spec_module_document_path(root@, name@),
{
    let mut r = String::from_str(root);
    r.append("/");
    r.append(name);
    r.append(".json5");
    r
}

/// The error reported when a module's document is absent.
pub fn module_not_found_error(name: &str) -> (r: ApplyError)
    ensures
        r matches ApplyError::Custom(msg) && msg@ == "failed to load module "@ + name@,
{
    let mut msg = String::from_str("failed to load module ");
    msg.append(name);
    ApplyError::Custom(msg)
}

/// The rendering context of a module document: the caller's bindings are
/// exposed to the document under the single reserved key `vars`, so they
/// can never collide with the module's own template context.
pub fn module_document_context(vars: Bindings) -> (r: VarMap)
    ensures
        r@.len() == 1,
        r@[0].0@ == "vars"@,
        r@[0].1 == VarEntry::Table(vars),
{
    let mut r: VarMap = Vec::new();
    r.push((String::from_str("vars"), VarEntry::Table(vars)));
    r
}

/// Render a module's document against its caller's bindings, exposed
/// under the reserved `vars` key. A renderer failure is reported against
/// `<name>.json5`; the rendered text is returned for the caller to parse
/// into a `Module` and validate.
pub fn render_module_document(name: &str, contents: &str, vars: Bindings) -> (r: Result<
    String,
    ApplyError,
>)
    ensures
        r matches Err(e) ==> e matches ApplyError::TeraTemplateError((n, _)) && n@ == name@
            + ".json5"@,
{
    let ctx = module_document_context(vars);
    match render(contents, &ctx) {
        Ok(rendered) => Ok(rendered),
        Err(e) => {
            let mut doc = String::from_str(name);
            doc.append(".json5");
            Err(ApplyError::from_template_err(doc, e))
        },
    }
}

} // verus!
