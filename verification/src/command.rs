//! The command transform: turns an annotated asynchronous function into a
//! plain function that begins the deferred work and returns a boxed,
//! pinned handle whose completion yields an optional message.
//!
//! The annotated function must be asynchronous, and its parameters must
//! be simple bindings; anything else aborts the transform with a
//! diagnostic.

use vstd::prelude::*;
use vstd::string::StringExecFns;

verus! {

/// One parameter of an annotated command function.
pub enum CmdParam {
    /// A simple binding, `name: type`.
    Ident { name: String, ty: String },
    /// A destructuring pattern; unsupported.
    Destructured,
    /// A `self` receiver; unsupported.
    Receiver,
}

/// An annotated command function, as the transform sees it.
pub struct CmdFn {
    pub name: String,
    pub is_async: bool,
    pub params: Vec<CmdParam>,
}

/// The generated wrapper: the annotated function is renamed with a
/// suffix, and a public function of the original name passes the
/// arguments through to it and returns the handle to the deferred work.
pub struct CmdExpansion {
    pub public_name: String,
    pub future_name: String,
    pub args: Vec<String>,
}

/// Why the command transform was aborted.
#[derive(Debug)]
pub enum CmdError {
    /// The annotated function is not asynchronous.
    NotAsync,
    /// A parameter is not a simple binding.
    UnsupportedPattern,
}

/// Every parameter is a simple binding and `args` holds their names,
/// position by position.
pub open spec fn params_are_idents(ps: Seq<CmdParam>, args: Seq<String>) -> bool {
    args.len() == ps.len() && forall|j: int|
        0 <= j < ps.len() ==> ((#[trigger] ps[j]) matches CmdParam::Ident { name, .. }
            && args[j]@ == name@)
}

/// Expands a command annotation: the wrapper keeps the original name, the
/// renamed function carries the `_future` suffix, and the arguments are
/// the parameters' names in order.
#[verifier::loop_isolation(false)]
pub fn cmd(f: &CmdFn) -> (r: Result<CmdExpansion, CmdError>)
    ensures
        !f.is_async ==> r == Result::<CmdExpansion, CmdError>::Err(CmdError::NotAsync),
        f.is_async && (exists|j: int|
            0 <= j < f.params@.len() && !((#[trigger] f.params@[j]) matches CmdParam::Ident {
                ..
            })) ==> r == Result::<CmdExpansion, CmdError>::Err(CmdError::UnsupportedPattern),
        f.is_async && (forall|j: int|
            0 <= j < f.params@.len() ==> (#[trigger] f.params@[j]) matches CmdParam::Ident { .. })
            ==> (r matches Ok(x) && x.public_name@ == f.name@ && x.future_name@ == f.name@
            + "_future"@ && params_are_idents(f.params@, x.args@)),
{
    if !f.is_async {
        return Err(CmdError::NotAsync);
    }
    let mut args: Vec<String> = Vec::new();
    let mut i: usize = 0;
    while i < f.params.len()
        invariant
            i <= f.params.len(),
            args@.len() == i,
            forall|j: int|
                0 <= j < i ==> ((#[trigger] f.params@[j]) matches CmdParam::Ident { name, .. }
                    && args@[j]@ == name@),
        decreases f.params.len() - i,
    {
        match &f.params[i] {
            CmdParam::Ident { name, ty } => {
                args.push(name.clone());
            },
            _ => {
                proof {
                    assert(!(f.params@[i as int] matches CmdParam::Ident { .. }));
                }
                return Err(CmdError::UnsupportedPattern);
            },
        }
        i += 1;
    }
    let public_name = f.name.clone();
    let mut future_name = f.name.clone();
    future_name.append("_future");
    Ok(CmdExpansion { public_name, future_name, args })
}

} // verus!
