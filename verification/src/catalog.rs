//! Method catalogs: finding a declared method and deciding whether a caller
//! may invoke it.

use vstd::prelude::*;

use crate::frame::{BusError, CallerCtx, MethodDecl};
use crate::text::same_text;

verus! {

/// The first declaration in `decls` named `name`.
pub open spec fn first_decl(decls: Seq<MethodDecl>, name: Seq<char>) -> Option<MethodDecl>
    decreases decls.len(),
{
    if decls.len() == 0 {
        None
    } else if decls[0].name@ == name {
        Some(decls[0])
    } else {
        first_decl(decls.drop_first(), name)
    }
}

/// Whether a caller with this context may call `method` of a service whose
/// catalog is `decls`: the method is declared, and if its first declaration
/// requires auth the caller carries a user id.
pub open spec fn admits(decls: Seq<MethodDecl>, method: Seq<char>, caller: CallerCtx) -> bool {
    &&& first_decl(decls, method) is Some
    &&& !(first_decl(decls, method)->Some_0.requires_auth && caller.user_id is None)
}

/// The first declaration named `name`, if any.
pub fn find_decl(decls: &Vec<MethodDecl>, name: &str) -> (r: Option<MethodDecl>)
    ensures
        r == first_decl(decls@, name@),
{
    let n = decls.len();
    let mut i: usize = 0;
    assert(decls@.subrange(0, n as int) =~= decls@);
    while i < n
        invariant
            i <= n,
            n == decls@.len(),
            first_decl(decls@, name@) == first_decl(decls@.subrange(i as int, n as int), name@),
        decreases n - i,
    {
        let ghost rest = decls@.subrange(i as int, n as int);
        assert(rest[0] == decls@[i as int]);
        if same_text(decls[i].name.as_str(), name) {
            return Some(decls[i].duplicate());
        }
        assert(rest.drop_first() =~= decls@.subrange(i + 1, n as int));
        i = i + 1;
    }
    None
}

/// Decides whether `caller` may call `service.method` given the service's
/// catalog: `MethodNotFound` when the method is not declared, `Unauthorized`
/// when it requires auth and the caller has no user id.
pub fn check_method(decls: &Vec<MethodDecl>, service: &str, method: &str, caller: &CallerCtx) -> (r:
    Result<(), BusError>)
    ensures
        admits(decls@, method@, *caller) ==> r is Ok,
        first_decl(decls@, method@) is None ==> (r matches Err(BusError::MethodNotFound { service: s, method: m })
            && s@ == service@ && m@ == method@),
        first_decl(decls@, method@) is Some && !admits(decls@, method@, *caller) ==> (r matches Err(
            BusError::Unauthorized { service: s, method: m },
        ) && s@ == service@ && m@ == method@),
{
    match find_decl(decls, method) {
        None => Err(
            BusError::MethodNotFound {
                service: String::from_str(service),
                method: String::from_str(method),
            },
        ),
        Some(decl) => {
            if decl.requires_auth && caller.user_id.is_none() {
                Err(
                    BusError::Unauthorized {
                        service: String::from_str(service),
                        method: String::from_str(method),
                    },
                )
            } else {
                Ok(())
            }
        },
    }
}

} // verus!
