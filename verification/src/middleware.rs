use vstd::prelude::*;

use crate::models::{Claims, Roles};
use crate::status::Status;

verus! {

/// What the customer routes answer a request with these claims: it goes
/// through only where the claims grant the customer role.
pub open spec fn customer_gate(claims: Claims) -> Result<(), Status> {
    if claims.role == Roles::Customer {
        Ok(())
    } else {
        Err(Status::Forbidden)
    }
}

/// What the admin routes answer a request with these claims: it goes
/// through only where the claims grant the admin role.
pub open spec fn admin_gate(claims: Claims) -> Result<(), Status> {
    if claims.role == Roles::Admin {
        Ok(())
    } else {
        Err(Status::Forbidden)
    }
}

/// Routes open to any holder of a valid token let every request through.
pub fn middleware_require_any_auth(claims: &Claims) -> (r: Result<(), Status>)
    ensures
        r is Ok,
{
    Ok(())
}

/// Routes for customers let a request through only where its claims
/// grant the customer role; any other request is refused `Forbidden`.
pub fn middleware_require_customer_role(claims: &Claims) -> (r: Result<(), Status>)
    ensures
        r == customer_gate(*claims),
{
    if claims.role != Roles::Customer {
        return Err(Status::Forbidden);
    }
    Ok(())
}

/// Routes for administrators let a request through only where its claims
/// grant the admin role; any other request is refused `Forbidden`.
pub fn middleware_require_admin_role(claims: &Claims) -> (r: Result<(), Status>)
    ensures
        r == admin_gate(*claims),
{
    if claims.role != Roles::Admin {
        return Err(Status::Forbidden);
    }
    Ok(())
}

/// Every token passes exactly one of the two role checks: no token opens
/// both the customer and the admin routes, and none is shut out of both.
pub proof fn lemma_role_checks_partition(claims: Claims)
    ensures
        (customer_gate(claims) is Ok) != (admin_gate(claims) is Ok),
        customer_gate(claims) is Err ==> customer_gate(claims) == Err::<(), Status>(
            Status::Forbidden,
        ),
        admin_gate(claims) is Err ==> admin_gate(claims) == Err::<(), Status>(Status::Forbidden),
{
}

} // verus!
