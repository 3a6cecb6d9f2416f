//! Validation of permission names.

use vstd::prelude::*;
use validator::ValidationError;
use crate::text::str_eq;

verus! {

#[verifier::external_type_specification]
#[verifier::external_body]
pub struct ExValidationError(ValidationError);

/// The permissions a token may be given.
pub open spec fn valid_permission(p: Seq<char>) -> bool {
    p == "admin"@ || p == "token"@
}

/// `ValidationError::new(code)`: an error with the given code, no message and
/// no parameters. The error is opaque here, so its code is left out of the
/// contract.
#[verifier::external_body]
fn validation_error(code: &'static str) -> ValidationError {
    ValidationError::new(code)
}

/// Accepts a list of permissions only when every one of them is `admin` or `token`.
pub fn validate_permissions(permissions: &[String]) -> (r: Result<(), ValidationError>)
    ensures
        r is Ok <==> forall|i: int| 0 <= i < permissions@.len() ==> valid_permission(
            #[trigger] permissions@[i]@,
        ),
{
    let mut i: usize = 0;
    while i < permissions.len()
        invariant
            i <= permissions@.len(),
            forall|k: int| 0 <= k < i ==> valid_permission(#[trigger] permissions@[k]@),
        decreases permissions.len() - i,
    {
        let p = permissions[i].as_str();
        if !(str_eq(p, "admin") || str_eq(p, "token")) {
            return Err(validation_error("invalid_permission"));
        }
        i = i + 1;
    }
    Ok(())
}

} // verus!
