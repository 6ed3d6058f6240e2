use vstd::prelude::*;

use crate::error::UpdateError;

verus! {

/// Relies on constant_time_eq::constant_time_eq: true exactly when the two
/// byte strings are equal, compared without stopping at the first
/// difference. Two strings are equal exactly when their UTF-8 bytes are.
#[verifier::external_body]
fn same_secret(a: &str, b: &str) -> (r: bool)
    ensures
        r == (a@ == b@),
{
    constant_time_eq::constant_time_eq(a.as_bytes(), b.as_bytes())
}

/// Fails before any lookup when the hostname or the password is empty.
pub fn check_presence(hostname: &str, password: &str) -> (r: Result<(), UpdateError>)
    ensures
        r is Ok <==> (hostname@.len() > 0 && password@.len() > 0),
        r is Err ==> r->Err_0 == UpdateError::Unauthorized,
{
    if hostname.is_empty() || password.is_empty() {
        Err(UpdateError::Unauthorized)
    } else {
        Ok(())
    }
}

/// Compares the supplied password with the one stored for the hostname
/// (`None`: no entry). Any failure is `Unauthorized`, whatever its cause.
pub fn check_password(supplied: &str, stored: Option<&str>) -> (r: Result<(), UpdateError>)
    ensures
        r is Ok <==> (stored is Some && stored->0@ == supplied@),
        r is Err ==> r->Err_0 == UpdateError::Unauthorized,
{
    match stored {
        None => Err(UpdateError::Unauthorized),
        Some(expected) => {
            if same_secret(supplied, expected) {
                Ok(())
            } else {
                Err(UpdateError::Unauthorized)
            }
        },
    }
}

} // verus!
