//! Location services where CoreLocation is absent: the calls do nothing and
//! the authorization status is always "not determined". Also the names the
//! application reports for CoreLocation's authorization status codes.
use vstd::prelude::*;

verus! {

/// Sets up the location manager (nothing to set up here).
pub fn setup_location_manager() {
}

/// Requests location permission (nothing to request here).
pub fn request_permission() {
}

/// Starts location updates (no updates here).
pub fn start_updates() {
}

/// The authorization status code: always 0, "not determined".
pub fn get_authorization_status() -> (status: i32)
    ensures
        status == 0,
{
    0
}

/// The name of a CoreLocation authorization status code.
pub open spec fn status_name(status: i32) -> Seq<char> {
    if status == 0 {
        "not_determined"@
    } else if status == 1 {
        "restricted"@
    } else if status == 2 {
        "denied"@
    } else if status == 3 {
        "authorized_always"@
    } else if status == 4 {
        "authorized_when_in_use"@
    } else {
        "unknown"@
    }
}

/// The name of a CoreLocation authorization status code.
pub fn authorization_status_name(status: i32) -> (name: &'static str)
    ensures
        name@ == status_name(status),
{
    if status == 0 {
        "not_determined"
    } else if status == 1 {
        "restricted"
    } else if status == 2 {
        "denied"
    } else if status == 3 {
        "authorized_always"
    } else if status == 4 {
        "authorized_when_in_use"
    } else {
        "unknown"
    }
}

/// Whether a status code grants location access (always, or when in use).
pub fn permission_granted(status: i32) -> (granted: bool)
    ensures
        granted == (status == 3 || status == 4),
{
    status == 3 || status == 4
}

} // verus!
