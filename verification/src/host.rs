//! Facts only the host can supply: the home directory and the local time.
//!
//! Both depend on the machine and the moment, so nothing exact can be
//! promised of their results; the functions that use them take the results
//! as plain values and are verified for every value.

use vstd::prelude::*;

verus! {

/// Relies on `dirs::home_dir`: the user's home directory, when the platform
/// knows one, as a string.
#[verifier::external_body]
pub fn home_dir_string() -> (r: Option<String>) {
    dirs::home_dir().map(|p| p.to_string_lossy().to_string())
}

/// Relies on `chrono::Local::now`: the current local date as `%Y-%m-%d` and
/// time as `%H-%M-%S`, formatted once so both speak of the same instant.
#[verifier::external_body]
pub fn now_local_stamp() -> (r: (String, String)) {
    let now = chrono::Local::now();
    (now.format("%Y-%m-%d").to_string(), now.format("%H-%M-%S").to_string())
}

} // verus!
