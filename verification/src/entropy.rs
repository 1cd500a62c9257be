//! What is assumed of the sources of randomness and of machine facts. Every function
//! here calls into another crate; its contract is believed, not proved.

use rand::RngCore;
use rand::TryRngCore;
use vstd::prelude::*;

verus! {

/// Fills an array from `rand`'s thread-local generator. The bytes are random:
/// nothing is claimed of them.
#[verifier::external_body]
pub(crate) fn thread_random_bytes<const N: usize>() -> (r: [u8; N]) {
    let mut bytes = [0u8; N];
    rand::rng().fill_bytes(&mut bytes);
    bytes
}

/// Fills an array from the operating system's generator, `rand`'s `OsRng`,
/// through its unwrapping adapter, which panics where the system has no
/// randomness to give. The bytes are random: nothing is claimed of them.
#[verifier::external_body]
pub(crate) fn os_random_bytes<const N: usize>() -> (r: [u8; N]) {
    let mut bytes = [0u8; N];
    rand::rngs::OsRng.unwrap_err().fill_bytes(&mut bytes);
    bytes
}

/// Draws a number below `limit` with `rand::random_range`, which samples the
/// half-open range it is given. Only the range is claimed.
#[verifier::external_body]
pub(crate) fn random_below(limit: u8) -> (r: u8)
    requires
        limit > 0,
    ensures
        r < limit,
{
    rand::random_range(0..limit)
}

/// The number of logical processors, from `num_cpus::get`, which documents
/// that it is at least one.
#[verifier::external_body]
pub(crate) fn cpu_count() -> (r: usize)
    ensures
        r >= 1,
{
    num_cpus::get()
}

/// The account name of the current user, from `whoami::username`. It depends
/// on the machine: nothing is claimed of it.
#[verifier::external_body]
pub(crate) fn user_name() -> (r: String) {
    whoami::username()
}

/// The name of this device, from `whoami::devicename`. It depends on the
/// machine: nothing is claimed of it.
#[verifier::external_body]
pub(crate) fn device_name() -> (r: String) {
    whoami::devicename()
}

/// The full name of the current user, from `whoami::realname`. It depends on
/// the machine: nothing is claimed of it.
#[verifier::external_body]
pub(crate) fn real_name() -> (r: String) {
    whoami::realname()
}

/// The name of the operating system distribution, from `whoami::distro`. It
/// depends on the machine: nothing is claimed of it.
#[verifier::external_body]
pub(crate) fn distro_name() -> (r: String) {
    whoami::distro()
}

} // verus!
