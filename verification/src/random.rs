//! Random bytes for the library's hash seeds, from the operating system.
use vstd::prelude::*;

verus! {

/// Fills `dest` from the system's random source with `getrandom::fill`, and
/// tells whether that succeeded. What is claimed of it: the buffer keeps its
/// length (a slice cannot change length), and an empty buffer succeeds at
/// once, as the crate documents. The bytes written, and whether a non-empty
/// fill succeeds, rest on the operating system and are left unsaid.
#[verifier::external_body]
fn os_fill(dest: &mut [u8]) -> (ok: bool)
    ensures
        final(dest)@.len() == old(dest)@.len(),
        old(dest)@.len() == 0 ==> ok,
{
    getrandom::fill(dest).is_ok()
}

/// Fills `dest` with random bytes for the library.
///
/// An empty buffer is left alone and counts as filled, without asking the
/// system. Otherwise the system's random source fills it; `false` means that
/// no randomness could be had, and the caller must not go on with a
/// predictable seed.
pub fn fill_random(dest: &mut [u8]) -> (filled: bool)
    ensures
        final(dest)@.len() == old(dest)@.len(),
        old(dest)@.len() == 0 ==> filled && final(dest)@ == old(dest)@,
{
    if dest.len() == 0 {
        return true;
    }
    os_fill(dest)
}

} // verus!
