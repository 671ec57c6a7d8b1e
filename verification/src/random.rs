//! Random bytes from the operating system's secure source.
use vstd::prelude::*;

verus! {

/// `getrandom::fill` overwrites every byte of the buffer with random bytes
/// from the operating system, or fails; it never changes the length. An
/// empty buffer asks nothing of the operating system and always succeeds.
/// Which bytes it gives, and whether a non-empty fill fails, rest on the
/// machine and are left unsaid.
#[verifier::external_body]
fn fill_from_os(buf: &mut Vec<u8>) -> (ok: bool)
    ensures
        final(buf)@.len() == old(buf)@.len(),
        old(buf)@.len() == 0 ==> ok,
{
    getrandom::fill(buf.as_mut_slice()).is_ok()
}

/// `getrandom::u64` gives a random `u64` from the operating system, or
/// fails; which value, and whether it fails, rest on the machine.
#[verifier::external_body]
fn u64_from_os() -> (r: Option<u64>) {
    getrandom::u64().ok()
}

/// `len` random bytes, or `None` when the operating system's source fails;
/// asking for no bytes always succeeds.
pub fn get_random_bytes(len: u64) -> (r: Option<Vec<u8>>)
    requires
        len <= usize::MAX,
    ensures
        r matches Some(v) ==> v@.len() == len,
        len == 0 ==> (r matches Some(v) && v@.len() == 0),
{
    let n = len as usize;
    let mut buf: Vec<u8> = Vec::new();
    let mut i: usize = 0;
    while i < n
        invariant
            i <= n,
            buf@.len() == i,
        decreases n - i,
    {
        buf.push(0u8);
        i = i + 1;
    }
    if fill_from_os(&mut buf) {
        Some(buf)
    } else {
        None
    }
}

/// A random `u64`, or `None` when the operating system's source fails.
pub fn get_random_u64() -> (r: Option<u64>) {
    u64_from_os()
}

} // verus!
