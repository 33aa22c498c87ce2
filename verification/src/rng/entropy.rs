//! Secure entropy from the operating system.
use vstd::prelude::*;

verus! {

/// The error of the `getrandom` crate: a code of the operating system or of
/// the crate itself. Nothing is read from it.
#[verifier::external_type_specification]
#[verifier::external_body]
pub struct ExError(getrandom::Error);

/// `getrandom::getrandom` fills `dest` with random bytes from the system's
/// preferred source, or returns an error and promises nothing of the bytes.
/// Claimed of it: the buffer keeps its length, and an empty buffer succeeds.
pub assume_specification[ getrandom::getrandom ](dest: &mut [u8]) -> (r: Result<
    (),
    getrandom::Error,
>)
    ensures
        final(dest)@.len() == old(dest)@.len(),
        old(dest)@.len() == 0 ==> r is Ok,
;

/// The system could not provide secure entropy.
#[derive(Clone, Copy, Debug, PartialEq, Eq, Structural)]
pub enum EntropyError {
    /// The entropy source of the system is not ready or has failed.
    NotReady,
}

impl EntropyError {
    /// What went wrong, in words.
    pub fn message(&self) -> (text: &'static str)
        ensures
            text@ == "getentropy not ready"@,
    {
        "getentropy not ready"
    }
}

/// What to do with the answer of the entropy source: the bytes are good
/// where it reports none, and its error, whatever it is, means that the
/// source is not ready.
pub fn entropy_result(answer: Result<(), getrandom::Error>) -> (r: Result<(), EntropyError>)
    ensures
        answer is Ok <==> r is Ok,
        r matches Err(e) ==> e == EntropyError::NotReady,
{
    match answer {
        Ok(()) => Ok(()),
        Err(_) => Err(EntropyError::NotReady),
    }
}

/// Provides cryptographically secure entropy: fills `buf` with bytes of the
/// system's entropy source. An empty buffer asks nothing of the system and
/// is always served; for any other, whether the system delivers is not for
/// this library to say, and where it does not, the bytes are of no use.
pub fn getentropy(buf: &mut [u8]) -> (r: Result<(), EntropyError>)
    ensures
        final(buf)@.len() == old(buf)@.len(),
        old(buf)@.len() == 0 ==> r is Ok,
        r matches Err(e) ==> e == EntropyError::NotReady,
{
    entropy_result(getrandom::getrandom(buf))
}

} // verus!
