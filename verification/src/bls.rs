//! What is checked of the inputs of the signature operations before the
//! signature library is called.

use vstd::prelude::*;

verus! {

/// The number of bytes of a message hash.
pub const MESSAGE_LENGTH: usize = 32;

/// An input that is refused before the signature library sees it.
#[derive(Debug, Clone, Copy, PartialEq, Eq, Structural)]
pub enum InputError {
    /// The message is not 32 bytes long.
    MessageLength,
    /// There is no signature to aggregate.
    NoSignatures,
    /// There is no public key to aggregate.
    NoPublicKeys,
}

impl InputError {
    /// The message that the host is given.
    pub fn message(&self) -> (r: &'static str)
        ensures
            r@ == match *self {
                InputError::MessageLength => "Message must be 32 bytes long"@,
                InputError::NoSignatures => "Empty signature vector"@,
                InputError::NoPublicKeys => "Empty public key vector"@,
            },
    {
        match self {
            InputError::MessageLength => "Message must be 32 bytes long",
            InputError::NoSignatures => "Empty signature vector",
            InputError::NoPublicKeys => "Empty public key vector",
        }
    }
}

/// A message is signed and verified as a hash of 32 bytes.
pub fn check_message(message: &[u8]) -> (r: Result<(), InputError>)
    ensures
        r is Ok <==> message@.len() == MESSAGE_LENGTH,
        r is Err ==> r == Err::<(), InputError>(InputError::MessageLength),
{
    if message.len() != MESSAGE_LENGTH {
        Err(InputError::MessageLength)
    } else {
        Ok(())
    }
}

/// At least one signature is needed for an aggregate.
pub fn check_signatures(count: usize) -> (r: Result<(), InputError>)
    ensures
        r is Ok <==> count > 0,
        r is Err ==> r == Err::<(), InputError>(InputError::NoSignatures),
{
    if count == 0 {
        Err(InputError::NoSignatures)
    } else {
        Ok(())
    }
}

/// At least one public key is needed for an aggregate.
pub fn check_public_keys(count: usize) -> (r: Result<(), InputError>)
    ensures
        r is Ok <==> count > 0,
        r is Err ==> r == Err::<(), InputError>(InputError::NoPublicKeys),
{
    if count == 0 {
        Err(InputError::NoPublicKeys)
    } else {
        Ok(())
    }
}

} // verus!
