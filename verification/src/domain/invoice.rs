//! Lightning Address user names.
use vstd::prelude::*;
use vstd::string::StringSliceAdditionalSpecFns;

use crate::ascii::{digit, is_digit, is_lower, lower};

verus! {

pub const MAX_USER_LEN: usize = 64;

/// The user part of a Lightning Address is not canonical.
#[derive(Debug, Clone, Copy, PartialEq, Eq, Structural)]
pub struct LightningAddressUserError;

impl LightningAddressUserError {
    pub fn description(self) -> (text: &'static str)
        ensures
            text@ == "invalid Lightning Address user"@,
    {
        "invalid Lightning Address user"
    }
}

/// Bytes allowed in a user name: lowercase ASCII letters, digits and `._-`.
pub open spec fn is_user_byte(b: u8) -> bool {
    is_lower(b) || is_digit(b) || b == 46 || b == 95 || b == 45
}

/// A canonical user: 1 to 64 allowed bytes, and not the path segments `.` or
/// `..` (URL joining would normalize those away).
pub open spec fn valid_user_bytes(bytes: Seq<u8>) -> bool {
    &&& 0 < bytes.len() <= MAX_USER_LEN
    &&& bytes != seq![46u8]
    &&& bytes != seq![46u8, 46u8]
    &&& forall|i: int| 0 <= i < bytes.len() ==> is_user_byte(#[trigger] bytes[i])
}

pub fn validate_user(user: &str) -> (res: Result<(), LightningAddressUserError>)
    ensures
        res is Ok <==> valid_user_bytes(user.spec_bytes()),
{
    let bytes = user.as_bytes();
    let len = bytes.len();
    if len == 0 || len > MAX_USER_LEN {
        return Err(LightningAddressUserError);
    }
    if len == 1 && bytes[0] == 46 {
        assert(bytes@ =~= seq![46u8]);
        return Err(LightningAddressUserError);
    }
    if len == 2 && bytes[0] == 46 && bytes[1] == 46 {
        assert(bytes@ =~= seq![46u8, 46u8]);
        return Err(LightningAddressUserError);
    }
    let mut i: usize = 0;
    while i < len
        invariant
            len == bytes@.len(),
            bytes@ == user.spec_bytes(),
            i <= len,
            forall|j: int| 0 <= j < i ==> is_user_byte(#[trigger] bytes@[j]),
        decreases len - i,
    {
        let b = bytes[i];
        if !(lower(b) || digit(b) || b == 46 || b == 95 || b == 45) {
            return Err(LightningAddressUserError);
        }
        i = i + 1;
    }
    if len == 1 {
        assert(bytes@[0] != 46u8);
        assert(bytes@ != seq![46u8]);
    }
    if len == 2 {
        assert(bytes@ != seq![46u8, 46u8]) by {
            if bytes@ == seq![46u8, 46u8] {
                assert(bytes@[0] == 46u8 && bytes@[1] == 46u8);
            }
        }
    }
    Ok(())
}

} // verus!
