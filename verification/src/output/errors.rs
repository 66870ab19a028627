//! The text that tells how many failures a scan met.

use vstd::prelude::*;
use vstd::string::StringExecFns;
use crate::utils::text::{decimal, push_decimal};

verus! {

/// The closing message of a scan that met `count` failures.
pub open spec fn errors_text(count: nat) -> Seq<char> {
    "encountered "@ + decimal(count) + if count > 1 {
        " errors"@
    } else {
        " error"@
    }
}

/// Makes the closing message of a scan that met `count` failures, with
/// `errors` in the plural for more than one.
pub fn errors_message(count: usize) -> (message: String)
    ensures
        message@ == errors_text(count as nat),
{
    let mut message = String::from_str("encountered ");
    push_decimal(&mut message, count as u64);
    if count > 1 {
        message.append(" errors");
    } else {
        message.append(" error");
    }
    message
}

} // verus!
