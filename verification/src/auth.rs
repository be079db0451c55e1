//! Who may ask: the shared secret of the `X-Scanner-Auth` header.

use crate::config::{secrets_are_not_empty, value_of};
use crate::error::ScanError;
use crate::text::utf8_is_injective;
use subtle::ConstantTimeEq;
use vstd::prelude::*;

verus! {

/// Calls `ConstantTimeEq::ct_eq` of two byte slices, which tells whether they are equal.
#[verifier::external_body]
fn ct_eq(a: &[u8], b: &[u8]) -> (r: bool)
    ensures
        r == (a@ == b@),
{
    a.ct_eq(b).into()
}

/// The text that a request presents: nothing at all counts as empty text.
pub open spec fn presented_text(presented: Option<&str>) -> Seq<char> {
    match presented {
        Some(p) => p@,
        None => Seq::empty(),
    }
}

/// Lets a request pass if what it presents is the shared secret. Texts of equal length are
/// compared in constant time.
pub fn auth(presented: Option<&str>, expected: &str) -> (r: Result<(), ScanError>)
    ensures
        presented_text(presented) == expected@ ==> r is Ok,
        presented_text(presented) != expected@ ==> r == Err::<(), ScanError>(
            ScanError::Unauthorized,
        ),
{
    let given: &str = match presented {
        Some(p) => p,
        None => "",
    };
    proof {
        reveal_strlit("");
        assert(given@ =~= presented_text(presented));
        utf8_is_injective(given@, expected@);
    }
    let ok: bool = given.len() == expected.len() && ct_eq(given.as_bytes(), expected.as_bytes());
    if ok {
        Ok(())
    } else {
        Err(ScanError::Unauthorized)
    }
}

/// A request that presents nothing never passes: a configured secret is not empty.
pub proof fn nothing_presented_never_passes(env: Map<Seq<char>, Seq<char>>, key: Seq<char>)
    ensures
        value_of(env, key) matches Some(expected) ==> presented_text(None) != expected
            && presented_text(Some("")) != expected,
{
    secrets_are_not_empty(env, key);
    reveal_strlit("");
}

} // verus!
