//! POSIX-shell quoting of launch-script argument values.

use vstd::prelude::*;
use crate::errors::ShenronError;

verus! {

/// What `shlex::try_quote` returns for a quotable word.
pub uninterp spec fn shell_quoted(s: Seq<char>) -> Seq<char>;

/// Relies on shlex::try_quote: POSIX-shell-safe quoting of one word, a
/// function of the characters alone. It fails exactly when the word holds
/// a NUL byte.
#[verifier::external_body]
fn shlex_quote(value: &str) -> (r: Option<String>)
    ensures
        r is Some <==> !value@.contains('\u{0}'),
        (r matches Some(q) ==> q@ == shell_quoted(value@)),
{
    match shlex::try_quote(value) {
        Ok(q) => Some(q.to_string()),
        Err(_) => None,
    }
}

/// Shell-quotes one argument value; a value holding a NUL byte is
/// unquotable and is reported back inside the error.
pub fn quote_arg(value: &String) -> (r: Result<String, ShenronError>)
    ensures
        !value@.contains('\u{0}') ==> (r matches Ok(q) && q@ == shell_quoted(value@)),
        value@.contains('\u{0}') ==> (r matches Err(ShenronError::Quote(v)) && v@ == value@),
{
    match shlex_quote(value.as_str()) {
        Some(q) => Ok(q),
        None => Err(ShenronError::Quote(value.clone())),
    }
}

} // verus!
