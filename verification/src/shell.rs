//! Opening files and links: what is said when that does not work.

use vstd::prelude::*;
use vstd::string::*;

use crate::text::{decimal, push_decimal};

verus! {

/// The highest result of the shell that is an error code.
pub const LAST_ERROR_CODE: usize = 32;

/// What is said of an attempt to open `target`. `result` is what the shell
/// returned; systems without it have none. Results up to [`LAST_ERROR_CODE`] are
/// error codes.
pub open spec fn opening_complaint(target: Seq<char>, result: Option<usize>) -> Option<Seq<char>> {
    match result {
        None => Some("cannot open "@ + target + " on this platform"@),
        Some(code) => if code <= LAST_ERROR_CODE {
            Some("failed opening "@ + target + ": ShellExecuteW error "@ + decimal(code as nat))
        } else {
            None
        },
    }
}

/// What is said of an attempt to open `target`; nothing if it went well.
pub fn open(target: &str, result: Option<usize>) -> (complaint: Option<String>)
    ensures
        crate::text::opt_text(complaint) == opening_complaint(target@, result),
{
    match result {
        None => {
            let mut text = "cannot open ".to_string();
            text.append(target);
            text.append(" on this platform");
            Some(text)
        },
        Some(code) => if code <= LAST_ERROR_CODE {
            let mut text = "failed opening ".to_string();
            text.append(target);
            text.append(": ShellExecuteW error ");
            push_decimal(&mut text, code as u64);
            Some(text)
        } else {
            None
        },
    }
}

/// Results above 32 are successes, and nothing is said of them. Everything else is
/// complained about, by the name of what was to be opened; an error with its code.
pub proof fn failures_to_open_are_told(target: Seq<char>, result: Option<usize>)
    ensures
        opening_complaint(target, result) is None <==> result is Some && result->0 > 32,
        opening_complaint(target, None) matches Some(text) ==> text.len() == target.len() + 29
            && text.subrange(12, 12 + target.len() as int) == target,
        result is Some ==> (opening_complaint(target, result) matches Some(text) ==> {
            let n = decimal(result->0 as nat).len();
            &&& text.len() == target.len() + 37 + n
            &&& text.subrange(15, 15 + target.len() as int) == target
            &&& text.skip(text.len() - n) == decimal(result->0 as nat)
        }),
{
    reveal_strlit("cannot open ");
    reveal_strlit(" on this platform");
    reveal_strlit("failed opening ");
    reveal_strlit(": ShellExecuteW error ");
    let plain = "cannot open "@ + target + " on this platform"@;
    assert(plain.subrange(12, 12 + target.len() as int) == target);
    if let Some(code) = result {
        let n = decimal(code as nat).len();
        let text = "failed opening "@ + target + ": ShellExecuteW error "@ + decimal(code as nat);
        assert(text.subrange(15, 15 + target.len() as int) == target);
        assert(text.skip(text.len() - n) == decimal(code as nat));
    }
}

} // verus!
