//! Plain one-line error reports: `[line N] Error LOCATION: MESSAGE`. The
//! functions here build the line; printing it is the driving
//! collaborator's responsibility.

use vstd::prelude::*;
use vstd::string::StringExecFns;

use crate::token::push_char;

verus! {

/// The decimal digit character for `n`.
pub open spec fn dec_digit(n: nat) -> char
    recommends
        n < 10,
{
    ((48 + n) as u8) as char
}

/// The decimal representation of `n`, most significant digit first, with
/// no leading zeros (a single `0` for zero).
pub open spec fn dec_rep(n: nat) -> Seq<char>
    decreases n,
{
    if n < 10 {
        seq![dec_digit(n)]
    } else {
        dec_rep(n / 10).push(dec_digit(n % 10))
    }
}

/// Renders `n` in decimal, as [`dec_rep`] states it.
pub fn dec_string(n: usize) -> (r: String)
    ensures
        r@ == dec_rep(n as nat),
    decreases n,
{
    if n < 10 {
        let mut r = String::new();
        push_char(&mut r, (48 + n as u8) as char);
        proof {
            assert(r@ =~= dec_rep(n as nat));
        }
        r
    } else {
        let mut r = dec_string(n / 10);
        push_char(&mut r, (48 + (n % 10) as u8) as char);
        r
    }
}

/// The text of a report line for an error at `location` on 1-based line
/// `line`.
pub open spec fn report_text(line: nat, location: Seq<char>, message: Seq<char>) -> Seq<char> {
    "[line "@ + dec_rep(line) + "] Error "@ + location + ": "@ + message
}

/// Builds the report line for an error at `location` on line `line`, as
/// [`report_text`] states it.
pub fn report(line: usize, location: &str, message: &str) -> (r: String)
    ensures
        r@ == report_text(line as nat, location@, message@),
{
    let mut r = "[line ".to_owned();
    r.append(dec_string(line).as_str());
    r.append("] Error ");
    r.append(location);
    r.append(": ");
    r.append(message);
    proof {
        assert(r@ =~= report_text(line as nat, location@, message@));
    }
    r
}

/// Builds the report line for an error with no location text.
pub fn error(line: usize, message: &str) -> (r: String)
    ensures
        r@ == report_text(line as nat, Seq::<char>::empty(), message@),
{
    let r = report(line, "", message);
    proof {
        reveal_strlit("");
        assert(""@ =~= Seq::<char>::empty());
    }
    r
}

} // verus!
