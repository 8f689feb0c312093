//! Building ANSI escape sequences.

use vstd::prelude::*;

use vstd::string::StringExecFns;

verus! {

/// The control sequence introducer that starts every ANSI escape
/// sequence this system writes.
pub open spec fn ansi_prefix() -> Seq<char> {
    seq!['\x1b', '[']
}

/// `code` with the escape prefix in front: one complete escape sequence.
pub open spec fn ansi_encoded(code: Seq<char>) -> Seq<char> {
    ansi_prefix() + code
}

/// Prepends the ANSI escape prefix to escape codes.
pub struct AnsiEncoder;

impl AnsiEncoder {
    pub fn new() -> (r: Self) {
        Self
    }

    /// The complete escape sequence for `escape_code`.
    pub fn encode(&self, escape_code: &str) -> (r: String)
        ensures
            r@ == ansi_encoded(escape_code@),
    {
        proof {
            reveal_strlit("\x1b[");
        }
        let mut r = String::from_str("\x1b[");
        r.append(escape_code);
        proof {
            assert(r@ =~= ansi_encoded(escape_code@));
        }
        r
    }
}

} // verus!
