//! The possessive contraction filter: strips a trailing possessive suffix
//! from a token, recognizing every Unicode apostrophe variant.

use crate::unicode::{is_apostrophe, is_apostrophe_char};
use vstd::prelude::*;
use vstd::string::StrSliceExecFns;

verus! {

/// What the possessive contraction filter produces: an apostrophe followed
/// by `s` or `S` at the very end of the token is removed, as is a bare
/// trailing apostrophe; otherwise the token is unchanged. Apostrophes
/// elsewhere in the token are untouched.
pub open spec fn strip_possessive(s: Seq<char>) -> Seq<char> {
    if s.len() >= 2 && is_apostrophe(s[s.len() - 2]) && (s.last() == 's' || s.last() == 'S') {
        s.take(s.len() - 2)
    } else if s.len() >= 1 && is_apostrophe(s.last()) {
        s.take(s.len() - 1)
    } else {
        s
    }
}

/// Strips a trailing possessive suffix (apostrophe-`s`, apostrophe-`S`, or a
/// bare trailing apostrophe) from a token's text.
pub struct PossessiveContractionFilter;

impl PossessiveContractionFilter {
    /// The filtered text of a token.
    pub fn apply(&self, text: &str) -> (r: String)
        ensures
            r@ == strip_possessive(text@),
    {
        let n = text.unicode_len();
        if n >= 2 && is_apostrophe_char(text.get_char(n - 2)) {
            let c = text.get_char(n - 1);
            if c == 's' || c == 'S' {
                proof {
                    assert(text@.subrange(0, n - 2 as int) =~= text@.take(text@.len() - 2));
                }
                return text.substring_char(0, n - 2).to_owned();
            }
        }
        if n >= 1 && is_apostrophe_char(text.get_char(n - 1)) {
            proof {
                assert(text@.subrange(0, n - 1 as int) =~= text@.take(text@.len() - 1));
            }
            text.substring_char(0, n - 1).to_owned()
        } else {
            text.to_owned()
        }
    }
}

} // verus!
