//! Title case for project names: a capital after each `_` or `-` and at the
//! start, the rest in lower case.
use vstd::prelude::*;
use crate::text::{char_lower, char_upper, chars_of, lower_of_char, upper_of_char};

verus! {

/// The case form of the character at `i`: upper at the start and after a
/// separator, lower elsewhere.
pub open spec fn title_piece(s: Seq<char>, i: int) -> Seq<char> {
    if i == 0 || s[i - 1] == '_' || s[i - 1] == '-' {
        upper_of_char(s[i])
    } else {
        lower_of_char(s[i])
    }
}

/// The title case of the first `k` characters.
pub open spec fn title_prefix(s: Seq<char>, k: int) -> Seq<char>
    decreases k,
{
    if k <= 0 {
        Seq::empty()
    } else {
        title_prefix(s, k - 1) + title_piece(s, k - 1)
    }
}

/// The name in title case: `user_sessions` becomes `User_Sessions`, and
/// `my-counter` becomes `My-Counter`; separators are kept.
pub fn to_title_case(s: &str) -> (r: String)
    ensures
        r@ == title_prefix(s@, s@.len() as int),
{
    let cs = chars_of(s);
    let mut out = String::new();
    let mut i: usize = 0;
    while i < cs.len()
        invariant
            cs@ == s@,
            i <= cs.len(),
            out@ == title_prefix(s@, i as int),
        decreases cs.len() - i,
    {
        let piece = if i == 0 || cs[i - 1] == '_' || cs[i - 1] == '-' {
            char_upper(cs[i])
        } else {
            char_lower(cs[i])
        };
        out.append(piece.as_str());
        i = i + 1;
    }
    out
}

} // verus!
