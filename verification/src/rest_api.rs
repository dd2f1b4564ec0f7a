use vstd::prelude::*;

use crate::text::append_char;

verus! {

/// What `str::to_uppercase` makes of a text (the Unicode uppercase mapping
/// of each character).
pub uninterp spec fn uppercase(s: Seq<char>) -> Seq<char>;

/// `str::to_uppercase`.
#[verifier::external_body]
fn to_uppercase_text(s: &str) -> (r: String)
    ensures
        r@ == uppercase(s@),
{
    s.to_uppercase()
}

/// The characters of `payload` in reverse order.
pub fn reverse(payload: String) -> (r: String)
    ensures
        r@ == payload@.reverse(),
{
    let mut chars: Vec<char> = Vec::new();
    for c in it: payload.as_str().chars()
        invariant
            chars@ == it.seq().take(it.index() as int),
    {
        chars.push(c);
    }
    let mut out = String::new();
    let mut i: usize = chars.len();
    while i > 0
        invariant
            i <= chars@.len(),
            out@ == chars@.subrange(i as int, chars@.len() as int).reverse(),
        decreases i,
    {
        i = i - 1;
        append_char(&mut out, chars[i]);
    }
    out
}

/// `payload` in upper case.
pub fn upper(payload: String) -> (r: String)
    ensures
        r@ == uppercase(payload@),
{
    to_uppercase_text(payload.as_str())
}

} // verus!
