//! Handing texts over: giving one away, taking one and giving it back,
//! borrowing one to measure it, and borrowing one to extend it.

use vstd::prelude::*;
use vstd::string::*;
use vstd::utf8::*;

verus! {

/// Makes the text `yours` and hands it to the caller.
pub fn gives_ownership() -> (some_string: String)
    ensures
        some_string@ == "yours"@,
{
    let some_string: String = "yours".to_owned();
    return some_string;
}

/// Takes a text and hands the same text back.
pub fn takes_and_gives_back(a_string: String) -> (same: String)
    ensures
        same == a_string,
{
    return a_string;
}

/// The length of `st`: the number of bytes of its UTF-8 encoding.
pub fn calculate_length(st: &String) -> (length: usize)
    ensures
        length == encode_utf8(st@).len(),
{
    return st.as_str().as_bytes().len();
}

/// Appends `, world` to the borrowed text.
pub fn change(some_string: &mut String)
    ensures
        final(some_string)@ == old(some_string)@ + ", world"@,
{
    some_string.append(", world");
}

} // verus!
