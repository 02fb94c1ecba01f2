//! Small helpers of the cross-language linking prototype.
use vstd::prelude::*;

verus! {

/// Adds two 32-bit integers with two's-complement wrap-around.
pub fn add(a: i32, b: i32) -> (r: i32)
    ensures
        r as int == a + b || r as int == a + b - 0x1_0000_0000 || r as int == a + b
            + 0x1_0000_0000,
{
    a.wrapping_add(b)
}

/// A new empty string.
pub fn string_new() -> (r: String)
    ensures
        r@ == Seq::<char>::empty(),
{
    String::new()
}

/// Appends `text` to `s`.
pub fn string_push_str(s: &mut String, text: &str)
    ensures
        final(s)@ == old(s)@ + text@,
{
    s.append(text);
}

/// Borrows the text of `s`.
pub fn string_as_str(s: &String) -> (r: &str)
    ensures
        r@ == s@,
{
    s.as_str()
}

} // verus!
