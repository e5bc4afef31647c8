//! Decoding raw bytes into text, one byte per character.

use vstd::prelude::*;

verus! {

/// Each byte read as the character with the same code point (Latin-1).
pub open spec fn chars_of_bytes(bytes: Seq<u8>) -> Seq<char> {
    bytes.map_values(|b: u8| b as char)
}

/// Relies on `String::push`: appends exactly the one character to the
/// string.
#[verifier::external_body]
fn push_char(s: &mut String, c: char)
    ensures
        final(s)@ == old(s)@ + seq![c],
{
    s.push(c);
}

/// Builds a string holding one character per input byte, each the byte's
/// own code point.
pub fn str_from_bytes(bytes: &[u8]) -> (r: String)
    ensures
        r@ == chars_of_bytes(bytes@),
{
    let mut string = String::new();
    let mut i: usize = 0;
    while i < bytes.len()
        invariant
            i <= bytes@.len(),
            string@ == chars_of_bytes(bytes@.take(i as int)),
        decreases bytes@.len() - i,
    {
        push_char(&mut string, bytes[i] as char);
        i = i + 1;
        proof {
            assert(chars_of_bytes(bytes@.take(i as int)) =~= chars_of_bytes(
                bytes@.take(i as int - 1),
            ).push(bytes@[i as int - 1] as char));
        }
    }
    proof {
        assert(bytes@.take(bytes@.len() as int) =~= bytes@);
    }
    string
}

} // verus!
