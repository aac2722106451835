use vstd::prelude::*;

verus! {

/// The characters spelled by a sequence of ASCII bytes.
pub open spec fn chars_of_bytes(b: Seq<u8>) -> Seq<char> {
    Seq::new(b.len(), |i: int| b[i] as char)
}

/// The bytes spelling a sequence of ASCII characters.
pub open spec fn bytes_of_chars(s: Seq<char>) -> Seq<u8> {
    Seq::new(s.len(), |i: int| s[i] as u8)
}

/// Every byte is below 128, so the bytes spell ASCII text.
pub open spec fn is_ascii_bytes(b: Seq<u8>) -> bool {
    forall|i: int| 0 <= i < b.len() ==> b[i] < 128u8
}

/// Relies on `String::from_utf8`: ASCII bytes are valid UTF-8 and each
/// byte becomes the character of the same code point.
#[verifier::external_body]
pub(crate) fn ascii_to_string(v: Vec<u8>) -> (r: String)
    requires
        is_ascii_bytes(v@),
    ensures
        r@ == chars_of_bytes(v@),
        bytes_of_chars(r@) == v@,
{
    match String::from_utf8(v) {
        Ok(s) => s,
        Err(_) => String::new(),
    }
}

} // verus!
