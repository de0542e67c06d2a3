use crate::data::sign::Sign;
use crate::glob::chars_of;
use vstd::prelude::*;
use vstd::utf8::{decode_utf8, valid_utf8};

verus! {

/// The number of a character in Unicode.
pub open spec fn code(c: char) -> int {
    c as u32 as int
}

/// How text `a` from position `i` on stands to text `b` from position `i` on. Texts
/// are ordered character by character, by the characters' numbers; where one text is
/// the beginning of the other, the shorter one comes first.
pub open spec fn text_sign_from(a: Seq<char>, b: Seq<char>, i: int) -> Sign
    decreases a.len() - i,
{
    if i < 0 {
        Sign::Same
    } else if i >= a.len() {
        if i >= b.len() {
            Sign::Same
        } else {
            Sign::Before
        }
    } else if i >= b.len() {
        Sign::After
    } else if code(a[i]) < code(b[i]) {
        Sign::Before
    } else if code(a[i]) > code(b[i]) {
        Sign::After
    } else {
        text_sign_from(a, b, i + 1)
    }
}

/// How text `a` stands to text `b`.
pub open spec fn text_sign(a: Seq<char>, b: Seq<char>) -> Sign {
    text_sign_from(a, b, 0)
}

/// Orders two texts.
pub fn compare_text(a: &str, b: &str) -> (sign: Sign)
    ensures
        sign == text_sign(a@, b@),
{
    let x = chars_of(a);
    let y = chars_of(b);
    let mut i: usize = 0;
    loop
        invariant
            i <= x.len(),
            i <= y.len(),
            x@ == a@,
            y@ == b@,
            text_sign(a@, b@) == text_sign_from(a@, b@, i as int),
        decreases x.len() - i,
    {
        if i == x.len() {
            return if i == y.len() {
                Sign::Same
            } else {
                Sign::Before
            };
        }
        if i == y.len() {
            return Sign::After;
        }
        let p: u32 = x[i] as u32;
        let q: u32 = y[i] as u32;
        if p < q {
            return Sign::Before;
        }
        if p > q {
            return Sign::After;
        }
        i += 1;
    }
}

/// Reads bytes as text with `std::str::from_utf8`. The contract is not proved: it says
/// that the text is there exactly where the bytes are valid UTF-8, and that it is then
/// the text that the bytes encode.
#[verifier::external_body]
fn utf8_text(bytes: &[u8]) -> (r: Option<&str>)
    ensures
        r is Some <==> valid_utf8(bytes@),
        r matches Some(s) ==> s@ == decode_utf8(bytes@),
{
    std::str::from_utf8(bytes).ok()
}

/// The text that a path spells, where its bytes are valid UTF-8.
pub fn path_text(path: &Vec<u8>) -> (r: Option<&str>)
    ensures
        r is Some <==> valid_utf8(path@),
        r matches Some(s) ==> s@ == decode_utf8(path@),
{
    utf8_text(path.as_slice())
}

} // verus!
