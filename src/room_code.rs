//! Shareable room codes: eight symbols of the 58-symbol alphabet
//! `1-9 A-H J-N P-Z a-k m-z`, which leaves out `0`, `O`, `I` and `l`.

use vstd::prelude::*;

verus! {

/// The number of symbols in a room code.
pub const CODE_LEN: usize = 8;

/// The number of symbols in the alphabet.
pub const ALPHABET_LEN: u8 = 58;

/// Symbol `v` of the alphabet, for `v < 58`.
pub open spec fn code_symbol(v: u8) -> char {
    if v < 9 {
        ((v + 0x31) as u8) as char
    } else if v < 17 {
        ((v - 9 + 0x41) as u8) as char
    } else if v < 22 {
        ((v - 17 + 0x4a) as u8) as char
    } else if v < 33 {
        ((v - 22 + 0x50) as u8) as char
    } else if v < 44 {
        ((v - 33 + 0x61) as u8) as char
    } else {
        ((v - 44 + 0x6d) as u8) as char
    }
}

/// The room code drawn from the random bytes `b`: byte `i` picks symbol
/// `b[i] % 58`.
pub open spec fn code_of(b: Seq<u8>) -> Seq<char> {
    Seq::new(b.len(), |i: int| code_symbol((b[i] % 58) as u8))
}

/// Symbol `v` of the alphabet.
pub fn symbol(v: u8) -> (c: char)
    requires
        v < ALPHABET_LEN,
    ensures
        c == code_symbol(v),
{
    if v < 9 {
        (v + 0x31) as char
    } else if v < 17 {
        (v - 9 + 0x41) as char
    } else if v < 22 {
        (v - 17 + 0x4a) as char
    } else if v < 33 {
        (v - 22 + 0x50) as char
    } else if v < 44 {
        (v - 33 + 0x61) as char
    } else {
        (v - 44 + 0x6d) as char
    }
}

/// Relies on `String::push`: the character is appended at the end.
#[verifier::external_body]
fn push_char(s: &mut String, c: char)
    ensures
        final(s)@ == old(s)@.push(c),
{
    s.push(c)
}

/// The room code for the random bytes `bytes`.
pub fn room_code(bytes: &[u8; CODE_LEN]) -> (code: String)
    ensures
        code@ == code_of(bytes@),
{
    let mut code = String::new();
    let mut i: usize = 0;
    while i < CODE_LEN
        invariant
            i <= CODE_LEN,
            bytes@.len() == CODE_LEN,
            code@ == code_of(bytes@.subrange(0, i as int)),
        decreases CODE_LEN - i,
    {
        let c = symbol(bytes[i] % ALPHABET_LEN);
        push_char(&mut code, c);
        i += 1;
        assert(code@ =~= code_of(bytes@.subrange(0, i as int)));
    }
    assert(bytes@.subrange(0, CODE_LEN as int) =~= bytes@);
    code
}

} // verus!
