//! Short-code generation: six characters drawn at random from the 62-symbol
//! alphabet `a`-`z`, `A`-`Z`, `0`-`9`.

use rand::Rng;
use vstd::prelude::*;

verus! {

/// Number of symbols in the code alphabet: 26 lower-case letters,
/// 26 upper-case letters and 10 digits.
pub const ALPHABET_SIZE: u8 = 62;

/// Length of every short code.
pub const CODE_LEN: usize = 6;

/// ASCII code point of `'a'`.
pub const LOWER_A: u8 = 97;

/// ASCII code point of `'A'`.
pub const UPPER_A: u8 = 65;

/// ASCII code point of `'0'`.
pub const DIGIT_0: u8 = 48;

/// A byte of the code alphabet: `a`-`z`, `A`-`Z` or `0`-`9`.
pub open spec fn code_byte(b: u8) -> bool {
    ||| LOWER_A <= b <= LOWER_A + 25
    ||| UPPER_A <= b <= UPPER_A + 25
    ||| DIGIT_0 <= b <= DIGIT_0 + 9
}

/// A character of the code alphabet: `a`-`z`, `A`-`Z` or `0`-`9`.
pub open spec fn code_char(c: char) -> bool {
    ||| 'a' as u32 <= c as u32 <= 'z' as u32
    ||| 'A' as u32 <= c as u32 <= 'Z' as u32
    ||| '0' as u32 <= c as u32 <= '9' as u32
}

/// A well-formed short code: exactly six characters, all over the alphabet.
pub open spec fn valid_code(s: Seq<char>) -> bool {
    &&& s.len() == CODE_LEN
    &&& forall|i: int| 0 <= i < s.len() ==> code_char(#[trigger] s[i])
}

/// Relies on `rand::thread_rng` and `rand::Rng::gen_range`: sampling from the
/// non-empty range `0..62` returns a value of that range.
#[verifier::external_body]
fn random_index() -> (r: u8)
    ensures
        r < ALPHABET_SIZE,
{
    rand::thread_rng().gen_range(0..ALPHABET_SIZE)
}

/// The alphabet byte at a given index: lower-case letters first, then
/// capitals, then digits.
fn index_to_ascii(idx: u8) -> (b: u8)
    requires
        idx < ALPHABET_SIZE,
    ensures
        idx < 26 ==> b == LOWER_A + idx,
        26 <= idx < 52 ==> b == UPPER_A + (idx - 26),
        52 <= idx ==> b == DIGIT_0 + (idx - 52),
        code_byte(b),
{
    if idx <= 25 {
        LOWER_A + idx
    } else if idx <= 51 {
        UPPER_A + (idx - 26)
    } else {
        DIGIT_0 + (idx - 52)
    }
}

/// Relies on `String::from_utf8`: a sequence of ASCII bytes is valid UTF-8
/// and decodes to one character per byte, each with the byte's code point.
#[verifier::external_body]
fn ascii_to_string(bytes: Vec<u8>) -> (r: String)
    requires
        forall|i: int| 0 <= i < bytes@.len() ==> bytes@[i] < 128,
    ensures
        r@.len() == bytes@.len(),
        forall|i: int| 0 <= i < bytes@.len() ==> r@[i] as u32 == bytes@[i] as u32,
{
    // ASCII bytes are always valid UTF-8, so decoding cannot fail.
    String::from_utf8(bytes).unwrap_or_default()
}

/// Produce one candidate code: six symbols, each drawn independently from
/// the 62-symbol alphabet.
pub fn generate_short_code() -> (c: String)
    ensures
        valid_code(c@),
{
    let mut bytes: Vec<u8> = Vec::new();
    let mut i: usize = 0;
    while i < CODE_LEN
        invariant
            i <= CODE_LEN,
            bytes@.len() == i,
            forall|j: int| 0 <= j < i ==> code_byte(#[trigger] bytes@[j]),
        decreases CODE_LEN - i,
    {
        let idx = random_index();
        let b = index_to_ascii(idx);
        bytes.push(b);
        i += 1;
    }
    let ghost drawn = bytes@;
    let code = ascii_to_string(bytes);
    proof {
        assert forall|k: int| 0 <= k < code@.len() implies code_char(#[trigger] code@[k]) by {
            assert(code_byte(drawn[k]));
            assert(code@[k] as u32 == drawn[k] as u32);
        }
    }
    code
}

} // verus!
