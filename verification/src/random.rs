//! Random draws, and what is made of them.
use rand::Rng;
use vstd::prelude::*;

verus! {

/// The operating system's random number generator, as the `rand` crate
/// offers it. Nothing is known of its state.
#[verifier::external_type_specification]
#[verifier::external_body]
pub struct ExOsRng(rand::OsRng);

/// Draws 32 bits from the generator: `Rng::gen::<u32>` of the `rand` crate.
/// Nothing is claimed of the value drawn. The generator stops the process
/// if the system's source of randomness fails.
#[verifier::external_body]
pub(crate) fn draw_u32(rng: &mut rand::OsRng) -> (draw: u32) {
    rng.gen::<u32>()
}

/// Draws a machine word from the generator: `Rng::gen::<usize>` of the
/// `rand` crate. Nothing is claimed of the value drawn. The generator stops
/// the process if the system's source of randomness fails.
#[verifier::external_body]
pub(crate) fn draw_usize(rng: &mut rand::OsRng) -> (draw: usize) {
    rng.gen::<usize>()
}

/// Draws a byte from the generator of the current thread: `thread_rng` and
/// `Rng::gen::<u8>` of the `rand` crate. Nothing is claimed of the value
/// drawn. The generator stops the process if the system offers no entropy.
#[verifier::external_body]
fn draw_byte() -> (draw: u8) {
    rand::thread_rng().gen::<u8>()
}

/// Appends one character to a string: `String::push` of std. The string
/// afterwards is the string before with the character at its end.
#[verifier::external_body]
fn push_char(s: &mut String, c: char)
    ensures
        final(s)@ == old(s)@.push(c),
{
    s.push(c)
}

/// The lowercase letter that a byte stands for: the bytes are dealt out to
/// the 26 letters in turn, starting with `a` for 0.
pub open spec fn letter_of(byte: u8) -> char {
    ((byte % 26 + 97) as u8) as char
}

/// Whether a character is one of the 26 lowercase ASCII letters.
pub open spec fn is_lowercase_letter(c: char) -> bool {
    'a' <= c <= 'z'
}

/// Every byte stands for a lowercase letter.
pub proof fn lemma_letter_of_is_lowercase(byte: u8)
    ensures
        is_lowercase_letter(letter_of(byte)),
{
}

/// The text whose characters are the letters that the bytes stand for.
pub open spec fn letters_of(bytes: Seq<u8>) -> Seq<char> {
    Seq::new(bytes.len(), |i: int| letter_of(bytes[i]))
}

/// The lowercase letter that a byte stands for.
pub fn lowercase_letter(byte: u8) -> (c: char)
    ensures
        c == letter_of(byte),
{
    (byte % 26 + 97) as char
}

/// The text whose characters are the letters that the bytes stand for, one
/// for each byte and in their order.
pub fn lowercase_text(bytes: &Vec<u8>) -> (text: String)
    ensures
        text@ == letters_of(bytes@),
{
    let mut text = String::new();
    let mut i: usize = 0;
    while i < bytes.len()
        invariant
            i <= bytes.len(),
            text@ == letters_of(bytes@.take(i as int)),
        decreases bytes.len() - i,
    {
        push_char(&mut text, lowercase_letter(bytes[i]));
        proof {
            assert(text@ =~= letters_of(bytes@.take(i + 1)));
        }
        i += 1;
    }
    proof {
        assert(bytes@.take(bytes.len() as int) =~= bytes@);
    }
    text
}

/// A random text of `len` lowercase ASCII letters.
pub fn random_ascii_lowercase(len: usize) -> (text: String)
    ensures
        text@.len() == len,
        forall|i: int| 0 <= i < len ==> is_lowercase_letter(#[trigger] text@[i]),
{
    let mut bytes: Vec<u8> = Vec::new();
    let mut i: usize = 0;
    while i < len
        invariant
            i <= len,
            bytes@.len() == i,
        decreases len - i,
    {
        bytes.push(draw_byte());
        i += 1;
    }
    let text = lowercase_text(&bytes);
    proof {
        assert forall|i: int| 0 <= i < len implies is_lowercase_letter(#[trigger] text@[i]) by {
            lemma_letter_of_is_lowercase(bytes@[i]);
        }
    }
    text
}

} // verus!
