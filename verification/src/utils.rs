//! The content-addressing scheme: a filename's digest directory is the
//! hex encoding of the first byte of the BLAKE2b-512 digest of the name.

use vstd::prelude::*;

use crate::strutil::push_char;

verus! {

/// The first byte of the BLAKE2b-512 digest of a filename.  The digest is a
/// function of the hashed bytes alone, so this is a pure function of the
/// characters of the name.
pub uninterp spec fn blake2b_first_byte(s: Seq<char>) -> u8;

/// Relies on blake2's Blake2b512 hasher (through the digest traits): the
/// digest depends on the hashed bytes alone, and its first byte is named
/// by blake2b_first_byte.
#[verifier::external_body]
fn blake2b512_first(name: &str) -> (r: u8)
    ensures
        r == blake2b_first_byte(name@),
{
    let mut hasher = <blake2::Blake2b512 as blake2::Digest>::new();
    blake2::Digest::update(&mut hasher, name.as_bytes());
    blake2::Digest::finalize(hasher)[0]
}

/// The lowercase hex character for a nibble.
pub open spec fn hex_digit(n: u8) -> char {
    if n == 0 {
        '0'
    } else if n == 1 {
        '1'
    } else if n == 2 {
        '2'
    } else if n == 3 {
        '3'
    } else if n == 4 {
        '4'
    } else if n == 5 {
        '5'
    } else if n == 6 {
        '6'
    } else if n == 7 {
        '7'
    } else if n == 8 {
        '8'
    } else if n == 9 {
        '9'
    } else if n == 10 {
        'a'
    } else if n == 11 {
        'b'
    } else if n == 12 {
        'c'
    } else if n == 13 {
        'd'
    } else if n == 14 {
        'e'
    } else {
        'f'
    }
}

/// The two-character digest directory of a filename.
pub open spec fn spec_digest_dir(s: Seq<char>) -> Seq<char> {
    seq![
        hex_digit(blake2b_first_byte(s) / 16),
        hex_digit(blake2b_first_byte(s) % 16),
    ]
}

/// Whether a character is a lowercase hex digit.
pub open spec fn is_lower_hex(c: char) -> bool {
    c == '0' || c == '1' || c == '2' || c == '3' || c == '4' || c == '5' || c == '6' || c == '7'
        || c == '8' || c == '9' || c == 'a' || c == 'b' || c == 'c' || c == 'd' || c == 'e'
        || c == 'f'
}

/// Law: for every filename, the digest directory is a two-character
/// lowercase hex string, and it is exactly the hex encoding of the first
/// byte of the BLAKE2b-512 digest of the name.
pub proof fn lemma_digest_dir_form(s: Seq<char>)
    ensures
        spec_digest_dir(s).len() == 2,
        forall|i: int| 0 <= i < 2 ==> is_lower_hex(#[trigger] spec_digest_dir(s)[i]),
        spec_digest_dir(s)[0] == hex_digit(blake2b_first_byte(s) / 16),
        spec_digest_dir(s)[1] == hex_digit(blake2b_first_byte(s) % 16),
{
}

/// The lowercase hex character for a nibble.
fn hex_char(n: u8) -> (r: char)
    requires
        n < 16,
    ensures
        r == hex_digit(n),
{
    match n {
        0 => '0',
        1 => '1',
        2 => '2',
        3 => '3',
        4 => '4',
        5 => '5',
        6 => '6',
        7 => '7',
        8 => '8',
        9 => '9',
        10 => 'a',
        11 => 'b',
        12 => 'c',
        13 => 'd',
        14 => 'e',
        _ => 'f',
    }
}

/// The directory a distfile is stored under: the hex encoding of the first
/// byte of the BLAKE2b-512 digest of its name, two lowercase hex characters.
pub fn filename_hash_dir_blake2b(name: &str) -> (r: String)
    ensures
        r@ == spec_digest_dir(name@),
{
    let b = blake2b512_first(name);
    let mut s = String::new();
    push_char(&mut s, hex_char(b / 16));
    push_char(&mut s, hex_char(b % 16));
    proof {
        assert(s@ =~= spec_digest_dir(name@));
    }
    s
}

} // verus!
