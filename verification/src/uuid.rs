//! Random identifier generation: a 36-character version-4-formatted
//! identifier built from 36 random bytes, used by the layers above the store
//! for transaction and client identifiers.

use vstd::pervasive::VecAdditionalExecFns;
use vstd::prelude::*;

verus! {

/// Why random bytes could not be drawn.
#[derive(Debug)]
pub enum UuidError {
    NoCryptoGetRandomValues(String),
}

/// The character printed for one hexadecimal digit.
pub open spec fn hex_char(d: int) -> char {
    if d == 0 {
        '0'
    } else if d == 1 {
        '1'
    } else if d == 2 {
        '2'
    } else if d == 3 {
        '3'
    } else if d == 4 {
        '4'
    } else if d == 5 {
        '5'
    } else if d == 6 {
        '6'
    } else if d == 7 {
        '7'
    } else if d == 8 {
        '8'
    } else if d == 9 {
        '9'
    } else if d == 10 {
        'a'
    } else if d == 11 {
        'b'
    } else if d == 12 {
        'c'
    } else if d == 13 {
        'd'
    } else if d == 14 {
        'e'
    } else {
        'f'
    }
}

/// The character standing at one position of the identifier: hyphens at the
/// four group breaks, the version digit, the variant digit drawn from the
/// range eight to eleven, and a low hex digit of the position's byte
/// everywhere else.
pub open spec fn uuid_char(bytes: Seq<u8>, i: int) -> char {
    if i == 8 || i == 13 || i == 18 || i == 23 {
        '-'
    } else if i == 14 {
        '4'
    } else if i == 19 {
        hex_char((bytes[i] & 3) + 8)
    } else {
        hex_char((bytes[i] & 15) as int)
    }
}

/// The whole 36-character identifier printed for 36 bytes.
pub open spec fn uuid_text(bytes: Seq<u8>) -> Seq<char> {
    Seq::new(36, |i: int| uuid_char(bytes, i))
}

/// Whether a character is a lowercase hexadecimal digit.
pub open spec fn is_hex_digit(c: char) -> bool {
    exists|d: int| 0 <= d < 16 && c == hex_char(d)
}

/// The shape of a well-formed identifier: 36 characters, hyphens at the four
/// group breaks, the version digit `4`, a variant digit in `8`, `9`, `a`,
/// `b`, and hex digits everywhere else.
pub open spec fn is_uuid_v4(s: Seq<char>) -> bool {
    &&& s.len() == 36
    &&& forall|i: int|
        0 <= i < 36 && (i == 8 || i == 13 || i == 18 || i == 23) ==> #[trigger] s[i] == '-'
    &&& s[14] == '4'
    &&& s[19] == '8' || s[19] == '9' || s[19] == 'a' || s[19] == 'b'
    &&& forall|i: int|
        0 <= i < 36 && !(i == 8 || i == 13 || i == 18 || i == 23 || i == 14) ==> is_hex_digit(
            #[trigger] s[i],
        )
}

/// Whatever 36 bytes are drawn, the identifier printed for them is
/// well-formed.
pub proof fn lemma_uuid_text_well_formed(bytes: Seq<u8>)
    requires
        bytes.len() == 36,
    ensures
        is_uuid_v4(uuid_text(bytes)),
{
    let s = uuid_text(bytes);
    assert forall|i: int|
        0 <= i < 36 && !(i == 8 || i == 13 || i == 18 || i == 23 || i == 14) implies is_hex_digit(
        #[trigger] s[i],
    ) by {
        let b = bytes[i];
        if i == 19 {
            let d = (b & 3) + 8;
            assert(b & 3 < 4) by (bit_vector);
            assert(0 <= d < 16 && s[i] == hex_char(d));
        } else {
            let d = (b & 15) as int;
            assert(b & 15 < 16) by (bit_vector);
            assert(0 <= d < 16 && s[i] == hex_char(d));
        }
    }
    let b19 = bytes[19];
    assert(b19 & 3 < 4) by (bit_vector);
}

/// The ASCII byte printed for one hexadecimal digit.
fn hex_digit(d: u8) -> (c: u8)
    requires
        d < 16,
    ensures
        c < 128,
        c as char == hex_char(d as int),
{
    if d < 10 {
        48 + d
    } else {
        97 + (d - 10)
    }
}

/// Relies on String::from_utf8: bytes below 128 decode one-for-one to the
/// characters with the same code points.
#[verifier::external_body]
fn ascii_to_string(bytes: Vec<u8>) -> (r: String)
    requires
        forall|i: int| 0 <= i < bytes@.len() ==> bytes@[i] < 128,
    ensures
        r@ == bytes@.map(|_i: int, b: u8| b as char),
{
    String::from_utf8(bytes).unwrap_or_default()
}

/// Relies on rand::random: one byte drawn from the thread-local generator;
/// nothing is promised of its value.
#[verifier::external_body]
fn random_byte() -> u8 {
    rand::random::<u8>()
}

/// Overwrite every byte of the buffer with a freshly drawn random byte.
pub fn make_random_numbers(numbers: &mut Vec<u8>) -> (r: Result<(), UuidError>)
    ensures
        r is Ok,
        final(numbers)@.len() == old(numbers)@.len(),
{
    let mut i: usize = 0;
    while i < numbers.len()
        invariant
            i <= numbers@.len(),
            numbers@.len() == old(numbers)@.len(),
        decreases numbers@.len() - i,
    {
        let b = random_byte();
        numbers.set(i, b);
        i = i + 1;
    }
    Ok(())
}

/// Print 36 bytes as the canonical 36-character identifier text.
pub fn uuid_from_numbers(random_numbers: &[u8]) -> (r: String)
    requires
        random_numbers@.len() == 36,
    ensures
        r@ == uuid_text(random_numbers@),
{
    let mut ascii: Vec<u8> = Vec::new();
    let mut i: usize = 0;
    while i < 36
        invariant
            i <= 36,
            ascii@.len() == i,
            random_numbers@.len() == 36,
            forall|j: int|
                0 <= j < i ==> #[trigger] ascii@[j] < 128 && ascii@[j] as char == uuid_char(
                    random_numbers@,
                    j,
                ),
        decreases 36 - i,
    {
        let c: u8 = if i == 8 || i == 13 || i == 18 || i == 23 {
            45
        } else if i == 14 {
            52
        } else if i == 19 {
            let masked = random_numbers[i] & 3;
            proof {
                let b = random_numbers@[i as int];
                assert(b & 3 < 4) by (bit_vector);
            }
            hex_digit(masked + 8)
        } else {
            let masked = random_numbers[i] & 15;
            proof {
                let b = random_numbers@[i as int];
                assert(b & 15 < 16) by (bit_vector);
            }
            hex_digit(masked)
        };
        ascii.push(c);
        i = i + 1;
    }
    let r = ascii_to_string(ascii);
    proof {
        assert(r@ =~= uuid_text(random_numbers@));
    }
    r
}

/// A fresh version-4-formatted random identifier. The thread-local random
/// source never reports failure, so neither does this function.
pub fn uuid() -> (r: Result<String, UuidError>)
    ensures
        r is Ok,
        r matches Ok(s) ==> is_uuid_v4(s@),
{
    let mut numbers: Vec<u8> = vec![0u8; 36];
    make_random_numbers(&mut numbers)?;
    let s = uuid_from_numbers(numbers.as_slice());
    proof {
        lemma_uuid_text_well_formed(numbers@);
    }
    Ok(s)
}

} // verus!
