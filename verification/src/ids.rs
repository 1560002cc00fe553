//! Trusted boundary around the `uuid` crate: player identifiers.

use vstd::prelude::*;
use crate::types::PlayerId;

verus! {

/// The lower-case hexadecimal digit of a value below sixteen.
pub open spec fn hex_digit(n: u128) -> char {
    if n == 0 {
        '0'
    } else if n == 1 {
        '1'
    } else if n == 2 {
        '2'
    } else if n == 3 {
        '3'
    } else if n == 4 {
        '4'
    } else if n == 5 {
        '5'
    } else if n == 6 {
        '6'
    } else if n == 7 {
        '7'
    } else if n == 8 {
        '8'
    } else if n == 9 {
        '9'
    } else if n == 10 {
        'a'
    } else if n == 11 {
        'b'
    } else if n == 12 {
        'c'
    } else if n == 13 {
        'd'
    } else if n == 14 {
        'e'
    } else {
        'f'
    }
}

/// The character at place `i` of the text of an identifier: a hyphen at the
/// places 8, 13, 18 and 23, else the next of the 32 hexadecimal digits of the
/// number, highest first.
pub open spec fn player_id_char(id: PlayerId, i: int) -> char {
    if i == 8 || i == 13 || i == 18 || i == 23 {
        '-'
    } else {
        let k: int = if i < 8 {
            i
        } else if i < 13 {
            i - 1
        } else if i < 18 {
            i - 2
        } else if i < 23 {
            i - 3
        } else {
            i - 4
        };
        hex_digit(((id as int) / vstd::arithmetic::power::pow(16, (31 - k) as nat) % 16) as u128)
    }
}

/// The text of an identifier: 36 characters in five groups.
pub open spec fn player_id_string(id: PlayerId) -> Seq<char> {
    Seq::new(36, |i: int| player_id_char(id, i))
}

/// `uuid::Uuid::new_v4`: a random identifier. Nothing is promised of it.
#[verifier::external_body]
pub(crate) fn random_player_id() -> (id: PlayerId) {
    uuid::Uuid::new_v4().as_u128()
}

/// `uuid::Uuid::from_u128` and the `Display` of the result: the identifier in
/// hyphenated lower-case hexadecimal.
#[verifier::external_body]
pub(crate) fn player_id_text(id: PlayerId) -> (text: String)
    ensures
        text@ == player_id_string(id),
{
    uuid::Uuid::from_u128(id).to_string()
}

} // verus!
