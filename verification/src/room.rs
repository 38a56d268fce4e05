//! Room identifiers: opaque 6-digit decimal strings, drawn independently
//! per pairing event. Collisions are not checked; at this volume the
//! birthday bound on one million identifiers is accepted by design.

use vstd::prelude::*;

verus! {

/// Number of decimal digits in a room identifier.
pub const ROOM_ID_LEN: usize = 6;

/// A decimal digit character.
pub open spec fn is_digit_char(c: char) -> bool {
    ('0' as u32) <= (c as u32) && (c as u32) <= ('9' as u32)
}

/// A well-formed room identifier: exactly `ROOM_ID_LEN` decimal digits.
pub open spec fn is_room_id(s: Seq<char>) -> bool {
    &&& s.len() == ROOM_ID_LEN
    &&& forall|i: int| 0 <= i < s.len() ==> is_digit_char(#[trigger] s[i])
}

/// Relies on rand's `Rng::gen_range`, which returns a value within the
/// given (non-empty) range; here the range `0..10`.
#[verifier::external_body]
fn random_digit() -> (d: u8)
    ensures
        d < 10,
{
    rand::Rng::gen_range(&mut rand::thread_rng(), 0..10u8)
}

/// The one-character string for a decimal digit value.
fn digit_str(d: u8) -> (r: &'static str)
    requires
        d < 10,
    ensures
        r@.len() == 1,
        is_digit_char(r@[0]),
{
    proof {
        reveal_strlit("0");
        reveal_strlit("1");
        reveal_strlit("2");
        reveal_strlit("3");
        reveal_strlit("4");
        reveal_strlit("5");
        reveal_strlit("6");
        reveal_strlit("7");
        reveal_strlit("8");
        reveal_strlit("9");
    }
    match d {
        0 => "0",
        1 => "1",
        2 => "2",
        3 => "3",
        4 => "4",
        5 => "5",
        6 => "6",
        7 => "7",
        8 => "8",
        _ => "9",
    }
}

/// Draws a fresh room identifier: six independently random decimal digits.
/// No registry of identifiers in use is kept, so distinct pairing events
/// may in principle draw the same identifier.
pub fn generate_room_id() -> (r: String)
    ensures
        is_room_id(r@),
{
    let mut id = String::new();
    let mut i: usize = 0;
    while i < ROOM_ID_LEN
        invariant
            i <= ROOM_ID_LEN,
            id@.len() == i,
            forall|j: int| 0 <= j < id@.len() ==> is_digit_char(#[trigger] id@[j]),
        decreases ROOM_ID_LEN - i,
    {
        let d = random_digit();
        id.append(digit_str(d));
        i = i + 1;
    }
    id
}

} // verus!
