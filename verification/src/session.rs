//! The registry side of a client session: rendering the short subscriber id
//! from a random seed, and picking a seed that is free in the registry —
//! the retry that answers a `Duplicate` insertion.

use vstd::prelude::*;

use crate::registry::has_id;
use crate::registry::Registry;

verus! {

/// The hexadecimal digit `d` as a character.
pub open spec fn spec_hex_digit(d: nat) -> Seq<char> {
    if d < 10 {
        crate::frame::spec_digit(d)
    } else if d == 10 {
        "a"@
    } else if d == 11 {
        "b"@
    } else if d == 12 {
        "c"@
    } else if d == 13 {
        "d"@
    } else if d == 14 {
        "e"@
    } else {
        "f"@
    }
}

/// `n` written in lowercase hexadecimal, most significant digit first.
pub open spec fn spec_hex_u64(n: nat) -> Seq<char>
    decreases n,
{
    if n < 16 {
        spec_hex_digit(n)
    } else {
        spec_hex_u64(n / 16) + spec_hex_digit(n % 16)
    }
}

fn hex_digit_str(d: u64) -> (r: &'static str)
    requires
        d < 16,
    ensures
        r@ == spec_hex_digit(d as nat),
{
    match d {
        0 => "0",
        1 => "1",
        2 => "2",
        3 => "3",
        4 => "4",
        5 => "5",
        6 => "6",
        7 => "7",
        8 => "8",
        9 => "9",
        10 => "a",
        11 => "b",
        12 => "c",
        13 => "d",
        14 => "e",
        _ => "f",
    }
}

fn append_hex_u64(out: &mut String, n: u64)
    ensures
        final(out)@ == old(out)@ + spec_hex_u64(n as nat),
    decreases n,
{
    if n < 16 {
        out.append(hex_digit_str(n));
    } else {
        append_hex_u64(out, n / 16);
        out.append(hex_digit_str(n % 16));
        assert(out@ =~= old(out)@ + spec_hex_u64(n as nat));
    }
}

/// The short, URL-safe subscriber id allocated at connect time: the random
/// seed written in lowercase hexadecimal.
pub fn subscriber_id_string(seed: u64) -> (r: String)
    ensures
        r@ == spec_hex_u64(seed as nat),
{
    let mut out = String::new();
    append_hex_u64(&mut out, seed);
    out
}

/// Picks the first of the freshly drawn random seeds that is free in the
/// registry: the id the session then registers under. Yields nothing
/// exactly when every seed collides — the caller draws new seeds and
/// retries.
pub fn allocate_id(reg: &Registry, seeds: &Vec<u64>) -> (r: Option<u64>)
    ensures
        match r {
            Some(id) => exists|i: int|
                0 <= i < seeds@.len() && #[trigger] seeds@[i] == id && !has_id(reg@, id) && forall|
                    j: int,
                |
                    0 <= j < i ==> has_id(reg@, #[trigger] seeds@[j]),
            None => forall|i: int| 0 <= i < seeds@.len() ==> has_id(reg@, #[trigger] seeds@[i]),
        },
{
    let mut i: usize = 0;
    while i < seeds.len()
        invariant
            i <= seeds@.len(),
            forall|j: int| 0 <= j < i ==> has_id(reg@, #[trigger] seeds@[j]),
        decreases seeds@.len() - i,
    {
        let id = seeds[i];
        if !reg.contains(id) {
            return Some(id);
        }
        i = i + 1;
    }
    None
}

} // verus!
