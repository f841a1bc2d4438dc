//! The breakit challenge: a fresh random string per overlay, typed out
//! (no paste) as the early exit from a break.
use rand::Rng;
use vstd::prelude::*;

use crate::state::{clamp_u32, clamped, BREAKIT_MAX_LENGTH, BREAKIT_MIN_LENGTH};

verus! {

/// Letters and digits without the look-alike pairs 0/O and 1/l/I.
pub open spec fn alphanumeric_set() -> Seq<char> {
    "ABCDEFGHJKLMNPQRSTUVWXYZabcdefghijkmnopqrstuvwxyz23456789"@
}

pub open spec fn special_set() -> Seq<char> {
    "!@#$%^&*()-_=+[]{}"@
}

/// The characters a challenge draws from.
pub open spec fn charset_spec(include_special: bool) -> Seq<char> {
    if include_special {
        alphanumeric_set() + special_set()
    } else {
        alphanumeric_set()
    }
}

pub fn charset(include_special: bool) -> (r: Vec<char>)
    ensures
        r@ == charset_spec(include_special),
        r@.len() > 0,
{
    let mut v = crate::text::to_chars("ABCDEFGHJKLMNPQRSTUVWXYZabcdefghijkmnopqrstuvwxyz23456789");
    proof {
        reveal_strlit("ABCDEFGHJKLMNPQRSTUVWXYZabcdefghijkmnopqrstuvwxyz23456789");
    }
    if include_special {
        let mut s = crate::text::to_chars("!@#$%^&*()-_=+[]{}");
        v.append(&mut s);
    }
    v
}

/// `thread_rng().gen_range(0..upper)`: some index below `upper`, at random.
#[verifier::external_body]
fn random_below(upper: usize) -> (r: usize)
    requires
        upper > 0,
    ensures
        r < upper,
{
    rand::thread_rng().gen_range(0..upper)
}

/// A fresh challenge: `length` clamped into `[4, 64]` characters, each
/// drawn at random from the charset.
pub fn generate_challenge(length: u32, include_special: bool) -> (r: String)
    ensures
        r@.len() == clamped(length as int, BREAKIT_MIN_LENGTH as int, BREAKIT_MAX_LENGTH as int),
        forall|i: int| 0 <= i < r@.len() ==> charset_spec(include_special).contains(#[trigger] r@[i]),
{
    let set = charset(include_special);
    let n = clamp_u32(length, BREAKIT_MIN_LENGTH, BREAKIT_MAX_LENGTH);
    let mut out: Vec<char> = Vec::new();
    let mut i: u32 = 0;
    while i < n
        invariant
            i <= n,
            out@.len() == i,
            set@ == charset_spec(include_special),
            set@.len() > 0,
            forall|k: int| 0 <= k < out@.len() ==> set@.contains(#[trigger] out@[k]),
        decreases n - i,
    {
        let j = random_below(set.len());
        let c = set[j];
        out.push(c);
        proof {
            assert(set@[j as int] == c);
        }
        i = i + 1;
    }
    crate::text::string_from_chars(out.as_slice())
}

} // verus!
