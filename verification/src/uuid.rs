//! Names for sessions.

use crate::text;
use vstd::prelude::*;

verus! {

/// The name made of a time in milliseconds and a running number, both in hexadecimal.
pub open spec fn name(timestamp: u128, counter: u64) -> Seq<char> {
    text::hex(timestamp as nat) + text::hex(counter as nat)
}

/// The name made of a time in milliseconds and a running number, both in hexadecimal.
pub fn v4(timestamp: u128, counter: u64) -> (r: String)
    ensures
        r@ == name(timestamp, counter),
{
    let mut r = String::new();
    text::push_numeral(&mut r, timestamp, 16);
    text::push_numeral(&mut r, counter as u128, 16);
    assert(r@ =~= name(timestamp, counter));
    r
}

/// Sessions are told apart by their names: two names are the same only where both the times and the running
/// numbers are, as long as the times are written with as many digits.
pub proof fn names_differ(t: u128, c: u64, u: u128, d: u64)
    requires
        text::hex(t as nat).len() == text::hex(u as nat).len(),
        name(t, c) == name(u, d),
    ensures
        t == u,
        c == d,
{
    let (x, y) = (text::hex(t as nat), text::hex(u as nat));
    let n = x.len() as int;
    assert(name(t, c).take(n) =~= x);
    assert(name(u, d).take(n) =~= y);
    assert(name(t, c).skip(n) =~= text::hex(c as nat));
    assert(name(u, d).skip(n) =~= text::hex(d as nat));
    text::numerals_differ(t as nat, u as nat, 16);
    text::numerals_differ(c as nat, d as nat, 16);
}

} // verus!
