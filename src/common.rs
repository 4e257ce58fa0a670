//! Small text helpers shared by the greeter.

use vstd::prelude::*;
use vstd::string::*;

verus! {

/// `c` with `a` to `z` turned into capitals; every other character kept.
pub open spec fn ascii_upper(c: char) -> char {
    if 'a' <= c <= 'z' {
        ((c as u32) - 32) as char
    } else {
        c
    }
}

/// Whether every character of `s` is ASCII.
pub open spec fn all_ascii(s: Seq<char>) -> bool {
    forall|i: int| 0 <= i < s.len() ==> (#[trigger] s[i] as u32) < 128
}

/// Relies on `str::to_uppercase`: on ASCII text it capitalises `a` to `z`
/// and keeps every other character.
#[verifier::external_body]
fn to_uppercase(s: &str) -> (r: String)
    requires
        all_ascii(s@),
    ensures
        r@ == s@.map_values(|c: char| ascii_upper(c)),
{
    s.to_uppercase()
}

/// `string` with its first character capitalised. The first character must
/// be ASCII.
pub fn capitalize(string: &str) -> (r: String)
    requires
        string@.len() > 0,
        (string@[0] as u32) < 128,
    ensures
        r@ == seq![ascii_upper(string@[0])] + string@.subrange(1, string@.len() as int),
{
    let first = string.substring_char(0, 1);
    let rest = string.substring_char(1, string.unicode_len());
    assert(all_ascii(first@));
    let up = to_uppercase(first);
    assert(up@ =~= seq![ascii_upper(string@[0])]);
    up.concat(rest)
}

} // verus!
