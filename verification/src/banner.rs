//! The client's start-up banner, whose `#` marks become random bits.

use crate::text::{chars_of, string_of};
use vstd::prelude::*;

verus! {

/// `line` with the `#` at each position `i` replaced by `1` when `coins[i]`
/// is set and by `0` otherwise; every other character stays.
pub open spec fn filled_line(line: Seq<char>, coins: Seq<bool>) -> Seq<char> {
    Seq::new(
        line.len(),
        |i: int|
            if line[i] == '#' {
                if coins[i] {
                    '1'
                } else {
                    '0'
                }
            } else {
                line[i]
            },
    )
}

/// Fills the `#` marks of a banner line with the bits `coins`, one coin per
/// character of the line.
pub fn fill_banner_line(line: &str, coins: &[bool]) -> (filled: String)
    requires
        coins@.len() >= line@.len(),
    ensures
        filled@ == filled_line(line@, coins@),
{
    let chars = chars_of(line);
    let mut out: Vec<char> = Vec::new();
    let mut i: usize = 0;
    while i < chars.len()
        invariant
            chars@ == line@,
            coins@.len() >= line@.len(),
            i <= chars@.len(),
            out@ == filled_line(line@, coins@).take(i as int),
        decreases chars@.len() - i,
    {
        let c = chars[i];
        let shown = if c == '#' {
            if coins[i] {
                '1'
            } else {
                '0'
            }
        } else {
            c
        };
        out.push(shown);
        i = i + 1;
        assert(out@ =~= filled_line(line@, coins@).take(i as int));
    }
    assert(out@ =~= filled_line(line@, coins@));
    string_of(out.as_slice())
}

} // verus!
