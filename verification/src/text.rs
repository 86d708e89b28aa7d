//! Character-level text handling for typed commands: splitting on a
//! separator, trimming white space, and reading decimal port numbers.

use vstd::prelude::*;

verus! {

broadcast use vstd::string::group_string_axioms;

/// Appends `c` with `String::push`: the text gains `c` at its end.
#[verifier::external_body]
fn push_char(s: &mut String, c: char)
    ensures
        final(s)@ == old(s)@.push(c),
{
    s.push(c)
}

/// The characters of `s`, in order.
pub fn chars_of(s: &str) -> (cs: Vec<char>)
    ensures
        cs@ == s@,
{
    let mut cs: Vec<char> = Vec::new();
    for c in it: s.chars()
        invariant
            it.seq() == s@,
            cs@ == s@.take(it.index()),
    {
        cs.push(c);
        assert(cs@ =~= s@.take(it.index() + 1));
    }
    assert(cs@ =~= s@);
    cs
}

/// The string made of the characters `cs`.
pub fn string_of(cs: &[char]) -> (s: String)
    ensures
        s@ == cs@,
{
    let mut s = String::new();
    let mut i: usize = 0;
    while i < cs.len()
        invariant
            i <= cs@.len(),
            s@ == cs@.take(i as int),
        decreases cs@.len() - i,
    {
        push_char(&mut s, cs[i]);
        i = i + 1;
        assert(s@ =~= cs@.take(i as int));
    }
    assert(s@ =~= cs@);
    s
}

/// The characters of `s` from position `start` on.
pub fn chars_after(s: &[char], start: usize) -> (rest: Vec<char>)
    requires
        start <= s@.len(),
    ensures
        rest@ == s@.skip(start as int),
{
    let mut rest: Vec<char> = Vec::new();
    let mut i: usize = start;
    while i < s.len()
        invariant
            start <= i <= s@.len(),
            rest@ == s@.subrange(start as int, i as int),
        decreases s@.len() - i,
    {
        rest.push(s[i]);
        i = i + 1;
        assert(rest@ =~= s@.subrange(start as int, i as int));
    }
    assert(rest@ =~= s@.skip(start as int));
    rest
}

/// Whether two character sequences are equal.
pub fn chars_equal(a: &[char], b: &[char]) -> (same: bool)
    ensures
        same == (a@ == b@),
{
    if a.len() != b.len() {
        return false;
    }
    let mut i: usize = 0;
    while i < a.len()
        invariant
            a@.len() == b@.len(),
            i <= a@.len(),
            forall|j: int| 0 <= j < i ==> a@[j] == b@[j],
        decreases a@.len() - i,
    {
        if a[i] != b[i] {
            return false;
        }
        i = i + 1;
    }
    assert(a@ =~= b@);
    true
}

/// Whether the characters `a` spell the literal `word`.
pub fn spells(a: &[char], word: &str) -> (same: bool)
    ensures
        same == (a@ == word@),
{
    let w = chars_of(word);
    chars_equal(a, w.as_slice())
}

/// The pieces of `s` between occurrences of `sep`, as `str::split` with a
/// one-character pattern gives them: one more piece than there are
/// separators, empty pieces included.
pub open spec fn split_pieces(s: Seq<char>, sep: char) -> Seq<Seq<char>>
    decreases s.len(),
{
    if s.len() == 0 {
        seq![Seq::<char>::empty()]
    } else {
        let prev = split_pieces(s.drop_last(), sep);
        if s.last() == sep {
            prev.push(Seq::<char>::empty())
        } else {
            prev.update(prev.len() - 1, prev.last().push(s.last()))
        }
    }
}

/// There is always at least one piece.
pub proof fn lemma_split_pieces_nonempty(s: Seq<char>, sep: char)
    ensures
        split_pieces(s, sep).len() >= 1,
    decreases s.len(),
{
    if s.len() > 0 {
        lemma_split_pieces_nonempty(s.drop_last(), sep);
    }
}

/// Appending text without separators extends the last piece.
pub proof fn lemma_split_pieces_extend(s: Seq<char>, t: Seq<char>, sep: char)
    requires
        forall|i: int| 0 <= i < t.len() ==> t[i] != sep,
    ensures
        split_pieces(s + t, sep) == split_pieces(s, sep).update(
            split_pieces(s, sep).len() - 1,
            split_pieces(s, sep).last() + t,
        ),
    decreases t.len(),
{
    lemma_split_pieces_nonempty(s, sep);
    let p = split_pieces(s, sep);
    if t.len() == 0 {
        assert(s + t =~= s);
        assert(p.last() + t =~= p.last());
        assert(p.update(p.len() - 1, p.last() + t) =~= p);
    } else {
        let front = t.drop_last();
        lemma_split_pieces_extend(s, front, sep);
        assert((s + t).drop_last() =~= s + front);
        assert((s + t).last() == t.last());
        assert(p.last() + front + seq![t.last()] =~= p.last() + t);
        assert((p.last() + front).push(t.last()) =~= p.last() + t);
        assert(split_pieces(s + t, sep) =~= p.update(p.len() - 1, p.last() + t));
    }
}

/// Appending a separator starts a new, empty piece.
pub proof fn lemma_split_pieces_separator(s: Seq<char>, sep: char)
    ensures
        split_pieces(s.push(sep), sep) == split_pieces(s, sep).push(Seq::<char>::empty()),
{
    assert(s.push(sep).drop_last() =~= s);
}

/// The views of character vectors.
pub open spec fn char_vec_views(vs: Seq<Vec<char>>) -> Seq<Seq<char>> {
    vs.map_values(|v: Vec<char>| v@)
}

/// Splits `s` at every `sep`.
pub fn split_on(s: &[char], sep: char) -> (pieces: Vec<Vec<char>>)
    ensures
        char_vec_views(pieces@) == split_pieces(s@, sep),
{
    let mut done: Vec<Vec<char>> = Vec::new();
    let mut current: Vec<char> = Vec::new();
    let mut i: usize = 0;
    assert(s@.take(0) =~= Seq::<char>::empty());
    assert(char_vec_views(done@).push(current@) =~= split_pieces(s@.take(0), sep));
    while i < s.len()
        invariant
            i <= s@.len(),
            char_vec_views(done@).push(current@) == split_pieces(s@.take(i as int), sep),
        decreases s@.len() - i,
    {
        let c = s[i];
        let ghost prefix = s@.take(i as int);
        let ghost next = s@.take(i + 1);
        assert(next.drop_last() =~= prefix);
        assert(next.last() == c);
        proof {
            lemma_split_pieces_nonempty(prefix, sep);
        }
        if c == sep {
            let finished = current;
            done.push(finished);
            current = Vec::new();
            assert(char_vec_views(done@).push(current@) =~= split_pieces(next, sep));
        } else {
            current.push(c);
            assert(char_vec_views(done@).push(current@) =~= split_pieces(next, sep));
        }
        i = i + 1;
    }
    assert(s@.take(s@.len() as int) =~= s@);
    done.push(current);
    assert(char_vec_views(done@) =~= split_pieces(s@, sep));
    done
}

/// Whether `c` has the Unicode White_Space property, as `char::is_whitespace`
/// decides it.
pub open spec fn is_white_space(c: char) -> bool {
    let v: u32 = c as u32;
    ||| v == 0x20
    ||| 0x09 <= v <= 0x0d
    ||| v == 0x85
    ||| v == 0xa0
    ||| v == 0x1680
    ||| 0x2000 <= v <= 0x200a
    ||| v == 0x2028
    ||| v == 0x2029
    ||| v == 0x202f
    ||| v == 0x205f
    ||| v == 0x3000
}

/// Whether `c` has the Unicode White_Space property.
pub fn white_space(c: char) -> (ws: bool)
    ensures
        ws == is_white_space(c),
{
    let v: u32 = c as u32;
    v == 0x20 || (0x09 <= v && v <= 0x0d) || v == 0x85 || v == 0xa0 || v == 0x1680 || (0x2000
        <= v && v <= 0x200a) || v == 0x2028 || v == 0x2029 || v == 0x202f || v == 0x205f || v
        == 0x3000
}

/// `s` without its leading white space.
pub open spec fn trim_start(s: Seq<char>) -> Seq<char>
    decreases s.len(),
{
    if s.len() > 0 && is_white_space(s[0]) {
        trim_start(s.drop_first())
    } else {
        s
    }
}

/// `s` without its trailing white space.
pub open spec fn trim_end(s: Seq<char>) -> Seq<char>
    decreases s.len(),
{
    if s.len() > 0 && is_white_space(s.last()) {
        trim_end(s.drop_last())
    } else {
        s
    }
}

/// `s` without leading and trailing white space, as `str::trim` gives it.
pub open spec fn trimmed(s: Seq<char>) -> Seq<char> {
    trim_end(trim_start(s))
}

/// The characters of `s` without leading and trailing white space.
pub fn trim(s: &[char]) -> (t: Vec<char>)
    ensures
        t@ == trimmed(s@),
{
    let mut lo: usize = 0;
    assert(s@.skip(0) =~= s@);
    while lo < s.len() && white_space(s[lo])
        invariant
            lo <= s@.len(),
            trim_start(s@) == trim_start(s@.skip(lo as int)),
        decreases s@.len() - lo,
    {
        assert(s@.skip(lo as int).drop_first() =~= s@.skip(lo + 1));
        lo = lo + 1;
    }
    let ghost front = s@.skip(lo as int);
    assert(trim_start(s@) == front);
    let mut hi: usize = s.len();
    assert(s@.subrange(lo as int, hi as int) =~= front);
    while hi > lo && white_space(s[hi - 1])
        invariant
            lo <= hi <= s@.len(),
            trim_end(front) == trim_end(s@.subrange(lo as int, hi as int)),
        decreases hi - lo,
    {
        assert(s@.subrange(lo as int, hi as int).drop_last() =~= s@.subrange(lo as int, hi - 1));
        hi = hi - 1;
    }
    let ghost kept = s@.subrange(lo as int, hi as int);
    assert(trim_end(kept) == kept);
    let mut t: Vec<char> = Vec::new();
    let mut i: usize = lo;
    while i < hi
        invariant
            lo <= i <= hi <= s@.len(),
            t@ == s@.subrange(lo as int, i as int),
        decreases hi - i,
    {
        t.push(s[i]);
        i = i + 1;
        assert(t@ =~= s@.subrange(lo as int, i as int));
    }
    t
}

/// Why a decimal number could not be read, as `str::parse::<u32>` reports it.
#[derive(Debug, Clone, Copy, PartialEq, Eq)]
pub enum ParseIntFailure {
    /// There were no characters.
    Empty,
    /// A character is not a decimal digit (a lone sign counts as one).
    InvalidDigit,
    /// The value does not fit in a `u32`.
    PosOverflow,
}

/// Whether `c` is one of the ASCII digits `0` to `9`.
pub open spec fn is_decimal_digit(c: char) -> bool {
    0x30 <= (c as u32) <= 0x39
}

/// The value of the ASCII digit `c`.
pub open spec fn decimal_digit_value(c: char) -> int {
    (c as u32) - 0x30
}

/// Reads the digits `d` left to right onto `acc`: a non-digit fails at once,
/// and so does a running value above `u32::MAX`, whichever comes first.
pub open spec fn scan_decimal(d: Seq<char>, acc: int) -> Result<int, ParseIntFailure>
    decreases d.len(),
{
    if d.len() == 0 {
        Ok(acc)
    } else if !is_decimal_digit(d[0]) {
        Err(ParseIntFailure::InvalidDigit)
    } else if acc * 10 + decimal_digit_value(d[0]) > u32::MAX {
        Err(ParseIntFailure::PosOverflow)
    } else {
        scan_decimal(d.drop_first(), acc * 10 + decimal_digit_value(d[0]))
    }
}

/// What `str::parse::<u32>` gives for the text `s`: an optional leading `+`,
/// then decimal digits.
pub open spec fn parsed_u32(s: Seq<char>) -> Result<u32, ParseIntFailure> {
    if s.len() == 0 {
        Err(ParseIntFailure::Empty)
    } else if s.len() == 1 && (s[0] == '+' || s[0] == '-') {
        Err(ParseIntFailure::InvalidDigit)
    } else {
        let digits = if s[0] == '+' {
            s.drop_first()
        } else {
            s
        };
        match scan_decimal(digits, 0) {
            Ok(v) => Ok(v as u32),
            Err(e) => Err(e),
        }
    }
}

/// Ten to the power `n`.
pub open spec fn pow10(n: nat) -> int
    decreases n,
{
    if n == 0 {
        1
    } else {
        10 * pow10((n - 1) as nat)
    }
}

/// The number that the ASCII digits `s` write in positional decimal
/// notation: each digit's value times ten to the number of digits after it,
/// summed.
pub open spec fn decimal_value(s: Seq<char>) -> int
    decreases s.len(),
{
    if s.len() == 0 {
        0
    } else {
        ((s[0] as u32) - 0x30) * pow10((s.len() - 1) as nat) + decimal_value(s.drop_first())
    }
}

/// Whether every character of `s` is one of the ASCII digits `0` to `9`.
pub open spec fn all_ascii_digits(s: Seq<char>) -> bool {
    forall|i: int| 0 <= i < s.len() ==> 0x30 <= (#[trigger] s[i] as u32) <= 0x39
}

proof fn lemma_pow10_positive(n: nat)
    ensures
        pow10(n) >= 1,
    decreases n,
{
    if n > 0 {
        lemma_pow10_positive((n - 1) as nat);
    }
}

proof fn lemma_decimal_value_nonnegative(s: Seq<char>)
    requires
        all_ascii_digits(s),
    ensures
        decimal_value(s) >= 0,
    decreases s.len(),
{
    if s.len() > 0 {
        let rest = s.drop_first();
        assert forall|i: int| 0 <= i < rest.len() implies 0x30 <= (#[trigger] rest[i] as u32) <= 0x39 by {
            assert(rest[i] == s[i + 1]);
        }
        lemma_decimal_value_nonnegative(rest);
        lemma_pow10_positive((s.len() - 1) as nat);
        let dig = (s[0] as u32) - 0x30;
        assert(0 <= dig <= 9);
        let p = pow10((s.len() - 1) as nat);
        assert(dig * p >= 0) by (nonlinear_arith)
            requires
                dig >= 0,
                p >= 1,
        ;
    }
}

/// Scanning digits onto `acc` gives `acc` shifted left by the digits plus
/// their value, as long as that stays within `u32`.
proof fn lemma_scan_decimal_value(d: Seq<char>, acc: int)
    requires
        all_ascii_digits(d),
        0 <= acc,
        acc * pow10(d.len()) + decimal_value(d) <= u32::MAX,
    ensures
        scan_decimal(d, acc) == Ok::<int, ParseIntFailure>(acc * pow10(d.len()) + decimal_value(d)),
    decreases d.len(),
{
    if d.len() > 0 {
        let n = d.len();
        let rest = d.drop_first();
        assert forall|i: int| 0 <= i < rest.len() implies 0x30 <= (#[trigger] rest[i] as u32) <= 0x39 by {
            assert(rest[i] == d[i + 1]);
        }
        let dig = (d[0] as u32) - 0x30;
        assert(0 <= dig <= 9);
        assert(is_decimal_digit(d[0]));
        assert(decimal_digit_value(d[0]) == dig);
        let p = pow10((n - 1) as nat);
        assert(pow10(n) == 10 * p);
        lemma_pow10_positive((n - 1) as nat);
        lemma_decimal_value_nonnegative(rest);
        let next = acc * 10 + dig;
        assert(decimal_value(d) == dig * p + decimal_value(rest));
        assert(next * p + decimal_value(rest) == acc * pow10(n) + decimal_value(d)) by (nonlinear_arith)
            requires
                next == acc * 10 + dig,
                pow10(n) == 10 * p,
                decimal_value(d) == dig * p + decimal_value(rest),
        ;
        assert(next <= next * p) by (nonlinear_arith)
            requires
                next >= 0,
                p >= 1,
        ;
        assert(next <= u32::MAX);
        lemma_scan_decimal_value(rest, next);
    }
}

/// Reading digits gives their decimal value: every non-empty run of the
/// ASCII digits `0` to `9` whose value fits in a `u32` parses to that value.
pub proof fn parse_reads_decimal_digits(s: Seq<char>)
    requires
        s.len() > 0,
        all_ascii_digits(s),
        decimal_value(s) <= u32::MAX,
    ensures
        parsed_u32(s) == Ok::<u32, ParseIntFailure>(decimal_value(s) as u32),
{
    assert(0x30 <= (s[0] as u32) <= 0x39);
    assert(s[0] != '+' && s[0] != '-');
    lemma_scan_decimal_value(s, 0);
    assert(0 * pow10(s.len()) == 0);
}

/// Reads `s` as a `u32`, the way `str::parse::<u32>` does.
pub fn parse_u32(s: &[char]) -> (res: Result<u32, ParseIntFailure>)
    ensures
        res == parsed_u32(s@),
{
    if s.len() == 0 {
        return Err(ParseIntFailure::Empty);
    }
    if s.len() == 1 && (s[0] == '+' || s[0] == '-') {
        return Err(ParseIntFailure::InvalidDigit);
    }
    let mut i: usize = if s[0] == '+' {
        1
    } else {
        0
    };
    let ghost digits = if s@[0] == '+' {
        s@.drop_first()
    } else {
        s@
    };
    assert(digits =~= s@.skip(i as int));
    let mut acc: u64 = 0;
    while i < s.len()
        invariant
            i <= s@.len(),
            acc <= u32::MAX,
            scan_decimal(digits, 0) == scan_decimal(s@.skip(i as int), acc as int),
            parsed_u32(s@) == (match scan_decimal(digits, 0) {
                Ok(v) => Ok(v as u32),
                Err(e) => Err(e),
            }),
        decreases s@.len() - i,
    {
        let c = s[i];
        let v: u32 = c as u32;
        assert(s@.skip(i as int)[0] == c);
        if v < 0x30 || v > 0x39 {
            return Err(ParseIntFailure::InvalidDigit);
        }
        let next: u64 = acc * 10 + ((v - 0x30) as u64);
        if next > 0xffff_ffff {
            return Err(ParseIntFailure::PosOverflow);
        }
        assert(s@.skip(i as int).drop_first() =~= s@.skip(i + 1));
        acc = next;
        i = i + 1;
    }
    assert(s@.skip(i as int) =~= Seq::<char>::empty());
    Ok(acc as u32)
}

/// The message `str::parse::<u32>` gives for `failure`.
pub open spec fn parse_failure_message(failure: ParseIntFailure) -> Seq<char> {
    match failure {
        ParseIntFailure::Empty => "cannot parse integer from empty string"@,
        ParseIntFailure::InvalidDigit => "invalid digit found in string"@,
        ParseIntFailure::PosOverflow => "number too large to fit in target type"@,
    }
}

/// The message for `failure`.
pub fn parse_failure_text(failure: ParseIntFailure) -> (text: String)
    ensures
        text@ == parse_failure_message(failure),
{
    match failure {
        ParseIntFailure::Empty => String::from_str("cannot parse integer from empty string"),
        ParseIntFailure::InvalidDigit => String::from_str("invalid digit found in string"),
        ParseIntFailure::PosOverflow => String::from_str("number too large to fit in target type"),
    }
}

} // verus!
