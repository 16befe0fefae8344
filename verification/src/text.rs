//! Text primitives: strings are modelled by the sequence of their characters.

use vstd::prelude::*;
use vstd::string::*;

verus! {

/// `String::push` appends one character to the end of the string.
pub assume_specification[ String::push ](s: &mut String, c: char)
    ensures
        final(s)@ == old(s)@.push(c),
;

/// `str`'s `==` holds exactly when the two strings have the same characters in
/// the same order.
#[verifier::external_body]
pub(crate) fn str_eq(a: &str, b: &str) -> (r: bool)
    ensures
        r == (a@ == b@),
{
    a == b
}

/// The characters of `s` as a vector.
pub fn chars_of(s: &str) -> (r: Vec<char>)
    ensures
        r@ == s@,
{
    let mut out: Vec<char> = Vec::new();
    for c in it: s.chars()
        invariant
            out@ == s@.take(it.index()),
            it.seq() == s@,
    {
        out.push(c);
        assert(out@ =~= s@.take(it.index() + 1));
    }
    assert(s@.take(s@.len() as int) =~= s@);
    out
}

/// The string made of the given characters.
pub fn string_of(chars: &Vec<char>) -> (r: String)
    ensures
        r@ == chars@,
{
    let mut out: String = String::new();
    let mut i: usize = 0;
    while i < chars.len()
        invariant
            i <= chars.len(),
            out@ == chars@.take(i as int),
        decreases chars.len() - i,
    {
        out.push(chars[i]);
        i += 1;
        assert(out@ =~= chars@.take(i as int));
    }
    assert(chars@.take(i as int) =~= chars@);
    out
}

/// `a` followed by `b`.
pub fn join(a: &str, b: &str) -> (r: String)
    ensures
        r@ == a@ + b@,
{
    let mut out: String = a.to_owned();
    out.append(b);
    out
}

/// An owned copy of `s`.
pub fn owned(s: &str) -> (r: String)
    ensures
        r@ == s@,
{
    s.to_owned()
}

/// A copy of an optional string.
pub fn clone_opt(s: &Option<String>) -> (r: Option<String>)
    ensures
        opt_view(r) == opt_view(*s),
{
    match s {
        Some(x) => Some(x.clone()),
        None => None,
    }
}

/// The characters of an optional string.
pub open spec fn opt_view(s: Option<String>) -> Option<Seq<char>> {
    match s {
        Some(x) => Some(x@),
        None => None,
    }
}

/// The characters of each string of a sequence.
pub open spec fn views(s: Seq<String>) -> Seq<Seq<char>> {
    s.map_values(|x: String| x@)
}

/// A copy of a list of strings.
pub fn clone_strings(s: &Vec<String>) -> (r: Vec<String>)
    ensures
        views(r@) == views(s@),
{
    let mut out: Vec<String> = Vec::new();
    let mut i: usize = 0;
    while i < s.len()
        invariant
            i <= s.len(),
            out.len() == i,
            forall|k: int| 0 <= k < i ==> (#[trigger] out[k])@ == s[k]@,
        decreases s.len() - i,
    {
        out.push(s[i].clone());
        i += 1;
    }
    assert(views(out@) =~= views(s@));
    out
}

/// Whether `list` holds a string with the characters of `s`.
pub fn contains_str(list: &Vec<String>, s: &str) -> (r: bool)
    ensures
        r == views(list@).contains(s@),
{
    let mut i: usize = 0;
    while i < list.len()
        invariant
            i <= list.len(),
            forall|k: int| 0 <= k < i ==> (#[trigger] list[k])@ != s@,
        decreases list.len() - i,
    {
        if str_eq(list[i].as_str(), s) {
            assert(views(list@)[i as int] == s@);
            return true;
        }
        i += 1;
    }
    assert forall|k: int| 0 <= k < views(list@).len() implies views(list@)[k] != s@ by {
        assert(list[k]@ != s@);
    }
    false
}

/// Whether `s` begins with `prefix`.
pub fn starts_with(s: &str, prefix: &str) -> (r: bool)
    ensures
        r == prefix@.is_prefix_of(s@),
{
    let a: Vec<char> = chars_of(s);
    let b: Vec<char> = chars_of(prefix);
    if b.len() > a.len() {
        return false;
    }
    let mut i: usize = 0;
    while i < b.len()
        invariant
            i <= b.len() <= a.len(),
            a@ == s@,
            b@ == prefix@,
            forall|k: int| 0 <= k < i ==> a@[k] == b@[k],
        decreases b.len() - i,
    {
        if a[i] != b[i] {
            assert(s@.subrange(0, b@.len() as int)[i as int] != prefix@[i as int]);
            return false;
        }
        i += 1;
    }
    assert(prefix@ =~= s@.subrange(0, prefix@.len() as int));
    true
}

/// The characters from position `from` up to, not including, position `to`.
pub fn slice(chars: &Vec<char>, from: usize, to: usize) -> (r: String)
    requires
        from <= to <= chars.len(),
    ensures
        r@ == chars@.subrange(from as int, to as int),
{
    let mut out: String = String::new();
    let mut i: usize = from;
    while i < to
        invariant
            from <= i <= to <= chars.len(),
            out@ == chars@.subrange(from as int, i as int),
        decreases to - i,
    {
        out.push(chars[i]);
        i += 1;
        assert(out@ =~= chars@.subrange(from as int, i as int));
    }
    out
}

/// The characters with the Unicode property `White_Space`.
pub open spec fn is_white(c: char) -> bool {
    ||| '\u{9}' <= c <= '\u{d}'
    ||| c == '\u{20}'
    ||| c == '\u{85}'
    ||| c == '\u{a0}'
    ||| c == '\u{1680}'
    ||| '\u{2000}' <= c <= '\u{200a}'
    ||| c == '\u{2028}'
    ||| c == '\u{2029}'
    ||| c == '\u{202f}'
    ||| c == '\u{205f}'
    ||| c == '\u{3000}'
}

/// Whether `c` has the Unicode property `White_Space`.
pub fn white(c: char) -> (r: bool)
    ensures
        r == is_white(c),
{
    ('\u{9}' <= c && c <= '\u{d}') || c == '\u{20}' || c == '\u{85}' || c == '\u{a0}' || c
        == '\u{1680}' || ('\u{2000}' <= c && c <= '\u{200a}') || c == '\u{2028}' || c == '\u{2029}'
        || c == '\u{202f}' || c == '\u{205f}' || c == '\u{3000}'
}

/// `s` without its leading whitespace.
pub open spec fn trim_left(s: Seq<char>) -> Seq<char>
    decreases s.len(),
{
    if s.len() > 0 && is_white(s[0]) {
        trim_left(s.skip(1))
    } else {
        s
    }
}

/// `s` without its trailing whitespace.
pub open spec fn trim_right(s: Seq<char>) -> Seq<char>
    decreases s.len(),
{
    if s.len() > 0 && is_white(s.last()) {
        trim_right(s.drop_last())
    } else {
        s
    }
}

/// `s` without leading and trailing whitespace.
pub open spec fn trimmed(s: Seq<char>) -> Seq<char> {
    trim_right(trim_left(s))
}

/// `s` without leading and trailing whitespace.
pub fn trim(s: &str) -> (r: String)
    ensures
        r@ == trimmed(s@),
{
    let cs: Vec<char> = chars_of(s);
    let n: usize = cs.len();
    let mut lo: usize = 0;
    proof {
        assert(cs@.subrange(0, n as int) =~= s@);
    }
    while lo < n && white(cs[lo])
        invariant
            lo <= n,
            n == cs.len(),
            trim_left(cs@.subrange(lo as int, n as int)) == trim_left(s@),
        decreases n - lo,
    {
        assert(cs@.subrange(lo as int, n as int).skip(1) =~= cs@.subrange(lo + 1, n as int));
        lo += 1;
    }
    assert(trim_left(s@) =~= cs@.subrange(lo as int, n as int));
    let mut hi: usize = n;
    while hi > lo && white(cs[hi - 1])
        invariant
            lo <= hi <= n,
            n == cs.len(),
            trim_right(cs@.subrange(lo as int, hi as int)) == trimmed(s@),
        decreases hi - lo,
    {
        assert(cs@.subrange(lo as int, hi as int).drop_last() =~= cs@.subrange(
            lo as int,
            hi - 1,
        ));
        hi -= 1;
    }
    slice(&cs, lo, hi)
}

/// The digit character of a number below ten.
pub open spec fn digit(n: nat) -> char {
    if n == 0 {
        '0'
    } else if n == 1 {
        '1'
    } else if n == 2 {
        '2'
    } else if n == 3 {
        '3'
    } else if n == 4 {
        '4'
    } else if n == 5 {
        '5'
    } else if n == 6 {
        '6'
    } else if n == 7 {
        '7'
    } else if n == 8 {
        '8'
    } else {
        '9'
    }
}

/// The decimal numeral of `n`, without leading zeros.
pub open spec fn numeral(n: nat) -> Seq<char>
    decreases n,
{
    if n < 10 {
        seq![digit(n)]
    } else {
        numeral(n / 10).push(digit(n % 10))
    }
}

fn digit_char(n: u64) -> (r: char)
    requires
        n < 10,
    ensures
        r == digit(n as nat),
{
    match n {
        0 => '0',
        1 => '1',
        2 => '2',
        3 => '3',
        4 => '4',
        5 => '5',
        6 => '6',
        7 => '7',
        8 => '8',
        _ => '9',
    }
}

/// The decimal numeral of `n`, without leading zeros.
pub fn decimal(n: u64) -> (r: String)
    ensures
        r@ == numeral(n as nat),
    decreases n,
{
    if n < 10 {
        let mut out: String = String::new();
        out.push(digit_char(n));
        assert(out@ =~= seq![digit(n as nat)]);
        out
    } else {
        let mut out: String = decimal(n / 10);
        out.push(digit_char(n % 10));
        out
    }
}

/// Whether `s` has only whitespace.
pub open spec fn blank(s: Seq<char>) -> bool {
    forall|i: int| 0 <= i < s.len() ==> is_white(#[trigger] s[i])
}

/// A string is blank exactly when trimming leaves nothing.
pub proof fn blank_is_trimmed_empty(s: Seq<char>)
    ensures
        blank(s) <==> trimmed(s).len() == 0,
    decreases s.len(),
{
    if s.len() > 0 {
        if is_white(s[0]) {
            blank_is_trimmed_empty(s.skip(1));
            if blank(s.skip(1)) {
                assert forall|i: int| 0 <= i < s.len() implies is_white(#[trigger] s[i]) by {
                    if i > 0 {
                        assert(s.skip(1)[i - 1] == s[i]);
                    }
                }
            }
            if blank(s) {
                assert forall|i: int| 0 <= i < s.skip(1).len() implies is_white(
                    #[trigger] s.skip(1)[i],
                ) by {
                    assert(s.skip(1)[i] == s[i + 1]);
                }
            }
        } else {
            assert(trim_left(s) == s);
            trim_right_keeps_first(s);
        }
    }
}

proof fn trim_right_keeps_first(s: Seq<char>)
    requires
        s.len() > 0,
        !is_white(s[0]),
    ensures
        trim_right(s).len() > 0,
    decreases s.len(),
{
    if is_white(s.last()) {
        assert(s.drop_last()[0] == s[0]);
        trim_right_keeps_first(s.drop_last());
    }
}

/// Trimming takes whitespace off both ends, and nothing else: what is left stands
/// in the text, begins and ends with no whitespace, and has only whitespace before
/// and behind it.
pub proof fn only_whitespace_is_trimmed(s: Seq<char>) -> (at: (int, int))
    ensures
        0 <= at.0 <= at.1 <= s.len(),
        trimmed(s) == s.subrange(at.0, at.1),
        at.0 < at.1 ==> !is_white(s[at.0]) && !is_white(s[at.1 - 1]),
        forall|i: int| 0 <= i < at.0 ==> is_white(#[trigger] s[i]),
        forall|i: int| at.1 <= i < s.len() ==> is_white(#[trigger] s[i]),
    decreases s.len(),
{
    if s.len() > 0 && is_white(s[0]) {
        let (lo, hi) = only_whitespace_is_trimmed(s.skip(1));
        assert(trimmed(s) == trimmed(s.skip(1)));
        assert(s.skip(1).subrange(lo, hi) =~= s.subrange(lo + 1, hi + 1));
        assert forall|i: int| 0 <= i < lo + 1 implies is_white(#[trigger] s[i]) by {
            if i > 0 {
                assert(s.skip(1)[i - 1] == s[i]);
            }
        }
        assert forall|i: int| hi + 1 <= i < s.len() implies is_white(#[trigger] s[i]) by {
            assert(s.skip(1)[i - 1] == s[i]);
        }
        (lo + 1, hi + 1)
    } else {
        assert(trim_left(s) == s);
        let hi = right_end(s);
        (0, hi)
    }
}

proof fn right_end(s: Seq<char>) -> (hi: int)
    ensures
        0 <= hi <= s.len(),
        trim_right(s) == s.subrange(0, hi),
        hi > 0 ==> !is_white(s[hi - 1]),
        forall|i: int| hi <= i < s.len() ==> is_white(#[trigger] s[i]),
    decreases s.len(),
{
    if s.len() > 0 && is_white(s.last()) {
        let hi = right_end(s.drop_last());
        assert(s.drop_last().subrange(0, hi) =~= s.subrange(0, hi));
        assert forall|i: int| hi <= i < s.len() implies is_white(#[trigger] s[i]) by {
            if i < s.len() - 1 {
                assert(s.drop_last()[i] == s[i]);
            }
        }
        hi
    } else {
        assert(s.subrange(0, s.len() as int) =~= s);
        s.len() as int
    }
}

/// Of the ASCII characters, whitespace is the space and the five from the
/// tabulator to the carriage return.
pub proof fn ascii_whitespace(c: char)
    requires
        c < '\u{80}',
    ensures
        is_white(c) <==> c == ' ' || c == '\t' || c == '\n' || c == '\u{b}' || c == '\u{c}' || c
            == '\r',
{
}

/// What a row of digits stands for.
pub open spec fn decimal_value(s: Seq<char>) -> int
    decreases s.len(),
{
    if s.len() == 0 {
        0
    } else {
        10 * decimal_value(s.drop_last()) + (s.last() as int - '0' as int)
    }
}

/// A numeral has digits alone, stands for its number, and begins with no zero but
/// for that of zero.
pub proof fn numerals_stand_for_their_numbers(n: nat)
    ensures
        numeral(n).len() > 0,
        decimal_value(numeral(n)) == n,
        forall|i: int| 0 <= i < numeral(n).len() ==> '0' <= #[trigger] numeral(n)[i] <= '9',
        numeral(n)[0] == '0' ==> n == 0,
    decreases n,
{
    reveal_with_fuel(decimal_value, 2);
    if n < 10 {
        assert(numeral(n).drop_last() =~= Seq::empty());
    } else {
        numerals_stand_for_their_numbers(n / 10);
        assert(numeral(n).drop_last() =~= numeral(n / 10));
    }
}

} // verus!
