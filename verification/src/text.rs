//! Small verified helpers on strings: decimal numerals and path segments.

use vstd::prelude::*;

verus! {

/// The character of one decimal digit.
pub open spec fn digit_char(d: nat) -> char {
    if d == 0 {
        '0'
    } else if d == 1 {
        '1'
    } else if d == 2 {
        '2'
    } else if d == 3 {
        '3'
    } else if d == 4 {
        '4'
    } else if d == 5 {
        '5'
    } else if d == 6 {
        '6'
    } else if d == 7 {
        '7'
    } else if d == 8 {
        '8'
    } else {
        '9'
    }
}

/// The decimal numeral of `n`, without leading zeros.
pub open spec fn decimal_text(n: nat) -> Seq<char>
    decreases n,
{
    if n < 10 {
        seq![digit_char(n)]
    } else {
        decimal_text(n / 10).push(digit_char(n % 10))
    }
}

/// The numeral of `n`, left-padded with zeros to at least `width` characters.
pub open spec fn padded_decimal_text(n: nat, width: nat) -> Seq<char> {
    let digits = decimal_text(n);
    if digits.len() >= width {
        digits
    } else {
        Seq::new((width - digits.len()) as nat, |i: int| '0') + digits
    }
}

fn digit_str(d: usize) -> (r: &'static str)
    requires
        d < 10,
    ensures
        r@ == seq![digit_char(d as nat)],
{
    proof {
        reveal_strlit("0");
        reveal_strlit("1");
        reveal_strlit("2");
        reveal_strlit("3");
        reveal_strlit("4");
        reveal_strlit("5");
        reveal_strlit("6");
        reveal_strlit("7");
        reveal_strlit("8");
        reveal_strlit("9");
    }
    let r = if d == 0 {
        "0"
    } else if d == 1 {
        "1"
    } else if d == 2 {
        "2"
    } else if d == 3 {
        "3"
    } else if d == 4 {
        "4"
    } else if d == 5 {
        "5"
    } else if d == 6 {
        "6"
    } else if d == 7 {
        "7"
    } else if d == 8 {
        "8"
    } else {
        "9"
    };
    r
}

/// Writes `n` in decimal.
pub fn decimal(n: usize) -> (r: String)
    ensures
        r@ == decimal_text(n as nat),
    decreases n,
{
    if n < 10 {
        String::from_str(digit_str(n))
    } else {
        let mut s = decimal(n / 10);
        s.append(digit_str(n % 10));
        s
    }
}

/// Writes `n` in decimal, left-padded with zeros to `width` characters.
pub fn padded_decimal(n: usize, width: usize) -> (r: String)
    ensures
        r@ == padded_decimal_text(n as nat, width as nat),
{
    let digits = decimal(n);
    let len = digits.as_str().unicode_len();
    let mut r = String::new();
    if len < width {
        let pad: usize = width - len;
        let mut i: usize = 0;
        while i < pad
            invariant
                i <= pad,
                r@ == Seq::new(i as nat, |k: int| '0'),
            decreases pad - i,
        {
            proof {
                reveal_strlit("0");
            }
            r.append("0");
            i = i + 1;
        }
    }
    r.append(digits.as_str());
    r
}

/// Whether `s` reads as `literal`.
pub fn reads_as(s: &String, literal: &str) -> (r: bool)
    ensures
        r == (s@ == literal@),
{
    *s == String::from_str(literal)
}

/// The index just behind the last `/` of `path`, 0 where it has none.
pub open spec fn last_segment_start(path: Seq<char>) -> int
    decreases path.len(),
{
    if path.len() == 0 {
        0
    } else if path.last() == '/' {
        path.len() as int
    } else {
        last_segment_start(path.drop_last())
    }
}

/// What follows the last `/` of `path`; all of it where it has none.
pub open spec fn last_segment_text(path: Seq<char>) -> Seq<char> {
    path.subrange(last_segment_start(path), path.len() as int)
}

/// The last segment of a `/`-separated path.
pub fn last_segment(path: &str) -> (r: String)
    ensures
        r@ == last_segment_text(path@),
{
    let len = path.unicode_len();
    let mut i: usize = len;
    assert(path@.subrange(0, len as int) =~= path@);
    while i > 0 && path.get_char(i - 1) != '/'
        invariant
            i <= len,
            len == path@.len(),
            last_segment_start(path@) == last_segment_start(path@.subrange(0, i as int)),
        decreases i,
    {
        proof {
            let prefix = path@.subrange(0, i as int);
            assert(prefix.drop_last() =~= path@.subrange(0, i - 1));
        }
        i = i - 1;
    }
    String::from_str(path.substring_char(i, len))
}

} // verus!
