//! Reading and writing decimal numbers and comma-separated lists of them.
//!
//! Text is modelled as a sequence of characters. A number is read the way
//! the standard library reads a `usize`: an optional `+`, then one or more
//! ASCII digits, with nothing before or after; surrounding white space is
//! trimmed first.

use vstd::prelude::*;

verus! {

/// The characters with the Unicode property `White_Space`: what trimming
/// removes.
pub open spec fn is_whitespace(c: char) -> bool {
    let u = c as u32;
    ||| 0x09 <= u <= 0x0D
    ||| u == 0x20
    ||| u == 0x85
    ||| u == 0xA0
    ||| u == 0x1680
    ||| 0x2000 <= u <= 0x200A
    ||| u == 0x2028
    ||| u == 0x2029
    ||| u == 0x202F
    ||| u == 0x205F
    ||| u == 0x3000
}

/// `s` without its leading white space.
pub open spec fn trim_start(s: Seq<char>) -> Seq<char>
    decreases s.len(),
{
    if s.len() > 0 && is_whitespace(s[0]) {
        trim_start(s.drop_first())
    } else {
        s
    }
}

/// `s` without its trailing white space.
pub open spec fn trim_end(s: Seq<char>) -> Seq<char>
    decreases s.len(),
{
    if s.len() > 0 && is_whitespace(s.last()) {
        trim_end(s.drop_last())
    } else {
        s
    }
}

/// `s` without leading and trailing white space.
pub open spec fn trim(s: Seq<char>) -> Seq<char> {
    trim_end(trim_start(s))
}

/// One of the ten ASCII decimal digits.
pub open spec fn is_digit(c: char) -> bool {
    '0' <= c && c <= '9'
}

/// The number a decimal digit stands for.
pub open spec fn digit_value(c: char) -> nat {
    (c as u32 - '0' as u32) as nat
}

/// Every character of `s` is a decimal digit.
pub open spec fn all_digits(s: Seq<char>) -> bool {
    forall|k: int| 0 <= k < s.len() ==> is_digit(#[trigger] s[k])
}

/// The number that a run of decimal digits denotes, most significant digit
/// first; 0 for the empty run.
pub open spec fn digits_value(s: Seq<char>) -> nat
    decreases s.len(),
{
    if s.len() == 0 {
        0
    } else {
        digits_value(s.drop_last()) * 10 + digit_value(s.last())
    }
}

/// The number that `s` denotes, if `s` is an optional `+` followed by at
/// least one digit and nothing else.
pub open spec fn parsed_decimal(s: Seq<char>) -> Option<nat> {
    let digits = if s.len() > 0 && s[0] == '+' {
        s.drop_first()
    } else {
        s
    };
    if digits.len() > 0 && all_digits(digits) {
        Some(digits_value(digits))
    } else {
        None
    }
}

/// As `parsed_decimal`, but only numbers that a `usize` can hold.
pub open spec fn parsed_usize(s: Seq<char>) -> Option<usize> {
    match parsed_decimal(s) {
        Some(v) => if v <= usize::MAX {
            Some(v as usize)
        } else {
            None
        },
        None => None,
    }
}

/// The position of the first comma in `s`, or `s.len()` if it has none.
pub open spec fn first_comma(s: Seq<char>) -> nat
    decreases s.len(),
{
    if s.len() == 0 || s[0] == ',' {
        0
    } else {
        1 + first_comma(s.drop_first())
    }
}

/// What a comma-separated list of numbers denotes. The text is cut at its
/// commas; each piece is trimmed and read as a `usize`. The result is the
/// numbers in order, or the first trimmed piece that is not a number. A
/// text without a comma is a single piece, so the list is never empty.
pub open spec fn parsed_list(s: Seq<char>) -> Result<Seq<usize>, Seq<char>>
    decreases s.len(),
{
    let k = first_comma(s) as int;
    let token = trim(s.subrange(0, k));
    match parsed_usize(token) {
        None => Err(token),
        Some(v) => if k >= s.len() {
            Ok(seq![v])
        } else {
            match parsed_list(s.subrange(k + 1, s.len() as int)) {
                Ok(rest) => Ok(seq![v] + rest),
                Err(bad) => Err(bad),
            }
        },
    }
}

/// The character for a digit below ten.
pub open spec fn digit_char(d: nat) -> char {
    if d == 0 {
        '0'
    } else if d == 1 {
        '1'
    } else if d == 2 {
        '2'
    } else if d == 3 {
        '3'
    } else if d == 4 {
        '4'
    } else if d == 5 {
        '5'
    } else if d == 6 {
        '6'
    } else if d == 7 {
        '7'
    } else if d == 8 {
        '8'
    } else {
        '9'
    }
}

/// The decimal numeral of `n`, without sign or leading zeros.
pub open spec fn decimal(n: nat) -> Seq<char>
    decreases n,
{
    if n < 10 {
        seq![digit_char(n)]
    } else {
        decimal(n / 10).push(digit_char(n % 10))
    }
}

/// `first_comma` is where the first comma stands.
proof fn lemma_first_comma(s: Seq<char>, k: int)
    requires
        0 <= k <= s.len(),
        forall|j: int| 0 <= j < k ==> s[j] != ',',
        k < s.len() ==> s[k] == ',',
    ensures
        first_comma(s) == k,
    decreases s.len(),
{
    if k > 0 {
        lemma_first_comma(s.drop_first(), k - 1);
    }
}

/// A run of digits denotes at least what any of its prefixes denotes.
proof fn lemma_digits_value_prefix(s: Seq<char>, k: int)
    requires
        0 <= k <= s.len(),
    ensures
        digits_value(s.subrange(0, k)) <= digits_value(s),
    decreases s.len(),
{
    if k == s.len() {
        assert(s.subrange(0, k) =~= s);
    } else {
        lemma_digits_value_prefix(s.drop_last(), k);
        assert(s.drop_last().subrange(0, k) =~= s.subrange(0, k));
    }
}

/// A numeral consists of digits and denotes its number.
pub proof fn lemma_decimal_digits(n: nat)
    ensures
        decimal(n).len() >= 1,
        all_digits(decimal(n)),
        digits_value(decimal(n)) == n,
    decreases n,
{
    if n < 10 {
        assert(digits_value(decimal(n).drop_last()) == 0);
    } else {
        lemma_decimal_digits(n / 10);
        assert(decimal(n).drop_last() =~= decimal(n / 10));
    }
}

/// A numeral has no white space at its ends, and reading it back gives the
/// number that was written.
pub proof fn lemma_decimal_round_trip(n: usize)
    ensures
        trim(decimal(n as nat)) == decimal(n as nat),
        parsed_usize(decimal(n as nat)) == Some(n),
{
    lemma_decimal_digits(n as nat);
}

/// A list read from text has at least one number: text without a comma is
/// one piece, not none.
pub proof fn lemma_parsed_list_nonempty(s: Seq<char>)
    ensures
        parsed_list(s) matches Ok(values) ==> values.len() >= 1,
{
}

/// Tells white space from other characters.
pub fn is_space(c: char) -> (r: bool)
    ensures
        r == is_whitespace(c),
{
    let u: u32 = c as u32;
    (0x09 <= u && u <= 0x0D) || u == 0x20 || u == 0x85 || u == 0xA0 || u == 0x1680 || (0x2000 <= u
        && u <= 0x200A) || u == 0x2028 || u == 0x2029 || u == 0x202F || u == 0x205F || u == 0x3000
}

/// The characters of `s`, one element each.
fn chars_of(s: &str) -> (v: Vec<char>)
    ensures
        v@ == s@,
{
    let mut v: Vec<char> = Vec::new();
    for c in it: s.chars()
        invariant
            v@ == it.seq().take(it.index()),
            it.seq() == s@,
    {
        v.push(c);
    }
    v
}

/// Trims the piece `chars[lo..hi]`: the bounds of what is left.
fn trim_range(chars: &Vec<char>, lo: usize, hi: usize) -> (r: (usize, usize))
    requires
        lo <= hi <= chars@.len(),
    ensures
        lo <= r.0 <= r.1 <= hi,
        chars@.subrange(r.0 as int, r.1 as int) == trim(chars@.subrange(lo as int, hi as int)),
{
    let mut a = lo;
    while a < hi && is_space(chars[a])
        invariant
            lo <= a <= hi <= chars@.len(),
            trim_start(chars@.subrange(lo as int, hi as int)) == trim_start(
                chars@.subrange(a as int, hi as int),
            ),
        decreases hi - a,
    {
        assert(chars@.subrange(a as int, hi as int).drop_first() =~= chars@.subrange(
            a + 1,
            hi as int,
        ));
        a += 1;
    }
    let mut b = hi;
    while a < b && is_space(chars[b - 1])
        invariant
            a <= b <= hi <= chars@.len(),
            trim_end(chars@.subrange(a as int, hi as int)) == trim_end(
                chars@.subrange(a as int, b as int),
            ),
        decreases b - a,
    {
        assert(chars@.subrange(a as int, b as int).drop_last() =~= chars@.subrange(
            a as int,
            b - 1,
        ));
        b -= 1;
    }
    (a, b)
}

/// Reads the piece `chars[lo..hi]` as a number.
fn parse_range(chars: &Vec<char>, lo: usize, hi: usize) -> (r: Option<usize>)
    requires
        lo <= hi <= chars@.len(),
    ensures
        r == parsed_usize(chars@.subrange(lo as int, hi as int)),
{
    let ghost s = chars@.subrange(lo as int, hi as int);
    let start = if lo < hi && chars[lo] == '+' {
        lo + 1
    } else {
        lo
    };
    let ghost digits = chars@.subrange(start as int, hi as int);
    if start == hi {
        return None;
    }
    let mut value: usize = 0;
    let mut i = start;
    while i < hi
        invariant
            lo <= start <= i <= hi <= chars@.len(),
            s == chars@.subrange(lo as int, hi as int),
            digits == chars@.subrange(start as int, hi as int),
            digits == if s.len() > 0 && s[0] == '+' {
                s.drop_first()
            } else {
                s
            },
            all_digits(digits.subrange(0, i - start)),
            value == digits_value(digits.subrange(0, i - start)),
        decreases hi - i,
    {
        let c = chars[i];
        if !(c >= '0' && c <= '9') {
            assert(!is_digit(digits[i - start]));
            return None;
        }
        let d = (c as u32 - '0' as u32) as usize;
        let ghost next = digits.subrange(0, i - start + 1);
        assert(next.drop_last() =~= digits.subrange(0, i - start));
        let grown = match value.checked_mul(10) {
            Some(tens) => tens.checked_add(d),
            None => None,
        };
        match grown {
            Some(v) => {
                value = v;
            },
            None => {
                proof {
                    lemma_digits_value_prefix(digits, i - start + 1);
                }
                return None;
            },
        }
        i += 1;
    }
    assert(digits.subrange(0, i - start) =~= digits);
    Some(value)
}

/// Reads a number from `s`, ignoring white space around it: an optional
/// `+`, then decimal digits. `None` if `s` holds anything else, nothing at
/// all, or a number too large for a `usize`.
pub fn parse_number(s: &str) -> (r: Option<usize>)
    ensures
        r == parsed_usize(trim(s@)),
{
    let chars = chars_of(s);
    assert(chars@.subrange(0, chars@.len() as int) =~= chars@);
    let (a, b) = trim_range(&chars, 0, chars.len());
    parse_range(&chars, a, b)
}

/// Reads a comma-separated list of numbers. Each piece between commas is
/// trimmed and read as `parse_number` reads it. Returns the numbers in
/// order, or, as the error, the first trimmed piece that is not a number.
pub fn parse_list(s: &str) -> (r: Result<Vec<usize>, String>)
    ensures
        match r {
            Ok(values) => parsed_list(s@) == Ok::<Seq<usize>, Seq<char>>(values@),
            Err(token) => parsed_list(s@) == Err::<Seq<usize>, Seq<char>>(token@),
        },
{
    let chars = chars_of(s);
    let len = chars.len();
    let mut values: Vec<usize> = Vec::new();
    let mut start: usize = 0;
    assert(chars@.subrange(0, len as int) =~= chars@);
    loop
        invariant
            chars@ == s@,
            len == chars@.len(),
            start <= len,
            match parsed_list(chars@.subrange(start as int, len as int)) {
                Ok(rest) => parsed_list(s@) == Ok::<Seq<usize>, Seq<char>>(values@ + rest),
                Err(bad) => parsed_list(s@) == Err::<Seq<usize>, Seq<char>>(bad),
            },
        decreases len - start,
    {
        let ghost tail = chars@.subrange(start as int, len as int);
        let mut end = start;
        while end < len && chars[end] != ','
            invariant
                start <= end <= len,
                len == chars@.len(),
                forall|j: int| start <= j < end ==> chars@[j] != ',',
            decreases len - end,
        {
            end += 1;
        }
        proof {
            lemma_first_comma(tail, end - start);
            assert(tail.subrange(0, end - start) =~= chars@.subrange(start as int, end as int));
        }
        let (a, b) = trim_range(&chars, start, end);
        match parse_range(&chars, a, b) {
            None => {
                let token = s.substring_char(a, b);
                return Err(String::from_str(token));
            },
            Some(v) => {
                let ghost before = values@;
                values.push(v);
                if end >= len {
                    assert(values@ =~= before + seq![v]);
                    return Ok(values);
                }
                proof {
                    let after = chars@.subrange(end + 1, len as int);
                    assert(tail.subrange(end - start + 1, tail.len() as int) =~= after);
                    match parsed_list(after) {
                        Ok(rest) => {
                            assert(before + (seq![v] + rest) =~= values@ + rest);
                        },
                        Err(bad) => {},
                    }
                }
                start = end + 1;
            },
        }
    }
}

/// The numeral of a single digit.
fn digit_str(d: usize) -> (r: &'static str)
    requires
        d < 10,
    ensures
        r@ == seq![digit_char(d as nat)],
{
    if d == 0 {
        proof {
            reveal_strlit("0");
        }
        "0"
    } else if d == 1 {
        proof {
            reveal_strlit("1");
        }
        "1"
    } else if d == 2 {
        proof {
            reveal_strlit("2");
        }
        "2"
    } else if d == 3 {
        proof {
            reveal_strlit("3");
        }
        "3"
    } else if d == 4 {
        proof {
            reveal_strlit("4");
        }
        "4"
    } else if d == 5 {
        proof {
            reveal_strlit("5");
        }
        "5"
    } else if d == 6 {
        proof {
            reveal_strlit("6");
        }
        "6"
    } else if d == 7 {
        proof {
            reveal_strlit("7");
        }
        "7"
    } else if d == 8 {
        proof {
            reveal_strlit("8");
        }
        "8"
    } else {
        proof {
            reveal_strlit("9");
        }
        "9"
    }
}

/// Appends the decimal numeral of `n` to `out`.
fn push_decimal(out: &mut String, n: usize)
    ensures
        final(out)@ == old(out)@ + decimal(n as nat),
    decreases n,
{
    if n >= 10 {
        push_decimal(out, n / 10);
    }
    out.append(digit_str(n % 10));
}

/// Writes `n` as a decimal numeral, without sign or leading zeros.
pub fn to_decimal(n: usize) -> (r: String)
    ensures
        r@ == decimal(n as nat),
{
    let mut out = String::new();
    push_decimal(&mut out, n);
    out
}

} // verus!
