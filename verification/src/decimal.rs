//! Whole numbers as decimal text, and text as a list of characters.

use vstd::prelude::*;
use vstd::std_specs::iter::IteratorSpec;
use vstd::string::*;

verus! {

/// The largest magnitude that is read from decimal text: fifteen nines.
pub const NUMBER_MAX: i64 = 999_999_999_999_999;

/// The characters of a text, in order.
pub fn chars_of(text: &str) -> (r: Vec<char>)
    ensures
        r@ == text@,
{
    broadcast use {next_postcondition, axiom_spec_iter};

    let mut out: Vec<char> = Vec::new();
    let mut it = text.chars();
    loop
        invariant
            it.obeys_prophetic_iter_laws(),
            it.decrease() is Some,
            out@ + it.remaining() == text@,
        ensures
            out@ == text@,
        decreases it.decrease()->0,
    {
        let ghost before = it.remaining();
        match it.next() {
            Some(c) => {
                assert(before =~= seq![c] + it.remaining());
                assert(out@.push(c) + it.remaining() =~= out@ + before);
                out.push(c);
            },
            None => {
                assert(it.remaining().len() == 0);
                assert(out@ + it.remaining() =~= out@);
                break ;
            },
        }
    }
    out
}

/// The digit that a character stands for, if it is one of `0` to `9`.
pub open spec fn digit_value(c: char) -> Option<nat> {
    if 48 <= c as u32 <= 57 {
        Some((c as u32 - 48) as nat)
    } else {
        None
    }
}

/// The character of a digit.
pub open spec fn digit_char(d: nat) -> char {
    if d == 0 {
        '0'
    } else if d == 1 {
        '1'
    } else if d == 2 {
        '2'
    } else if d == 3 {
        '3'
    } else if d == 4 {
        '4'
    } else if d == 5 {
        '5'
    } else if d == 6 {
        '6'
    } else if d == 7 {
        '7'
    } else if d == 8 {
        '8'
    } else {
        '9'
    }
}

/// The decimal digits of `n`, with no leading zero but for zero itself.
pub open spec fn digits(n: nat) -> Seq<char>
    decreases n,
{
    if n < 10 {
        seq![digit_char(n)]
    } else {
        digits(n / 10).push(digit_char(n % 10))
    }
}

/// A whole number as decimal text, with a minus sign before a negative one.
pub open spec fn decimal(v: int) -> Seq<char> {
    if v < 0 {
        seq!['-'] + digits((-v) as nat)
    } else {
        digits(v as nat)
    }
}

/// The number that a text of digits stands for; none for the empty text and
/// for a text that holds anything but digits.
pub open spec fn digits_value(s: Seq<char>) -> Option<nat>
    decreases s.len(),
{
    if s.len() == 0 {
        None
    } else {
        match digit_value(s.last()) {
            None => None,
            Some(d) => if s.len() == 1 {
                Some(d)
            } else {
                match digits_value(s.drop_last()) {
                    Some(n) => Some(10 * n + d),
                    None => None,
                }
            },
        }
    }
}

/// The number that a decimal text stands for: digits, with or without a
/// minus sign before them, of a magnitude of at most `NUMBER_MAX`.
pub open spec fn number(s: Seq<char>) -> Option<int> {
    if s.len() > 0 && s[0] == '-' {
        match digits_value(s.drop_first()) {
            Some(n) => if n <= NUMBER_MAX {
                Some(-(n as int))
            } else {
                None
            },
            None => None,
        }
    } else {
        match digits_value(s) {
            Some(n) => if n <= NUMBER_MAX {
                Some(n as int)
            } else {
                None
            },
            None => None,
        }
    }
}

/// Whether a character can stand in a decimal text.
pub open spec fn is_decimal_char(c: char) -> bool {
    c == '-' || digit_value(c) is Some
}

/// The digits of a number are digits, and stand for that number.
pub proof fn lemma_digits(n: nat)
    ensures
        digits(n).len() >= 1,
        digits_value(digits(n)) == Some(n),
        forall|i: int| 0 <= i < digits(n).len() ==> digit_value(#[trigger] digits(n)[i]) is Some,
    decreases n,
{
    if n < 10 {
        assert(digit_value(digit_char(n)) == Some(n));
    } else {
        lemma_digits(n / 10);
        let d = n % 10;
        assert(digit_value(digit_char(d)) == Some(d));
        assert(digits(n).drop_last() =~= digits(n / 10));
        assert(digits(n).last() == digit_char(d));
    }
}

/// Decimal text reads back as the number it was written from, and holds
/// nothing but digits and the minus sign.
pub proof fn lemma_decimal(v: int)
    requires
        -NUMBER_MAX <= v <= NUMBER_MAX,
    ensures
        number(decimal(v)) == Some(v),
        decimal(v).len() >= 1,
        forall|i: int| 0 <= i < decimal(v).len() ==> is_decimal_char(#[trigger] decimal(v)[i]),
{
    if v < 0 {
        lemma_digits((-v) as nat);
        assert(decimal(v).drop_first() =~= digits((-v) as nat));
    } else {
        lemma_digits(v as nat);
        assert(digit_value('-') is None);
    }
}

/// A text of digits that stands for a number has a first part that stands
/// for one no larger.
pub proof fn lemma_digits_prefix(s: Seq<char>, k: int)
    requires
        1 <= k <= s.len(),
        digits_value(s) is Some,
    ensures
        digits_value(s.subrange(0, k)) is Some,
        digits_value(s.subrange(0, k)).unwrap() <= digits_value(s).unwrap(),
    decreases s.len() - k,
{
    if k == s.len() {
        assert(s.subrange(0, k) =~= s);
    } else {
        lemma_digits_prefix(s.drop_last(), k);
        assert(s.drop_last().subrange(0, k) =~= s.subrange(0, k));
    }
}

/// A text that holds a character that is no digit stands for no number.
pub proof fn lemma_digits_all(s: Seq<char>, i: int)
    requires
        0 <= i < s.len(),
        digit_value(s[i]) is None,
    ensures
        digits_value(s) is None,
    decreases s.len(),
{
    if i < s.len() - 1 {
        lemma_digits_all(s.drop_last(), i);
    }
}

/// The text of one digit.
fn digit_str(d: u64) -> (r: &'static str)
    requires
        d < 10,
    ensures
        r@ == seq![digit_char(d as nat)],
{
    proof {
        reveal_strlit("0");
        reveal_strlit("1");
        reveal_strlit("2");
        reveal_strlit("3");
        reveal_strlit("4");
        reveal_strlit("5");
        reveal_strlit("6");
        reveal_strlit("7");
        reveal_strlit("8");
        reveal_strlit("9");
    }
    let r = if d == 0 {
        "0"
    } else if d == 1 {
        "1"
    } else if d == 2 {
        "2"
    } else if d == 3 {
        "3"
    } else if d == 4 {
        "4"
    } else if d == 5 {
        "5"
    } else if d == 6 {
        "6"
    } else if d == 7 {
        "7"
    } else if d == 8 {
        "8"
    } else {
        "9"
    };
    assert(r@ =~= seq![digit_char(d as nat)]);
    r
}

/// Appends the decimal digits of `n` to `out`.
fn push_digits(out: &mut String, n: u64)
    ensures
        final(out)@ == old(out)@ + digits(n as nat),
    decreases n,
{
    if n >= 10 {
        push_digits(out, n / 10);
    }
    out.append(digit_str(n % 10));
    assert(out@ =~= old(out)@ + digits(n as nat));
}

/// Appends `v` as decimal text to `out`.
pub fn push_number(out: &mut String, v: i64)
    ensures
        final(out)@ == old(out)@ + decimal(v as int),
{
    if v < 0 {
        proof {
            reveal_strlit("-");
        }
        out.append("-");
        let n: u64 = (-(v as i128)) as u64;
        push_digits(out, n);
        assert(out@ =~= old(out)@ + decimal(v as int));
    } else {
        push_digits(out, v as u64);
    }
}

/// Reads the text of digits between `from` and `to`, if it stands for a
/// number of at most `NUMBER_MAX`.
fn read_digits(chars: &Vec<char>, from: usize, to: usize) -> (r: Option<i64>)
    requires
        from <= to <= chars@.len(),
    ensures
        r matches Some(n) ==> 0 <= n <= NUMBER_MAX && digits_value(
            chars@.subrange(from as int, to as int),
        ) == Some(n as nat),
        r is None ==> match digits_value(chars@.subrange(from as int, to as int)) {
            Some(n) => n > NUMBER_MAX,
            None => true,
        },
{
    let ghost s = chars@.subrange(from as int, to as int);
    if from == to {
        return None;
    }
    let mut acc: i64 = 0;
    let mut i: usize = from;
    while i < to
        invariant
            from <= i <= to <= chars@.len(),
            s == chars@.subrange(from as int, to as int),
            0 <= acc <= NUMBER_MAX,
            i > from ==> digits_value(s.subrange(0, i - from)) == Some(acc as nat),
            i == from ==> acc == 0,
        decreases to - i,
    {
        let c = chars[i];
        let u: u32 = c as u32;
        assert(s[i - from] == c);
        if u < 48 || u > 57 {
            proof {
                lemma_digits_all(s, i - from);
            }
            return None;
        }
        let d: i64 = (u - 48) as i64;
        let ghost head = s.subrange(0, i - from + 1);
        assert(head.last() == c);
        assert(head.drop_last() =~= s.subrange(0, i - from));
        acc = acc * 10 + d;
        assert(digits_value(head) == Some(acc as nat));
        if acc > NUMBER_MAX {
            proof {
                if digits_value(s) is Some {
                    lemma_digits_prefix(s, i - from + 1);
                }
            }
            return None;
        }
        i = i + 1;
    }
    assert(s.subrange(0, to - from) =~= s);
    Some(acc)
}

/// Reads the decimal text between `from` and `to`.
pub fn read_number(chars: &Vec<char>, from: usize, to: usize) -> (r: Option<i64>)
    requires
        from <= to <= chars@.len(),
    ensures
        match r {
            Some(v) => number(chars@.subrange(from as int, to as int)) == Some(v as int),
            None => number(chars@.subrange(from as int, to as int)) is None,
        },
{
    let ghost s = chars@.subrange(from as int, to as int);
    if from < to && chars[from] == '-' {
        assert(s[0] == '-');
        assert(s.drop_first() =~= chars@.subrange(from + 1, to as int));
        match read_digits(chars, from + 1, to) {
            Some(n) => Some(-n),
            None => None,
        }
    } else {
        assert(from < to ==> s[0] == chars@[from as int]);
        read_digits(chars, from, to)
    }
}

} // verus!
