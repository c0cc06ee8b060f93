//! The text form of the shapes: lists of numbers between commas.

use crate::decimal::{
    decimal, is_decimal_char, lemma_decimal, number, push_number, read_number, NUMBER_MAX,
};
use vstd::prelude::*;
use vstd::string::*;

verus! {

/// The index of the first `c` in `s`, or the length of `s` if it holds none.
pub open spec fn first_index(s: Seq<char>, c: char) -> int
    decreases s.len(),
{
    if s.len() == 0 {
        0
    } else if s[0] == c {
        0
    } else {
        1 + first_index(s.drop_first(), c)
    }
}

/// The first `c` of `s` is where no `c` stands before it.
pub proof fn lemma_first_index(s: Seq<char>, c: char, j: int)
    requires
        0 <= j <= s.len(),
        forall|k: int| 0 <= k < j ==> s[k] != c,
        j < s.len() ==> s[j] == c,
    ensures
        first_index(s, c) == j,
    decreases j,
{
    if j > 0 {
        let t = s.drop_first();
        assert forall|k: int| 0 <= k < j - 1 implies t[k] != c by {
            assert(t[k] == s[k + 1]);
        }
        lemma_first_index(t, c, j - 1);
    }
}

/// Finds the first `c` between `from` and `to`; `to` if there is none.
pub fn find_char(chars: &Vec<char>, from: usize, to: usize, c: char) -> (j: usize)
    requires
        from <= to <= chars@.len(),
    ensures
        from <= j <= to,
        j - from == first_index(chars@.subrange(from as int, to as int), c),
        j < to ==> chars@[j as int] == c,
{
    let ghost s = chars@.subrange(from as int, to as int);
    let mut j: usize = from;
    while j < to
        invariant
            from <= j <= to <= chars@.len(),
            s == chars@.subrange(from as int, to as int),
            forall|k: int| 0 <= k < j - from ==> s[k] != c,
        decreases to - j,
    {
        if chars[j] == c {
            proof {
                lemma_first_index(s, c, j - from);
            }
            return j;
        }
        j = j + 1;
    }
    proof {
        lemma_first_index(s, c, j - from);
    }
    j
}

/// The numbers of `values` as decimal text, with a comma between each two.
pub open spec fn numbers_text(values: Seq<int>) -> Seq<char>
    decreases values.len(),
{
    if values.len() == 0 {
        Seq::empty()
    } else if values.len() == 1 {
        decimal(values[0])
    } else {
        decimal(values[0]) + seq![','] + numbers_text(values.drop_first())
    }
}

/// The numbers that a text holds between its commas; none if a part between
/// two commas, before the first or after the last is not a number.
pub open spec fn all_numbers(s: Seq<char>) -> Option<Seq<int>>
    decreases s.len(),
{
    let i = first_index(s, ',');
    if !(0 <= i < s.len()) {
        match number(s) {
            Some(v) => Some(seq![v]),
            None => None,
        }
    } else {
        match number(s.subrange(0, i)) {
            Some(v) => match all_numbers(s.subrange(i + 1, s.len() as int)) {
                Some(rest) => Some(seq![v] + rest),
                None => None,
            },
            None => None,
        }
    }
}

/// The first `count` numbers of a text, each with a comma behind it, and
/// the text behind the last of these commas.
pub open spec fn leading_numbers(s: Seq<char>, count: nat) -> Option<(Seq<int>, Seq<char>)>
    decreases count,
{
    if count == 0 {
        Some((Seq::empty(), s))
    } else {
        let i = first_index(s, ',');
        if !(0 <= i < s.len()) {
            None
        } else {
            match number(s.subrange(0, i)) {
                Some(v) => match leading_numbers(
                    s.subrange(i + 1, s.len() as int),
                    (count - 1) as nat,
                ) {
                    Some(rest) => Some((seq![v] + rest.0, rest.1)),
                    None => None,
                },
                None => None,
            }
        }
    }
}

/// Whether every number of `values` can be read back from text.
pub open spec fn all_readable(values: Seq<int>) -> bool {
    forall|i: int| 0 <= i < values.len() ==> -NUMBER_MAX <= #[trigger] values[i] <= NUMBER_MAX
}

/// Where a decimal text is followed by a comma, that comma is the first.
pub proof fn lemma_comma_after_decimal(v: int, rest: Seq<char>)
    requires
        -NUMBER_MAX <= v <= NUMBER_MAX,
    ensures
        first_index(decimal(v) + seq![','] + rest, ',') == decimal(v).len(),
        (decimal(v) + seq![','] + rest).subrange(0, decimal(v).len() as int) == decimal(v),
        (decimal(v) + seq![','] + rest).subrange(
            decimal(v).len() as int + 1,
            (decimal(v) + seq![','] + rest).len() as int,
        ) == rest,
        first_index(decimal(v), ',') == decimal(v).len(),
{
    lemma_decimal(v);
    let d = decimal(v);
    let s = d + seq![','] + rest;
    assert forall|k: int| 0 <= k < d.len() implies s[k] != ',' && d[k] != ',' by {
        assert(is_decimal_char(d[k]));
        assert(s[k] == d[k]);
    }
    lemma_first_index(s, ',', d.len() as int);
    lemma_first_index(d, ',', d.len() as int);
    assert(s.subrange(0, d.len() as int) =~= d);
    assert(s.subrange(d.len() as int + 1, s.len() as int) =~= rest);
}

/// The text of a list of numbers reads back as that list.
pub proof fn lemma_all_numbers(values: Seq<int>)
    requires
        values.len() >= 1,
        all_readable(values),
    ensures
        all_numbers(numbers_text(values)) == Some(values),
    decreases values.len(),
{
    let v = values[0];
    lemma_decimal(v);
    if values.len() == 1 {
        lemma_comma_after_decimal(v, Seq::empty());
        assert(seq![v] =~= values);
    } else {
        let rest = values.drop_first();
        assert(all_readable(rest)) by {
            assert forall|i: int| 0 <= i < rest.len() implies -NUMBER_MAX <= #[trigger] rest[i]
                <= NUMBER_MAX by {
                assert(rest[i] == values[i + 1]);
            }
        }
        lemma_all_numbers(rest);
        lemma_comma_after_decimal(v, numbers_text(rest));
        assert(seq![v] + rest =~= values);
    }
}

/// The text of a list of numbers, a comma and any text read back as that
/// list and that text.
pub proof fn lemma_leading_numbers(values: Seq<int>, tail: Seq<char>)
    requires
        values.len() >= 1,
        all_readable(values),
    ensures
        leading_numbers(numbers_text(values) + seq![','] + tail, values.len()) == Some(
            (values, tail),
        ),
    decreases values.len(),
{
    let v = values[0];
    lemma_decimal(v);
    if values.len() == 1 {
        lemma_comma_after_decimal(v, tail);
        reveal_with_fuel(leading_numbers, 2);
        assert(seq![v] + Seq::<int>::empty() =~= values);
    } else {
        let rest = values.drop_first();
        assert(all_readable(rest)) by {
            assert forall|i: int| 0 <= i < rest.len() implies -NUMBER_MAX <= #[trigger] rest[i]
                <= NUMBER_MAX by {
                assert(rest[i] == values[i + 1]);
            }
        }
        lemma_leading_numbers(rest, tail);
        let behind = numbers_text(rest) + seq![','] + tail;
        lemma_comma_after_decimal(v, behind);
        assert(numbers_text(values) + seq![','] + tail =~= decimal(v) + seq![','] + behind);
        assert(seq![v] + rest =~= values);
    }
}

/// The text of a list with one more number is the text of the list, a comma
/// and that number.
pub proof fn lemma_numbers_text_push(values: Seq<int>, v: int)
    requires
        values.len() >= 1,
    ensures
        numbers_text(values.push(v)) == numbers_text(values) + seq![','] + decimal(v),
    decreases values.len(),
{
    let more = values.push(v);
    assert(more.drop_first() =~= values.drop_first().push(v));
    if values.len() == 1 {
        assert(more.drop_first() =~= seq![v]);
        assert(numbers_text(more.drop_first()) == decimal(v));
    } else {
        lemma_numbers_text_push(values.drop_first(), v);
        assert(numbers_text(more) =~= numbers_text(values) + seq![','] + decimal(v));
    }
}

/// The numbers of `s`, as mathematical integers.
pub open spec fn as_ints(s: Seq<i64>) -> Seq<int> {
    Seq::new(s.len(), |i: int| s[i] as int)
}

/// Appends the numbers of `values` to `out`, with a comma between each two.
pub fn push_numbers(out: &mut String, values: &Vec<i64>)
    ensures
        final(out)@ == old(out)@ + numbers_text(as_ints(values@)),
{
    let ghost all = as_ints(values@);
    if values.len() == 0 {
        assert(out@ =~= old(out)@ + numbers_text(all));
        return ;
    }
    push_number(out, values[0]);
    assert(all.subrange(0, 1) =~= seq![values@[0] as int]);
    let mut i: usize = 1;
    while i < values.len()
        invariant
            1 <= i <= values@.len(),
            all == as_ints(values@),
            out@ == old(out)@ + numbers_text(all.subrange(0, i as int)),
        decreases values@.len() - i,
    {
        proof {
            reveal_strlit(",");
            lemma_numbers_text_push(all.subrange(0, i as int), values@[i as int] as int);
            assert(all.subrange(0, i as int).push(values@[i as int] as int) =~= all.subrange(
                0,
                i + 1,
            ));
        }
        out.append(",");
        assert(","@ =~= seq![',']);
        push_number(out, values[i]);
        assert(out@ =~= old(out)@ + numbers_text(all.subrange(0, i + 1)));
        i = i + 1;
    }
    assert(all.subrange(0, values@.len() as int) =~= all);
}

/// Reads the numbers between the commas of the text from `from` to `to`.
pub fn read_all_numbers(chars: &Vec<char>, from: usize, to: usize) -> (r: Option<Vec<i64>>)
    requires
        from <= to <= chars@.len(),
    ensures
        match r {
            Some(values) => all_numbers(chars@.subrange(from as int, to as int)) == Some(
                as_ints(values@),
            ) && values@.len() >= 1 && all_readable(as_ints(values@)),
            None => all_numbers(chars@.subrange(from as int, to as int)) is None,
        },
{
    let ghost whole = chars@.subrange(from as int, to as int);
    let mut values: Vec<i64> = Vec::new();
    let mut pos: usize = from;
    loop
        invariant
            from <= pos <= to <= chars@.len(),
            whole == chars@.subrange(from as int, to as int),
            all_numbers(whole) == match all_numbers(chars@.subrange(pos as int, to as int)) {
                Some(rest) => Some(as_ints(values@) + rest),
                None => None,
            },
            all_readable(as_ints(values@)),
        decreases to - pos,
    {
        let ghost s = chars@.subrange(pos as int, to as int);
        let ghost before = as_ints(values@);
        let j: usize = find_char(chars, pos, to, ',');
        assert(s.subrange(0, j - pos) =~= chars@.subrange(pos as int, j as int));
        match read_number(chars, pos, j) {
            Some(v) => {
                values.push(v);
                assert(as_ints(values@) =~= before.push(v as int));
                if j >= to {
                    assert(chars@.subrange(pos as int, j as int) =~= s);
                    assert(before + seq![v as int] =~= as_ints(values@));
                    return Some(values);
                }
                assert(s.subrange(j - pos + 1, s.len() as int) =~= chars@.subrange(
                    j + 1,
                    to as int,
                ));
                assert forall|rest: Seq<int>| before + (seq![v as int] + rest) == as_ints(values@)
                    + rest by {
                    assert(before + (seq![v as int] + rest) =~= as_ints(values@) + rest);
                }
                pos = j + 1;
            },
            None => {
                if j >= to {
                    assert(chars@.subrange(pos as int, j as int) =~= s);
                }
                return None;
            },
        }
    }
}

/// Reads `count` numbers, each with a comma behind it, from the text from
/// `from` to `to`, and gives them with the place behind the last comma.
pub fn read_leading_numbers(chars: &Vec<char>, from: usize, to: usize, count: usize) -> (r: Option<
    (Vec<i64>, usize),
>)
    requires
        from <= to <= chars@.len(),
    ensures
        match r {
            Some((values, next)) => from <= next <= to && leading_numbers(
                chars@.subrange(from as int, to as int),
                count as nat,
            ) == Some((as_ints(values@), chars@.subrange(next as int, to as int)))
                && values@.len() == count && all_readable(as_ints(values@)),
            None => leading_numbers(chars@.subrange(from as int, to as int), count as nat) is None,
        },
{
    let ghost whole = chars@.subrange(from as int, to as int);
    let mut values: Vec<i64> = Vec::new();
    let mut pos: usize = from;
    let mut left: usize = count;
    assert(as_ints(values@) =~= Seq::<int>::empty());
    while left > 0
        invariant
            from <= pos <= to <= chars@.len(),
            whole == chars@.subrange(from as int, to as int),
            leading_numbers(whole, count as nat) == match leading_numbers(
                chars@.subrange(pos as int, to as int),
                left as nat,
            ) {
                Some(rest) => Some((as_ints(values@) + rest.0, rest.1)),
                None => None,
            },
            values@.len() + left == count,
            all_readable(as_ints(values@)),
        decreases left,
    {
        let ghost s = chars@.subrange(pos as int, to as int);
        let ghost before = as_ints(values@);
        let j: usize = find_char(chars, pos, to, ',');
        if j >= to {
            return None;
        }
        assert(s.subrange(0, j - pos) =~= chars@.subrange(pos as int, j as int));
        assert(s.subrange(j - pos + 1, s.len() as int) =~= chars@.subrange(j + 1, to as int));
        match read_number(chars, pos, j) {
            Some(v) => {
                values.push(v);
                assert(as_ints(values@) =~= before.push(v as int));
                assert forall|rest: Seq<int>| before + (seq![v as int] + rest) == as_ints(values@)
                    + rest by {
                    assert(before + (seq![v as int] + rest) =~= as_ints(values@) + rest);
                }
                pos = j + 1;
                left = left - 1;
            },
            None => {
                return None;
            },
        }
    }
    assert(as_ints(values@) + Seq::<int>::empty() =~= as_ints(values@));
    Some((values, pos))
}

} // verus!
