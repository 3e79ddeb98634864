//! Text building blocks for SQL synthesis: string primitives, decimal
//! rendering of integers, and quoting of text literals.

use vstd::prelude::*;

verus! {

/// `String::push` appends the character to the end of the string.
pub assume_specification[ String::push ](s: &mut String, c: char)
    ensures
        final(s)@ == old(s)@.push(c),
;

/// `String::push_str` appends the characters of `other` to the end of the
/// string.
pub assume_specification[ String::push_str ](s: &mut String, other: &str)
    ensures
        final(s)@ == old(s)@ + other@,
;

/// Two string slices are equal exactly where they hold the same
/// characters.
pub assume_specification[ <str as PartialEq>::eq ](a: &str, b: &str) -> (r: bool)
    ensures
        r == (a@ == b@),
;

/// The character that writes the decimal digit `d`.
pub open spec fn digit_char(d: nat) -> char {
    if d == 0 {
        '0'
    } else if d == 1 {
        '1'
    } else if d == 2 {
        '2'
    } else if d == 3 {
        '3'
    } else if d == 4 {
        '4'
    } else if d == 5 {
        '5'
    } else if d == 6 {
        '6'
    } else if d == 7 {
        '7'
    } else if d == 8 {
        '8'
    } else {
        '9'
    }
}

/// The decimal digits of a natural number, most significant first, without
/// leading zeros.
pub open spec fn digits(n: nat) -> Seq<char>
    decreases n,
{
    if n < 10 {
        seq![digit_char(n)]
    } else {
        digits(n / 10).push(digit_char(n % 10))
    }
}

/// The decimal rendering of an integer: a minus sign for negative numbers,
/// then the digits of the magnitude.
pub open spec fn decimal(i: int) -> Seq<char> {
    if i < 0 {
        seq!['-'] + digits((-i) as nat)
    } else {
        digits(i as nat)
    }
}

/// Text with every single quote doubled, as SQL string literals require.
pub open spec fn escape_quotes(s: Seq<char>) -> Seq<char>
    decreases s.len(),
{
    if s.len() == 0 {
        Seq::empty()
    } else if s.last() == '\'' {
        escape_quotes(s.drop_last()).push('\'').push('\'')
    } else {
        escape_quotes(s.drop_last()).push(s.last())
    }
}

/// A SQL string literal holding `s`.
pub open spec fn quoted(s: Seq<char>) -> Seq<char> {
    seq!['\''] + escape_quotes(s) + seq!['\'']
}

/// The items one after the other, with `sep` between each two neighbours.
pub open spec fn separated(items: Seq<Seq<char>>, sep: Seq<char>) -> Seq<char>
    decreases items.len(),
{
    if items.len() == 0 {
        Seq::empty()
    } else if items.len() == 1 {
        items[0]
    } else {
        separated(items.drop_last(), sep) + sep + items.last()
    }
}

/// A rendered number is never empty and holds digits only.
pub proof fn digits_are_digits(n: nat)
    ensures
        digits(n).len() > 0,
        forall|i: int| 0 <= i < digits(n).len() ==> '0' <= #[trigger] digits(n)[i] <= '9',
    decreases n,
{
    if n >= 10 {
        digits_are_digits(n / 10);
    }
}

fn digit(d: u64) -> (c: char)
    requires
        d < 10,
    ensures
        c == digit_char(d as nat),
{
    if d == 0 {
        '0'
    } else if d == 1 {
        '1'
    } else if d == 2 {
        '2'
    } else if d == 3 {
        '3'
    } else if d == 4 {
        '4'
    } else if d == 5 {
        '5'
    } else if d == 6 {
        '6'
    } else if d == 7 {
        '7'
    } else if d == 8 {
        '8'
    } else {
        '9'
    }
}

/// Appends the decimal digits of `n` to `out`.
pub fn push_digits(out: &mut String, n: u64)
    ensures
        final(out)@ == old(out)@ + digits(n as nat),
    decreases n,
{
    if n < 10 {
        out.push(digit(n));
        assert(out@ =~= old(out)@ + digits(n as nat));
    } else {
        push_digits(out, n / 10);
        out.push(digit(n % 10));
        assert(out@ =~= old(out)@ + digits(n as nat));
    }
}

/// Appends the decimal rendering of `i` to `out`.
pub fn push_decimal(out: &mut String, i: i64)
    ensures
        final(out)@ == old(out)@ + decimal(i as int),
{
    if i < 0 {
        out.push('-');
        let magnitude: u64 = (-(i + 1)) as u64 + 1;
        push_digits(out, magnitude);
        assert(out@ =~= old(out)@ + decimal(i as int));
    } else {
        push_digits(out, i as u64);
    }
}

/// Appends `s` to `out` with every single quote doubled.
pub fn push_escaped(out: &mut String, s: &str)
    ensures
        final(out)@ == old(out)@ + escape_quotes(s@),
{
    let ghost start = out@;
    for c in it: s.chars()
        invariant
            it.seq() == s@,
            out@ == start + escape_quotes(s@.take(it.index())),
    {
        proof {
            let k = it.index();
            assert(s@.take(k + 1).drop_last() =~= s@.take(k));
            assert(s@.take(k + 1).last() == c);
        }
        if c == '\'' {
            out.push('\'');
            out.push('\'');
        } else {
            out.push(c);
        }
        assert(out@ =~= start + escape_quotes(s@.take(it.index() + 1)));
    }
    assert(s@.take(s@.len() as int) =~= s@);
}

/// Whether two pieces of text hold the same characters.
pub fn same_text(a: &str, b: &str) -> (r: bool)
    ensures
        r == (a@ == b@),
{
    a.eq(b)
}

/// Appends the SQL string literal for `s` to `out`.
pub fn push_quoted(out: &mut String, s: &str)
    ensures
        final(out)@ == old(out)@ + quoted(s@),
{
    out.push('\'');
    push_escaped(out, s);
    out.push('\'');
    assert(out@ =~= old(out)@ + quoted(s@));
}

/// Appends the items to `out`, with `sep` between each two neighbours.
pub fn push_separated(out: &mut String, items: &Vec<String>, sep: &str)
    ensures
        final(out)@ == old(out)@ + separated(items.deep_view(), sep@),
{
    let ghost all = items.deep_view();
    let mut i: usize = 0;
    while i < items.len()
        invariant
            i <= items.len(),
            all == items.deep_view(),
            out@ == old(out)@ + separated(all.take(i as int), sep@),
        decreases items.len() - i,
    {
        proof {
            assert(all.take(i + 1).drop_last() =~= all.take(i as int));
            assert(all.take(i + 1).last() == items[i as int]@);
        }
        if i > 0 {
            out.push_str(sep);
        }
        out.push_str(items[i].as_str());
        assert(out@ =~= old(out)@ + separated(all.take(i + 1), sep@));
        i += 1;
    }
    assert(all.take(items.len() as int) =~= all);
}

} // verus!
