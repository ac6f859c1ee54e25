use vstd::prelude::*;

verus! {

/// `s` with every trailing space character removed.
pub open spec fn trim_trailing_spaces(s: Seq<char>) -> Seq<char>
    decreases s.len(),
{
    if s.len() > 0 && s.last() == ' ' {
        trim_trailing_spaces(s.drop_last())
    } else {
        s
    }
}

/// A sequence of `n` copies of `c`.
pub open spec fn repeat_char(c: char, n: nat) -> Seq<char> {
    Seq::new(n, |_i: int| c)
}

/// Trimming a run of spaces leaves nothing.
pub proof fn lemma_trim_spaces_is_empty(n: nat)
    ensures
        trim_trailing_spaces(repeat_char(' ', n)) == Seq::<char>::empty(),
    decreases n,
{
    if n > 0 {
        assert(repeat_char(' ', n).drop_last() =~= repeat_char(' ', (n - 1) as nat));
        lemma_trim_spaces_is_empty((n - 1) as nat);
    } else {
        assert(repeat_char(' ', n) =~= Seq::<char>::empty());
    }
}

/// The result of trimming never ends in a space.
pub proof fn lemma_trim_has_no_trailing_space(s: Seq<char>)
    ensures
        trim_trailing_spaces(s).len() > 0 ==> trim_trailing_spaces(s).last() != ' ',
        trim_trailing_spaces(s).len() <= s.len(),
        trim_trailing_spaces(s) =~= s.subrange(0, trim_trailing_spaces(s).len() as int),
    decreases s.len(),
{
    if s.len() > 0 && s.last() == ' ' {
        lemma_trim_has_no_trailing_space(s.drop_last());
    }
}

/// Appends one character to a string (`String::push`).
#[verifier::external_body]
pub(crate) fn string_push(s: &mut String, c: char)
    ensures
        final(s)@ == old(s)@.push(c),
{
    s.push(c);
}

/// A string holding exactly the given characters.
pub(crate) fn string_from_chars(chars: &Vec<char>) -> (result: String)
    ensures
        result@ == chars@,
{
    let mut result = String::new();
    let mut i: usize = 0;
    while i < chars.len()
        invariant
            i <= chars.len(),
            result@ == chars@.subrange(0, i as int),
        decreases chars.len() - i,
    {
        string_push(&mut result, chars[i]);
        i += 1;
        assert(result@ =~= chars@.subrange(0, i as int));
    }
    assert(chars@.subrange(0, i as int) =~= chars@);
    result
}

/// Removes trailing spaces from a character buffer in place.
pub(crate) fn trim_trailing_spaces_in_place(chars: &mut Vec<char>)
    ensures
        final(chars)@ == trim_trailing_spaces(old(chars)@),
{
    while chars.len() > 0 && chars[chars.len() - 1] == ' '
        invariant
            trim_trailing_spaces(chars@) == trim_trailing_spaces(old(chars)@),
        decreases chars.len(),
    {
        assert(chars@.drop_last() =~= chars@.subrange(0, chars.len() - 1));
        chars.pop();
    }
}

/// The decimal digits of `n`, most significant first, without leading zeros.
pub open spec fn decimal_digits(n: nat) -> Seq<char>
    decreases n,
{
    if n < 10 {
        seq![digit_char(n)]
    } else {
        decimal_digits(n / 10).push(digit_char(n % 10))
    }
}

/// The character of the decimal digit `d`.
pub open spec fn digit_char(d: nat) -> char {
    if d == 0 { '0' }
    else if d == 1 { '1' }
    else if d == 2 { '2' }
    else if d == 3 { '3' }
    else if d == 4 { '4' }
    else if d == 5 { '5' }
    else if d == 6 { '6' }
    else if d == 7 { '7' }
    else if d == 8 { '8' }
    else { '9' }
}

fn digit(d: u64) -> (c: char)
    requires
        d < 10,
    ensures
        c == digit_char(d as nat),
{
    if d == 0 { '0' }
    else if d == 1 { '1' }
    else if d == 2 { '2' }
    else if d == 3 { '3' }
    else if d == 4 { '4' }
    else if d == 5 { '5' }
    else if d == 6 { '6' }
    else if d == 7 { '7' }
    else if d == 8 { '8' }
    else { '9' }
}

/// Appends the decimal representation of `n` to `s`.
pub(crate) fn push_decimal(s: &mut String, n: u64)
    ensures
        final(s)@ == old(s)@ + decimal_digits(n as nat),
    decreases n,
{
    if n >= 10 {
        push_decimal(s, n / 10);
    }
    string_push(s, digit(n % 10));
    assert(s@ =~= old(s)@ + decimal_digits(n as nat));
}

} // verus!
