//! Character-level helpers shared by the other modules.
use vstd::prelude::*;

verus! {

/// Appends one character to a string.
///
/// Trusted: calls `String::push`, whose documentation says it appends the
/// given `char` to the end of the string.
#[verifier::external_body]
pub(crate) fn push_char(s: &mut String, c: char)
    ensures
        final(s)@ == old(s)@.push(c),
{
    s.push(c);
}

/// `s` starts and ends with a double quote and holds at least two characters.
pub open spec fn is_quoted(s: Seq<char>) -> bool {
    s.len() >= 2 && s[0] == '"' && s[s.len() - 1] == '"'
}

/// `s` without its surrounding double quotes, when it has them.
pub open spec fn unquote(s: Seq<char>) -> Seq<char> {
    if is_quoted(s) {
        s.subrange(1, s.len() - 1)
    } else {
        s
    }
}

/// Removes one pair of surrounding double quotes, if both are present;
/// otherwise returns the text unchanged.
pub fn strip(a: &str) -> (res: String)
    ensures
        res@ == unquote(a@),
{
    let n = a.unicode_len();
    if n >= 2 && a.get_char(0) == '"' && a.get_char(n - 1) == '"' {
        String::from_str(a.substring_char(1, n - 1))
    } else {
        String::from_str(a)
    }
}

/// Quoting a text and stripping the quotes gives the text back; a text that
/// does not both start and end with a quote is left as it is.
pub proof fn law_strip_undoes_quoting(s: Seq<char>)
    ensures
        unquote(seq!['"'] + s + seq!['"']) == s,
        !is_quoted(s) ==> unquote(s) == s,
{
    let q = seq!['"'] + s + seq!['"'];
    assert(q.subrange(1, q.len() - 1) =~= s);
}

} // verus!

verus! {

/// The character of the decimal digit `d` (`0 <= d < 10`).
pub open spec fn digit_char(d: nat) -> char {
    ((48 + d) as u8) as char
}

/// Decimal digits of `n`, most significant first, without leading zeros.
pub open spec fn digits(n: nat) -> Seq<char>
    decreases n,
{
    if n < 10 {
        seq![digit_char(n)]
    } else {
        digits(n / 10).push(digit_char(n % 10))
    }
}

/// Decimal notation of `i`: a minus sign for negative numbers, then the digits
/// of its magnitude.
pub open spec fn decimal(i: int) -> Seq<char> {
    if i < 0 {
        seq!['-'] + digits((-i) as nat)
    } else {
        digits(i as nat)
    }
}

fn push_digits(s: &mut String, n: u64)
    ensures
        final(s)@ == old(s)@ + digits(n as nat),
    decreases n,
{
    if n >= 10 {
        push_digits(s, n / 10);
    }
    let d: u8 = (n % 10) as u8;
    push_char(s, (48u8 + d) as char);
    proof {
        if n >= 10 {
            assert(old(s)@ + digits(n as nat) =~= old(s)@ + digits((n / 10) as nat) + seq![
                digit_char((n % 10) as nat),
            ]);
        } else {
            assert(digits(n as nat) =~= seq![digit_char(n as nat)]);
        }
    }
}

/// Appends the decimal notation of `v` to `s`.
pub fn push_decimal(s: &mut String, v: i64)
    ensures
        final(s)@ == old(s)@ + decimal(v as int),
{
    if v < 0 {
        push_char(s, '-');
        let magnitude: u64 = ((-(v + 1)) as u64) + 1;
        push_digits(s, magnitude);
        assert(old(s)@ + decimal(v as int) =~= old(s)@.push('-') + digits(magnitude as nat));
    } else {
        push_digits(s, v as u64);
    }
}

} // verus!
