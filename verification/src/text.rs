//! Character-level building blocks: digit classification, decimal
//! representations, digit scraping, and trailing-newline stripping.

use vstd::prelude::*;
use vstd::string::*;

verus! {

/// Characters treated as token separators in a command line.
pub open spec fn is_space(c: char) -> bool {
    c == ' ' || c == '\t' || c == '\n' || c == '\r'
}

/// ASCII decimal digits, `'0'` through `'9'`.
pub open spec fn is_digit_char(c: char) -> bool {
    48 <= c as u32 && c as u32 <= 57
}

/// Numeric value of an ASCII digit character.
pub open spec fn digit_val(c: char) -> int {
    c as u32 - 48
}

/// The ASCII digit character for a value below ten.
pub open spec fn digit_char(d: int) -> char {
    if d == 0 {
        '0'
    } else if d == 1 {
        '1'
    } else if d == 2 {
        '2'
    } else if d == 3 {
        '3'
    } else if d == 4 {
        '4'
    } else if d == 5 {
        '5'
    } else if d == 6 {
        '6'
    } else if d == 7 {
        '7'
    } else if d == 8 {
        '8'
    } else {
        '9'
    }
}

/// The subsequence of ASCII digit characters, in their original order.
pub open spec fn digits_of(s: Seq<char>) -> Seq<char>
    decreases s.len(),
{
    if s.len() == 0 {
        Seq::empty()
    } else if is_digit_char(s.last()) {
        digits_of(s.drop_last()).push(s.last())
    } else {
        digits_of(s.drop_last())
    }
}

/// The number denoted by a sequence of decimal digit characters
/// (most significant first); the empty sequence denotes zero.
pub open spec fn digits_val(ds: Seq<char>) -> int
    decreases ds.len(),
{
    if ds.len() == 0 {
        0
    } else {
        digits_val(ds.drop_last()) * 10 + digit_val(ds.last())
    }
}

/// The decimal digit characters of a natural number, most significant first.
pub open spec fn dec_digits(n: nat) -> Seq<char>
    decreases n,
{
    if n < 10 {
        seq![digit_char(n as int)]
    } else {
        dec_digits(n / 10).push(digit_char((n % 10) as int))
    }
}

/// The decimal representation of an integer: a minus sign for negative
/// values, then the digits of the magnitude.
pub open spec fn dec_repr(n: int) -> Seq<char> {
    if n < 0 {
        seq!['-'] + dec_digits((-n) as nat)
    } else {
        dec_digits(n as nat)
    }
}

/// A sequence with exactly one trailing newline removed, if one is there.
pub open spec fn strip_nl(s: Seq<char>) -> Seq<char> {
    if s.len() > 0 && s.last() == '\n' {
        s.drop_last()
    } else {
        s
    }
}

/// Law: stripping removes exactly one trailing newline when the text ends
/// with one, and is the identity — so idempotent — when it does not.
pub proof fn lemma_strip_newline(s: Seq<char>)
    ensures
        s.len() > 0 && s.last() == '\n' ==> strip_nl(s) == s.drop_last(),
        !(s.len() > 0 && s.last() == '\n') ==> strip_nl(s) == s && strip_nl(strip_nl(s)) == strip_nl(
            s,
        ),
{
}

/// Every character that `digits_of` keeps is an ASCII digit.
pub proof fn lemma_digits_of_digits(s: Seq<char>)
    ensures
        forall|j: int| 0 <= j < digits_of(s).len() ==> is_digit_char(#[trigger] digits_of(s)[j]),
    decreases s.len(),
{
    if s.len() > 0 {
        lemma_digits_of_digits(s.drop_last());
        assert forall|j: int| 0 <= j < digits_of(s).len() implies is_digit_char(
            #[trigger] digits_of(s)[j],
        ) by {
            if is_digit_char(s.last()) && j < digits_of(s).len() - 1 {
                assert(digits_of(s)[j] == digits_of(s.drop_last())[j]);
            }
        }
    }
}

/// The value of a digit sequence is never negative.
pub proof fn lemma_digits_val_nonneg(ds: Seq<char>)
    requires
        forall|j: int| 0 <= j < ds.len() ==> is_digit_char(#[trigger] ds[j]),
    ensures
        digits_val(ds) >= 0,
    decreases ds.len(),
{
    if ds.len() > 0 {
        lemma_digits_val_nonneg(ds.drop_last());
    }
}

/// Scraping digits from one more character either appends that character,
/// if it is a digit, or changes nothing.
pub proof fn lemma_digits_of_take_step(s: Seq<char>, i: int)
    requires
        0 <= i < s.len(),
    ensures
        digits_of(s.take(i + 1)) == if is_digit_char(s[i]) {
            digits_of(s.take(i)).push(s[i])
        } else {
            digits_of(s.take(i))
        },
{
    assert(s.take(i + 1).drop_last() =~= s.take(i));
    assert(s.take(i + 1).last() == s[i]);
}

/// The digits scraped from a prefix never denote more than the digits
/// scraped from the whole.
pub proof fn lemma_digits_of_take_val(s: Seq<char>, i: int)
    requires
        0 <= i <= s.len(),
    ensures
        digits_val(digits_of(s.take(i))) <= digits_val(digits_of(s)),
    decreases s.len(),
{
    if i == s.len() {
        assert(s.take(i) =~= s);
    } else {
        assert(s.take(i) =~= s.drop_last().take(i));
        lemma_digits_of_take_val(s.drop_last(), i);
        lemma_digits_of_digits(s.drop_last());
        lemma_digits_val_nonneg(digits_of(s.drop_last()));
        if is_digit_char(s.last()) {
            let prev = digits_of(s.drop_last());
            assert(prev.push(s.last()).drop_last() =~= prev);
            assert(digits_val(digits_of(s)) == digits_val(prev) * 10 + digit_val(s.last()));
        }
    }
}

/// Decides `is_digit_char`.
pub fn is_digit(c: char) -> (r: bool)
    ensures
        r == is_digit_char(c),
{
    let u: u32 = c as u32;
    48 <= u && u <= 57
}

/// The one-character string for a digit value.
pub fn digit_str(d: u32) -> (r: &'static str)
    requires
        d < 10,
    ensures
        r@ == seq![digit_char(d as int)],
{
    if d == 0 {
        proof {
            reveal_strlit("0");
            assert("0"@ =~= seq![digit_char(0int)]);
        }
        "0"
    } else if d == 1 {
        proof {
            reveal_strlit("1");
            assert("1"@ =~= seq![digit_char(1int)]);
        }
        "1"
    } else if d == 2 {
        proof {
            reveal_strlit("2");
            assert("2"@ =~= seq![digit_char(2int)]);
        }
        "2"
    } else if d == 3 {
        proof {
            reveal_strlit("3");
            assert("3"@ =~= seq![digit_char(3int)]);
        }
        "3"
    } else if d == 4 {
        proof {
            reveal_strlit("4");
            assert("4"@ =~= seq![digit_char(4int)]);
        }
        "4"
    } else if d == 5 {
        proof {
            reveal_strlit("5");
            assert("5"@ =~= seq![digit_char(5int)]);
        }
        "5"
    } else if d == 6 {
        proof {
            reveal_strlit("6");
            assert("6"@ =~= seq![digit_char(6int)]);
        }
        "6"
    } else if d == 7 {
        proof {
            reveal_strlit("7");
            assert("7"@ =~= seq![digit_char(7int)]);
        }
        "7"
    } else if d == 8 {
        proof {
            reveal_strlit("8");
            assert("8"@ =~= seq![digit_char(8int)]);
        }
        "8"
    } else {
        proof {
            reveal_strlit("9");
            assert("9"@ =~= seq![digit_char(d as int)]);
        }
        "9"
    }
}

/// Appends the decimal digits of `x` to `s`.
pub fn push_dec(s: &mut String, x: u32)
    ensures
        final(s)@ == old(s)@ + dec_digits(x as nat),
    decreases x,
{
    if x >= 10 {
        push_dec(s, x / 10);
        s.append(digit_str(x % 10));
        proof {
            assert(final(s)@ =~= old(s)@ + dec_digits(x as nat));
        }
    } else {
        s.append(digit_str(x));
        proof {
            assert(final(s)@ =~= old(s)@ + dec_digits(x as nat));
        }
    }
}

/// The decimal representation of a signed number.
pub fn i32_to_string(x: i32) -> (r: String)
    ensures
        r@ == dec_repr(x as int),
{
    let mut s = String::new();
    if x < 0 {
        s.append("-");
        let mag: u32 = (-(x as i64)) as u32;
        push_dec(&mut s, mag);
        proof {
            reveal_strlit("-");
            assert("-"@ =~= seq!['-']);
            assert(s@ =~= dec_repr(x as int));
        }
    } else {
        push_dec(&mut s, x as u32);
        proof {
            assert(s@ =~= dec_repr(x as int));
        }
    }
    s
}

/// Removes exactly one trailing newline, if the text ends with one.
pub fn strip_trailing_newline(s: String) -> (r: String)
    ensures
        r@ == strip_nl(s@),
{
    let n: usize = s.as_str().unicode_len();
    if n > 0 {
        let c: char = s.as_str().get_char(n - 1);
        if c == '\n' {
            let t = s.as_str().substring_char(0, n - 1);
            proof {
                assert(t@ =~= s@.drop_last());
            }
            return t.to_owned();
        }
    }
    s
}

} // verus!
