//! Text helpers shared by the request handling and the quiz: string
//! equality, trimming, and reading a decimal index out of a reply.

use vstd::prelude::*;

verus! {

broadcast use vstd::string::group_string_axioms;

/// `PartialEq::eq` on two string slices. Claimed: true exactly when both
/// hold the same characters.
#[verifier::external_body]
pub(crate) fn str_eq(a: &str, b: &str) -> (same: bool)
    ensures
        same == (a@ == b@),
{
    a == b
}

/// A character with the Unicode property White_Space (what
/// `char::is_whitespace` tests): U+0009..U+000D, U+0020, U+0085, U+00A0,
/// U+1680, U+2000..U+200A, U+2028, U+2029, U+202F, U+205F and U+3000.
pub open spec fn is_white_space(c: char) -> bool {
    ||| ('\u{9}' <= c <= '\u{d}')
    ||| c == ' '
    ||| c == '\u{85}'
    ||| c == '\u{a0}'
    ||| c == '\u{1680}'
    ||| ('\u{2000}' <= c <= '\u{200a}')
    ||| c == '\u{2028}'
    ||| c == '\u{2029}'
    ||| c == '\u{202f}'
    ||| c == '\u{205f}'
    ||| c == '\u{3000}'
}

/// The text without its leading white space.
pub open spec fn trim_start(text: Seq<char>) -> Seq<char>
    decreases text.len(),
{
    if text.len() > 0 && is_white_space(text[0]) {
        trim_start(text.drop_first())
    } else {
        text
    }
}

/// The text without its trailing white space.
pub open spec fn trim_end(text: Seq<char>) -> Seq<char>
    decreases text.len(),
{
    if text.len() > 0 && is_white_space(text.last()) {
        trim_end(text.drop_last())
    } else {
        text
    }
}

/// What `str::trim` leaves of a text: the text without its leading and
/// trailing white space.
pub open spec fn trimmed(text: Seq<char>) -> Seq<char> {
    trim_end(trim_start(text))
}

/// `str::trim`, which its documentation defines as removing leading and
/// trailing characters with the Unicode White_Space property. Claimed: the
/// result is that trimmed text.
#[verifier::external_body]
pub(crate) fn trim(text: &str) -> (t: &str)
    ensures
        t@ == trimmed(text@),
{
    text.trim()
}

/// An ASCII decimal digit.
pub open spec fn is_decimal_digit(c: char) -> bool {
    '0' <= c <= '9'
}

/// The number that a run of decimal digits denotes.
pub open spec fn decimal_value(digits: Seq<char>) -> int
    decreases digits.len(),
{
    if digits.len() == 0 {
        0
    } else {
        decimal_value(digits.drop_last()) * 10 + (digits.last() as int - '0' as int)
    }
}

/// The digits of an unsigned number: the text, less one leading `+`.
pub open spec fn unsigned_digits(text: Seq<char>) -> Seq<char> {
    if text.len() > 0 && text[0] == '+' {
        text.drop_first()
    } else {
        text
    }
}

/// What `str::parse::<usize>` reads from a text: an optional `+` followed
/// by one or more decimal digits whose value fits in a `usize`; anything
/// else (empty text, a lone sign, any other character, overflow) fails.
pub open spec fn parsed_usize(text: Seq<char>) -> Option<usize> {
    let digits = unsigned_digits(text);
    if digits.len() > 0 && (forall|i: int| 0 <= i < digits.len() ==> is_decimal_digit(#[trigger] digits[i]))
        && decimal_value(digits) <= usize::MAX {
        Some(decimal_value(digits) as usize)
    } else {
        None
    }
}

/// Laws of reading an unsigned number: the empty text and a lone `+` read
/// as nothing; a text ending in anything but a digit reads as nothing; a
/// single digit reads as its value; appending a digit to a number read
/// from a text gives ten times that number plus the digit, or nothing once
/// that exceeds `usize::MAX`; and a `+` in front of a text that starts with
/// a digit changes nothing.
pub proof fn lemma_parse_laws(text: Seq<char>, c: char)
    ensures
        parsed_usize(Seq::empty()) is None,
        parsed_usize(seq!['+']) is None,
        !is_decimal_digit(c) ==> parsed_usize(text.push(c)) is None,
        is_decimal_digit(c) ==> parsed_usize(seq![c]) == Some((c as int - '0' as int) as usize),
        parsed_usize(text) is Some && is_decimal_digit(c) ==> parsed_usize(text.push(c)) == if parsed_usize(
            text,
        )->0 * 10 + (c as int - '0' as int) <= usize::MAX {
            Some((parsed_usize(text)->0 * 10 + (c as int - '0' as int)) as usize)
        } else {
            None
        },
        text.len() > 0 && is_decimal_digit(text[0]) ==> parsed_usize(seq!['+'] + text) == parsed_usize(text),
{
    let pushed = text.push(c);
    let digits = unsigned_digits(text);
    if !is_decimal_digit(c) {
        let pd = unsigned_digits(pushed);
        if pd.len() > 0 {
            assert(pd[pd.len() - 1] == c);
        }
    }
    let single = seq![c];
    assert(single.drop_last() =~= Seq::<char>::empty());
    if is_decimal_digit(c) {
        assert(unsigned_digits(single) == single);
        assert(decimal_value(single) == decimal_value(Seq::<char>::empty()) * 10 + (c as int - '0' as int));
    }
    if parsed_usize(text) is Some && is_decimal_digit(c) {
        assert(digits.len() > 0);
        assert(text.len() > 0);
        assert(pushed[0] == text[0]);
        let pd = unsigned_digits(pushed);
        assert(pd =~= digits.push(c));
        assert(pd.drop_last() =~= digits);
        assert(pd.last() == c);
        assert(decimal_value(pd) == decimal_value(digits) * 10 + (c as int - '0' as int));
        lemma_decimal_value_prefix(digits, digits.len() as int);
        assert(digits.take(digits.len() as int) =~= digits);
        assert(parsed_usize(text)->0 == decimal_value(digits));
        assert forall|i: int| 0 <= i < pd.len() implies is_decimal_digit(#[trigger] pd[i]) by {
            if i < digits.len() {
                assert(pd[i] == digits[i]);
            }
        }
    }
    if text.len() > 0 && is_decimal_digit(text[0]) {
        let plus = seq!['+'] + text;
        assert(plus.drop_first() =~= text);
        assert(unsigned_digits(text) == text);
    }
}

/// A prefix of a run of digits denotes no more than the whole run.
proof fn lemma_decimal_value_prefix(digits: Seq<char>, k: int)
    requires
        0 <= k <= digits.len(),
        forall|i: int| 0 <= i < digits.len() ==> is_decimal_digit(#[trigger] digits[i]),
    ensures
        0 <= decimal_value(digits.take(k)) <= decimal_value(digits),
    decreases digits.len(),
{
    if digits.len() == 0 {
        assert(digits.take(k) =~= digits);
    } else if k == digits.len() {
        assert(digits.take(k) =~= digits);
        lemma_decimal_value_prefix(digits.drop_last(), k - 1);
        assert(digits.drop_last().take(k - 1) =~= digits.drop_last());
    } else {
        lemma_decimal_value_prefix(digits.drop_last(), k);
        assert(digits.drop_last().take(k) =~= digits.take(k));
        lemma_decimal_value_prefix(digits.drop_last(), digits.len() - 1);
        assert(digits.drop_last().take(digits.len() - 1) =~= digits.drop_last());
    }
}

/// Reads an unsigned decimal number the way `str::parse::<usize>` does.
pub fn parse_usize(text: &str) -> (n: Option<usize>)
    ensures
        n == parsed_usize(text@),
{
    let ghost chars = text@;
    let ghost digits = unsigned_digits(chars);
    let ghost mut count: int = 0;
    let mut value: usize = 0;
    let mut first = true;
    let mut any_digit = false;
    for c in it: text.chars()
        invariant
            it.seq() == chars,
            chars == text@,
            digits == unsigned_digits(chars),
            first == (it.index() == 0),
            it.index() > 0 ==> count == it.index() - (if chars[0] == '+' { 1int } else { 0int }),
            it.index() == 0 ==> count == 0,
            0 <= count <= digits.len(),
            any_digit == (count > 0),
            forall|i: int| 0 <= i < count ==> is_decimal_digit(#[trigger] digits[i]),
            value == decimal_value(digits.take(count)),
    {
        assert(c == chars[it.index()]);
        if first && c == '+' {
            first = false;
        } else {
            first = false;
            assert(count < digits.len() && digits[count] == c);
            if !('0' <= c && c <= '9') {
                assert(!is_decimal_digit(digits[count]));
                return None;
            }
            let d = (c as u32 - '0' as u32) as usize;
            assert(digits.take(count + 1).drop_last() =~= digits.take(count));
            assert(decimal_value(digits.take(count + 1)) == value * 10 + d);
            match value.checked_mul(10) {
                Some(v) => match v.checked_add(d) {
                    Some(w) => {
                        value = w;
                    },
                    None => {
                        proof {
                            if forall|i: int| 0 <= i < digits.len() ==> is_decimal_digit(#[trigger] digits[i]) {
                                lemma_decimal_value_prefix(digits, count + 1);
                            }
                        }
                        return None;
                    },
                },
                None => {
                    proof {
                        if forall|i: int| 0 <= i < digits.len() ==> is_decimal_digit(#[trigger] digits[i]) {
                            lemma_decimal_value_prefix(digits, count + 1);
                        }
                    }
                    return None;
                },
            }
            any_digit = true;
            proof {
                count = count + 1;
            }
        }
    }
    assert(digits.take(count) =~= digits);
    if any_digit {
        Some(value)
    } else {
        None
    }
}

} // verus!
