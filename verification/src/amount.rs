//! Amounts as decimal text: reading an amount from digits and writing it back.

use crate::quota::Balance;
use vstd::prelude::*;
use vstd::string::StringExecFns;

verus! {

/// Whether `c` is one of the ten decimal digits.
pub open spec fn is_digit(c: char) -> bool {
    '0' <= c && c <= '9'
}

/// The value of a decimal digit.
pub open spec fn digit_value(c: char) -> nat {
    (c as u32 - 48) as nat
}

/// The character of a value below ten.
pub open spec fn digit_char(d: nat) -> char {
    ((d + 48) as u8) as char
}

/// Whether `text` holds decimal digits only.
pub open spec fn all_digits(text: Seq<char>) -> bool {
    forall|i: int| 0 <= i < text.len() ==> is_digit(#[trigger] text[i])
}

/// The number that a string of decimal digits writes, the empty string writing zero.
pub open spec fn digits_value(text: Seq<char>) -> nat
    decreases text.len(),
{
    if text.len() == 0 {
        0
    } else {
        digits_value(text.drop_last()) * 10 + digit_value(text.last())
    }
}

/// What is left of `text` once one leading plus sign is taken off.
pub open spec fn unsigned_part(text: Seq<char>) -> Seq<char> {
    if text.len() > 0 && text[0] == '+' {
        text.skip(1)
    } else {
        text
    }
}

/// The amount that `text` writes: decimal digits, at least one, after at most one
/// plus sign, whose number fits into 128 bits. Any other text writes no amount.
pub open spec fn parsed_balance(text: Seq<char>) -> Option<Balance> {
    let digits = unsigned_part(text);
    if digits.len() > 0 && all_digits(digits) && digits_value(digits) <= u128::MAX {
        Some(digits_value(digits) as Balance)
    } else {
        None
    }
}

/// The decimal digits of `n`, without leading zeros.
pub open spec fn decimal(n: nat) -> Seq<char>
    decreases n,
{
    if n < 10 {
        seq![digit_char(n)]
    } else {
        decimal(n / 10).push(digit_char(n % 10))
    }
}

/// The number written by the first `j` digits is at least the number written by the
/// first `i` of them.
proof fn lemma_prefix_value_grows(text: Seq<char>, i: int, j: int)
    requires
        0 <= i <= j <= text.len(),
    ensures
        digits_value(text.take(i)) <= digits_value(text.take(j)),
    decreases j - i,
{
    if i < j {
        lemma_prefix_value_grows(text, i, j - 1);
        assert(text.take(j).drop_last() =~= text.take(j - 1));
    }
}

/// Text of decimal digits after at most one plus sign is plain ASCII.
proof fn lemma_digits_are_ascii(text: Seq<char>)
    requires
        all_digits(unsigned_part(text)),
    ensures
        vstd::utf8::is_ascii_chars(text),
{
    let digits = unsigned_part(text);
    assert forall|i: int| 0 <= i < text.len() implies '\0' <= #[trigger] text[i] <= '\u{7f}' by {
        if text.len() > 0 && text[0] == '+' {
            if i > 0 {
                assert(is_digit(digits[i - 1]));
            }
        } else {
            assert(is_digit(digits[i]));
        }
    }
}

/// Reads an amount from decimal text.
pub fn parse_balance(text: &str) -> (amount: Option<Balance>)
    ensures
        amount == parsed_balance(text@),
{
    if !text.is_ascii() {
        proof {
            if all_digits(unsigned_part(text@)) {
                lemma_digits_are_ascii(text@);
            }
        }
        return None;
    }
    proof {
        vstd::string::is_ascii_spec_bytes(text);
        vstd::utf8::is_ascii_chars_nat_bound(text@);
    }
    let bytes = text.as_bytes();
    let n = bytes.len();
    assert(forall|k: int| 0 <= k < n ==> bytes@[k] as int == (#[trigger] text@[k]) as int);
    let start: usize = if n > 0 && bytes[0] == 43u8 {
        1
    } else {
        0
    };
    let ghost digits = unsigned_part(text@);
    assert(digits =~= text@.skip(start as int)) by {
        if n > 0 {
            assert(bytes@[0] as int == text@[0] as int);
        }
    }
    if start == n {
        return None;
    }
    let mut value: u128 = 0;
    let mut i: usize = start;
    while i < n
        invariant
            start <= i <= n,
            n == text@.len(),
            bytes@.len() == n,
            forall|k: int| 0 <= k < n ==> bytes@[k] as int == (#[trigger] text@[k]) as int,
            digits == text@.skip(start as int),
            digits == unsigned_part(text@),
            forall|k: int| 0 <= k < i - start ==> is_digit(#[trigger] digits[k]),
            value == digits_value(digits.take(i - start)),
        decreases n - i,
    {
        let b = bytes[i];
        let ghost c = digits[i - start];
        assert(c == text@[i as int]);
        assert(b as int == c as int);
        if b < 48u8 || b > 57u8 {
            assert(!is_digit(c));
            assert(!all_digits(digits));
            return None;
        }
        assert(is_digit(c));
        let d: u128 = (b - 48u8) as u128;
        assert(d == digit_value(c));
        proof {
            assert(digits.take(i - start + 1).drop_last() =~= digits.take(i - start));
            assert(digits.take(i - start + 1).last() == c);
            lemma_prefix_value_grows(digits, i - start + 1, digits.len() as int);
            assert(digits.take(digits.len() as int) =~= digits);
        }
        if value > (u128::MAX - d) / 10 {
            assert(digits_value(digits.take(i - start + 1)) > u128::MAX);
            return None;
        }
        value = value * 10 + d;
        i += 1;
    }
    assert(digits.take(n - start) =~= digits);
    Some(value)
}

/// The text of one decimal digit.
fn digit_text(d: u128) -> (text: &'static str)
    requires
        d < 10,
    ensures
        text@ == seq![digit_char(d as nat)],
{
    proof {
        reveal_strlit("0");
        reveal_strlit("1");
        reveal_strlit("2");
        reveal_strlit("3");
        reveal_strlit("4");
        reveal_strlit("5");
        reveal_strlit("6");
        reveal_strlit("7");
        reveal_strlit("8");
        reveal_strlit("9");
    }
    let text = if d == 0 {
        "0"
    } else if d == 1 {
        "1"
    } else if d == 2 {
        "2"
    } else if d == 3 {
        "3"
    } else if d == 4 {
        "4"
    } else if d == 5 {
        "5"
    } else if d == 6 {
        "6"
    } else if d == 7 {
        "7"
    } else if d == 8 {
        "8"
    } else {
        "9"
    };
    assert(text@ =~= seq![digit_char(d as nat)]);
    text
}

/// Writes an amount as decimal text, without leading zeros.
pub fn balance_text(amount: Balance) -> (text: String)
    ensures
        text@ == decimal(amount as nat),
    decreases amount,
{
    if amount < 10 {
        String::from_str(digit_text(amount))
    } else {
        let mut text = balance_text(amount / 10);
        text.append(digit_text(amount % 10));
        assert(text@ =~= decimal(amount as nat));
        text
    }
}


/// The decimal digits of a number are digits, at least one, and write the number.
proof fn lemma_decimal_writes(n: nat)
    ensures
        decimal(n).len() > 0,
        all_digits(decimal(n)),
        digits_value(decimal(n)) == n,
    decreases n,
{
    let text = decimal(n);
    if n < 10 {
        assert(text.drop_last() =~= Seq::<char>::empty());
        assert(digits_value(text.drop_last()) == 0);
        assert(digit_value(digit_char(n)) == n);
        assert(text.last() == digit_char(n));
        assert(is_digit(digit_char(n)));
    } else {
        lemma_decimal_writes(n / 10);
        let last = digit_char(n % 10);
        assert(text.drop_last() =~= decimal(n / 10));
        assert(text.last() == last);
        assert(digit_value(last) == n % 10);
        assert(is_digit(last));
        assert forall|i: int| 0 <= i < text.len() implies is_digit(#[trigger] text[i]) by {
            if i < text.len() - 1 {
                assert(text[i] == decimal(n / 10)[i]);
            }
        }
    }
}

/// What `balance_text` writes, `parse_balance` reads back as the same amount.
pub proof fn lemma_written_amount_reads_back(amount: Balance)
    ensures
        parsed_balance(decimal(amount as nat)) == Some(amount),
{
    lemma_decimal_writes(amount as nat);
    let text = decimal(amount as nat);
    assert(is_digit(text[0]));
    assert(unsigned_part(text) == text);
}

} // verus!
