//! Decimal numerals: what a run of ASCII digits denotes, the canonical digit
//! string of a number, and a verified formatter.
//!
//! Both the range-header parser and the response assembler speak about decimal
//! numbers in header text, so the model lives in one place: `digits_val` reads
//! a digit sequence, `spec_digits_of` writes the canonical one, and the lemmas
//! here tie the two together.

use vstd::prelude::*;
use vstd::arithmetic::div_mod::lemma_fundamental_div_mod;
use vstd::string::StringExecFns;

verus! {

/// True of the ten ASCII digit characters `'0'` through `'9'`.
pub open spec fn is_digit_char(c: char) -> bool {
    48 <= c as u32 && c as u32 <= 57
}

/// Numeric value of one digit character; zero for anything else.
pub open spec fn digit_val(c: char) -> nat {
    if is_digit_char(c) {
        (c as u32 - 48) as nat
    } else {
        0
    }
}

/// True when every character of `s` is an ASCII digit.
pub open spec fn all_digits(s: Seq<char>) -> bool {
    forall|i: int| 0 <= i < s.len() ==> is_digit_char(#[trigger] s[i])
}

/// The number a digit sequence denotes, most significant digit first.
pub open spec fn digits_val(s: Seq<char>) -> nat
    decreases s.len(),
{
    if s.len() == 0 {
        0
    } else {
        digits_val(s.drop_last()) * 10 + digit_val(s.last())
    }
}

/// The digit character for one value below ten.
pub open spec fn digit_char(d: nat) -> char {
    if d == 0 { '0' }
    else if d == 1 { '1' }
    else if d == 2 { '2' }
    else if d == 3 { '3' }
    else if d == 4 { '4' }
    else if d == 5 { '5' }
    else if d == 6 { '6' }
    else if d == 7 { '7' }
    else if d == 8 { '8' }
    else { '9' }
}

/// The canonical decimal digit string of `n`: no sign, no leading zero except
/// for `n == 0` itself.
pub open spec fn spec_digits_of(n: nat) -> Seq<char>
    decreases n,
{
    if n < 10 {
        seq![digit_char(n)]
    } else {
        spec_digits_of(n / 10).push(digit_char(n % 10))
    }
}

/// A digit character carries its own value back.
pub proof fn lemma_digit_char_val(d: nat)
    requires
        d < 10,
    ensures
        is_digit_char(digit_char(d)),
        digit_val(digit_char(d)) == d,
{
}

/// The canonical digit string is non-empty, made of digits only, and denotes
/// the number it was written from.
pub proof fn lemma_digits_of_val(n: nat)
    ensures
        spec_digits_of(n).len() >= 1,
        all_digits(spec_digits_of(n)),
        digits_val(spec_digits_of(n)) == n,
    decreases n,
{
    if n < 10 {
        lemma_digit_char_val(n);
        let whole = spec_digits_of(n);
        assert(whole.last() == digit_char(n));
        assert(whole.drop_last() =~= Seq::<char>::empty());
        assert(digits_val(whole) == digits_val(Seq::<char>::empty()) * 10 + digit_val(digit_char(n)));
    } else {
        lemma_digits_of_val(n / 10);
        lemma_digit_char_val(n % 10);
        let whole = spec_digits_of(n);
        assert(whole.last() == digit_char(n % 10));
        assert(whole.drop_last() =~= spec_digits_of(n / 10));
        assert(digits_val(whole) == digits_val(spec_digits_of(n / 10)) * 10 + digit_val(digit_char(n % 10)));
        lemma_fundamental_div_mod(n as int, 10);
    }
}

/// Reading a longer prefix of a digit string never yields a smaller number.
pub proof fn lemma_digits_val_take_le(s: Seq<char>, k: int, m: int)
    requires
        0 <= k <= m <= s.len(),
    ensures
        digits_val(s.take(k)) <= digits_val(s.take(m)),
    decreases m - k,
{
    if k < m {
        lemma_digits_val_take_le(s, k, m - 1);
        assert(s.take(m).drop_last() =~= s.take(m - 1));
        assert(digits_val(s.take(m - 1)) * 10 >= digits_val(s.take(m - 1)));
    }
}

/// One digit character as a string slice.
fn digit_to_str(d: u64) -> (r: &'static str)
    requires
        d < 10,
    ensures
        r@ == seq![digit_char(d as nat)],
{
    proof {
        reveal_strlit("0");
        reveal_strlit("1");
        reveal_strlit("2");
        reveal_strlit("3");
        reveal_strlit("4");
        reveal_strlit("5");
        reveal_strlit("6");
        reveal_strlit("7");
        reveal_strlit("8");
        reveal_strlit("9");
    }
    let r = if d == 0 { "0" }
    else if d == 1 { "1" }
    else if d == 2 { "2" }
    else if d == 3 { "3" }
    else if d == 4 { "4" }
    else if d == 5 { "5" }
    else if d == 6 { "6" }
    else if d == 7 { "7" }
    else if d == 8 { "8" }
    else { "9" };
    proof {
        assert(r@ =~= seq![digit_char(d as nat)]);
    }
    r
}

/// Formats `n` as its canonical decimal digit string.
pub fn u64_to_string(n: u64) -> (r: String)
    ensures
        r@ == spec_digits_of(n as nat),
    decreases n,
{
    let d = n % 10;
    let last = digit_to_str(d);
    if n < 10 {
        String::from_str(last)
    } else {
        let mut prefix = u64_to_string(n / 10);
        prefix.append(last);
        proof {
            assert(prefix@ =~= spec_digits_of((n / 10) as nat).push(digit_char((n % 10) as nat)));
        }
        prefix
    }
}

} // verus!
