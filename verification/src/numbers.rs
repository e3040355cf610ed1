//! Decimal text of integers, and its inverse.
use vstd::prelude::*;
use crate::text;
use crate::text::chars_of;

verus! {

/// The decimal digits of `n`, without leading zeros.
pub open spec fn decimal(n: nat) -> Seq<char>
    decreases n,
{
    if n < 10 {
        seq![text::digit_char(n)]
    } else {
        decimal(n / 10).push(text::digit_char(n % 10))
    }
}

/// The decimal text of an integer, with a leading `-` for a negative one.
pub open spec fn int_text(n: int) -> Seq<char> {
    if n < 0 {
        seq!['-'] + decimal((-n) as nat)
    } else {
        decimal(n as nat)
    }
}

/// The number that a sequence of digits writes in base ten.
pub open spec fn digits_value(s: Seq<char>) -> nat
    decreases s.len(),
{
    if s.len() == 0 {
        0
    } else {
        digits_value(s.drop_last()) * 10 + text::digit_value(s.last())
    }
}

/// Every character is a decimal digit.
pub open spec fn all_digits(s: Seq<char>) -> bool {
    forall|i: int| 0 <= i < s.len() ==> text::is_digit(#[trigger] s[i])
}

/// The integer that a text writes: an optional sign, then at least one digit.
pub open spec fn int_value(s: Seq<char>) -> Option<int> {
    let signed = s.len() > 0 && (s[0] == '-' || s[0] == '+');
    let digits = if signed {
        s.drop_first()
    } else {
        s
    };
    if digits.len() == 0 || !all_digits(digits) {
        None
    } else if s[0] == '-' {
        Some(-(digits_value(digits) as int))
    } else {
        Some(digits_value(digits) as int)
    }
}

/// The 64-bit integer that a text writes, `None` where it writes none or one
/// out of range.
pub open spec fn parsed_i64(s: Seq<char>) -> Option<i64> {
    match int_value(s) {
        Some(n) => if i64::MIN <= n <= i64::MAX {
            Some(n as i64)
        } else {
            None
        },
        None => None,
    }
}

fn to_digit_char(d: u64) -> (c: char)
    requires
        d < 10,
    ensures
        c == text::digit_char(d as nat),
{
    (48u8 + d as u8) as char
}

/// The decimal text of a natural number.
pub fn u64_text(n: u64) -> (r: String)
    ensures
        r@ == decimal(n as nat),
    decreases n,
{
    if n < 10 {
        let mut s: String = String::new();
        s.push(to_digit_char(n));
        assert(s@ =~= decimal(n as nat));
        s
    } else {
        let mut s: String = u64_text(n / 10);
        s.push(to_digit_char(n % 10));
        s
    }
}

/// The decimal text of an integer.
pub fn i64_text(n: i64) -> (r: String)
    ensures
        r@ == int_text(n as int),
{
    if n < 0 {
        let m: u64 = (-(n as i128)) as u64;
        let digits = u64_text(m);
        let mut s: String = String::new();
        s.push('-');
        s.append(digits.as_str());
        assert(s@ =~= int_text(n as int));
        s
    } else {
        u64_text(n as u64)
    }
}

/// Reads an optionally signed decimal integer.
pub fn parse_i64(s: &str) -> (r: Option<i64>)
    ensures
        r == parsed_i64(s@),
{
    let v = chars_of(s);
    if v.len() == 0 {
        return None;
    }
    let negative: bool = v[0] == '-';
    let from: usize = if v[0] == '-' || v[0] == '+' {
        1
    } else {
        0
    };
    if from == v.len() {
        return None;
    }
    let ghost digits = s@.skip(from as int);
    assert(digits =~= if from == 1 {
        s@.drop_first()
    } else {
        s@
    });
    assert(digits.take(0) =~= Seq::<char>::empty());
    let mut acc: u128 = 0;
    let mut too_big: bool = false;
    let mut i: usize = from;
    while i < v.len()
        invariant
            from <= i <= v.len(),
            v@ == s@,
            digits == s@.skip(from as int),
            from == if s@[0] == '-' || s@[0] == '+' { 1int } else { 0int },
            from == 1 ==> digits == s@.drop_first(),
            from == 0 ==> digits == s@,
            forall|j: int| 0 <= j < i - from ==> text::is_digit(#[trigger] digits[j]),
            acc <= 0x8000_0000_0000_0000,
            too_big ==> digits_value(digits.take(i - from)) > 0x8000_0000_0000_0000,
            !too_big ==> acc == digits_value(digits.take(i - from)),
        decreases v.len() - i,
    {
        let c: char = v[i];
        assert(digits[i - from] == c);
        if !(c >= '0' && c <= '9') {
            assert(!text::is_digit(digits[i - from]));
            return None;
        }
        assert(digits.take(i + 1 - from).drop_last() =~= digits.take(i - from));
        let d: u128 = (c as u128) - 48;
        if !too_big {
            let next: u128 = acc * 10 + d;
            if next > 0x8000_0000_0000_0000 {
                too_big = true;
            } else {
                acc = next;
            }
        }
        i += 1;
    }
    assert(digits.take(v.len() - from) =~= digits);
    assert(all_digits(digits));
    if too_big {
        return None;
    }
    if negative {
        Some((-(acc as i128)) as i64)
    } else if acc <= 0x7fff_ffff_ffff_ffff {
        Some(acc as i64)
    } else {
        None
    }
}

/// Reading back the decimal digits of a number gives the number.
pub proof fn law_decimal_reads_back(n: nat)
    ensures
        decimal(n).len() > 0,
        all_digits(decimal(n)),
        digits_value(decimal(n)) == n,
    decreases n,
{
    reveal_with_fuel(digits_value, 2);
    if n < 10 {
        assert(decimal(n).drop_last() =~= Seq::<char>::empty());
    } else {
        law_decimal_reads_back(n / 10);
        assert(decimal(n).drop_last() =~= decimal(n / 10));
    }
}

/// Two numbers with the same decimal digits are the same number.
pub proof fn law_decimal_injective(m: nat, n: nat)
    requires
        decimal(m) == decimal(n),
    ensures
        m == n,
{
    law_decimal_reads_back(m);
    law_decimal_reads_back(n);
}

/// Reading back the text of a 64-bit integer gives the integer.
pub proof fn law_int_text_reads_back(n: i64)
    ensures
        parsed_i64(int_text(n as int)) == Some(n),
{
    if n < 0 {
        law_decimal_reads_back((-n) as nat);
        assert(int_text(n as int).drop_first() =~= decimal((-n) as nat));
    } else {
        law_decimal_reads_back(n as nat);
        let s = int_text(n as int);
        assert(text::is_digit(s[0]));
    }
}

/// A digit behind a number's digits multiplies it by ten and adds its value.
pub proof fn law_digits_are_decimal(digits: Seq<char>, c: char)
    requires
        '0' <= c <= '9',
    ensures
        digits_value(digits.push(c)) == digits_value(digits) * 10 + (c as int - '0' as int),
        digits_value(Seq::empty()) == 0,
{
    assert(digits.push(c).drop_last() =~= digits);
}

/// The decimal text of a number ends in its last digit, behind the text of the
/// rest.
pub proof fn law_decimal_digits(n: nat, d: nat)
    requires
        d < 10,
    ensures
        decimal(d).len() == 1,
        decimal(d)[0] as int == '0' as int + d,
        n > 0 ==> decimal(n * 10 + d) == decimal(n) + decimal(d),
{
    if n > 0 {
        let m: nat = n * 10 + d;
        assert(m / 10 == n && m % 10 == d);
        assert(decimal(m) =~= decimal(n) + decimal(d));
    }
}

/// Digits are read as the number they write, with a sign as that number or its
/// opposite, and nothing else is read.
pub proof fn law_integers_are_read(digits: Seq<char>, s: Seq<char>)
    requires
        digits.len() > 0,
        all_digits(digits),
    ensures
        int_value(digits) == Some(digits_value(digits) as int),
        int_value(seq!['+'] + digits) == Some(digits_value(digits) as int),
        int_value(seq!['-'] + digits) == Some(-(digits_value(digits) as int)),
        int_value(s) is Some ==> s.len() > 0 && text::is_digit(s.last()),
{
    assert(text::is_digit(digits[0]));
    assert((seq!['+'] + digits).drop_first() =~= digits);
    assert((seq!['-'] + digits).drop_first() =~= digits);
    if int_value(s) is Some {
        let signed = s[0] == '-' || s[0] == '+';
        if signed {
            assert(s.drop_first()[s.drop_first().len() - 1] == s.last());
        }
    }
}

} // verus!
