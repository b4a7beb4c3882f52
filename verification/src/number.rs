//! Decimal numerals: writing port numbers and reading signed integers.

use vstd::prelude::*;
use vstd::string::*;

verus! {

/// Whether `c` is one of the ten decimal digits.
pub open spec fn is_digit(c: char) -> bool {
    '0' <= c <= '9'
}

/// Whether every character of `s` is a decimal digit.
pub open spec fn all_digits(s: Seq<char>) -> bool {
    forall|i: int| 0 <= i < s.len() ==> is_digit(#[trigger] s[i])
}

/// The number that the digits `s` denote in base ten.
pub open spec fn digits_value(s: Seq<char>) -> int
    decreases s.len(),
{
    if s.len() == 0 {
        0
    } else {
        10 * digits_value(s.drop_last()) + (s.last() as int - '0' as int)
    }
}

/// The digit character for `d`.
pub open spec fn digit_char(d: nat) -> char {
    ('0' as u8 + d) as char
}

/// The base-ten numeral of `n`, without leading zeros.
pub open spec fn decimal(n: nat) -> Seq<char>
    decreases n,
{
    if n < 10 {
        seq![digit_char(n)]
    } else {
        decimal(n / 10).push(digit_char(n % 10))
    }
}

/// The numeral of an integer: a minus sign where it is negative, then its digits.
pub open spec fn numeral(n: int) -> Seq<char> {
    if n < 0 {
        seq!['-'] + decimal((-n) as nat)
    } else {
        decimal(n as nat)
    }
}

/// What `s` denotes as a signed integer: an optional sign, then at least one digit and nothing
/// else.
pub open spec fn integer_value(s: Seq<char>) -> Option<int> {
    let signed = s.len() > 0 && (s[0] == '+' || s[0] == '-');
    let digits = if signed {
        s.skip(1)
    } else {
        s
    };
    if digits.len() == 0 || !all_digits(digits) {
        None
    } else if signed && s[0] == '-' {
        Some(-digits_value(digits))
    } else {
        Some(digits_value(digits))
    }
}

/// What `s` denotes as an `i64`: nothing where it is no integer, or one out of range.
pub open spec fn i64_value(s: Seq<char>) -> Option<i64> {
    match integer_value(s) {
        Some(v) => if i64::MIN <= v <= i64::MAX {
            Some(v as i64)
        } else {
            None
        },
        None => None,
    }
}

proof fn lemma_digits_value_grows(s: Seq<char>, k: int)
    requires
        all_digits(s),
        0 <= k <= s.len(),
    ensures
        0 <= digits_value(s.take(k)) <= digits_value(s),
    decreases s.len(),
{
    if s.len() > 0 {
        let front = s.drop_last();
        assert(all_digits(front)) by {
            assert forall|i: int| 0 <= i < front.len() implies is_digit(#[trigger] front[i]) by {
                assert(is_digit(s[i]));
            }
        }
        assert(is_digit(s[s.len() - 1]));
        if k < s.len() {
            assert(front.take(k) =~= s.take(k));
            lemma_digits_value_grows(front, k);
        } else {
            assert(s.take(k) =~= s);
            lemma_digits_value_grows(front, front.len() as int);
            assert(front.take(front.len() as int) =~= front);
        }
    } else {
        assert(s.take(k) =~= s);
    }
}

/// The value of the digits `s`, up to a bound just past the `i64` range; `None` where `s` is
/// empty, holds something other than a digit, or goes past that bound.
fn read_digits(s: &[char]) -> (r: Option<u64>)
    ensures
        match r {
            Some(v) => s@.len() > 0 && all_digits(s@) && v == digits_value(s@) && v
                <= 0x8000_0000_0000_0000,
            None => s@.len() == 0 || !all_digits(s@) || digits_value(s@) > 0x8000_0000_0000_0000,
        },
{
    if s.len() == 0 {
        return None;
    }
    let mut i: usize = 0;
    let mut acc: u128 = 0;
    assert(s@.take(0) =~= Seq::<char>::empty());
    while i < s.len()
        invariant
            i <= s@.len(),
            all_digits(s@.take(i as int)),
            acc == digits_value(s@.take(i as int)),
            acc <= 0x8000_0000_0000_0000,
        decreases s@.len() - i,
    {
        let c: char = s[i];
        if !('0' <= c && c <= '9') {
            assert(!is_digit(s@[i as int]));
            return None;
        }
        assert(s@.take(i + 1).drop_last() =~= s@.take(i as int));
        assert(s@.take(i + 1) =~= s@.take(i as int).push(c));
        acc = 10 * acc + (c as u128 - '0' as u128);
        if acc > 0x8000_0000_0000_0000 {
            proof {
                if all_digits(s@) {
                    lemma_digits_value_grows(s@, i + 1);
                }
            }
            return None;
        }
        i = i + 1;
    }
    assert(s@.take(i as int) =~= s@);
    Some(acc as u64)
}

/// Reads a signed 64-bit integer.
pub fn parse_i64(s: &[char]) -> (r: Option<i64>)
    ensures
        r == i64_value(s@),
{
    if s.len() == 0 {
        return None;
    }
    if s[0] == '-' {
        let rest = vstd::slice::slice_subrange(s, 1, s.len());
        assert(rest@ =~= s@.skip(1));
        match read_digits(rest) {
            Some(v) => {
                let n: i128 = -(v as i128);
                Some(n as i64)
            },
            None => None,
        }
    } else {
        let rest = if s[0] == '+' {
            vstd::slice::slice_subrange(s, 1, s.len())
        } else {
            s
        };
        assert(s@[0] == '+' ==> rest@ =~= s@.skip(1));
        match read_digits(rest) {
            Some(v) => if v <= 0x7fff_ffff_ffff_ffff {
                Some(v as i64)
            } else {
                None
            },
            None => None,
        }
    }
}

/// The one-character text of a digit.
fn digit_text(d: u64) -> (r: &'static str)
    requires
        d < 10,
    ensures
        r@ == seq![digit_char(d as nat)],
{
    proof {
        reveal_strlit("0");
        reveal_strlit("1");
        reveal_strlit("2");
        reveal_strlit("3");
        reveal_strlit("4");
        reveal_strlit("5");
        reveal_strlit("6");
        reveal_strlit("7");
        reveal_strlit("8");
        reveal_strlit("9");
    }
    let r: &'static str = if d == 0 {
        "0"
    } else if d == 1 {
        "1"
    } else if d == 2 {
        "2"
    } else if d == 3 {
        "3"
    } else if d == 4 {
        "4"
    } else if d == 5 {
        "5"
    } else if d == 6 {
        "6"
    } else if d == 7 {
        "7"
    } else if d == 8 {
        "8"
    } else {
        "9"
    };
    assert(r@ =~= seq![digit_char(d as nat)]);
    r
}

/// Writes `n` in base ten.
pub fn decimal_text(n: u64) -> (r: String)
    ensures
        r@ == decimal(n as nat),
    decreases n,
{
    if n < 10 {
        digit_text(n).to_owned()
    } else {
        let mut s = decimal_text(n / 10);
        s.append(digit_text(n % 10));
        assert(s@ =~= decimal((n / 10) as nat).push(digit_char((n % 10) as nat)));
        s
    }
}

proof fn lemma_decimal(n: nat)
    ensures
        decimal(n).len() > 0,
        all_digits(decimal(n)),
        digits_value(decimal(n)) == n,
    decreases n,
{
    if n < 10 {
        let s = seq![digit_char(n)];
        assert(s.drop_last() =~= Seq::<char>::empty());
        assert(digits_value(s.drop_last()) == 0);
    } else {
        lemma_decimal(n / 10);
        assert(decimal(n).drop_last() =~= decimal(n / 10));
    }
}

/// A numeral starts with a minus sign or a digit, and ends with a digit.
pub proof fn lemma_numeral_shape(n: int)
    ensures
        numeral(n).len() > 0,
        numeral(n).first() == '-' || is_digit(numeral(n).first()),
        is_digit(numeral(n).last()),
{
    let digits = if n < 0 {
        decimal((-n) as nat)
    } else {
        decimal(n as nat)
    };
    lemma_decimal(if n < 0 { (-n) as nat } else { n as nat });
    assert(is_digit(digits[0]));
    assert(is_digit(digits[digits.len() - 1]));
}

/// Reading undoes writing: the numeral of an `i64` is read back as that `i64`.
pub proof fn law_numeral_round_trip(n: i64)
    ensures
        i64_value(numeral(n as int)) == Some(n),
{
    let s = numeral(n as int);
    if n < 0 {
        lemma_decimal((-n) as nat);
        assert(s.skip(1) =~= decimal((-n) as nat));
    } else {
        lemma_decimal(n as nat);
        assert(is_digit(s[0]));
    }
}

/// Digits count by place: no digits denote zero, and one digit more multiplies by ten and adds the
/// digit.
pub proof fn law_digits_count_by_place(s: Seq<char>, c: char)
    requires
        '0' <= c <= '9',
    ensures
        digits_value(Seq::<char>::empty()) == 0,
        digits_value(s.push(c)) == 10 * digits_value(s) + (c as int - '0' as int),
{
    assert(s.push(c).drop_last() =~= s);
}

/// Every text of digits is read as the number that it denotes, and so it is behind a plus sign;
/// behind a minus sign it is read as the negative of that. Only a number out of range is not read.
pub proof fn law_integers_are_read(digits: Seq<char>)
    requires
        digits.len() > 0,
        forall|i: int| 0 <= i < digits.len() ==> '0' <= #[trigger] digits[i] <= '9',
    ensures
        ({
            let v = digits_value(digits);
            &&& i64_value(digits) == if v <= i64::MAX {
                Some(v as i64)
            } else {
                None
            }
            &&& i64_value(seq!['+'] + digits) == if v <= i64::MAX {
                Some(v as i64)
            } else {
                None
            }
            &&& i64_value(seq!['-'] + digits) == if -v >= i64::MIN {
                Some((-v) as i64)
            } else {
                None
            }
        }),
{
    assert(all_digits(digits));
    lemma_digits_value_grows(digits, 0);
    assert(digits.take(0) =~= Seq::<char>::empty());
    assert('0' <= digits[0] <= '9');
    assert((seq!['+'] + digits).skip(1) =~= digits);
    assert((seq!['-'] + digits).skip(1) =~= digits);
}

/// Nothing else is read: a text that is read is made of digits, at least one, with at most one
/// sign before them.
pub proof fn law_only_integers_are_read(s: Seq<char>)
    requires
        i64_value(s) is Some,
    ensures
        exists|k: int|
            0 <= k <= 1 && k < s.len() && (k == 1 ==> s[0] == '+' || s[0] == '-') && (forall|i: int|
                #![trigger s[i]]
                k <= i < s.len() ==> '0' <= s[i] <= '9') && #[trigger] s.skip(k).len() > 0,
{
    let k: int = if s[0] == '+' || s[0] == '-' {
        1
    } else {
        0
    };
    assert(s.skip(0) =~= s);
    let digits = s.skip(k);
    assert(all_digits(digits));
    assert forall|i: int| #![trigger s[i]] k <= i < s.len() implies '0' <= s[i] <= '9' by {
        assert(is_digit(digits[i - k]));
    }
    assert(s.skip(k).len() > 0);
}

/// The numeral of a number is made of digits that denote it, and does not start with a zero
/// unless the number is zero.
pub proof fn law_numeral_is_plain(n: nat)
    ensures
        decimal(n).len() > 0,
        forall|i: int| 0 <= i < decimal(n).len() ==> '0' <= #[trigger] decimal(n)[i] <= '9',
        digits_value(decimal(n)) == n,
        n > 0 ==> decimal(n)[0] != '0',
        n == 0 ==> decimal(n) == seq!['0'],
    decreases n,
{
    lemma_decimal(n);
    assert forall|i: int| 0 <= i < decimal(n).len() implies '0' <= #[trigger] decimal(n)[i]
        <= '9' by {
        assert(is_digit(decimal(n)[i]));
    }
    if n >= 10 {
        law_numeral_is_plain(n / 10);
        assert(decimal(n)[0] == decimal(n / 10)[0]);
    }
}

/// A negative number is written as a minus sign and the numeral of its size.
pub proof fn law_negative_numeral(n: nat)
    ensures
        numeral(n as int) == decimal(n),
        n > 0 ==> numeral(-(n as int)) == seq!['-'] + decimal(n),
{
}

} // verus!
