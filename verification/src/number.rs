//! Decimal numerals: whole numbers, and fractions in thousandths.
//!
//! The library keeps fractions as whole numbers of thousandths: 700 stands
//! for 0.7. In documents such a number is written with a decimal point.

use crate::text::{decimal, digit_char, push_char, push_decimal};
use vstd::prelude::*;
use vstd::string::*;

verus! {

/// The value of a decimal digit.
pub open spec fn digit_value(c: char) -> Option<nat> {
    if c == '0' {
        Some(0)
    } else if c == '1' {
        Some(1)
    } else if c == '2' {
        Some(2)
    } else if c == '3' {
        Some(3)
    } else if c == '4' {
        Some(4)
    } else if c == '5' {
        Some(5)
    } else if c == '6' {
        Some(6)
    } else if c == '7' {
        Some(7)
    } else if c == '8' {
        Some(8)
    } else if c == '9' {
        Some(9)
    } else {
        None
    }
}

/// Every character of `s` is a decimal digit.
pub open spec fn all_digits(s: Seq<char>) -> bool {
    forall|i: int| 0 <= i < s.len() ==> digit_value(#[trigger] s[i]) is Some
}

/// The number that a text of decimal digits denotes. A text that is
/// empty or holds anything but digits denotes none.
pub open spec fn digits_value(s: Seq<char>) -> Option<nat>
    decreases s.len(),
{
    if s.len() == 0 {
        None
    } else {
        match digit_value(s.last()) {
            None => None,
            Some(d) => if s.len() == 1 {
                Some(d)
            } else {
                match digits_value(s.drop_last()) {
                    None => None,
                    Some(v) => Some(v * 10 + d),
                }
            },
        }
    }
}

/// The decimal numeral of a number denotes the number.
pub proof fn lemma_decimal_value(n: nat)
    ensures
        digits_value(decimal(n)) == Some(n),
        all_digits(decimal(n)),
        decimal(n).len() >= 1,
    decreases n,
{
    if n < 10 {
        assert(decimal(n) =~= seq![digit_char(n)]);
    } else {
        lemma_decimal_value(n / 10);
        let d = decimal(n);
        assert(d.drop_last() =~= decimal(n / 10));
        assert(d.last() == digit_char(n % 10));
        assert forall|i: int| 0 <= i < d.len() implies digit_value(#[trigger] d[i]) is Some by {
            if i < d.len() - 1 {
                assert(d[i] == decimal(n / 10)[i]);
            }
        }
    }
}

fn digit_of(c: char) -> (r: Option<u64>)
    ensures
        match digit_value(c) {
            Some(d) => r == Some(d as u64),
            None => r is None,
        },
{
    if c == '0' {
        Some(0)
    } else if c == '1' {
        Some(1)
    } else if c == '2' {
        Some(2)
    } else if c == '3' {
        Some(3)
    } else if c == '4' {
        Some(4)
    } else if c == '5' {
        Some(5)
    } else if c == '6' {
        Some(6)
    } else if c == '7' {
        Some(7)
    } else if c == '8' {
        Some(8)
    } else if c == '9' {
        Some(9)
    } else {
        None
    }
}

/// The number that a text of decimal digits denotes, where it fits.
pub fn parse_digits(s: &str) -> (r: Option<u64>)
    ensures
        match digits_value(s@) {
            Some(v) => if v <= u64::MAX {
                r == Some(v as u64)
            } else {
                r is None
            },
            None => r is None,
        },
{
    // `value` is the number so far; `None` once it no longer fits.
    let mut value: Option<u64> = Some(0);
    let mut valid = true;
    let mut empty = true;
    for c in it: s.chars()
        invariant
            it.seq() == s@,
            empty == (it.index() == 0),
            valid == all_digits(s@.take(it.index() as int)),
            valid && !empty ==> match digits_value(s@.take(it.index() as int)) {
                Some(v) => if v <= u64::MAX {
                    value == Some(v as u64)
                } else {
                    value is None
                },
                None => false,
            },
            empty ==> value == Some(0u64),
    {
        let ghost at = it.index() as int;
        let ghost before = s@.take(at);
        let ghost next = s@.take(at + 1);
        proof {
            assert(next.drop_last() =~= before);
            assert(next.last() == c);
            assert forall|i: int| 0 <= i < before.len() implies next[i] == before[i] by {}
        }
        match digit_of(c) {
            Some(d) => {
                value = match value {
                    Some(v) => match v.checked_mul(10) {
                        Some(w) => w.checked_add(d),
                        None => None,
                    },
                    None => None,
                };
                proof {
                    if valid {
                        assert forall|i: int| 0 <= i < next.len() implies digit_value(
                            #[trigger] next[i],
                        ) is Some by {
                            if i < at {
                                assert(before[i] == next[i]);
                            }
                        }
                    } else {
                        let i = choose|i: int|
                            0 <= i < before.len() && !(digit_value(#[trigger] before[i]) is Some);
                        assert(next[i] == before[i]);
                    }
                }
            },
            None => {
                valid = false;
            },
        }
        empty = false;
    }
    proof {
        assert(s@.take(s@.len() as int) =~= s@);
        lemma_digits_value_some(s@);
    }
    if valid && !empty {
        value
    } else {
        None
    }
}

/// A text denotes a number exactly where it is not empty and holds digits
/// only.
pub proof fn lemma_digits_value_some(s: Seq<char>)
    ensures
        digits_value(s) is Some <==> s.len() > 0 && all_digits(s),
    decreases s.len(),
{
    if s.len() > 0 {
        let front = s.drop_last();
        lemma_digits_value_some(front);
        if all_digits(s) {
            assert(digit_value(s[s.len() - 1]) is Some);
            assert forall|i: int| 0 <= i < front.len() implies digit_value(
                #[trigger] front[i],
            ) is Some by {
                assert(front[i] == s[i]);
            }
        }
        if digits_value(s) is Some {
            assert forall|i: int| 0 <= i < s.len() implies digit_value(#[trigger] s[i]) is Some by {
                if i < s.len() - 1 {
                    assert(front[i] == s[i]);
                }
            }
        }
    }
}

/// The position of the first decimal point of a text.
pub open spec fn dot_index(s: Seq<char>) -> Option<int>
    decreases s.len(),
{
    if s.len() == 0 {
        None
    } else {
        match dot_index(s.drop_last()) {
            Some(p) => Some(p),
            None => if s.last() == '.' {
                Some(s.len() - 1)
            } else {
                None
            },
        }
    }
}

/// What `dot_index` finds: the first position that holds a decimal point.
pub proof fn lemma_dot_index(s: Seq<char>)
    ensures
        match dot_index(s) {
            Some(p) => 0 <= p < s.len() && s[p] == '.' && forall|j: int|
                0 <= j < p ==> #[trigger] s[j] != '.',
            None => forall|j: int| 0 <= j < s.len() ==> #[trigger] s[j] != '.',
        },
    decreases s.len(),
{
    if s.len() > 0 {
        let front = s.drop_last();
        lemma_dot_index(front);
        match dot_index(front) {
            Some(p) => {
                assert(front[p] == s[p]);
                assert forall|j: int| 0 <= j < p implies #[trigger] s[j] != '.' by {
                    assert(front[j] == s[j]);
                }
            },
            None => {
                assert forall|j: int| 0 <= j < s.len() - 1 implies #[trigger] s[j] != '.' by {
                    assert(front[j] == s[j]);
                }
            },
        }
    }
}

/// The thousandths that the digits after a decimal point denote: the
/// first three digits count, and further digits are dropped.
pub open spec fn fraction_value(frac: Seq<char>) -> Option<nat> {
    if frac.len() > 0 && all_digits(frac) {
        Some(
            digit_value(frac[0])->0 * 100 + (if frac.len() > 1 {
                digit_value(frac[1])->0 * 10
            } else {
                0
            }) + (if frac.len() > 2 {
                digit_value(frac[2])->0
            } else {
                0
            }),
        )
    } else {
        None
    }
}

/// The number of thousandths that a decimal numeral denotes: digits, and
/// after them at will a decimal point and more digits. Digits after the
/// third behind the point are dropped. Any other text denotes none.
pub open spec fn thousandths_of(s: Seq<char>) -> Option<nat> {
    match dot_index(s) {
        None => match digits_value(s) {
            Some(w) => Some(w * 1000),
            None => None,
        },
        Some(p) => match (digits_value(s.take(p)), fraction_value(s.skip(p + 1))) {
            (Some(w), Some(f)) => Some(w * 1000 + f),
            _ => None,
        },
    }
}

/// The decimal numeral of a number of thousandths, with three digits
/// behind the point.
pub open spec fn thousandths_text(t: nat) -> Seq<char> {
    decimal(t / 1000) + seq![
        '.',
        digit_char(t % 1000 / 100),
        digit_char(t % 1000 % 100 / 10),
        digit_char(t % 1000 % 100 % 10),
    ]
}

/// The value of the digit for a number below ten is the number.
pub proof fn lemma_digit_value(d: nat)
    requires
        d < 10,
    ensures
        digit_value(digit_char(d)) == Some(d),
{
}

/// A number is its thousands and its last three digits.
pub proof fn lemma_last_three_digits(t: nat)
    ensures
        (t / 1000) * 1000 + (t % 1000 / 100) * 100 + (t % 1000 % 100 / 10) * 10 + t % 1000 % 100
            % 10 == t,
        t % 1000 / 100 < 10,
        t % 1000 % 100 / 10 < 10,
        t % 1000 % 100 % 10 < 10,
{
    let r = t % 1000;
    let r2 = r % 100;
    assert(t == (t / 1000) * 1000 + r);
    assert(r == (r / 100) * 100 + r2);
    assert(r2 == (r2 / 10) * 10 + r2 % 10);
}

/// A decimal point behind digits is the first decimal point.
pub proof fn lemma_dot_after_digits(s: Seq<char>, n: int)
    requires
        0 <= n < s.len(),
        s[n] == '.',
        all_digits(s.take(n)),
    ensures
        dot_index(s) == Some(n),
{
    lemma_dot_index(s);
    assert forall|j: int| 0 <= j < n implies #[trigger] s[j] != '.' by {
        assert(s.take(n)[j] == s[j]);
        assert(digit_value(s.take(n)[j]) is Some);
    }
    match dot_index(s) {
        Some(p) => {
            if p < n {
                assert(s[p] != '.');
            }
        },
        None => {
            assert(s[n] != '.');
        },
    }
}

/// Three digits behind a decimal point denote their number.
pub proof fn lemma_fraction_value(a: nat, b: nat, c: nat)
    requires
        a < 10,
        b < 10,
        c < 10,
    ensures
        fraction_value(seq![digit_char(a), digit_char(b), digit_char(c)]) == Some(
            a * 100 + b * 10 + c,
        ),
{
    lemma_digit_value(a);
    lemma_digit_value(b);
    lemma_digit_value(c);
    let frac = seq![digit_char(a), digit_char(b), digit_char(c)];
    assert(frac[0] == digit_char(a));
    assert(frac[1] == digit_char(b));
    assert(frac[2] == digit_char(c));
    assert(all_digits(frac));
}

/// The numeral of a number of thousandths denotes the number.
pub proof fn lemma_thousandths_round_trip(t: nat)
    ensures
        thousandths_of(thousandths_text(t)) == Some(t),
{
    let whole = decimal(t / 1000);
    let text = thousandths_text(t);
    let n = whole.len() as int;
    lemma_decimal_value(t / 1000);
    lemma_last_three_digits(t);
    assert(text.take(n) =~= whole);
    assert(text[n] == '.');
    lemma_dot_after_digits(text, n);
    let frac = seq![
        digit_char(t % 1000 / 100),
        digit_char(t % 1000 % 100 / 10),
        digit_char(t % 1000 % 100 % 10),
    ];
    assert(text.skip(n + 1) =~= frac);
    lemma_fraction_value(t % 1000 / 100, t % 1000 % 100 / 10, t % 1000 % 100 % 10);
}

fn digit(d: u32) -> (c: char)
    requires
        d < 10,
    ensures
        c == digit_char(d as nat),
{
    if d == 0 {
        '0'
    } else if d == 1 {
        '1'
    } else if d == 2 {
        '2'
    } else if d == 3 {
        '3'
    } else if d == 4 {
        '4'
    } else if d == 5 {
        '5'
    } else if d == 6 {
        '6'
    } else if d == 7 {
        '7'
    } else if d == 8 {
        '8'
    } else {
        '9'
    }
}

/// The decimal numeral of a number of thousandths.
pub fn format_thousandths(t: u32) -> (r: String)
    ensures
        r@ == thousandths_text(t as nat),
{
    let mut out = String::new();
    push_decimal(&mut out, (t / 1000) as usize);
    let ghost whole = out@;
    push_char(&mut out, '.');
    push_char(&mut out, digit(t % 1000 / 100));
    push_char(&mut out, digit(t % 1000 % 100 / 10));
    push_char(&mut out, digit(t % 1000 % 100 % 10));
    assert(out@ =~= thousandths_text(t as nat));
    out
}

fn find_dot(s: &str, n: usize) -> (r: Option<usize>)
    requires
        n == s@.len(),
    ensures
        match dot_index(s@) {
            Some(p) => r == Some(p as usize) && 0 <= p < s@.len(),
            None => r is None,
        },
{
    let mut found: Option<usize> = None;
    let mut i: usize = 0;
    for c in it: s.chars()
        invariant
            it.seq() == s@,
            n == s@.len(),
            i == it.index(),
            match dot_index(s@.take(it.index() as int)) {
                Some(p) => found == Some(p as usize) && 0 <= p < it.index(),
                None => found is None,
            },
    {
        proof {
            let next = s@.take(i + 1);
            assert(next.drop_last() =~= s@.take(i as int));
            assert(next.last() == c);
        }
        if found.is_none() && c == '.' {
            found = Some(i);
        }
        i += 1;
    }
    proof {
        assert(s@.take(s@.len() as int) =~= s@);
    }
    found
}

fn parse_fraction(frac: &str) -> (r: Option<u64>)
    ensures
        match fraction_value(frac@) {
            Some(f) => r == Some(f as u64),
            None => r is None,
        },
{
    let mut valid = true;
    let mut count: u8 = 0;
    let mut value: u64 = 0;
    for c in it: frac.chars()
        invariant
            it.seq() == frac@,
            valid == all_digits(frac@.take(it.index() as int)),
            count <= 3,
            count < 3 ==> count == it.index(),
            count == 3 ==> it.index() >= 3,
            valid ==> value == (if it.index() > 0 {
                digit_value(frac@[0])->0 * 100
            } else {
                0
            }) + (if it.index() > 1 {
                digit_value(frac@[1])->0 * 10
            } else {
                0
            }) + (if it.index() > 2 {
                digit_value(frac@[2])->0
            } else {
                0
            }),
            value <= 999,
    {
        let ghost at = it.index() as int;
        let ghost before = frac@.take(at);
        let ghost next = frac@.take(at + 1);
        proof {
            assert(next.last() == c);
            assert forall|i: int| 0 <= i < before.len() implies next[i] == before[i] by {}
            if valid {
                assert forall|i: int| 0 <= i < at implies digit_value(#[trigger] frac@[i]) is Some by {
                    assert(before[i] == frac@[i]);
                }
            }
        }
        match digit_of(c) {
            Some(d) => {
                if valid {
                    if count == 0 {
                        value = d * 100;
                    } else if count == 1 {
                        value = value + d * 10;
                    } else if count == 2 {
                        value = value + d;
                    }
                }
                proof {
                    if valid {
                        assert forall|i: int| 0 <= i < next.len() implies digit_value(
                            #[trigger] next[i],
                        ) is Some by {
                            if i < at {
                                assert(before[i] == next[i]);
                            }
                        }
                    } else {
                        let i = choose|i: int|
                            0 <= i < before.len() && !(digit_value(#[trigger] before[i]) is Some);
                        assert(next[i] == before[i]);
                    }
                }
            },
            None => {
                valid = false;
            },
        }
        if count < 3 {
            count = count + 1;
        }
    }
    proof {
        assert(frac@.take(frac@.len() as int) =~= frac@);
    }
    if valid && count > 0 {
        Some(value)
    } else {
        None
    }
}

/// The number of thousandths that a decimal numeral denotes, where it
/// fits.
pub fn parse_thousandths(s: &str) -> (r: Option<u32>)
    ensures
        match thousandths_of(s@) {
            Some(v) => if v <= u32::MAX {
                r == Some(v as u32)
            } else {
                r is None
            },
            None => r is None,
        },
{
    let n = s.unicode_len();
    let (whole, fraction) = match find_dot(s, n) {
        Some(p) => {
            let whole = parse_digits(s.substring_char(0, p));
            let fraction = parse_fraction(s.substring_char(p + 1, n));
            proof {
                assert(s@.subrange(0, p as int) =~= s@.take(p as int));
                assert(s@.subrange(p + 1, n as int) =~= s@.skip(p + 1));
            }
            match fraction {
                Some(f) => (whole, f),
                None => {
                    return None;
                },
            }
        },
        None => (parse_digits(s), 0),
    };
    match whole {
        Some(w) => {
            if w > 4294967 {
                None
            } else {
                let total = w * 1000 + fraction;
                if total > 4294967295 {
                    None
                } else {
                    Some(total as u32)
                }
            }
        },
        None => None,
    }
}

} // verus!
