//! Money in minor units.
//!
//! An amount is a whole number of poisha, a hundred to the taka. It is read from a decimal
//! numeral and written as one; in between it is an integer and is never rounded.

use crate::text::{
    all_digits, chars_of, decimal, decimal_text, digit, digit_char, digit_value, find_from,
    is_digit, lemma_decimal, lemma_no_leading_zero, lemma_number_step, lemma_position,
    lemma_position_is, number_of, position, value_of_digit,
};
use vstd::arithmetic::power::{lemma_pow0, lemma_pow_adds, pow};
use vstd::prelude::*;

verus! {

// ---- reading ----

/// The whole taka of a numeral: the digits before the point.
pub open spec fn whole_part(s: Seq<char>) -> Seq<char> {
    s.take(position(s, '.'))
}

/// The digits after the point; none where there is no point.
pub open spec fn fraction_part(s: Seq<char>) -> Seq<char> {
    if s.contains('.') {
        s.skip(position(s, '.') + 1)
    } else {
        seq![]
    }
}

/// Whether `s` is a decimal numeral: digits with at most one point, and at least one digit.
pub open spec fn is_amount(s: Seq<char>) -> bool {
    &&& all_digits(whole_part(s))
    &&& all_digits(fraction_part(s))
    &&& whole_part(s).len() + fraction_part(s).len() > 0
}

/// The digit at place `i` of a fraction; zero beyond its end.
pub open spec fn place(f: Seq<char>, i: int) -> int {
    if i < f.len() {
        digit_value(f[i])
    } else {
        0
    }
}

/// A decimal fraction of a taka in poisha, to the nearest one; half a poisha counts as one.
pub open spec fn hundredths(f: Seq<char>) -> int {
    10 * place(f, 0) + place(f, 1) + if place(f, 2) >= 5 {
        1int
    } else {
        0
    }
}

/// What a numeral of taka comes to in poisha, to the nearest one.
pub open spec fn exact_minor(s: Seq<char>) -> int {
    100 * number_of(whole_part(s)) + hundredths(fraction_part(s))
}

/// What a numeral of taka comes to in poisha, if it is one. What an `i64` cannot hold comes
/// to the largest `i64`.
pub open spec fn minor_of(s: Seq<char>) -> Option<int> {
    if !is_amount(s) {
        None
    } else if exact_minor(s) <= i64::MAX {
        Some(exact_minor(s))
    } else {
        Some(i64::MAX as int)
    }
}

/// The number that the digits `from..to` denote, or `i64::MAX` where that is less; `None`
/// where one of them is not a digit.
fn capped_number(v: &Vec<char>, from: usize, to: usize) -> (r: Option<u64>)
    requires
        from <= to <= v.len(),
    ensures
        r is Some <==> all_digits(v@.subrange(from as int, to as int)),
        r matches Some(n) ==> {
            let x = number_of(v@.subrange(from as int, to as int));
            n == if x <= i64::MAX { x } else { i64::MAX as int }
        },
{
    let ghost d = v@.subrange(from as int, to as int);
    let mut n: u64 = 0;
    let mut i: usize = from;
    assert(d.take(0) =~= Seq::<char>::empty());
    while i < to
        invariant
            from <= i <= to <= v.len(),
            d == v@.subrange(from as int, to as int),
            forall|j: int| 0 <= j < i - from ==> is_digit(#[trigger] d[j]),
            ({
                let x = number_of(d.take(i - from));
                n == if x <= i64::MAX { x } else { i64::MAX as int }
            }),
        decreases to - i,
    {
        let c = v[i];
        let ghost k = i - from;
        assert(d[k] == c);
        if !digit(c) {
            return None;
        }
        proof {
            lemma_number_step(d, k);
        }
        let next: u128 = n as u128 * 10 + value_of_digit(c) as u128;
        n = if next <= i64::MAX as u128 {
            next as u64
        } else {
            i64::MAX as u64
        };
        i = i + 1;
    }
    assert(d.take(d.len() as int) =~= d);
    Some(n)
}

/// The digit at place `i` of the fraction that begins at `from`; zero beyond its end.
fn place_at(v: &Vec<char>, from: usize, i: usize) -> (d: u64)
    requires
        from <= v.len(),
        i < 3,
        all_digits(v@.skip(from as int)),
    ensures
        d == place(v@.skip(from as int), i as int),
        d < 10,
{
    if i < v.len() - from {
        assert(v@.skip(from as int)[i as int] == v@[from + i]);
        assert(is_digit(v@.skip(from as int)[i as int]));
        value_of_digit(v[from + i])
    } else {
        0
    }
}

/// What a numeral of taka comes to in poisha, if it is one.
pub fn read_minor(s: &str) -> (r: Option<i64>)
    ensures
        r is Some <==> minor_of(s@) is Some,
        r matches Some(n) ==> minor_of(s@) == Some(n as int),
{
    let v = chars_of(s);
    let point = find_from(&v, '.', 0);
    proof {
        assert(v@.skip(0) =~= s@);
        lemma_position(s@, '.');
        assert(v@.subrange(0, point as int) =~= whole_part(s@));
    }
    let start: usize = if point < v.len() {
        point + 1
    } else {
        point
    };
    assert(v@.skip(start as int) =~= fraction_part(s@));
    assert(v@.subrange(start as int, v.len() as int) =~= fraction_part(s@));
    let whole = match capped_number(&v, 0, point) {
        Some(n) => n,
        None => {
            return None;
        },
    };
    match capped_number(&v, start, v.len()) {
        Some(_) => {},
        None => {
            return None;
        },
    }
    if point == 0 && start == v.len() {
        return None;
    }
    let up: u64 = if place_at(&v, start, 2) >= 5 {
        1
    } else {
        0
    };
    let poisha: u64 = 10 * place_at(&v, start, 0) + place_at(&v, start, 1) + up;
    let total: u128 = whole as u128 * 100 + poisha as u128;
    if total <= i64::MAX as u128 {
        Some(total as i64)
    } else {
        Some(i64::MAX)
    }
}

// ---- writing ----

/// `n` poisha as a numeral of taka with two decimals.
pub open spec fn amount_text(n: int) -> Seq<char> {
    if n < 0 {
        seq!['-'] + unsigned_amount((-n) as nat)
    } else {
        unsigned_amount(n as nat)
    }
}

/// `n` poisha as a numeral of taka with two decimals.
pub open spec fn unsigned_amount(n: nat) -> Seq<char> {
    decimal(n / 100) + seq!['.', digit_char(((n / 10) % 10) as int), digit_char((n % 10) as int)]
}

/// `n` poisha as a numeral of taka with two decimals.
pub fn format_minor(n: i64) -> (s: String)
    ensures
        s@ == amount_text(n as int),
{
    let mut s = String::new();
    let magnitude: u64 = if n >= 0 {
        n as u64
    } else {
        s.push('-');
        if n == i64::MIN {
            0x8000_0000_0000_0000
        } else {
            (-n) as u64
        }
    };
    let whole = decimal_text(magnitude / 100);
    s.append(whole.as_str());
    s.push('.');
    s.push(((magnitude / 10 % 10) as u8 + 48u8) as char);
    s.push(((magnitude % 10) as u8 + 48u8) as char);
    assert(s@ =~= amount_text(n as int));
    s
}

// ---- laws ----

/// An amount that is not negative, once written, is read back as it was.
pub proof fn law_amount_round_trip(n: nat)
    requires
        n <= i64::MAX,
    ensures
        minor_of(amount_text(n as int)) == Some(n as int),
{
    let s = unsigned_amount(n);
    let d = decimal(n / 100);
    lemma_decimal(n / 100);
    assert forall|j: int| 0 <= j < d.len() implies s[j] != '.' by {
        assert(is_digit(d[j]));
        assert(s[j] == d[j]);
    }
    assert(s[d.len() as int] == '.');
    lemma_position_is(s, '.', d.len() as int);
    assert(whole_part(s) =~= d);
    let f = seq![digit_char(((n / 10) % 10) as int), digit_char((n % 10) as int)];
    assert(fraction_part(s) =~= f);
    assert(digit_value(f[0]) == (n / 10) % 10);
    assert(digit_value(f[1]) == n % 10);
    assert(n == 100 * (n / 100) + 10 * ((n / 10) % 10) + n % 10) by {
        assert(n / 10 / 10 == n / 100);
    }
}

/// The number of a text of digits in two parts.
proof fn lemma_number_add(a: Seq<char>, b: Seq<char>)
    requires
        all_digits(b),
    ensures
        number_of(a + b) == number_of(a) * pow(10, b.len()) + number_of(b),
        0 <= number_of(b) < pow(10, b.len()),
    decreases b.len(),
{
    lemma_pow0(10);
    if b.len() == 0 {
        assert(a + b =~= a);
        assert(number_of(a) * 1 == number_of(a));
    } else {
        let t = b.drop_last();
        lemma_number_add(a, t);
        assert((a + b).drop_last() =~= a + t);
        assert(is_digit(b[b.len() - 1]));
        let p = pow(10, t.len());
        let n = number_of(a);
        reveal(pow);
        assert(pow(10, b.len()) == 10 * p);
        assert(10 * (n * p) == n * (10 * p)) by (nonlinear_arith);
    }
}

/// Hundredths of a fraction of three digits or more.
proof fn lemma_hundredths(f: Seq<char>)
    requires
        all_digits(f),
    ensures
        2 * pow(10, f.len()) * hundredths(f) <= 200 * number_of(f) + pow(10, f.len()) < 2 * pow(
            10,
            f.len(),
        ) * (hundredths(f) + 1),
{
    reveal(pow);
    reveal_with_fuel(number_of, 4);
    let k = f.len();
    let h = hundredths(f);
    let whole = number_of(f);
    let p = pow(10, k);
    if k == 0 {
        assert(2 * p * h <= 200 * whole + p < 2 * p * (h + 1)) by (nonlinear_arith)
            requires
                p == 1,
                h == 0,
                whole == 0,
        ;
    } else if k == 1 {
        assert(is_digit(f[0]));
        assert(f.drop_last() =~= Seq::<char>::empty());
        reveal_with_fuel(pow, 2);
        assert(2 * p * h <= 200 * whole + p < 2 * p * (h + 1)) by (nonlinear_arith)
            requires
                p == 10,
                h == 10 * whole,
        ;
    } else if k == 2 {
        assert(is_digit(f[0]) && is_digit(f[1]));
        assert(f.drop_last().drop_last() =~= Seq::<char>::empty());
        reveal_with_fuel(pow, 3);
        assert(2 * p * h <= 200 * whole + p < 2 * p * (h + 1)) by (nonlinear_arith)
            requires
                p == 100,
                h == whole,
        ;
    } else {
        let head = f.take(3);
        let tail = f.skip(3);
        assert(is_digit(f[0]) && is_digit(f[1]) && is_digit(f[2]));
        assert(head.drop_last().drop_last().drop_last() =~= Seq::<char>::empty());
        let n = number_of(head);
        assert(n == 100 * digit_value(f[0]) + 10 * digit_value(f[1]) + digit_value(f[2]));
        assert(head + tail =~= f);
        assert(all_digits(tail)) by {
            assert forall|i: int| 0 <= i < tail.len() implies is_digit(#[trigger] tail[i]) by {
                assert(tail[i] == f[i + 3]);
            }
        }
        lemma_number_add(head, tail);
        let q = pow(10, tail.len());
        let rest = number_of(tail);
        lemma_pow_adds(10, 3, tail.len());
        reveal_with_fuel(pow, 4);
        assert(pow(10, 3) == 1000);
        assert(p == 1000 * q);
        let m = 10 * digit_value(f[0]) + digit_value(f[1]);
        let d = digit_value(f[2]);
        assert(n == 10 * m + d);
        assert(2 * p * h <= 200 * (n * q + rest) + p < 2 * p * (h + 1)) by (nonlinear_arith)
            requires
                p == 1000 * q,
                n == 10 * m + d,
                0 <= rest < q,
                0 <= d <= 9,
                d >= 5 ==> h == m + 1,
                d < 5 ==> h == m,
        ;
    }
}

/// A numeral with a point comes to the nearest poisha, half of one counting as one: `w` are
/// the digits before the point and `f` those after it, so that the numeral denotes the number
/// of all of them together, divided by ten for each digit of `f`.
pub proof fn law_amount_is_the_nearest(w: Seq<char>, f: Seq<char>) -> (exact: int)
    requires
        all_digits(w),
        all_digits(f),
        w.len() + f.len() > 0,
    ensures
        minor_of(w + seq!['.'] + f) == Some(
            if exact <= i64::MAX {
                exact
            } else {
                i64::MAX as int
            },
        ),
        2 * pow(10, f.len()) * exact <= 200 * number_of(w + f) + pow(10, f.len()) < 2 * pow(
            10,
            f.len(),
        ) * (exact + 1),
{
    let s = w + seq!['.'] + f;
    assert forall|j: int| 0 <= j < w.len() implies s[j] != '.' by {
        assert(is_digit(w[j]));
        assert(s[j] == w[j]);
    }
    assert(s[w.len() as int] == '.');
    lemma_position_is(s, '.', w.len() as int);
    assert(whole_part(s) =~= w);
    assert(fraction_part(s) =~= f);
    lemma_hundredths(f);
    lemma_number_add(w, f);
    let p = pow(10, f.len());
    let x = number_of(w);
    let h = hundredths(f);
    let n = number_of(f);
    assert(2 * p * (100 * x + h) <= 200 * (x * p + n) + p < 2 * p * (100 * x + h + 1))
        by (nonlinear_arith)
        requires
            2 * p * h <= 200 * n + p < 2 * p * (h + 1),
    ;
    exact_minor(s)
}

/// A numeral without a point is whole taka: a hundred poisha each.
pub proof fn law_digits_are_taka(d: Seq<char>)
    requires
        d.len() > 0,
        forall|i: int| 0 <= i < d.len() ==> '0' <= #[trigger] d[i] && d[i] <= '9',
    ensures
        minor_of(d) == Some(
            if 100 * number_of(d) <= i64::MAX {
                100 * number_of(d)
            } else {
                i64::MAX as int
            },
        ),
{
    lemma_position_is(d, '.', d.len() as int);
    lemma_position(d, '.');
    assert(whole_part(d) =~= d);
    assert(fraction_part(d) =~= Seq::<char>::empty());
}

/// A text is an amount exactly if it is made of digits and at most one point, and has a
/// digit.
pub proof fn law_what_an_amount_is(s: Seq<char>)
    ensures
        minor_of(s) is Some <==> {
            &&& forall|i: int|
                0 <= i < s.len() ==> ('0' <= #[trigger] s[i] && s[i] <= '9') || s[i] == '.'
            &&& forall|i: int, j: int|
                0 <= i < j < s.len() ==> !(#[trigger] s[i] == '.' && #[trigger] s[j] == '.')
            &&& exists|i: int| 0 <= i < s.len() && #[trigger] s[i] != '.'
        },
{
    lemma_position(s, '.');
    let p = position(s, '.');
    let w = whole_part(s);
    let f = fraction_part(s);
    if is_amount(s) {
        assert forall|i: int| 0 <= i < s.len() implies is_digit(#[trigger] s[i]) || i == p by {
            if i < p {
                assert(w[i] == s[i]);
            } else if i > p {
                assert(f[i - p - 1] == s[i]);
            }
        }
        if w.len() > 0 {
            assert(is_digit(w[0]) && s[0] == w[0]);
        } else {
            assert(is_digit(f[0]) && s[p + 1] == f[0]);
        }
    }
    if (forall|i: int|
        0 <= i < s.len() ==> ('0' <= #[trigger] s[i] && s[i] <= '9') || s[i] == '.') && (forall|
        i: int,
        j: int,
    |
        0 <= i < j < s.len() ==> !(#[trigger] s[i] == '.' && #[trigger] s[j] == '.')) && (exists|
        i: int,
    |
        0 <= i < s.len() && #[trigger] s[i] != '.') {
        assert forall|i: int| 0 <= i < w.len() implies is_digit(#[trigger] w[i]) by {
            assert(w[i] == s[i]);
        }
        assert forall|i: int| 0 <= i < f.len() implies is_digit(#[trigger] f[i]) by {
            assert(f[i] == s[p + 1 + i]);
            assert(s[p] == '.');
        }
        let i = choose|i: int| 0 <= i < s.len() && #[trigger] s[i] != '.';
        assert(i != p);
    }
}

/// An amount is written with its digits, a point before the last two of them, and no zero in
/// front of the taka but a single one.
pub proof fn law_amount_has_two_decimals(n: nat)
    ensures
        ({
            let t = amount_text(n as int);
            let k = t.len() - 3;
            &&& k >= 1
            &&& t[k] == '.'
            &&& all_digits(t.take(k) + t.skip(k + 1))
            &&& number_of(t.take(k) + t.skip(k + 1)) == n
            &&& k > 1 ==> t[0] != '0'
        }),
{
    let t = amount_text(n as int);
    let d = decimal(n / 100);
    let k = t.len() - 3;
    lemma_decimal(n / 100);
    let c1 = digit_char(((n / 10) % 10) as int);
    let c2 = digit_char((n % 10) as int);
    assert(t.take(k) =~= d);
    assert(t.skip(k + 1) =~= seq![c1, c2]);
    let all = t.take(k) + t.skip(k + 1);
    assert(all =~= d.push(c1).push(c2));
    assert(all.drop_last() =~= d.push(c1));
    assert(all.drop_last().drop_last() =~= d);
    reveal_with_fuel(number_of, 3);
    assert(number_of(all) == 100 * (n / 100) as int + 10 * ((n / 10) % 10) as int + (n % 10) as int);
    if k > 1 {
        lemma_no_leading_zero(n / 100);
    }
}

/// An amount below zero is written as the amount above it, after a minus sign.
pub proof fn law_negative_amount_has_a_sign(n: int)
    requires
        n < 0,
    ensures
        amount_text(n) == seq!['-'] + amount_text(-n),
{
}

} // verus!
