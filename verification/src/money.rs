//! Amounts of money in micro-cents, millionths of a US cent, and how they are written in cents.

use crate::text::{
    decimal, decimal_text, digit, digit_char, law_decimal_digits_stand_for_the_number, number, text2,
    text3,
};
use vstd::prelude::*;
use vstd::string::*;

verus! {

/// Micro-cents in a cent.
pub const MICROS_PER_CENT: u128 = 1_000_000;

/// So many cents, in micro-cents.
pub fn cents(n: u64) -> (micros: u128)
    ensures
        micros == n * MICROS_PER_CENT,
{
    n as u128 * MICROS_PER_CENT
}

/// Ten to the power of `n`.
pub open spec fn pow10(n: nat) -> nat
    decreases n,
{
    if n == 0 {
        1
    } else {
        10 * pow10((n - 1) as nat)
    }
}

/// The digits of a number below `pow10(places)` behind the decimal point, without trailing zeros.
pub open spec fn fraction(n: nat, places: nat) -> Seq<char>
    decreases places,
{
    if n == 0 || places == 0 {
        seq![]
    } else {
        let unit = pow10((places - 1) as nat);
        seq![digit(n / unit)] + fraction(n % unit, (places - 1) as nat)
    }
}

/// An amount of micro-cents, in cents.
pub open spec fn cents_text(micros: nat) -> Seq<char> {
    if micros % 1_000_000 == 0 {
        decimal(micros / 1_000_000)
    } else {
        decimal(micros / 1_000_000) + "."@ + fraction(micros % 1_000_000, 6)
    }
}

/// A number with its sign.
pub open spec fn signed_cents_text(micros: int) -> Seq<char> {
    if micros < 0 {
        "-"@ + cents_text((-micros) as nat)
    } else {
        cents_text(micros as nat)
    }
}

/// A whole number with its sign.
pub open spec fn signed_decimal(n: int) -> Seq<char> {
    if n < 0 {
        "-"@ + decimal((-n) as nat)
    } else {
        decimal(n as nat)
    }
}

fn fraction_text(n: u64) -> (s: String)
    requires
        n < 1_000_000,
    ensures
        s@ == fraction(n as nat, 6),
{
    let mut s = String::new();
    let mut rest: u64 = n;
    let mut places: u64 = 6;
    let mut unit: u64 = 100_000;
    proof {
        reveal_with_fuel(pow10, 7);
        assert(s@ + fraction(rest as nat, 6) == fraction(n as nat, 6));
    }
    while rest != 0 && places > 0
        invariant
            places <= 6,
            places > 0 ==> unit == pow10((places - 1) as nat),
            rest < pow10(places as nat),
            s@ + fraction(rest as nat, places as nat) == fraction(n as nat, 6),
        decreases places,
    {
        let ghost before = s@;
        let ghost tail = fraction(rest as nat, places as nat);
        assert(pow10(places as nat) == 10 * unit);
        assert(unit >= 1) by {
            lemma_pow10_positive((places - 1) as nat);
        }
        assert(rest / unit < 10) by (nonlinear_arith)
            requires
                rest < 10 * unit,
                unit >= 1,
        ;
        s.push(digit_char((rest / unit) as u128));
        assert(tail == seq![digit((rest / unit) as nat)] + fraction(
            (rest % unit) as nat,
            (places - 1) as nat,
        ));
        rest = rest % unit;
        places = places - 1;
        assert(s@ + fraction(rest as nat, places as nat) == before + tail);
        if places > 0 {
            assert(unit == 10 * pow10((places - 1) as nat));
        }
        unit = unit / 10;
    }
    assert(fraction(rest as nat, places as nat) == Seq::<char>::empty());
    s
}

proof fn lemma_pow10_positive(n: nat)
    ensures
        pow10(n) >= 1,
    decreases n,
{
    if n > 0 {
        lemma_pow10_positive((n - 1) as nat);
    }
}

/// An amount of micro-cents, written in cents.
pub fn write_cents(micros: u64) -> (s: String)
    ensures
        s@ == cents_text(micros as nat),
{
    let whole = decimal_text((micros / 1_000_000) as u128);
    let rest: u64 = micros % 1_000_000;
    if rest == 0 {
        return whole;
    }
    let frac = fraction_text(rest);
    text3(whole.as_str(), ".", frac.as_str())
}

fn unsigned_part(n: i64) -> (m: u64)
    ensures
        m == if n < 0 {
            -n
        } else {
            n as int
        },
{
    if n < 0 {
        (-(n as i128)) as u64
    } else {
        n as u64
    }
}

/// An amount of micro-cents that may be below zero, written in cents.
pub fn write_signed_cents(micros: i64) -> (s: String)
    ensures
        s@ == signed_cents_text(micros as int),
{
    let text = write_cents(unsigned_part(micros));
    if micros < 0 {
        text2("-", text.as_str())
    } else {
        text
    }
}

/// A whole number that may be below zero, in decimal digits.
pub fn write_signed(n: i64) -> (s: String)
    ensures
        s@ == signed_decimal(n as int),
{
    let text = decimal_text(unsigned_part(n) as u128);
    if n < 0 {
        text2("-", text.as_str())
    } else {
        text
    }
}

/// A text of digits, points and minus signs.
pub open spec fn is_numeric(s: Seq<char>) -> bool {
    forall|i: int| 0 <= i < s.len() ==> is_numeric_char(#[trigger] s[i])
}

/// A digit, a point or a minus sign.
pub open spec fn is_numeric_char(c: char) -> bool {
    ('0' <= c && c <= '9') || c == '.' || c == '-'
}

proof fn lemma_numeric_concat(a: Seq<char>, b: Seq<char>)
    requires
        is_numeric(a),
        is_numeric(b),
    ensures
        is_numeric(a + b),
{
    assert forall|i: int| 0 <= i < (a + b).len() implies is_numeric_char(#[trigger] (a + b)[i]) by {
        if i < a.len() {
            assert((a + b)[i] == a[i]);
        } else {
            assert((a + b)[i] == b[i - a.len()]);
        }
    }
}

proof fn lemma_numeric_plain(s: Seq<char>)
    requires
        is_numeric(s),
    ensures
        !s.contains(','),
        !s.contains('"'),
{
    if s.contains(',') {
        let i = choose|i: int| 0 <= i < s.len() && s[i] == ',';
        assert(is_numeric_char(s[i]));
    }
    if s.contains('"') {
        let i = choose|i: int| 0 <= i < s.len() && s[i] == '"';
        assert(is_numeric_char(s[i]));
    }
}

proof fn lemma_decimal_numeric(n: nat)
    ensures
        is_numeric(decimal(n)),
    decreases n,
{
    if n >= 10 {
        lemma_decimal_numeric(n / 10);
        lemma_numeric_concat(decimal(n / 10), seq![digit(n % 10)]);
        assert(decimal(n / 10) + seq![digit(n % 10)] == decimal(n));
    }
}

proof fn lemma_fraction_numeric(n: nat, places: nat)
    ensures
        is_numeric(fraction(n, places)),
    decreases places,
{
    if n != 0 && places != 0 {
        let unit = pow10((places - 1) as nat);
        lemma_pow10_positive((places - 1) as nat);
        lemma_fraction_numeric(n % unit, (places - 1) as nat);
        lemma_numeric_concat(seq![digit(n / unit)], fraction(n % unit, (places - 1) as nat));
        assert(fraction(n, places) == seq![digit(n / unit)] + fraction(
            n % unit,
            (places - 1) as nat,
        ));
    }
}

proof fn lemma_cents_numeric(micros: nat)
    ensures
        is_numeric(cents_text(micros)),
{
    reveal_strlit(".");
    lemma_decimal_numeric(micros / 1_000_000);
    if micros % 1_000_000 != 0 {
        lemma_fraction_numeric(micros % 1_000_000, 6);
        lemma_numeric_concat(decimal(micros / 1_000_000), "."@);
        lemma_numeric_concat(
            decimal(micros / 1_000_000) + "."@,
            fraction(micros % 1_000_000, 6),
        );
    }
}

/// A whole number is written without commas and quotation marks.
pub proof fn lemma_decimal_plain(n: nat)
    ensures
        !decimal(n).contains(','),
        !decimal(n).contains('"'),
{
    lemma_decimal_numeric(n);
    lemma_numeric_plain(decimal(n));
}

/// A whole number with its sign is written without commas and quotation marks.
pub proof fn lemma_signed_decimal_plain(n: int)
    ensures
        !signed_decimal(n).contains(','),
        !signed_decimal(n).contains('"'),
{
    reveal_strlit("-");
    if n < 0 {
        lemma_decimal_numeric((-n) as nat);
        lemma_numeric_concat("-"@, decimal((-n) as nat));
    } else {
        lemma_decimal_numeric(n as nat);
    }
    lemma_numeric_plain(signed_decimal(n));
}

/// An amount is written without commas and quotation marks.
pub proof fn lemma_cents_plain(micros: nat)
    ensures
        !cents_text(micros).contains(','),
        !cents_text(micros).contains('"'),
{
    lemma_cents_numeric(micros);
    lemma_numeric_plain(cents_text(micros));
}

/// An amount with its sign is written without commas and quotation marks.
pub proof fn lemma_signed_cents_plain(micros: int)
    ensures
        !signed_cents_text(micros).contains(','),
        !signed_cents_text(micros).contains('"'),
{
    reveal_strlit("-");
    if micros < 0 {
        lemma_cents_numeric((-micros) as nat);
        lemma_numeric_concat("-"@, cents_text((-micros) as nat));
    } else {
        lemma_cents_numeric(micros as nat);
    }
    lemma_numeric_plain(signed_cents_text(micros));
}

/// What digits behind the decimal point stand for, where the first of them counts so much.
pub open spec fn behind_the_point(digits: Seq<char>, first_counts: int) -> int
    decreases digits.len(),
{
    if digits.len() == 0 {
        0
    } else {
        (digits[0] as u32 - 48) * first_counts + behind_the_point(
            digits.drop_first(),
            first_counts / 10,
        )
    }
}

proof fn lemma_behind_the_point(n: nat, places: nat)
    requires
        n < pow10(places),
        places <= 6,
    ensures
        places > 0 ==> behind_the_point(fraction(n, places), pow10((places - 1) as nat) as int)
            == n,
        fraction(n, places).len() <= places,
        n > 0 ==> fraction(n, places).len() > 0 && fraction(n, places).last() != '0',
        forall|i: int|
            0 <= i < fraction(n, places).len() ==> '0' <= #[trigger] fraction(n, places)[i] <= '9',
    decreases places,
{
    reveal_with_fuel(behind_the_point, 2);
    if n != 0 && places != 0 {
        let unit = pow10((places - 1) as nat);
        lemma_pow10_positive((places - 1) as nat);
        assert(pow10(places) == 10 * unit);
        assert(n / unit < 10 && n % unit < unit && n == (n / unit) * unit + n % unit)
            by (nonlinear_arith)
            requires
                n < 10 * unit,
                unit >= 1,
        ;
        lemma_behind_the_point(n % unit, (places - 1) as nat);
        let f = fraction(n, places);
        let rest = fraction(n % unit, (places - 1) as nat);
        assert(f == seq![digit(n / unit)] + rest);
        assert(f.drop_first() == rest);
        if places > 1 {
            assert(unit == 10 * pow10((places - 2) as nat));
            assert(unit as int / 10 == pow10((places - 2) as nat));
        } else {
            assert(rest.len() == 0);
        }
        assert((digit(n / unit) as u32 - 48) as int == n / unit);
        if n % unit > 0 {
            assert(f.last() == rest.last());
        } else {
            assert(rest.len() == 0);
            assert(n / unit > 0) by (nonlinear_arith)
                requires
                    n > 0,
                    n == (n / unit) * unit + n % unit,
                    n % unit == 0,
            ;
        }
    } else if places > 0 {
        assert(fraction(n, places).len() == 0);
    }
}

/// An amount is written in cents so that it can be read back to the micro-cent: whole cents as a number
/// alone; and else the whole cents, a point, and at most six digits without a zero at the end, the
/// first of which counts a tenth of a cent.
pub proof fn law_amounts_read_back(micros: nat)
    ensures
        micros % 1_000_000 == 0 ==> number(cents_text(micros)) * 1_000_000 == micros,
        micros % 1_000_000 != 0 ==> exists|whole: Seq<char>, rest: Seq<char>|
            {
                &&& cents_text(micros) == #[trigger] (whole + seq!['.'] + rest)
                &&& number(whole) * 1_000_000 + behind_the_point(rest, 100_000) == micros
                &&& 0 < rest.len() <= 6
                &&& rest.last() != '0'
            },
{
    reveal_strlit(".");
    assert("."@ == seq!['.']);
    law_decimal_digits_stand_for_the_number(micros / 1_000_000);
    if micros % 1_000_000 != 0 {
        reveal_with_fuel(pow10, 7);
        lemma_behind_the_point(micros % 1_000_000, 6);
        let whole = decimal(micros / 1_000_000);
        let rest = fraction(micros % 1_000_000, 6);
        assert(cents_text(micros) == whole + seq!['.'] + rest);
    }
}

/// An amount or a number below zero is written with a minus in front, and any other without one.
pub proof fn law_signs_are_written(n: nat)
    ensures
        signed_cents_text(n as int) == cents_text(n),
        signed_decimal(n as int) == decimal(n),
        n > 0 ==> signed_cents_text(-n) == seq!['-'] + cents_text(n),
        n > 0 ==> signed_decimal(-n) == seq!['-'] + decimal(n),
{
    reveal_strlit("-");
    assert("-"@ == seq!['-']);
}

/// A cent is a million micro-cents.
pub proof fn law_a_cent_is_a_million_micro_cents()
    ensures
        MICROS_PER_CENT == 1_000_000,
{
}

} // verus!
