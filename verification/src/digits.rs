//! Decimal text for integers and for amounts in minor units.
//!
//! The buffer record carries an amount as an integer number of cents; the
//! wire JSON carries it as a decimal in major units with two fraction
//! digits.  Both renderings, and the parsers that invert them, live here.

use vstd::prelude::*;
use vstd::string::StrSliceExecFns;
use vstd::string::StringExecFns;

verus! {

/// The character for one decimal digit value.
pub open spec fn digit_char_spec(d: int) -> char {
    if d == 0 {
        '0'
    } else if d == 1 {
        '1'
    } else if d == 2 {
        '2'
    } else if d == 3 {
        '3'
    } else if d == 4 {
        '4'
    } else if d == 5 {
        '5'
    } else if d == 6 {
        '6'
    } else if d == 7 {
        '7'
    } else if d == 8 {
        '8'
    } else {
        '9'
    }
}

pub open spec fn is_digit(c: char) -> bool {
    48 <= c as int <= 57
}

/// The value of one decimal digit character.
pub open spec fn digit_val(c: char) -> int {
    c as int - 48
}

/// The decimal rendering of a natural number, without sign or padding.
pub open spec fn dec_digits(n: nat) -> Seq<char>
    decreases n,
{
    if n < 10 {
        seq![digit_char_spec(n as int)]
    } else {
        dec_digits(n / 10) + seq![digit_char_spec((n % 10) as int)]
    }
}

/// The decimal rendering of an integer: a minus sign for negative values,
/// then the digits of the magnitude.
pub open spec fn dec_int(n: int) -> Seq<char> {
    if n < 0 {
        seq!['-'] + dec_digits((-n) as nat)
    } else {
        dec_digits(n as nat)
    }
}

/// The value of a string of decimal digit characters.
pub open spec fn dec_val(s: Seq<char>) -> int
    decreases s.len(),
{
    if s.len() == 0 {
        0
    } else {
        dec_val(s.drop_last()) * 10 + digit_val(s.last())
    }
}

pub open spec fn all_digits(s: Seq<char>) -> bool {
    forall|i: int| 0 <= i < s.len() ==> is_digit(#[trigger] s[i])
}

/// A rendered natural number is made of digits only and reads back to
/// the number it came from.
pub proof fn lemma_dec_digits_val(n: nat)
    ensures
        dec_digits(n).len() >= 1,
        all_digits(dec_digits(n)),
        dec_val(dec_digits(n)) == n,
    decreases n,
{
    if n < 10 {
        let s = dec_digits(n);
        assert(s =~= seq![digit_char_spec(n as int)]);
        assert(s.drop_last() =~= Seq::<char>::empty());
        assert(dec_val(Seq::<char>::empty()) == 0);
        assert(dec_val(s) == dec_val(s.drop_last()) * 10 + digit_val(s.last()));
        assert(is_digit(digit_char_spec(n as int)));
        assert(digit_val(digit_char_spec(n as int)) == n);
    } else {
        lemma_dec_digits_val(n / 10);
        let s = dec_digits(n);
        let p = dec_digits(n / 10);
        let d = digit_char_spec((n % 10) as int);
        assert(s =~= p + seq![d]);
        assert(s.drop_last() =~= p);
        assert(s.last() == d);
        assert(digit_val(d) == n % 10);
        assert(forall|i: int|
            0 <= i < s.len() ==> is_digit(#[trigger] s[i])) by {
            assert(forall|i: int| 0 <= i < p.len() ==> is_digit(#[trigger] p[i]));
            assert(is_digit(d));
            assert(forall|i: int| 0 <= i < s.len() && i < p.len() ==> s[i] == p[i]);
            assert(s[s.len() - 1] == d);
        }
        assert(dec_val(s) == dec_val(p) * 10 + digit_val(d));
        assert(dec_val(s) == (n / 10) * 10 + n % 10);
    }
}

/// A digit string never reads back to a smaller value than any of its
/// prefixes.
pub proof fn lemma_dec_val_prefix(s: Seq<char>, i: int)
    requires
        all_digits(s),
        0 <= i <= s.len(),
    ensures
        dec_val(s.take(i)) <= dec_val(s),
        dec_val(s.take(i)) >= 0,
        dec_val(s) >= 0,
    decreases s.len() - i,
{
    lemma_dec_val_nonneg(s.take(i));
    if i == s.len() {
        assert(s.take(i) =~= s);
    } else {
        lemma_dec_val_prefix(s, i + 1);
        assert(s.take(i + 1).drop_last() =~= s.take(i));
        assert(s.take(i + 1).last() == s[i]);
        assert(is_digit(s[i]));
        assert(dec_val(s.take(i + 1)) == dec_val(s.take(i)) * 10 + digit_val(s[i]));
    }
}

/// A digit string reads back to a non-negative value.
pub proof fn lemma_dec_val_nonneg(s: Seq<char>)
    requires
        all_digits(s),
    ensures
        dec_val(s) >= 0,
    decreases s.len(),
{
    if s.len() > 0 {
        assert(all_digits(s.drop_last())) by {
            assert(forall|i: int| 0 <= i < s.len() - 1 ==> s.drop_last()[i] == #[trigger] s[i]);
        }
        lemma_dec_val_nonneg(s.drop_last());
        assert(is_digit(s.last()));
    }
}

/// The one-character string for one digit value.
fn digit_str(d: u64) -> (r: &'static str)
    requires
        d < 10,
    ensures
        r@ == seq![digit_char_spec(d as int)],
{
    proof {
        reveal_strlit("0");
        reveal_strlit("1");
        reveal_strlit("2");
        reveal_strlit("3");
        reveal_strlit("4");
        reveal_strlit("5");
        reveal_strlit("6");
        reveal_strlit("7");
        reveal_strlit("8");
        reveal_strlit("9");
    }
    if d == 0 {
        proof { assert("0"@ =~= seq![digit_char_spec(0)]); }
        "0"
    } else if d == 1 {
        proof { assert("1"@ =~= seq![digit_char_spec(1)]); }
        "1"
    } else if d == 2 {
        proof { assert("2"@ =~= seq![digit_char_spec(2)]); }
        "2"
    } else if d == 3 {
        proof { assert("3"@ =~= seq![digit_char_spec(3)]); }
        "3"
    } else if d == 4 {
        proof { assert("4"@ =~= seq![digit_char_spec(4)]); }
        "4"
    } else if d == 5 {
        proof { assert("5"@ =~= seq![digit_char_spec(5)]); }
        "5"
    } else if d == 6 {
        proof { assert("6"@ =~= seq![digit_char_spec(6)]); }
        "6"
    } else if d == 7 {
        proof { assert("7"@ =~= seq![digit_char_spec(7)]); }
        "7"
    } else if d == 8 {
        proof { assert("8"@ =~= seq![digit_char_spec(8)]); }
        "8"
    } else {
        proof { assert("9"@ =~= seq![digit_char_spec(9)]); }
        "9"
    }
}

/// The decimal rendering of an unsigned machine integer.
pub fn format_u64(n: u64) -> (r: String)
    ensures
        r@ == dec_digits(n as nat),
    decreases n,
{
    if n < 10 {
        String::from_str(digit_str(n))
    } else {
        let mut r = format_u64(n / 10);
        let d = digit_str(n % 10);
        r.append(d);
        r
    }
}

/// The decimal rendering of a signed machine integer.
pub fn format_i64(n: i64) -> (r: String)
    ensures
        r@ == dec_int(n as int),
{
    if n >= 0 {
        let r = format_u64(n as u64);
        r
    } else {
        let mag: u64 = ((-(n + 1)) as u64) + 1;
        proof {
            assert(mag as int == -(n as int));
            reveal_strlit("-");
            assert("-"@ =~= seq!['-']);
        }
        let mut r = String::from_str("-");
        let m = format_u64(mag);
        r.append(m.as_str());
        r
    }
}

/// Reads a string of decimal digits as an unsigned machine integer.
/// Succeeds exactly on non-empty all-digit strings whose value fits.
pub fn parse_u64(s: &str) -> (r: Option<u64>)
    ensures
        r is Some <==> (s@.len() > 0 && all_digits(s@) && dec_val(s@) <= u64::MAX),
        r is Some ==> r->0 == dec_val(s@),
{
    let len = s.unicode_len();
    if len == 0 {
        return None;
    }
    let mut val: u64 = 0;
    let mut i: usize = 0;
    while i < len
        invariant
            len == s@.len(),
            0 < len,
            i <= len,
            all_digits(s@.take(i as int)),
            val == dec_val(s@.take(i as int)),
        decreases len - i,
    {
        let c = s.get_char(i);
        let cv = c as u32;
        if cv < 48 || cv > 57 {
            proof {
                assert(!is_digit(s@[i as int]));
            }
            return None;
        }
        let d: u64 = (cv - 48) as u64;
        proof {
            assert(s@.take(i as int + 1).drop_last() =~= s@.take(i as int));
            assert(s@.take(i as int + 1).last() == s@[i as int]);
            assert(all_digits(s@.take(i as int + 1))) by {
                assert(forall|j: int|
                    0 <= j < i + 1 ==> is_digit(#[trigger] s@.take(i as int + 1)[j])) by {
                    assert(forall|j: int|
                        0 <= j < i ==> s@.take(i as int + 1)[j] == #[trigger] s@.take(i as int)[j]);
                }
            }
        }
        if val > u64::MAX / 10 || (val == u64::MAX / 10 && d > u64::MAX % 10) {
            proof {
                assert(dec_val(s@.take(i as int + 1)) > u64::MAX);
                lemma_all_digits_or_bail(s@, i as int + 1);
            }
            return None;
        }
        val = val * 10 + d;
        i += 1;
    }
    proof {
        assert(s@.take(len as int) =~= s@);
    }
    Some(val)
}

/// If some prefix of a string already reads beyond the range, the whole
/// string either has a non-digit or reads beyond the range as well.
proof fn lemma_all_digits_or_bail(s: Seq<char>, i: int)
    requires
        0 <= i <= s.len(),
        all_digits(s.take(i)),
        dec_val(s.take(i)) > u64::MAX,
    ensures
        !(all_digits(s) && dec_val(s) <= u64::MAX),
{
    if all_digits(s) {
        lemma_dec_val_prefix(s, i);
    }
}

/// Reads an optionally signed string of decimal digits as a signed
/// machine integer, as the buffer's amount field is read.  Succeeds
/// exactly on strings of an optional sign followed by one or more digits
/// whose value fits.
pub fn parse_i64(s: &str) -> (r: Option<i64>)
    ensures
        r is Some <==> (signed_body(s@).len() > 0 && all_digits(signed_body(s@))
            && i64::MIN <= signed_val(s@) <= i64::MAX),
        r is Some ==> r->0 == signed_val(s@),
{
    let len = s.unicode_len();
    if len == 0 {
        return None;
    }
    let c0 = s.get_char(0);
    if c0 == '-' {
        let body = s.substring_char(1, len);
        match parse_u64(body) {
            None => {
                proof {
                    if all_digits(signed_body(s@)) && signed_body(s@).len() > 0
                        && i64::MIN <= signed_val(s@) {
                        lemma_dec_val_nonneg(signed_body(s@));
                    }
                }
                None
            },
            Some(mag) => {
                if mag <= 9223372036854775807u64 {
                    Some((-(mag as i64)) as i64)
                } else if mag == 9223372036854775808u64 {
                    Some(i64::MIN)
                } else {
                    None
                }
            },
        }
    } else if c0 == '+' {
        let body = s.substring_char(1, len);
        match parse_u64(body) {
            None => None,
            Some(mag) => {
                if mag <= 9223372036854775807u64 {
                    Some(mag as i64)
                } else {
                    None
                }
            },
        }
    } else {
        match parse_u64(s) {
            None => None,
            Some(mag) => {
                if mag <= 9223372036854775807u64 {
                    Some(mag as i64)
                } else {
                    None
                }
            },
        }
    }
}

/// The digits of a signed decimal string: everything after an optional
/// leading sign.
pub open spec fn signed_body(s: Seq<char>) -> Seq<char> {
    if s.len() > 0 && (s[0] == '-' || s[0] == '+') {
        s.skip(1)
    } else {
        s
    }
}

/// The value of a signed decimal string.
pub open spec fn signed_val(s: Seq<char>) -> int {
    if s.len() > 0 && s[0] == '-' {
        -dec_val(signed_body(s))
    } else {
        dec_val(signed_body(s))
    }
}

/// An amount of `m` cents as a decimal in major units with exactly two
/// fraction digits, e.g. 1990 cents as `19.90`.
pub open spec fn amount_digits(m: nat) -> Seq<char> {
    dec_digits(m / 100) + seq!['.'] + seq![
        digit_char_spec(((m % 100) / 10) as int),
        digit_char_spec(((m % 100) % 10) as int),
    ]
}

/// A signed amount of cents as a decimal in major units.
pub open spec fn amount_str(c: int) -> Seq<char> {
    if c < 0 {
        seq!['-'] + amount_digits((-c) as nat)
    } else {
        amount_digits(c as nat)
    }
}

/// The digits of an amount string: everything after an optional minus sign.
pub open spec fn amount_body(s: Seq<char>) -> Seq<char> {
    if s.len() > 0 && s[0] == '-' {
        s.skip(1)
    } else {
        s
    }
}

/// An amount string is well formed when its body is one or more digits,
/// a dot, and exactly two fraction digits, and its value fits an `i64`.
pub open spec fn amount_ok(s: Seq<char>) -> bool {
    let body = amount_body(s);
    &&& body.len() >= 4
    &&& body[body.len() - 3] == '.'
    &&& all_digits(body.take(body.len() - 3))
    &&& is_digit(body[body.len() - 2])
    &&& is_digit(body[body.len() - 1])
    &&& i64::MIN <= amount_val(s) <= i64::MAX
}

/// The magnitude in cents that an amount body reads back to.
pub open spec fn amount_mag(body: Seq<char>) -> int {
    dec_val(body.take(body.len() - 3)) * 100 + digit_val(body[body.len() - 2]) * 10
        + digit_val(body[body.len() - 1])
}

/// The signed value in cents that an amount string reads back to.
pub open spec fn amount_val(s: Seq<char>) -> int {
    if s.len() > 0 && s[0] == '-' {
        -amount_mag(amount_body(s))
    } else {
        amount_mag(amount_body(s))
    }
}

/// A rendered amount of cents as a decimal string in major units.
pub fn format_amount(cents: i64) -> (r: String)
    ensures
        r@ == amount_str(cents as int),
{
    if cents >= 0 {
        format_amount_mag(cents as u64)
    } else {
        let mag: u64 = ((-(cents + 1)) as u64) + 1;
        proof {
            assert(mag as int == -(cents as int));
            reveal_strlit("-");
            assert("-"@ =~= seq!['-']);
        }
        let mut r = String::from_str("-");
        let m = format_amount_mag(mag);
        r.append(m.as_str());
        r
    }
}

/// A rendered magnitude of cents as a decimal string in major units.
fn format_amount_mag(m: u64) -> (r: String)
    ensures
        r@ == amount_digits(m as nat),
{
    let mut r = format_u64(m / 100);
    proof {
        reveal_strlit(".");
        assert("."@ =~= seq!['.']);
    }
    r.append(".");
    let rem = m % 100;
    r.append(digit_str(rem / 10));
    r.append(digit_str(rem % 10));
    proof {
        assert(r@ =~= amount_digits(m as nat));
    }
    r
}

/// A rendered amount reads back to the amount it came from.
pub proof fn lemma_amount_str_val(c: int)
    requires
        i64::MIN <= c <= i64::MAX,
    ensures
        amount_ok(amount_str(c)),
        amount_val(amount_str(c)) == c,
{
    let m = (if c < 0 { -c } else { c }) as nat;
    lemma_dec_digits_val(m / 100);
    let w = dec_digits(m / 100);
    let body = amount_digits(m);
    assert(body =~= w + seq!['.'] + seq![
        digit_char_spec(((m % 100) / 10) as int),
        digit_char_spec(((m % 100) % 10) as int),
    ]);
    assert(body.len() == w.len() + 3);
    assert(body[body.len() - 3] == '.');
    assert(body.take(body.len() - 3) =~= w);
    assert(is_digit(body[body.len() - 2]));
    assert(is_digit(body[body.len() - 1]));
    assert(amount_mag(body) == (m / 100) * 100 + ((m % 100) / 10) * 10 + (m % 100) % 10);
    assert((m % 100) == ((m % 100) / 10) * 10 + (m % 100) % 10);
    assert(m == (m / 100) * 100 + m % 100);
    assert(amount_mag(body) == m);
    let s = amount_str(c);
    if c < 0 {
        assert(s =~= seq!['-'] + body);
        assert(s[0] == '-');
        assert(amount_body(s) =~= body);
        assert(is_digit(w[0]));
        assert(amount_val(s) == -amount_mag(body));
    } else {
        assert(s =~= body);
        assert(is_digit(w[0]));
        assert(s[0] == w[0]);
        assert(s[0] != '-');
        assert(amount_body(s) =~= body);
        assert(amount_val(s) == amount_mag(body));
    }
}

/// Reads a decimal amount in major units, with exactly two fraction
/// digits and an optional minus sign, back into cents.
pub fn parse_amount(s: &str) -> (r: Option<i64>)
    ensures
        r is Some <==> amount_ok(s@),
        r is Some ==> r->0 as int == amount_val(s@),
{
    let len = s.unicode_len();
    if len == 0 {
        return None;
    }
    let neg = s.get_char(0) == '-';
    let b: usize = if neg { 1 } else { 0 };
    proof {
        assert(amount_body(s@) =~= s@.skip(b as int));
    }
    if len < b + 4 {
        return None;
    }
    if s.get_char(len - 3) != '.' {
        return None;
    }
    let c1 = s.get_char(len - 2);
    let c2 = s.get_char(len - 1);
    let v1 = c1 as u32;
    let v2 = c2 as u32;
    if v1 < 48 || v1 > 57 || v2 < 48 || v2 > 57 {
        return None;
    }
    let whole = s.substring_char(b, len - 3);
    proof {
        assert(whole@ =~= amount_body(s@).take(amount_body(s@).len() - 3));
    }
    match parse_u64(whole) {
        None => {
            proof {
                if amount_ok(s@) {
                    let body = amount_body(s@);
                    lemma_dec_val_nonneg(body.take(body.len() - 3));
                    assert(amount_mag(body) <= i64::MAX || -amount_mag(body) >= i64::MIN);
                    assert(dec_val(body.take(body.len() - 3)) * 100 <= amount_mag(body));
                }
            }
            None
        },
        Some(w) => {
            let d1: u64 = (v1 - 48) as u64;
            let d2: u64 = (v2 - 48) as u64;
            if w > (u64::MAX - 99) / 100 {
                proof {
                    if amount_ok(s@) {
                        let body = amount_body(s@);
                        assert(amount_mag(body) >= dec_val(body.take(body.len() - 3)) * 100);
                    }
                }
                return None;
            }
            let m: u64 = w * 100 + d1 * 10 + d2;
            if neg {
                if m <= 9223372036854775807u64 {
                    Some((-(m as i64)) as i64)
                } else if m == 9223372036854775808u64 {
                    Some(i64::MIN)
                } else {
                    None
                }
            } else {
                if m <= 9223372036854775807u64 {
                    Some(m as i64)
                } else {
                    None
                }
            }
        },
    }
}

/// A rendered signed integer is made of digits and at most a leading
/// minus sign.
pub proof fn lemma_dec_int_chars(n: int)
    ensures
        forall|i: int|
            0 <= i < dec_int(n).len() ==> (#[trigger] dec_int(n)[i] == '-' || is_digit(
                dec_int(n)[i],
            )),
{
    let s = dec_int(n);
    if n < 0 {
        lemma_dec_digits_val((-n) as nat);
        assert forall|i: int| 0 <= i < s.len() implies #[trigger] s[i] == '-' || is_digit(
            s[i],
        ) by {
            if i > 0 {
                assert(s[i] == dec_digits((-n) as nat)[i - 1]);
                assert(is_digit(dec_digits((-n) as nat)[i - 1]));
            }
        }
    } else {
        lemma_dec_digits_val(n as nat);
        assert(s =~= dec_digits(n as nat));
    }
}

/// A rendered amount is made of digits, a dot, and at most a leading
/// minus sign.
pub proof fn lemma_amount_str_chars(c: int)
    ensures
        forall|i: int|
            0 <= i < amount_str(c).len() ==> (#[trigger] amount_str(c)[i] == '-' || amount_str(
                c,
            )[i] == '.' || is_digit(amount_str(c)[i])),
{
    let m = (if c < 0 { -c } else { c }) as nat;
    lemma_dec_digits_val(m / 100);
    let w = dec_digits(m / 100);
    let body = amount_digits(m);
    assert forall|i: int| 0 <= i < body.len() implies (#[trigger] body[i] == '.' || is_digit(
        body[i],
    )) by {
        if i < w.len() {
            assert(body[i] == w[i]);
            assert(is_digit(w[i]));
        } else if i == w.len() {
            assert(body[i] == '.');
        } else if i == w.len() + 1 {
            assert(body[i] == digit_char_spec(((m % 100) / 10) as int));
        } else {
            assert(body[i] == digit_char_spec(((m % 100) % 10) as int));
        }
    }
    let s = amount_str(c);
    if c < 0 {
        assert forall|i: int| 0 <= i < s.len() implies (#[trigger] s[i] == '-' || s[i] == '.'
            || is_digit(s[i])) by {
            if i > 0 {
                assert(s[i] == body[i - 1]);
            }
        }
    } else {
        assert(s =~= body);
    }
}

/// A rendered signed integer reads back to the integer it came from.
pub proof fn lemma_dec_int_val(n: int)
    requires
        i64::MIN <= n <= i64::MAX,
    ensures
        signed_body(dec_int(n)).len() > 0,
        all_digits(signed_body(dec_int(n))),
        signed_val(dec_int(n)) == n,
{
    if n < 0 {
        lemma_dec_digits_val((-n) as nat);
        let s = dec_int(n);
        assert(s[0] == '-');
        assert(signed_body(s) =~= dec_digits((-n) as nat));
    } else {
        lemma_dec_digits_val(n as nat);
        let s = dec_int(n);
        assert(s =~= dec_digits(n as nat));
        assert(is_digit(s[0]));
        assert(s[0] != '-' && s[0] != '+');
        assert(signed_body(s) =~= s);
    }
}

} // verus!
