//! Decimal text for unsigned numbers, in two forms: minimal digits (for
//! display text such as color values) and fixed-width digits (for the codec,
//! where a fixed width makes decoding unambiguous), together with the parsing
//! of fixed-width numbers and the proof that parsing inverts printing.

use vstd::prelude::*;

verus! {

/// Ten to the power `w`.
pub open spec fn pow10(w: nat) -> nat
    decreases w,
{
    if w == 0 {
        1
    } else {
        10 * pow10((w - 1) as nat)
    }
}

/// The character for one decimal digit.
pub open spec fn digit_char(d: int) -> char {
    if d == 0 {
        '0'
    } else if d == 1 {
        '1'
    } else if d == 2 {
        '2'
    } else if d == 3 {
        '3'
    } else if d == 4 {
        '4'
    } else if d == 5 {
        '5'
    } else if d == 6 {
        '6'
    } else if d == 7 {
        '7'
    } else if d == 8 {
        '8'
    } else {
        '9'
    }
}

/// Whether a character is a decimal digit.
pub open spec fn is_digit(c: char) -> bool {
    48 <= c as u32 <= 57
}

/// The value of a decimal digit character.
pub open spec fn digit_val(c: char) -> int {
    c as u32 - 48
}

/// The minimal decimal digits of `n`, most significant first.
pub open spec fn dec_digits(n: nat) -> Seq<char>
    decreases n,
{
    if n < 10 {
        seq![digit_char(n as int)]
    } else {
        dec_digits(n / 10).push(digit_char((n % 10) as int))
    }
}

/// The decimal digits of `n` written with exactly `w` digits, zero padded,
/// most significant first. Digits above the width are dropped, so the text
/// determines `n` only when `n < pow10(w)`.
pub open spec fn dec_fixed(n: nat, w: nat) -> Seq<char>
    decreases w,
{
    if w == 0 {
        Seq::empty()
    } else {
        dec_fixed(n / 10, (w - 1) as nat).push(digit_char((n % 10) as int))
    }
}

/// The number written at position `i` of `s` with exactly `w` digits, or
/// `None` when the text there is not `w` decimal digits.
pub open spec fn parse_fixed(s: Seq<char>, i: int, w: nat) -> Option<nat>
    decreases w,
{
    if i < 0 || i + w > s.len() {
        None
    } else if w == 0 {
        Some(0)
    } else {
        match parse_fixed(s, i, (w - 1) as nat) {
            None => None,
            Some(hi) => {
                let c = s[i + w - 1];
                if is_digit(c) {
                    Some(hi * 10 + digit_val(c) as nat)
                } else {
                    None
                }
            },
        }
    }
}

/// Fixed-width text always has exactly its width.
pub proof fn lemma_dec_fixed_len(n: nat, w: nat)
    ensures
        dec_fixed(n, w).len() == w,
    decreases w,
{
    if w > 0 {
        lemma_dec_fixed_len(n / 10, (w - 1) as nat);
    }
}

/// A parsed fixed-width number is below `pow10` of the width.
pub proof fn lemma_parse_fixed_bound(s: Seq<char>, i: int, w: nat)
    requires
        parse_fixed(s, i, w) is Some,
    ensures
        parse_fixed(s, i, w)->Some_0 < pow10(w),
    decreases w,
{
    if w > 0 {
        lemma_parse_fixed_bound(s, i, (w - 1) as nat);
        let hi = parse_fixed(s, i, (w - 1) as nat)->Some_0;
        let d = digit_val(s[i + w - 1]);
        assert(hi * 10 + d < pow10(w)) by (nonlinear_arith)
            requires
                hi < pow10((w - 1) as nat),
                0 <= d <= 9,
                pow10(w) == 10 * pow10((w - 1) as nat),
        ;
    }
}

/// Once parsing fails for some width, it fails for every larger width at the
/// same position.
pub proof fn lemma_parse_fixed_none_mono(s: Seq<char>, i: int, w: nat, w2: nat)
    requires
        w <= w2,
        parse_fixed(s, i, w) is None,
        i >= 0,
        i + w2 <= s.len(),
    ensures
        parse_fixed(s, i, w2) is None,
    decreases w2 - w,
{
    if w2 > w {
        lemma_parse_fixed_none_mono(s, i, w, (w2 - 1) as nat);
    }
}

/// Parsing inverts printing: wherever the fixed-width text of `n` stands in a
/// character sequence, parsing that position gives back `n`.
pub proof fn lemma_parse_dec_fixed(s: Seq<char>, i: int, n: nat, w: nat)
    requires
        0 <= i,
        i + w <= s.len(),
        s.subrange(i, i + w) == dec_fixed(n, w),
        n < pow10(w),
    ensures
        parse_fixed(s, i, w) == Some(n),
    decreases w,
{
    lemma_dec_fixed_len(n, w);
    if w > 0 {
        lemma_dec_fixed_len(n / 10, (w - 1) as nat);
        assert(s.subrange(i, i + w - 1) == dec_fixed(n / 10, (w - 1) as nat)) by {
            assert(s.subrange(i, i + w - 1) =~= s.subrange(i, i + w).subrange(0, w - 1));
            assert(s.subrange(i, i + w).subrange(0, w - 1) =~= dec_fixed(n / 10, (w - 1) as nat));
        }
        assert(n / 10 < pow10((w - 1) as nat)) by (nonlinear_arith)
            requires
                n < pow10(w),
                pow10(w) == 10 * pow10((w - 1) as nat),
        ;
        lemma_parse_dec_fixed(s, i, n / 10, (w - 1) as nat);
        let c = s[i + w - 1];
        assert(c == dec_fixed(n, w)[w - 1]);
        assert(c == digit_char((n % 10) as int));
        assert(is_digit(c) && digit_val(c) == n % 10);
        assert((n / 10) * 10 + n % 10 == n) by (nonlinear_arith);
    }
}

/// The character of one digit.
pub fn digit_to_char(d: u8) -> (c: char)
    requires
        d < 10,
    ensures
        c == digit_char(d as int),
{
    match d {
        0 => '0',
        1 => '1',
        2 => '2',
        3 => '3',
        4 => '4',
        5 => '5',
        6 => '6',
        7 => '7',
        8 => '8',
        _ => '9',
    }
}

/// The value of one digit character, or `None` when it is not a digit.
pub fn char_to_digit(c: char) -> (r: Option<u8>)
    ensures
        match r {
            Some(d) => is_digit(c) && d == digit_val(c) && d < 10,
            None => !is_digit(c),
        },
{
    match c {
        '0' => Some(0),
        '1' => Some(1),
        '2' => Some(2),
        '3' => Some(3),
        '4' => Some(4),
        '5' => Some(5),
        '6' => Some(6),
        '7' => Some(7),
        '8' => Some(8),
        '9' => Some(9),
        _ => None,
    }
}

/// Appends the minimal decimal digits of `n`.
pub fn push_dec_digits(n: u64, out: &mut Vec<char>)
    ensures
        final(out)@ == old(out)@ + dec_digits(n as nat),
    decreases n,
{
    if n < 10 {
        out.push(digit_to_char(n as u8));
    } else {
        push_dec_digits(n / 10, out);
        out.push(digit_to_char((n % 10) as u8));
    }
}

/// Appends the decimal digits of `n` written with exactly `w` digits.
pub fn push_dec_fixed(n: u64, w: usize, out: &mut Vec<char>)
    ensures
        final(out)@ == old(out)@ + dec_fixed(n as nat, w as nat),
    decreases w,
{
    if w > 0 {
        push_dec_fixed(n / 10, w - 1, out);
        out.push(digit_to_char((n % 10) as u8));
    } else {
        assert(out@ =~= old(out)@ + dec_fixed(n as nat, 0));
    }
}

/// Reads the `w`-digit number at position `i`, or `None` when the text there
/// is not `w` decimal digits.
pub fn parse_dec_fixed(s: &Vec<char>, i: usize, w: usize) -> (r: Option<u128>)
    requires
        w <= 20,
    ensures
        match r {
            Some(v) => parse_fixed(s@, i as int, w as nat) == Some(v as nat) && i + w <= s@.len()
                <= usize::MAX,
            None => parse_fixed(s@, i as int, w as nat) is None,
        },
{
    if i > s.len() || w > s.len() - i {
        return None;
    }
    let mut acc: u128 = 0;
    let mut k: usize = 0;
    while k < w
        invariant
            k <= w,
            w <= 20,
            i + w <= s@.len() <= usize::MAX,
            parse_fixed(s@, i as int, k as nat) == Some(acc as nat),
            acc < pow10(k as nat),
        decreases w - k,
    {
        let c = s[i + k];
        match char_to_digit(c) {
            None => {
                proof {
                    lemma_parse_fixed_none_mono(s@, i as int, (k + 1) as nat, w as nat);
                }
                return None;
            },
            Some(d) => {
                proof {
                    lemma_pow10_mono((k + 1) as nat, 20);
                    lemma_pow10_20();
                    assert(acc * 10 + d < pow10((k + 1) as nat)) by (nonlinear_arith)
                        requires
                            acc < pow10(k as nat),
                            d < 10,
                            pow10((k + 1) as nat) == 10 * pow10(k as nat),
                    ;
                }
                acc = acc * 10 + (d as u128);
                k = k + 1;
            },
        }
    }
    Some(acc)
}

/// `pow10` grows with its width.
pub proof fn lemma_pow10_mono(a: nat, b: nat)
    requires
        a <= b,
    ensures
        pow10(a) <= pow10(b),
    decreases b - a,
{
    if a < b {
        lemma_pow10_mono(a, (b - 1) as nat);
        assert(pow10(b) == 10 * pow10((b - 1) as nat));
    }
}

/// The concrete value of `pow10(20)`.
pub proof fn lemma_pow10_20()
    ensures
        pow10(20) == 100000000000000000000,
{
    reveal_with_fuel(pow10, 21);
    assert(pow10(20) == 100000000000000000000);
}

/// Reads the minimal decimal text of a byte at position `i`: one to three
/// digits, greedily, with no leading zero, up to 255. `None` when the text
/// there is not such a number.
pub open spec fn parse_u8_min(s: Seq<char>, i: int) -> Option<(u8, int)> {
    if i < 0 || i >= s.len() || !is_digit(s[i]) {
        None
    } else {
        let d0 = digit_val(s[i]);
        if i + 1 < s.len() && is_digit(s[i + 1]) {
            if d0 == 0 {
                None
            } else {
                let d1 = digit_val(s[i + 1]);
                if i + 2 < s.len() && is_digit(s[i + 2]) {
                    let d2 = digit_val(s[i + 2]);
                    if d0 * 100 + d1 * 10 + d2 <= 255 {
                        Some(((d0 * 100 + d1 * 10 + d2) as u8, i + 3))
                    } else {
                        None
                    }
                } else {
                    Some(((d0 * 10 + d1) as u8, i + 2))
                }
            }
        } else {
            Some((d0 as u8, i + 1))
        }
    }
}

/// A digit character is the character of its value.
pub proof fn lemma_digit_char_val(c: char)
    requires
        is_digit(c),
    ensures
        digit_char(digit_val(c)) == c,
{
}

/// The minimal digits of a byte: one digit below 10, two below 100, three
/// otherwise, led by the right quotients.
pub proof fn lemma_dec_digits_u8(n: u8)
    ensures
        n < 10 ==> dec_digits(n as nat) == seq![digit_char(n as int)],
        10 <= n < 100 ==> dec_digits(n as nat) == seq![
            digit_char(n as int / 10),
            digit_char(n as int % 10),
        ],
        n >= 100 ==> dec_digits(n as nat) == seq![
            digit_char(n as int / 100),
            digit_char((n as int / 10) % 10),
            digit_char(n as int % 10),
        ],
{
    if 10 <= n < 100 {
        assert(dec_digits(n as nat) == dec_digits(n as nat / 10).push(
            digit_char((n as nat % 10) as int),
        ));
        assert(n as nat / 10 < 10);
        assert(dec_digits(n as nat / 10) == seq![digit_char((n as nat / 10) as int)]);
        assert(dec_digits(n as nat) =~= seq![
            digit_char(n as int / 10),
            digit_char(n as int % 10),
        ]);
    }
    if n >= 100 {
        assert(dec_digits(n as nat) == dec_digits(n as nat / 10).push(
            digit_char((n as nat % 10) as int),
        ));
        assert(10 <= n as nat / 10 < 100);
        assert(dec_digits(n as nat / 10) == dec_digits(n as nat / 10 / 10).push(
            digit_char((n as nat / 10 % 10) as int),
        ));
        assert(n as nat / 10 / 10 < 10);
        assert(dec_digits(n as nat / 10 / 10) == seq![digit_char((n as nat / 10 / 10) as int)]);
        assert(n as nat / 10 / 10 == n as nat / 100);
        assert(dec_digits(n as nat) =~= seq![
            digit_char(n as int / 100),
            digit_char((n as int / 10) % 10),
            digit_char(n as int % 10),
        ]);
    }
}

/// Reading inverts minimal printing: wherever the minimal digits of a byte
/// stand, followed by no further digit, reading gives the byte back.
pub proof fn lemma_parse_u8_min(s: Seq<char>, i: int, n: u8)
    requires
        0 <= i,
        i + dec_digits(n as nat).len() <= s.len(),
        s.subrange(i, i + dec_digits(n as nat).len()) == dec_digits(n as nat),
        i + dec_digits(n as nat).len() == s.len() || !is_digit(
            s[i + dec_digits(n as nat).len()],
        ),
    ensures
        parse_u8_min(s, i) == Some((n, i + dec_digits(n as nat).len())),
{
    lemma_dec_digits_u8(n);
    if n < 10 {
        assert(s[i] == dec_digits(n as nat)[0]);
    } else if n < 100 {
        assert(s[i] == dec_digits(n as nat)[0]);
        assert(s[i + 1] == dec_digits(n as nat)[1]);
        assert(n as int / 10 >= 1);
        assert((n as int / 10) * 10 + n as int % 10 == n as int);
    } else {
        assert(s[i] == dec_digits(n as nat)[0]);
        assert(s[i + 1] == dec_digits(n as nat)[1]);
        assert(s[i + 2] == dec_digits(n as nat)[2]);
        assert(n as int / 100 >= 1);
        assert((n as int / 100) * 100 + ((n as int / 10) % 10) * 10 + n as int % 10 == n as int);
    }
}

/// A read minimal number stands in the text as exactly its minimal digits.
pub proof fn lemma_parse_u8_min_sound(s: Seq<char>, i: int)
    requires
        parse_u8_min(s, i) is Some,
    ensures
        ({
            let (n, j) = parse_u8_min(s, i)->Some_0;
            &&& i < j <= s.len()
            &&& j - i == dec_digits(n as nat).len()
            &&& s.subrange(i, j) == dec_digits(n as nat)
        }),
{
    let (n, j) = parse_u8_min(s, i)->Some_0;
    lemma_dec_digits_u8(n);
    lemma_digit_char_val(s[i]);
    let d0 = digit_val(s[i]);
    if i + 1 < s.len() && is_digit(s[i + 1]) {
        lemma_digit_char_val(s[i + 1]);
        let d1 = digit_val(s[i + 1]);
        if i + 2 < s.len() && is_digit(s[i + 2]) {
            lemma_digit_char_val(s[i + 2]);
            let d2 = digit_val(s[i + 2]);
            assert(n == d0 * 100 + d1 * 10 + d2);
            assert(n as int / 100 == d0 && (n as int / 10) % 10 == d1 && n as int % 10 == d2) by {
                assert(n as int == d0 * 100 + (d1 * 10 + d2));
                assert(0 <= d1 * 10 + d2 < 100);
                assert(n as int / 10 == d0 * 10 + d1);
            }
            assert(s.subrange(i, j) =~= dec_digits(n as nat));
        } else {
            assert(n == d0 * 10 + d1);
            assert(n as int / 10 == d0 && n as int % 10 == d1);
            assert(s.subrange(i, j) =~= dec_digits(n as nat));
        }
    } else {
        assert(s.subrange(i, j) =~= dec_digits(n as nat));
    }
}

/// Reads a minimal decimal byte at position `i`.
pub fn read_u8_min(s: &Vec<char>, i: usize) -> (r: Option<(u8, usize)>)
    ensures
        match r {
            Some((n, j)) => parse_u8_min(s@, i as int) == Some((n, j as int)) && i < j <= s@.len(),
            None => parse_u8_min(s@, i as int) is None,
        },
{
    let end = s.len();
    if i >= end {
        return None;
    }
    let d0 = match char_to_digit(s[i]) {
        None => {
            return None;
        },
        Some(d) => d,
    };
    if i + 1 < end {
        if let Some(d1) = char_to_digit(s[i + 1]) {
            if d0 == 0 {
                return None;
            }
            if i + 2 < end {
                if let Some(d2) = char_to_digit(s[i + 2]) {
                    let value: u32 = d0 as u32 * 100 + d1 as u32 * 10 + d2 as u32;
                    if value <= 255 {
                        return Some((value as u8, i + 3));
                    } else {
                        return None;
                    }
                }
            }
            return Some((d0 * 10 + d1, i + 2));
        }
    }
    Some((d0, i + 1))
}

/// Splits the text of a concatenation: each part stands at its own range.
pub proof fn lemma_split(s: Seq<char>, i: int, p: Seq<char>, q: Seq<char>)
    requires
        0 <= i,
        i + p.len() + q.len() <= s.len(),
        s.subrange(i, i + p.len() + q.len()) == p + q,
    ensures
        s.subrange(i, i + p.len()) == p,
        s.subrange(i + p.len(), i + p.len() + q.len()) == q,
{
    assert forall|k: int| 0 <= k < p.len() implies s.subrange(i, i + p.len())[k] == p[k] by {
        assert(s.subrange(i, i + p.len() + q.len())[k] == (p + q)[k]);
    }
    assert(s.subrange(i, i + p.len()) =~= p);
    assert forall|k: int|
        0 <= k < q.len() implies s.subrange(i + p.len(), i + p.len() + q.len())[k] == q[k] by {
        assert(s.subrange(i, i + p.len() + q.len())[p.len() + k] == (p + q)[p.len() + k]);
        assert(s.subrange(i, i + p.len() + q.len())[p.len() + k] == s[i + p.len() + k]);
        assert((p + q)[p.len() + k] == q[k]);
        assert(s.subrange(i + p.len(), i + p.len() + q.len())[k] == s[i + p.len() + k]);
    }
    assert(s.subrange(i + p.len(), i + p.len() + q.len()) =~= q);
}

/// Relies on `String: FromIterator<char>`: collecting characters builds the
/// string of exactly those characters, in order.
#[verifier::external_body]
pub fn chars_to_string(v: &Vec<char>) -> (r: String)
    ensures
        r@ == v@,
{
    v.iter().collect()
}

/// Relies on `str::chars`: iterating a string slice yields exactly its
/// characters, in order.
#[verifier::external_body]
pub fn str_to_chars(s: &str) -> (r: Vec<char>)
    ensures
        r@ == s@,
{
    s.chars().collect()
}

} // verus!
