//! A verified text codec for rulesets. Every value reachable from a ruleset
//! is written as decimal numbers of fixed width and raw text, every variant
//! is tagged, and decoding is proved to invert encoding. A payload that does
//! not parse fails with [`DecodeError`], distinct from the semantic failures
//! of verification.

use vstd::prelude::*;

use crate::text::{
    dec_fixed,
    lemma_dec_fixed_len,
    lemma_parse_dec_fixed,
    lemma_pow10_20,
    lemma_split,
    parse_dec_fixed,
    parse_fixed,
    pow10,
    push_dec_fixed,
};

verus! {

/// A malformed or unrecognized payload. Distinct from the structured
/// verification errors: decoding rebuilds a value, it does not judge it.
#[derive(Copy, Clone, Debug, PartialEq, Eq, Structural)]
pub struct DecodeError;

pub type DecodeResult<T> = Result<T, DecodeError>;

/// Width of a long number: seat counts, list counts, limits.
pub const W_LONG: usize = 20;

/// Width of a byte-sized number: board dimensions, direction bits.
pub const W_BYTE: usize = 3;

/// Width of a coordinate component.
pub const W_COORD: usize = 5;

/// Width of a variant tag.
pub const W_TAG: usize = 1;

// ---------------------------------------------------------------------------
// Unsigned numbers
// ---------------------------------------------------------------------------

/// The text of an unsigned number of the given width.
pub open spec fn enc_num(n: nat, w: nat) -> Seq<char> {
    dec_fixed(n, w)
}

/// Reads an unsigned number of the given width.
pub open spec fn dec_num(s: Seq<char>, i: int, w: nat) -> Option<(nat, int)> {
    match parse_fixed(s, i, w) {
        None => None,
        Some(n) => Some((n, i + w)),
    }
}

/// Wherever the text of an in-range number stands, reading gives it back.
pub proof fn lemma_rt_num(s: Seq<char>, i: int, n: nat, w: nat)
    requires
        0 <= i,
        i + w <= s.len(),
        s.subrange(i, i + w) == enc_num(n, w),
        n < pow10(w),
    ensures
        dec_num(s, i, w) == Some((n, i + w)),
{
    lemma_parse_dec_fixed(s, i, n, w);
}

/// `u64` values fit the long width.
pub proof fn lemma_u64_fits(n: u64)
    ensures
        n < pow10(W_LONG as nat),
{
    lemma_pow10_20();
}

/// The text of a `u64`.
pub open spec fn enc_u64(n: u64) -> Seq<char> {
    enc_num(n as nat, W_LONG as nat)
}

/// Reads a `u64`.
pub open spec fn dec_u64(s: Seq<char>, i: int) -> Option<(u64, int)> {
    match dec_num(s, i, W_LONG as nat) {
        None => None,
        Some((n, j)) => if n <= u64::MAX {
            Some((n as u64, j))
        } else {
            None
        },
    }
}

/// Wherever the text of a `u64` stands, reading gives it back.
pub proof fn lemma_rt_u64(s: Seq<char>, i: int, n: u64)
    requires
        0 <= i,
        i + W_LONG <= s.len(),
        s.subrange(i, i + W_LONG) == enc_u64(n),
    ensures
        dec_u64(s, i) == Some((n, i + W_LONG)),
{
    lemma_u64_fits(n);
    lemma_rt_num(s, i, n as nat, W_LONG as nat);
}

/// Appends the text of a `u64`.
pub fn encode_u64(n: u64, out: &mut Vec<char>)
    ensures
        final(out)@ == old(out)@ + enc_u64(n),
{
    push_dec_fixed(n, W_LONG, out);
}

/// Reads a `u64` at the cursor.
pub fn decode_u64(s: &Vec<char>, i: &mut usize) -> (r: DecodeResult<u64>)
    ensures
        match r {
            Ok(v) => dec_u64(s@, *old(i) as int) == Some((v, *final(i) as int)) && *old(i) <= *final(i) <= s@.len(),
            Err(_) => dec_u64(s@, *old(i) as int) is None,
        },
{
    match parse_dec_fixed(s, *i, W_LONG) {
        None => Err(DecodeError),
        Some(n) => {
            if n > u64::MAX as u128 {
                return Err(DecodeError);
            }
            proof {
                crate::text::lemma_parse_fixed_bound(s@, *i as int, W_LONG as nat);
            }
            *i = *i + W_LONG;
            Ok(n as u64)
        },
    }
}

/// The text of a `usize`.
pub open spec fn enc_usize(n: usize) -> Seq<char> {
    enc_u64(n as u64)
}

/// Reads a `usize`: a number that fits the platform's sizes.
pub open spec fn dec_usize(s: Seq<char>, i: int) -> Option<(usize, int)> {
    match dec_u64(s, i) {
        None => None,
        Some((n, j)) => if n <= usize::MAX {
            Some((n as usize, j))
        } else {
            None
        },
    }
}

/// Wherever the text of a `usize` stands, reading gives it back.
pub proof fn lemma_rt_usize(s: Seq<char>, i: int, n: usize)
    requires
        0 <= i,
        i + W_LONG <= s.len(),
        s.subrange(i, i + W_LONG) == enc_usize(n),
    ensures
        dec_usize(s, i) == Some((n, i + W_LONG)),
{
    lemma_rt_u64(s, i, n as u64);
}

/// Appends the text of a `usize`.
pub fn encode_usize(n: usize, out: &mut Vec<char>)
    ensures
        final(out)@ == old(out)@ + enc_usize(n),
{
    encode_u64(n as u64, out);
}

/// Reads a `usize` at the cursor.
pub fn decode_usize(s: &Vec<char>, i: &mut usize) -> (r: DecodeResult<usize>)
    ensures
        match r {
            Ok(v) => dec_usize(s@, *old(i) as int) == Some((v, *final(i) as int)) && *old(i)
                <= *final(i) <= s@.len(),
            Err(_) => dec_usize(s@, *old(i) as int) is None,
        },
{
    match decode_u64(s, i) {
        Err(e) => Err(e),
        Ok(n) => {
            if n > usize::MAX as u64 {
                Err(DecodeError)
            } else {
                Ok(n as usize)
            }
        },
    }
}

/// The text of a byte.
pub open spec fn enc_u8(n: u8) -> Seq<char> {
    enc_num(n as nat, W_BYTE as nat)
}

/// Reads a byte.
pub open spec fn dec_u8(s: Seq<char>, i: int) -> Option<(u8, int)> {
    match dec_num(s, i, W_BYTE as nat) {
        None => None,
        Some((n, j)) => if n <= u8::MAX {
            Some((n as u8, j))
        } else {
            None
        },
    }
}

/// Wherever the text of a byte stands, reading gives it back.
pub proof fn lemma_rt_u8(s: Seq<char>, i: int, n: u8)
    requires
        0 <= i,
        i + W_BYTE <= s.len(),
        s.subrange(i, i + W_BYTE) == enc_u8(n),
    ensures
        dec_u8(s, i) == Some((n, i + W_BYTE)),
{
    reveal_with_fuel(pow10, 4);
    lemma_rt_num(s, i, n as nat, W_BYTE as nat);
}

/// Appends the text of a byte.
pub fn encode_u8(n: u8, out: &mut Vec<char>)
    ensures
        final(out)@ == old(out)@ + enc_u8(n),
{
    push_dec_fixed(n as u64, W_BYTE, out);
}

/// Reads a byte at the cursor.
pub fn decode_u8(s: &Vec<char>, i: &mut usize) -> (r: DecodeResult<u8>)
    ensures
        match r {
            Ok(v) => dec_u8(s@, *old(i) as int) == Some((v, *final(i) as int)) && *old(i) <= *final(i) <= s@.len(),
            Err(_) => dec_u8(s@, *old(i) as int) is None,
        },
{
    match parse_dec_fixed(s, *i, W_BYTE) {
        None => Err(DecodeError),
        Some(n) => {
            if n > u8::MAX as u128 {
                return Err(DecodeError);
            }
            *i = *i + W_BYTE;
            Ok(n as u8)
        },
    }
}

/// The text of a variant tag.
pub open spec fn enc_tag(n: u8) -> Seq<char> {
    enc_num(n as nat, W_TAG as nat)
}

/// Reads a variant tag; a single digit.
pub open spec fn dec_tag(s: Seq<char>, i: int) -> Option<(u8, int)> {
    match dec_num(s, i, W_TAG as nat) {
        None => None,
        Some((n, j)) => Some((n as u8, j)),
    }
}

/// Wherever the text of a tag below ten stands, reading gives it back.
pub proof fn lemma_rt_tag(s: Seq<char>, i: int, n: u8)
    requires
        0 <= i,
        i + W_TAG <= s.len(),
        s.subrange(i, i + W_TAG) == enc_tag(n),
        n < 10,
    ensures
        dec_tag(s, i) == Some((n, i + W_TAG)),
{
    reveal_with_fuel(pow10, 2);
    lemma_rt_num(s, i, n as nat, W_TAG as nat);
    crate::text::lemma_parse_fixed_bound(s, i, W_TAG as nat);
}

/// Appends the text of a tag; only tags below ten are used.
pub fn encode_tag(n: u8, out: &mut Vec<char>)
    requires
        n < 10,
    ensures
        final(out)@ == old(out)@ + enc_tag(n),
{
    push_dec_fixed(n as u64, W_TAG, out);
}

/// Reads a tag at the cursor.
pub fn decode_tag(s: &Vec<char>, i: &mut usize) -> (r: DecodeResult<u8>)
    ensures
        match r {
            Ok(v) => dec_tag(s@, *old(i) as int) == Some((v, *final(i) as int)) && *old(i) <= *final(i) <= s@.len() && v < 10,
            Err(_) => dec_tag(s@, *old(i) as int) is None,
        },
{
    match parse_dec_fixed(s, *i, W_TAG) {
        None => Err(DecodeError),
        Some(n) => {
            proof {
                crate::text::lemma_parse_fixed_bound(s@, *i as int, W_TAG as nat);
                reveal_with_fuel(pow10, 2);
            }
            *i = *i + W_TAG;
            Ok(n as u8)
        },
    }
}

// ---------------------------------------------------------------------------
// Signed numbers, through the interleaving of non-negatives and negatives
// ---------------------------------------------------------------------------

/// The non-negative number that stands for a signed value: non-negatives map
/// to the even numbers, negatives to the odd ones.
pub open spec fn interleave(v: int) -> nat {
    if v < 0 {
        (-2 * v - 1) as nat
    } else {
        (2 * v) as nat
    }
}

/// The text of an `i16` coordinate component.
pub open spec fn enc_i16(v: i16) -> Seq<char> {
    enc_num(interleave(v as int), W_COORD as nat)
}

/// Reads an `i16` coordinate component.
pub open spec fn dec_i16(s: Seq<char>, i: int) -> Option<(i16, int)> {
    match dec_num(s, i, W_COORD as nat) {
        None => None,
        Some((n, j)) => if n <= 65535 {
            if n % 2 == 0 {
                Some(((n / 2) as i16, j))
            } else {
                Some(((-(((n + 1) / 2) as int)) as i16, j))
            }
        } else {
            None
        },
    }
}

/// Wherever the text of an `i16` stands, reading gives it back.
pub proof fn lemma_rt_i16(s: Seq<char>, i: int, v: i16)
    requires
        0 <= i,
        i + W_COORD <= s.len(),
        s.subrange(i, i + W_COORD) == enc_i16(v),
    ensures
        dec_i16(s, i) == Some((v, i + W_COORD)),
{
    reveal_with_fuel(pow10, 6);
    lemma_rt_num(s, i, interleave(v as int), W_COORD as nat);
}

/// Appends the text of an `i16`.
pub fn encode_i16(v: i16, out: &mut Vec<char>)
    ensures
        final(out)@ == old(out)@ + enc_i16(v),
{
    let n: u64 = if v < 0 {
        let m: u32 = (-(v as i32)) as u32;
        (2 * m - 1) as u64
    } else {
        (v as u64) * 2
    };
    assert(n == interleave(v as int));
    push_dec_fixed(n, W_COORD, out);
}

/// Reads an `i16` at the cursor.
pub fn decode_i16(s: &Vec<char>, i: &mut usize) -> (r: DecodeResult<i16>)
    ensures
        match r {
            Ok(v) => dec_i16(s@, *old(i) as int) == Some((v, *final(i) as int)) && *old(i) <= *final(i) <= s@.len(),
            Err(_) => dec_i16(s@, *old(i) as int) is None,
        },
{
    match parse_dec_fixed(s, *i, W_COORD) {
        None => Err(DecodeError),
        Some(n) => {
            if n > 65535 {
                return Err(DecodeError);
            }
            let n: u32 = n as u32;
            let v: i16 = if n % 2 == 0 {
                (n / 2) as i16
            } else {
                (-(((n + 1) / 2) as i32)) as i16
            };
            *i = *i + W_COORD;
            Ok(v)
        },
    }
}

/// The text of an `isize` priority rank.
pub open spec fn enc_isize(v: isize) -> Seq<char> {
    enc_num(interleave(v as int), W_LONG as nat)
}

/// Reads an `isize` priority rank.
pub open spec fn dec_isize(s: Seq<char>, i: int) -> Option<(isize, int)> {
    match dec_num(s, i, W_LONG as nat) {
        None => None,
        Some((n, j)) => {
            let v: int = if n % 2 == 0 {
                (n / 2) as int
            } else {
                -(((n + 1) / 2) as int)
            };
            if isize::MIN <= v <= isize::MAX {
                Some((v as isize, j))
            } else {
                None
            }
        },
    }
}

/// Wherever the text of an `isize` stands, reading gives it back.
pub proof fn lemma_rt_isize(s: Seq<char>, i: int, v: isize)
    requires
        0 <= i,
        i + W_LONG <= s.len(),
        s.subrange(i, i + W_LONG) == enc_isize(v),
    ensures
        dec_isize(s, i) == Some((v, i + W_LONG)),
{
    lemma_pow10_20();
    lemma_rt_num(s, i, interleave(v as int), W_LONG as nat);
}

/// Appends the text of an `isize`.
pub fn encode_isize(v: isize, out: &mut Vec<char>)
    ensures
        final(out)@ == old(out)@ + enc_isize(v),
{
    let n: u64 = if v < 0 {
        let m: i128 = -(v as i128);
        (2 * m - 1) as u64
    } else {
        (v as u64) * 2
    };
    assert(n == interleave(v as int));
    push_dec_fixed(n, W_LONG, out);
}

/// Reads an `isize` at the cursor.
pub fn decode_isize(s: &Vec<char>, i: &mut usize) -> (r: DecodeResult<isize>)
    ensures
        match r {
            Ok(v) => dec_isize(s@, *old(i) as int) == Some((v, *final(i) as int)) && *old(i)
                <= *final(i) <= s@.len(),
            Err(_) => dec_isize(s@, *old(i) as int) is None,
        },
{
    match parse_dec_fixed(s, *i, W_LONG) {
        None => Err(DecodeError),
        Some(n) => {
            proof {
                crate::text::lemma_parse_fixed_bound(s@, *i as int, W_LONG as nat);
                lemma_pow10_20();
            }
            let signed: i128 = if n % 2 == 0 {
                (n / 2) as i128
            } else {
                -((((n + 1) / 2)) as i128)
            };
            if signed < isize::MIN as i128 || signed > isize::MAX as i128 {
                return Err(DecodeError);
            }
            *i = *i + W_LONG;
            Ok(signed as isize)
        },
    }
}

// ---------------------------------------------------------------------------
// The codec trait, and lists of codable values
// ---------------------------------------------------------------------------

/// A type whose values can be written as text and read back. `enc` gives the
/// text of an abstract value, `dec` reads one back, and `lemma_rt` proves
/// that reading inverts writing wherever the text stands in a larger payload.
pub trait TextCodec: Sized {
    /// The abstract value the text stands for.
    type Model;

    /// The abstract value of this value.
    spec fn model(&self) -> Self::Model;

    /// The text of an abstract value.
    spec fn enc(m: Self::Model) -> Seq<char>;

    /// Whether an abstract value can be written at all: every container in it
    /// fits the machine's sizes. Every real value satisfies this.
    spec fn enc_ok(m: Self::Model) -> bool;

    /// Reads one value's text at position `i`.
    spec fn dec(s: Seq<char>, i: int) -> Option<(Self::Model, int)>;

    /// Reading inverts writing.
    proof fn lemma_rt(s: Seq<char>, i: int, m: Self::Model)
        requires
            0 <= i,
            i + Self::enc(m).len() <= s.len(),
            s.subrange(i, i + Self::enc(m).len()) == Self::enc(m),
            Self::enc_ok(m),
        ensures
            Self::dec(s, i) == Some((m, i + Self::enc(m).len())),
    ;

    /// Appends this value's text.
    fn encode(&self, out: &mut Vec<char>)
        ensures
            final(out)@ == old(out)@ + Self::enc(self.model()),
            Self::enc_ok(self.model()),
    ;

    /// Reads one value at the cursor.
    fn decode(s: &Vec<char>, i: &mut usize) -> (r: DecodeResult<Self>)
        ensures
            match r {
                Ok(v) => Self::dec(s@, *old(i) as int) == Some((v.model(), *final(i) as int))
                    && *old(i) <= *final(i) <= s@.len(),
                Err(_) => Self::dec(s@, *old(i) as int) is None,
            },
    ;
}

/// The texts of a sequence of abstract values, one after the other.
pub open spec fn enc_items<T: TextCodec>(m: Seq<T::Model>) -> Seq<char>
    decreases m.len(),
{
    if m.len() == 0 {
        Seq::empty()
    } else {
        T::enc(m[0]) + enc_items::<T>(m.drop_first())
    }
}

/// Reads `n` values one after the other.
pub open spec fn dec_items<T: TextCodec>(s: Seq<char>, i: int, n: nat) -> Option<
    (Seq<T::Model>, int),
>
    decreases n,
{
    if n == 0 {
        Some((Seq::empty(), i))
    } else {
        match T::dec(s, i) {
            None => None,
            Some((first, j)) => match dec_items::<T>(s, j, (n - 1) as nat) {
                None => None,
                Some((rest, end)) => Some((seq![first] + rest, end)),
            },
        }
    }
}

/// Appending one value appends its text.
pub proof fn lemma_enc_items_push<T: TextCodec>(m: Seq<T::Model>, x: T::Model)
    ensures
        enc_items::<T>(m.push(x)) == enc_items::<T>(m) + T::enc(x),
    decreases m.len(),
{
    if m.len() == 0 {
        assert(m.push(x)[0] == x);
        assert(m.push(x).drop_first() =~= Seq::<T::Model>::empty());
        assert(enc_items::<T>(m.push(x)) == T::enc(x) + enc_items::<T>(
            Seq::<T::Model>::empty(),
        ));
        assert(enc_items::<T>(m.push(x)) =~= enc_items::<T>(m) + T::enc(x));
    } else {
        assert(m.push(x)[0] == m[0]);
        assert(m.push(x).drop_first() =~= m.drop_first().push(x));
        lemma_enc_items_push::<T>(m.drop_first(), x);
        assert(enc_items::<T>(m.push(x)) == T::enc(m[0]) + (enc_items::<T>(m.drop_first())
            + T::enc(x)));
        assert(enc_items::<T>(m.push(x)) =~= enc_items::<T>(m) + T::enc(x));
    }
}

/// Reading inverts writing for a sequence of values.
pub proof fn lemma_rt_items<T: TextCodec>(s: Seq<char>, i: int, m: Seq<T::Model>)
    requires
        0 <= i,
        i + enc_items::<T>(m).len() <= s.len(),
        s.subrange(i, i + enc_items::<T>(m).len()) == enc_items::<T>(m),
        forall|k: int| 0 <= k < m.len() ==> T::enc_ok(#[trigger] m[k]),
    ensures
        dec_items::<T>(s, i, m.len() as nat) == Some((m, i + enc_items::<T>(m).len())),
    decreases m.len(),
{
    if m.len() > 0 {
        let first = m[0];
        let rest = m.drop_first();
        let p = T::enc(first);
        let q = enc_items::<T>(rest);
        lemma_split(s, i, p, q);
        T::lemma_rt(s, i, first);
        assert(forall|k: int| 0 <= k < rest.len() ==> T::enc_ok(#[trigger] rest[k])) by {
            assert(forall|k: int| 0 <= k < rest.len() ==> rest[k] == m[k + 1]);
        }
        lemma_rt_items::<T>(s, i + p.len(), rest);
        assert(seq![first] + rest =~= m);
    }
}

impl<T: TextCodec> TextCodec for Vec<T> {
    type Model = Seq<T::Model>;

    open spec fn model(&self) -> Seq<T::Model> {
        self@.map_values(|t: T| t.model())
    }

    open spec fn enc(m: Seq<T::Model>) -> Seq<char> {
        enc_num(m.len(), W_LONG as nat) + enc_items::<T>(m)
    }

    open spec fn enc_ok(m: Seq<T::Model>) -> bool {
        m.len() <= usize::MAX && forall|k: int| 0 <= k < m.len() ==> T::enc_ok(#[trigger] m[k])
    }

    open spec fn dec(s: Seq<char>, i: int) -> Option<(Seq<T::Model>, int)> {
        match dec_usize(s, i) {
            None => None,
            Some((n, j)) => dec_items::<T>(s, j, n as nat),
        }
    }

    proof fn lemma_rt(s: Seq<char>, i: int, m: Seq<T::Model>) {
        let p = enc_num(m.len(), W_LONG as nat);
        let q = enc_items::<T>(m);
        lemma_dec_fixed_len(m.len(), W_LONG as nat);
        lemma_split(s, i, p, q);
        assert(enc_usize(m.len() as usize) == p);
        lemma_rt_usize(s, i, m.len() as usize);
        lemma_rt_items::<T>(s, i + W_LONG, m);
    }

    #[verifier::loop_isolation(false)]
    fn encode(&self, out: &mut Vec<char>)
    {
        let ghost m = self.model();
        encode_usize(self.len(), out);
        proof {
            assert(enc_usize(self@.len() as usize) == enc_num(m.len(), W_LONG as nat));
        }
        let mut k: usize = 0;
        while k < self.len()
            invariant
                k <= self@.len(),
                m == self.model(),
                m.len() == self@.len(),
                out@ == old(out)@ + enc_num(m.len(), W_LONG as nat) + enc_items::<T>(
                    m.take(k as int),
                ),
                forall|n: int| 0 <= n < k ==> T::enc_ok(#[trigger] m[n]),
            decreases self@.len() - k,
        {
            proof {
                assert(m.take(k + 1) =~= m.take(k as int).push(m[k as int]));
                lemma_enc_items_push::<T>(m.take(k as int), m[k as int]);
                assert(m[k as int] == self@[k as int].model());
            }
            self[k].encode(out);
            k = k + 1;
        }
        proof {
            assert(m.take(m.len() as int) =~= m);
        }
    }

    #[verifier::loop_isolation(false)]
    fn decode(s: &Vec<char>, i: &mut usize) -> (r: DecodeResult<Self>)
    {
        let ghost i0 = *i as int;
        let n = match decode_usize(s, i) {
            Err(e) => {
                return Err(e);
            },
            Ok(n) => n,
        };
        let ghost j0 = *i as int;
        let mut out: Vec<T> = Vec::new();
        let mut k: usize = 0;
        while k < n
            invariant
                k <= n,
                j0 <= *i as int <= s@.len(),
                out.model().len() == k,
                dec_usize(s@, i0) == Some((n, j0)),
                match dec_items::<T>(s@, *i as int, (n - k) as nat) {
                    None => dec_items::<T>(s@, j0, n as nat) is None,
                    Some((rest, end)) => dec_items::<T>(s@, j0, n as nat) == Some(
                        (out.model() + rest, end),
                    ),
                },
            decreases n - k,
        {
            let ghost cur = *i as int;
            let ghost prefix = out.model();
            match T::decode(s, i) {
                Err(e) => {
                    proof {
                        assert(T::dec(s@, cur) is None);
                        assert(dec_items::<T>(s@, cur, (n - k) as nat) is None);
                        assert(dec_items::<T>(s@, j0, n as nat) is None);
                        assert(Self::dec(s@, i0) is None);
                    }
                    return Err(e);
                },
                Ok(v) => {
                    proof {
                        assert(T::dec(s@, cur) == Some((v.model(), *i as int)));
                        match dec_items::<T>(s@, *i as int, (n - k - 1) as nat) {
                            None => {},
                            Some((rest, end)) => {
                                assert(prefix + (seq![v.model()] + rest) =~= prefix.push(v.model())
                                    + rest);
                            },
                        }
                    }
                    out.push(v);
                    proof {
                        assert(out.model() =~= prefix.push(v.model()));
                    }
                },
            }
            k = k + 1;
        }
        proof {
            assert(out.model() + Seq::<T::Model>::empty() =~= out.model());
        }
        Ok(out)
    }
}

// ---------------------------------------------------------------------------
// Scalar-model values
// ---------------------------------------------------------------------------

impl TextCodec for u8 {
    type Model = u8;

    open spec fn model(&self) -> u8 {
        *self
    }

    open spec fn enc(m: u8) -> Seq<char> {
        enc_u8(m)
    }

    open spec fn enc_ok(m: u8) -> bool {
        true
    }

    open spec fn dec(s: Seq<char>, i: int) -> Option<(u8, int)> {
        dec_u8(s, i)
    }

    proof fn lemma_rt(s: Seq<char>, i: int, m: u8) {
        lemma_dec_fixed_len(m as nat, W_BYTE as nat);
        lemma_rt_u8(s, i, m);
    }

    fn encode(&self, out: &mut Vec<char>) {
        encode_u8(*self, out);
    }

    fn decode(s: &Vec<char>, i: &mut usize) -> (r: DecodeResult<Self>) {
        decode_u8(s, i)
    }
}

impl TextCodec for u64 {
    type Model = u64;

    open spec fn model(&self) -> u64 {
        *self
    }

    open spec fn enc(m: u64) -> Seq<char> {
        enc_u64(m)
    }

    open spec fn enc_ok(m: u64) -> bool {
        true
    }

    open spec fn dec(s: Seq<char>, i: int) -> Option<(u64, int)> {
        dec_u64(s, i)
    }

    proof fn lemma_rt(s: Seq<char>, i: int, m: u64) {
        lemma_dec_fixed_len(m as nat, W_LONG as nat);
        lemma_rt_u64(s, i, m);
    }

    fn encode(&self, out: &mut Vec<char>) {
        encode_u64(*self, out);
    }

    fn decode(s: &Vec<char>, i: &mut usize) -> (r: DecodeResult<Self>) {
        decode_u64(s, i)
    }
}

impl TextCodec for usize {
    type Model = usize;

    open spec fn model(&self) -> usize {
        *self
    }

    open spec fn enc(m: usize) -> Seq<char> {
        enc_usize(m)
    }

    open spec fn enc_ok(m: usize) -> bool {
        true
    }

    open spec fn dec(s: Seq<char>, i: int) -> Option<(usize, int)> {
        dec_usize(s, i)
    }

    proof fn lemma_rt(s: Seq<char>, i: int, m: usize) {
        lemma_dec_fixed_len(m as nat, W_LONG as nat);
        lemma_rt_usize(s, i, m);
    }

    fn encode(&self, out: &mut Vec<char>) {
        encode_usize(*self, out);
    }

    fn decode(s: &Vec<char>, i: &mut usize) -> (r: DecodeResult<Self>) {
        decode_usize(s, i)
    }
}

impl TextCodec for bool {
    type Model = bool;

    open spec fn model(&self) -> bool {
        *self
    }

    open spec fn enc(m: bool) -> Seq<char> {
        if m {
            enc_tag(1)
        } else {
            enc_tag(0)
        }
    }

    open spec fn enc_ok(m: bool) -> bool {
        true
    }

    open spec fn dec(s: Seq<char>, i: int) -> Option<(bool, int)> {
        match dec_tag(s, i) {
            None => None,
            Some((t, j)) => if t == 0 {
                Some((false, j))
            } else if t == 1 {
                Some((true, j))
            } else {
                None
            },
        }
    }

    proof fn lemma_rt(s: Seq<char>, i: int, m: bool) {
        lemma_dec_fixed_len(0, W_TAG as nat);
        lemma_dec_fixed_len(1, W_TAG as nat);
        if m {
            lemma_rt_tag(s, i, 1);
        } else {
            lemma_rt_tag(s, i, 0);
        }
    }

    fn encode(&self, out: &mut Vec<char>) {
        if *self {
            encode_tag(1, out);
        } else {
            encode_tag(0, out);
        }
    }

    fn decode(s: &Vec<char>, i: &mut usize) -> (r: DecodeResult<Self>) {
        match decode_tag(s, i) {
            Err(e) => Err(e),
            Ok(t) => {
                if t == 0 {
                    Ok(false)
                } else if t == 1 {
                    Ok(true)
                } else {
                    Err(DecodeError)
                }
            },
        }
    }
}

// ---------------------------------------------------------------------------
// Text values
// ---------------------------------------------------------------------------

/// The text of a piece of raw text: its length, then its characters.
pub open spec fn enc_text(t: Seq<char>) -> Seq<char> {
    enc_num(t.len(), W_LONG as nat) + t
}

/// Reads a piece of raw text.
pub open spec fn dec_text(s: Seq<char>, i: int) -> Option<(Seq<char>, int)> {
    match dec_usize(s, i) {
        None => None,
        Some((n, j)) => if j + n <= s.len() {
            Some((s.subrange(j, j + n), j + n))
        } else {
            None
        },
    }
}

/// Wherever the text of raw text stands, reading gives it back.
pub proof fn lemma_rt_text(s: Seq<char>, i: int, t: Seq<char>)
    requires
        0 <= i,
        t.len() <= usize::MAX,
        i + enc_text(t).len() <= s.len(),
        s.subrange(i, i + enc_text(t).len()) == enc_text(t),
    ensures
        dec_text(s, i) == Some((t, i + enc_text(t).len())),
{
    lemma_dec_fixed_len(t.len(), W_LONG as nat);
    lemma_split(s, i, enc_num(t.len(), W_LONG as nat), t);
    assert(enc_usize(t.len() as usize) == enc_num(t.len(), W_LONG as nat));
    lemma_rt_usize(s, i, t.len() as usize);
}

/// Appends the text of raw text.
#[verifier::loop_isolation(false)]
pub fn encode_text(t: &Vec<char>, out: &mut Vec<char>)
    ensures
        final(out)@ == old(out)@ + enc_text(t@),
{
    encode_usize(t.len(), out);
    let mut k: usize = 0;
    while k < t.len()
        invariant
            k <= t@.len(),
            out@ == old(out)@ + enc_num(t@.len(), W_LONG as nat) + t@.take(k as int),
        decreases t@.len() - k,
    {
        out.push(t[k]);
        proof {
            assert(t@.take(k + 1) =~= t@.take(k as int).push(t@[k as int]));
        }
        k = k + 1;
    }
    proof {
        assert(t@.take(t@.len() as int) =~= t@);
        assert(old(out)@ + enc_num(t@.len(), W_LONG as nat) + t@ =~= old(out)@ + enc_text(t@));
    }
}

/// Reads raw text at the cursor.
#[verifier::loop_isolation(false)]
pub fn decode_text(s: &Vec<char>, i: &mut usize) -> (r: DecodeResult<Vec<char>>)
    ensures
        match r {
            Ok(v) => dec_text(s@, *old(i) as int) == Some((v@, *final(i) as int)) && *old(i)
                <= *final(i) <= s@.len(),
            Err(_) => dec_text(s@, *old(i) as int) is None,
        },
{
    let n = match decode_usize(s, i) {
        Err(e) => {
            return Err(e);
        },
        Ok(n) => n,
    };
    if n > s.len() - *i {
        return Err(DecodeError);
    }
    let ghost j0 = *i as int;
    let mut out: Vec<char> = Vec::new();
    let mut k: usize = 0;
    while k < n
        invariant
            k <= n,
            j0 + n <= s@.len(),
            out@ == s@.subrange(j0, j0 + k),
        decreases n - k,
    {
        out.push(s[*i + k]);
        proof {
            assert(s@.subrange(j0, j0 + k + 1) =~= s@.subrange(j0, j0 + k).push(s@[j0 + k]));
        }
        k = k + 1;
    }
    *i = *i + n;
    Ok(out)
}

impl TextCodec for String {
    type Model = Seq<char>;

    open spec fn model(&self) -> Seq<char> {
        self@
    }

    open spec fn enc(m: Seq<char>) -> Seq<char> {
        enc_text(m)
    }

    open spec fn enc_ok(m: Seq<char>) -> bool {
        m.len() <= usize::MAX
    }

    open spec fn dec(s: Seq<char>, i: int) -> Option<(Seq<char>, int)> {
        dec_text(s, i)
    }

    proof fn lemma_rt(s: Seq<char>, i: int, m: Seq<char>) {
        lemma_rt_text(s, i, m);
    }

    fn encode(&self, out: &mut Vec<char>) {
        let t = crate::text::str_to_chars(self.as_str());
        let n = t.len();
        assert(self@.len() == n);
        encode_text(&t, out);
    }

    fn decode(s: &Vec<char>, i: &mut usize) -> (r: DecodeResult<Self>) {
        match decode_text(s, i) {
            Err(e) => Err(e),
            Ok(v) => Ok(crate::text::chars_to_string(&v)),
        }
    }
}

impl TextCodec for crate::color::Color {
    type Model = Seq<char>;

    open spec fn model(&self) -> Seq<char> {
        self@
    }

    open spec fn enc(m: Seq<char>) -> Seq<char> {
        enc_text(m)
    }

    open spec fn enc_ok(m: Seq<char>) -> bool {
        m.len() <= usize::MAX
    }

    open spec fn dec(s: Seq<char>, i: int) -> Option<(Seq<char>, int)> {
        dec_text(s, i)
    }

    proof fn lemma_rt(s: Seq<char>, i: int, m: Seq<char>) {
        lemma_rt_text(s, i, m);
    }

    fn encode(&self, out: &mut Vec<char>) {
        let t = crate::text::str_to_chars(self.text().as_str());
        let n = t.len();
        assert(self@.len() == n);
        encode_text(&t, out);
    }

    fn decode(s: &Vec<char>, i: &mut usize) -> (r: DecodeResult<Self>) {
        match decode_text(s, i) {
            Err(e) => Err(e),
            Ok(v) => Ok(crate::color::Color::from_text(crate::text::chars_to_string(&v))),
        }
    }
}

// ---------------------------------------------------------------------------
// Geometry values
// ---------------------------------------------------------------------------

impl TextCodec for crate::coordinate::Coordinate {
    type Model = crate::coordinate::Coordinate;

    open spec fn model(&self) -> crate::coordinate::Coordinate {
        *self
    }

    open spec fn enc(m: crate::coordinate::Coordinate) -> Seq<char> {
        enc_i16(m.row) + enc_i16(m.column)
    }

    open spec fn enc_ok(m: crate::coordinate::Coordinate) -> bool {
        true
    }

    open spec fn dec(s: Seq<char>, i: int) -> Option<(crate::coordinate::Coordinate, int)> {
        match dec_i16(s, i) {
            None => None,
            Some((row, j)) => match dec_i16(s, j) {
                None => None,
                Some((column, end)) => Some((crate::coordinate::Coordinate { row, column }, end)),
            },
        }
    }

    proof fn lemma_rt(s: Seq<char>, i: int, m: crate::coordinate::Coordinate) {
        lemma_dec_fixed_len(interleave(m.row as int), W_COORD as nat);
        lemma_dec_fixed_len(interleave(m.column as int), W_COORD as nat);
        lemma_split(s, i, enc_i16(m.row), enc_i16(m.column));
        lemma_rt_i16(s, i, m.row);
        lemma_rt_i16(s, i + W_COORD, m.column);
    }

    fn encode(&self, out: &mut Vec<char>) {
        encode_i16(self.row, out);
        encode_i16(self.column, out);
    }

    fn decode(s: &Vec<char>, i: &mut usize) -> (r: DecodeResult<Self>) {
        let row = match decode_i16(s, i) {
            Err(e) => {
                return Err(e);
            },
            Ok(v) => v,
        };
        let column = match decode_i16(s, i) {
            Err(e) => {
                return Err(e);
            },
            Ok(v) => v,
        };
        Ok(crate::coordinate::Coordinate { row, column })
    }
}

impl TextCodec for crate::direction::Directions {
    type Model = crate::direction::Directions;

    open spec fn model(&self) -> crate::direction::Directions {
        *self
    }

    open spec fn enc(m: crate::direction::Directions) -> Seq<char> {
        enc_u8(m.bits)
    }

    open spec fn enc_ok(m: crate::direction::Directions) -> bool {
        true
    }

    open spec fn dec(s: Seq<char>, i: int) -> Option<(crate::direction::Directions, int)> {
        match dec_u8(s, i) {
            None => None,
            Some((bits, j)) => Some((crate::direction::Directions { bits }, j)),
        }
    }

    proof fn lemma_rt(s: Seq<char>, i: int, m: crate::direction::Directions) {
        lemma_dec_fixed_len(m.bits as nat, W_BYTE as nat);
        lemma_rt_u8(s, i, m.bits);
    }

    fn encode(&self, out: &mut Vec<char>) {
        encode_u8(self.bits, out);
    }

    fn decode(s: &Vec<char>, i: &mut usize) -> (r: DecodeResult<Self>) {
        match decode_u8(s, i) {
            Err(e) => Err(e),
            Ok(bits) => Ok(crate::direction::Directions { bits }),
        }
    }
}

// ---------------------------------------------------------------------------
// Rule vocabularies
// ---------------------------------------------------------------------------

/// Every tag text is one character long.
pub proof fn lemma_tag_len()
    ensures
        forall|n: nat| (#[trigger] enc_tag(n as u8)).len() == W_TAG,
        forall|n: nat| (#[trigger] dec_fixed(n, W_TAG as nat)).len() == W_TAG,
{
    assert forall|n: nat| (#[trigger] dec_fixed(n, W_TAG as nat)).len() == W_TAG by {
        lemma_dec_fixed_len(n, W_TAG as nat);
    }
}

impl TextCodec for crate::piece_definition::JumpRule {
    type Model = crate::piece_definition::JumpRule;

    open spec fn model(&self) -> crate::piece_definition::JumpRule {
        *self
    }

    open spec fn enc(m: crate::piece_definition::JumpRule) -> Seq<char> {
        match m {
            crate::piece_definition::JumpRule::NoBacktracking => enc_tag(0),
            crate::piece_definition::JumpRule::NoSameStart => enc_tag(1),
            crate::piece_definition::JumpRule::Open => enc_tag(2),
        }
    }

    open spec fn enc_ok(m: crate::piece_definition::JumpRule) -> bool {
        true
    }

    open spec fn dec(s: Seq<char>, i: int) -> Option<(crate::piece_definition::JumpRule, int)> {
        match dec_tag(s, i) {
            None => None,
            Some((t, j)) =>
            if t == 0 {
                Some((crate::piece_definition::JumpRule::NoBacktracking, j))
            } else if t == 1 {
                Some((crate::piece_definition::JumpRule::NoSameStart, j))
            } else if t == 2 {
                Some((crate::piece_definition::JumpRule::Open, j))
            } else {
                None
            },
        }
    }

    proof fn lemma_rt(s: Seq<char>, i: int, m: crate::piece_definition::JumpRule) {
        lemma_tag_len();
        match m {
            crate::piece_definition::JumpRule::NoBacktracking => lemma_rt_tag(s, i, 0),
            crate::piece_definition::JumpRule::NoSameStart => lemma_rt_tag(s, i, 1),
            crate::piece_definition::JumpRule::Open => lemma_rt_tag(s, i, 2),
        }
    }

    fn encode(&self, out: &mut Vec<char>) {
        match self {
            crate::piece_definition::JumpRule::NoBacktracking => encode_tag(0, out),
            crate::piece_definition::JumpRule::NoSameStart => encode_tag(1, out),
            crate::piece_definition::JumpRule::Open => encode_tag(2, out),
        }
    }

    fn decode(s: &Vec<char>, i: &mut usize) -> (r: DecodeResult<Self>) {
        match decode_tag(s, i) {
            Err(e) => Err(e),
            Ok(t) => {
                if t == 0 {
                    Ok(crate::piece_definition::JumpRule::NoBacktracking)
                } else if t == 1 {
                    Ok(crate::piece_definition::JumpRule::NoSameStart)
                } else if t == 2 {
                    Ok(crate::piece_definition::JumpRule::Open)
                } else {
                    Err(DecodeError)
                }
            },
        }
    }
}

impl TextCodec for crate::piece_definition::CaptureRule {
    type Model = crate::piece_definition::CaptureRule;

    open spec fn model(&self) -> crate::piece_definition::CaptureRule {
        *self
    }

    open spec fn enc(m: crate::piece_definition::CaptureRule) -> Seq<char> {
        match m {
            crate::piece_definition::CaptureRule::JumpOver => enc_tag(0),
            crate::piece_definition::CaptureRule::JumpOn => enc_tag(1),
            crate::piece_definition::CaptureRule::Move => enc_tag(2),
        }
    }

    open spec fn enc_ok(m: crate::piece_definition::CaptureRule) -> bool {
        true
    }

    open spec fn dec(s: Seq<char>, i: int) -> Option<(crate::piece_definition::CaptureRule, int)> {
        match dec_tag(s, i) {
            None => None,
            Some((t, j)) =>
            if t == 0 {
                Some((crate::piece_definition::CaptureRule::JumpOver, j))
            } else if t == 1 {
                Some((crate::piece_definition::CaptureRule::JumpOn, j))
            } else if t == 2 {
                Some((crate::piece_definition::CaptureRule::Move, j))
            } else {
                None
            },
        }
    }

    proof fn lemma_rt(s: Seq<char>, i: int, m: crate::piece_definition::CaptureRule) {
        lemma_tag_len();
        match m {
            crate::piece_definition::CaptureRule::JumpOver => lemma_rt_tag(s, i, 0),
            crate::piece_definition::CaptureRule::JumpOn => lemma_rt_tag(s, i, 1),
            crate::piece_definition::CaptureRule::Move => lemma_rt_tag(s, i, 2),
        }
    }

    fn encode(&self, out: &mut Vec<char>) {
        match self {
            crate::piece_definition::CaptureRule::JumpOver => encode_tag(0, out),
            crate::piece_definition::CaptureRule::JumpOn => encode_tag(1, out),
            crate::piece_definition::CaptureRule::Move => encode_tag(2, out),
        }
    }

    fn decode(s: &Vec<char>, i: &mut usize) -> (r: DecodeResult<Self>) {
        match decode_tag(s, i) {
            Err(e) => Err(e),
            Ok(t) => {
                if t == 0 {
                    Ok(crate::piece_definition::CaptureRule::JumpOver)
                } else if t == 1 {
                    Ok(crate::piece_definition::CaptureRule::JumpOn)
                } else if t == 2 {
                    Ok(crate::piece_definition::CaptureRule::Move)
                } else {
                    Err(DecodeError)
                }
            },
        }
    }
}

impl TextCodec for crate::piece_definition::CaptureTimingRule {
    type Model = crate::piece_definition::CaptureTimingRule;

    open spec fn model(&self) -> crate::piece_definition::CaptureTimingRule {
        *self
    }

    open spec fn enc(m: crate::piece_definition::CaptureTimingRule) -> Seq<char> {
        match m {
            crate::piece_definition::CaptureTimingRule::AfterJump => enc_tag(0),
            crate::piece_definition::CaptureTimingRule::AfterTurn => enc_tag(1),
        }
    }

    open spec fn enc_ok(m: crate::piece_definition::CaptureTimingRule) -> bool {
        true
    }

    open spec fn dec(s: Seq<char>, i: int) -> Option<(crate::piece_definition::CaptureTimingRule, int)> {
        match dec_tag(s, i) {
            None => None,
            Some((t, j)) =>
            if t == 0 {
                Some((crate::piece_definition::CaptureTimingRule::AfterJump, j))
            } else if t == 1 {
                Some((crate::piece_definition::CaptureTimingRule::AfterTurn, j))
            } else {
                None
            },
        }
    }

    proof fn lemma_rt(s: Seq<char>, i: int, m: crate::piece_definition::CaptureTimingRule) {
        lemma_tag_len();
        match m {
            crate::piece_definition::CaptureTimingRule::AfterJump => lemma_rt_tag(s, i, 0),
            crate::piece_definition::CaptureTimingRule::AfterTurn => lemma_rt_tag(s, i, 1),
        }
    }

    fn encode(&self, out: &mut Vec<char>) {
        match self {
            crate::piece_definition::CaptureTimingRule::AfterJump => encode_tag(0, out),
            crate::piece_definition::CaptureTimingRule::AfterTurn => encode_tag(1, out),
        }
    }

    fn decode(s: &Vec<char>, i: &mut usize) -> (r: DecodeResult<Self>) {
        match decode_tag(s, i) {
            Err(e) => Err(e),
            Ok(t) => {
                if t == 0 {
                    Ok(crate::piece_definition::CaptureTimingRule::AfterJump)
                } else if t == 1 {
                    Ok(crate::piece_definition::CaptureTimingRule::AfterTurn)
                } else {
                    Err(DecodeError)
                }
            },
        }
    }
}

impl TextCodec for crate::piece_definition::CaptureTarget {
    type Model = crate::piece_definition::CaptureTarget;

    open spec fn model(&self) -> crate::piece_definition::CaptureTarget {
        *self
    }

    open spec fn enc(m: crate::piece_definition::CaptureTarget) -> Seq<char> {
        match m {
            crate::piece_definition::CaptureTarget::EnemyOnly => enc_tag(0),
            crate::piece_definition::CaptureTarget::OwnOnly => enc_tag(1),
            crate::piece_definition::CaptureTarget::All => enc_tag(2),
        }
    }

    open spec fn enc_ok(m: crate::piece_definition::CaptureTarget) -> bool {
        true
    }

    open spec fn dec(s: Seq<char>, i: int) -> Option<(crate::piece_definition::CaptureTarget, int)> {
        match dec_tag(s, i) {
            None => None,
            Some((t, j)) =>
            if t == 0 {
                Some((crate::piece_definition::CaptureTarget::EnemyOnly, j))
            } else if t == 1 {
                Some((crate::piece_definition::CaptureTarget::OwnOnly, j))
            } else if t == 2 {
                Some((crate::piece_definition::CaptureTarget::All, j))
            } else {
                None
            },
        }
    }

    proof fn lemma_rt(s: Seq<char>, i: int, m: crate::piece_definition::CaptureTarget) {
        lemma_tag_len();
        match m {
            crate::piece_definition::CaptureTarget::EnemyOnly => lemma_rt_tag(s, i, 0),
            crate::piece_definition::CaptureTarget::OwnOnly => lemma_rt_tag(s, i, 1),
            crate::piece_definition::CaptureTarget::All => lemma_rt_tag(s, i, 2),
        }
    }

    fn encode(&self, out: &mut Vec<char>) {
        match self {
            crate::piece_definition::CaptureTarget::EnemyOnly => encode_tag(0, out),
            crate::piece_definition::CaptureTarget::OwnOnly => encode_tag(1, out),
            crate::piece_definition::CaptureTarget::All => encode_tag(2, out),
        }
    }

    fn decode(s: &Vec<char>, i: &mut usize) -> (r: DecodeResult<Self>) {
        match decode_tag(s, i) {
            Err(e) => Err(e),
            Ok(t) => {
                if t == 0 {
                    Ok(crate::piece_definition::CaptureTarget::EnemyOnly)
                } else if t == 1 {
                    Ok(crate::piece_definition::CaptureTarget::OwnOnly)
                } else if t == 2 {
                    Ok(crate::piece_definition::CaptureTarget::All)
                } else {
                    Err(DecodeError)
                }
            },
        }
    }
}

impl TextCodec for crate::piece_definition::GoalMovementRule {
    type Model = crate::piece_definition::GoalMovementRule;

    open spec fn model(&self) -> crate::piece_definition::GoalMovementRule {
        *self
    }

    open spec fn enc(m: crate::piece_definition::GoalMovementRule) -> Seq<char> {
        match m {
            crate::piece_definition::GoalMovementRule::Locked => enc_tag(0),
            crate::piece_definition::GoalMovementRule::OnlyToGoal => enc_tag(1),
            crate::piece_definition::GoalMovementRule::Free => enc_tag(2),
        }
    }

    open spec fn enc_ok(m: crate::piece_definition::GoalMovementRule) -> bool {
        true
    }

    open spec fn dec(s: Seq<char>, i: int) -> Option<(crate::piece_definition::GoalMovementRule, int)> {
        match dec_tag(s, i) {
            None => None,
            Some((t, j)) =>
            if t == 0 {
                Some((crate::piece_definition::GoalMovementRule::Locked, j))
            } else if t == 1 {
                Some((crate::piece_definition::GoalMovementRule::OnlyToGoal, j))
            } else if t == 2 {
                Some((crate::piece_definition::GoalMovementRule::Free, j))
            } else {
                None
            },
        }
    }

    proof fn lemma_rt(s: Seq<char>, i: int, m: crate::piece_definition::GoalMovementRule) {
        lemma_tag_len();
        match m {
            crate::piece_definition::GoalMovementRule::Locked => lemma_rt_tag(s, i, 0),
            crate::piece_definition::GoalMovementRule::OnlyToGoal => lemma_rt_tag(s, i, 1),
            crate::piece_definition::GoalMovementRule::Free => lemma_rt_tag(s, i, 2),
        }
    }

    fn encode(&self, out: &mut Vec<char>) {
        match self {
            crate::piece_definition::GoalMovementRule::Locked => encode_tag(0, out),
            crate::piece_definition::GoalMovementRule::OnlyToGoal => encode_tag(1, out),
            crate::piece_definition::GoalMovementRule::Free => encode_tag(2, out),
        }
    }

    fn decode(s: &Vec<char>, i: &mut usize) -> (r: DecodeResult<Self>) {
        match decode_tag(s, i) {
            Err(e) => Err(e),
            Ok(t) => {
                if t == 0 {
                    Ok(crate::piece_definition::GoalMovementRule::Locked)
                } else if t == 1 {
                    Ok(crate::piece_definition::GoalMovementRule::OnlyToGoal)
                } else if t == 2 {
                    Ok(crate::piece_definition::GoalMovementRule::Free)
                } else {
                    Err(DecodeError)
                }
            },
        }
    }
}

impl TextCodec for crate::space::Space {
    type Model = crate::space::Space;

    open spec fn model(&self) -> crate::space::Space {
        *self
    }

    open spec fn enc(m: crate::space::Space) -> Seq<char> {
        match m {
            crate::space::Space::Invalid => enc_tag(0),
            crate::space::Space::Normal => enc_tag(1),
            crate::space::Space::Goal(seat) => enc_tag(2) + enc_u64(seat),
        }
    }

    open spec fn enc_ok(m: crate::space::Space) -> bool {
        true
    }

    open spec fn dec(s: Seq<char>, i: int) -> Option<(crate::space::Space, int)> {
        match dec_tag(s, i) {
            None => None,
            Some((t, j)) => if t == 0 {
                Some((crate::space::Space::Invalid, j))
            } else if t == 1 {
                Some((crate::space::Space::Normal, j))
            } else if t == 2 {
                match dec_u64(s, j) {
                    None => None,
                    Some((seat, end)) => Some((crate::space::Space::Goal(seat), end)),
                }
            } else {
                None
            },
        }
    }

    proof fn lemma_rt(s: Seq<char>, i: int, m: crate::space::Space) {
        lemma_tag_len();
        match m {
            crate::space::Space::Invalid => lemma_rt_tag(s, i, 0),
            crate::space::Space::Normal => lemma_rt_tag(s, i, 1),
            crate::space::Space::Goal(seat) => {
                lemma_dec_fixed_len(seat as nat, W_LONG as nat);
                lemma_split(s, i, enc_tag(2), enc_u64(seat));
                lemma_rt_tag(s, i, 2);
                lemma_rt_u64(s, i + W_TAG, seat);
            },
        }
    }

    fn encode(&self, out: &mut Vec<char>) {
        match self {
            crate::space::Space::Invalid => encode_tag(0, out),
            crate::space::Space::Normal => encode_tag(1, out),
            crate::space::Space::Goal(seat) => {
                encode_tag(2, out);
                encode_u64(*seat, out);
            },
        }
    }

    fn decode(s: &Vec<char>, i: &mut usize) -> (r: DecodeResult<Self>) {
        match decode_tag(s, i) {
            Err(e) => Err(e),
            Ok(t) => {
                if t == 0 {
                    Ok(crate::space::Space::Invalid)
                } else if t == 1 {
                    Ok(crate::space::Space::Normal)
                } else if t == 2 {
                    match decode_u64(s, i) {
                        Err(e) => Err(e),
                        Ok(seat) => Ok(crate::space::Space::Goal(seat)),
                    }
                } else {
                    Err(DecodeError)
                }
            },
        }
    }
}

impl TextCodec for crate::piece_definition::CaptureRequirement {
    type Model = crate::piece_definition::CaptureRequirement;

    open spec fn model(&self) -> crate::piece_definition::CaptureRequirement {
        *self
    }

    open spec fn enc(m: crate::piece_definition::CaptureRequirement) -> Seq<char> {
        match m {
            crate::piece_definition::CaptureRequirement::Forced(rank) => enc_tag(0) + enc_isize(
                rank,
            ),
            crate::piece_definition::CaptureRequirement::Unforced => enc_tag(1),
        }
    }

    open spec fn enc_ok(m: crate::piece_definition::CaptureRequirement) -> bool {
        true
    }

    open spec fn dec(s: Seq<char>, i: int) -> Option<
        (crate::piece_definition::CaptureRequirement, int),
    > {
        match dec_tag(s, i) {
            None => None,
            Some((t, j)) => if t == 0 {
                match dec_isize(s, j) {
                    None => None,
                    Some((rank, end)) => Some(
                        (crate::piece_definition::CaptureRequirement::Forced(rank), end),
                    ),
                }
            } else if t == 1 {
                Some((crate::piece_definition::CaptureRequirement::Unforced, j))
            } else {
                None
            },
        }
    }

    proof fn lemma_rt(s: Seq<char>, i: int, m: crate::piece_definition::CaptureRequirement) {
        lemma_tag_len();
        match m {
            crate::piece_definition::CaptureRequirement::Forced(rank) => {
                lemma_dec_fixed_len(interleave(rank as int), W_LONG as nat);
                lemma_split(s, i, enc_tag(0), enc_isize(rank));
                lemma_rt_tag(s, i, 0);
                lemma_rt_isize(s, i + W_TAG, rank);
            },
            crate::piece_definition::CaptureRequirement::Unforced => lemma_rt_tag(s, i, 1),
        }
    }

    fn encode(&self, out: &mut Vec<char>) {
        match self {
            crate::piece_definition::CaptureRequirement::Forced(rank) => {
                encode_tag(0, out);
                encode_isize(*rank, out);
            },
            crate::piece_definition::CaptureRequirement::Unforced => encode_tag(1, out),
        }
    }

    fn decode(s: &Vec<char>, i: &mut usize) -> (r: DecodeResult<Self>) {
        match decode_tag(s, i) {
            Err(e) => Err(e),
            Ok(t) => {
                if t == 0 {
                    match decode_isize(s, i) {
                        Err(e) => Err(e),
                        Ok(rank) => Ok(crate::piece_definition::CaptureRequirement::Forced(rank)),
                    }
                } else if t == 1 {
                    Ok(crate::piece_definition::CaptureRequirement::Unforced)
                } else {
                    Err(DecodeError)
                }
            },
        }
    }
}

impl TextCodec for crate::piece_definition::Shape {
    type Model = crate::piece_definition::Shape;

    open spec fn model(&self) -> crate::piece_definition::Shape {
        *self
    }

    open spec fn enc(m: crate::piece_definition::Shape) -> Seq<char> {
        match m {
            crate::piece_definition::Shape::Square => enc_tag(0),
            crate::piece_definition::Shape::Circle => enc_tag(1),
            crate::piece_definition::Shape::Plus { ratio } => enc_tag(2) + enc_u64(ratio),
            crate::piece_definition::Shape::VerticalBar { ratio } => enc_tag(3) + enc_u64(ratio),
            crate::piece_definition::Shape::HorizontalBar { ratio } => enc_tag(4) + enc_u64(ratio),
        }
    }

    open spec fn enc_ok(m: crate::piece_definition::Shape) -> bool {
        true
    }

    open spec fn dec(s: Seq<char>, i: int) -> Option<(crate::piece_definition::Shape, int)> {
        match dec_tag(s, i) {
            None => None,
            Some((t, j)) => if t == 0 {
                Some((crate::piece_definition::Shape::Square, j))
            } else if t == 1 {
                Some((crate::piece_definition::Shape::Circle, j))
            } else if t == 2 || t == 3 || t == 4 {
                match dec_u64(s, j) {
                    None => None,
                    Some((ratio, end)) => if t == 2 {
                        Some((crate::piece_definition::Shape::Plus { ratio }, end))
                    } else if t == 3 {
                        Some((crate::piece_definition::Shape::VerticalBar { ratio }, end))
                    } else {
                        Some((crate::piece_definition::Shape::HorizontalBar { ratio }, end))
                    },
                }
            } else {
                None
            },
        }
    }

    proof fn lemma_rt(s: Seq<char>, i: int, m: crate::piece_definition::Shape) {
        lemma_tag_len();
        match m {
            crate::piece_definition::Shape::Square => lemma_rt_tag(s, i, 0),
            crate::piece_definition::Shape::Circle => lemma_rt_tag(s, i, 1),
            crate::piece_definition::Shape::Plus { ratio } => {
                lemma_dec_fixed_len(ratio as nat, W_LONG as nat);
                lemma_split(s, i, enc_tag(2), enc_u64(ratio));
                lemma_rt_tag(s, i, 2);
                lemma_rt_u64(s, i + W_TAG, ratio);
            },
            crate::piece_definition::Shape::VerticalBar { ratio } => {
                lemma_dec_fixed_len(ratio as nat, W_LONG as nat);
                lemma_split(s, i, enc_tag(3), enc_u64(ratio));
                lemma_rt_tag(s, i, 3);
                lemma_rt_u64(s, i + W_TAG, ratio);
            },
            crate::piece_definition::Shape::HorizontalBar { ratio } => {
                lemma_dec_fixed_len(ratio as nat, W_LONG as nat);
                lemma_split(s, i, enc_tag(4), enc_u64(ratio));
                lemma_rt_tag(s, i, 4);
                lemma_rt_u64(s, i + W_TAG, ratio);
            },
        }
    }

    fn encode(&self, out: &mut Vec<char>) {
        match self {
            crate::piece_definition::Shape::Square => encode_tag(0, out),
            crate::piece_definition::Shape::Circle => encode_tag(1, out),
            crate::piece_definition::Shape::Plus { ratio } => {
                encode_tag(2, out);
                encode_u64(*ratio, out);
            },
            crate::piece_definition::Shape::VerticalBar { ratio } => {
                encode_tag(3, out);
                encode_u64(*ratio, out);
            },
            crate::piece_definition::Shape::HorizontalBar { ratio } => {
                encode_tag(4, out);
                encode_u64(*ratio, out);
            },
        }
    }

    fn decode(s: &Vec<char>, i: &mut usize) -> (r: DecodeResult<Self>) {
        match decode_tag(s, i) {
            Err(e) => Err(e),
            Ok(t) => {
                if t == 0 {
                    Ok(crate::piece_definition::Shape::Square)
                } else if t == 1 {
                    Ok(crate::piece_definition::Shape::Circle)
                } else if t == 2 || t == 3 || t == 4 {
                    match decode_u64(s, i) {
                        Err(e) => Err(e),
                        Ok(ratio) => {
                            if t == 2 {
                                Ok(crate::piece_definition::Shape::Plus { ratio })
                            } else if t == 3 {
                                Ok(crate::piece_definition::Shape::VerticalBar { ratio })
                            } else {
                                Ok(crate::piece_definition::Shape::HorizontalBar { ratio })
                            }
                        },
                    }
                } else {
                    Err(DecodeError)
                }
            },
        }
    }
}

impl TextCodec for crate::piece_definition::JumpLimit {
    type Model = crate::piece_definition::JumpLimit;

    open spec fn model(&self) -> crate::piece_definition::JumpLimit {
        *self
    }

    open spec fn enc(m: crate::piece_definition::JumpLimit) -> Seq<char> {
        match m {
            crate::piece_definition::JumpLimit::Unlimited { directions } => enc_tag(0) + enc_u8(
                directions.bits,
            ),
            crate::piece_definition::JumpLimit::Limited { limit, directions } => enc_tag(1) + (
            enc_usize(limit) + enc_u8(directions.bits)),
            crate::piece_definition::JumpLimit::Cannot => enc_tag(2),
        }
    }

    open spec fn enc_ok(m: crate::piece_definition::JumpLimit) -> bool {
        true
    }

    open spec fn dec(s: Seq<char>, i: int) -> Option<(crate::piece_definition::JumpLimit, int)> {
        match dec_tag(s, i) {
            None => None,
            Some((t, j)) => if t == 0 {
                match dec_u8(s, j) {
                    None => None,
                    Some((bits, end)) => Some(
                        (
                            crate::piece_definition::JumpLimit::Unlimited {
                                directions: crate::direction::Directions { bits },
                            },
                            end,
                        ),
                    ),
                }
            } else if t == 1 {
                match dec_usize(s, j) {
                    None => None,
                    Some((limit, j2)) => match dec_u8(s, j2) {
                        None => None,
                        Some((bits, end)) => Some(
                            (
                                crate::piece_definition::JumpLimit::Limited {
                                    limit,
                                    directions: crate::direction::Directions { bits },
                                },
                                end,
                            ),
                        ),
                    },
                }
            } else if t == 2 {
                Some((crate::piece_definition::JumpLimit::Cannot, j))
            } else {
                None
            },
        }
    }

    proof fn lemma_rt(s: Seq<char>, i: int, m: crate::piece_definition::JumpLimit) {
        lemma_tag_len();
        match m {
            crate::piece_definition::JumpLimit::Unlimited { directions } => {
                lemma_dec_fixed_len(directions.bits as nat, W_BYTE as nat);
                lemma_split(s, i, enc_tag(0), enc_u8(directions.bits));
                lemma_rt_tag(s, i, 0);
                lemma_rt_u8(s, i + W_TAG, directions.bits);
            },
            crate::piece_definition::JumpLimit::Limited { limit, directions } => {
                lemma_dec_fixed_len(limit as nat, W_LONG as nat);
                lemma_dec_fixed_len(directions.bits as nat, W_BYTE as nat);
                lemma_split(s, i, enc_tag(1), enc_usize(limit) + enc_u8(directions.bits));
                lemma_rt_tag(s, i, 1);
                lemma_split(s, i + W_TAG, enc_usize(limit), enc_u8(directions.bits));
                lemma_rt_usize(s, i + W_TAG, limit);
                lemma_rt_u8(s, i + W_TAG + W_LONG, directions.bits);
            },
            crate::piece_definition::JumpLimit::Cannot => lemma_rt_tag(s, i, 2),
        }
    }

    fn encode(&self, out: &mut Vec<char>) {
        match self {
            crate::piece_definition::JumpLimit::Unlimited { directions } => {
                encode_tag(0, out);
                encode_u8(directions.bits, out);
            },
            crate::piece_definition::JumpLimit::Limited { limit, directions } => {
                encode_tag(1, out);
                encode_usize(*limit, out);
                encode_u8(directions.bits, out);
            },
            crate::piece_definition::JumpLimit::Cannot => encode_tag(2, out),
        }
    }

    fn decode(s: &Vec<char>, i: &mut usize) -> (r: DecodeResult<Self>) {
        match decode_tag(s, i) {
            Err(e) => Err(e),
            Ok(t) => {
                if t == 0 {
                    match decode_u8(s, i) {
                        Err(e) => Err(e),
                        Ok(bits) => Ok(
                            crate::piece_definition::JumpLimit::Unlimited {
                                directions: crate::direction::Directions { bits },
                            },
                        ),
                    }
                } else if t == 1 {
                    let limit = match decode_usize(s, i) {
                        Err(e) => {
                            return Err(e);
                        },
                        Ok(v) => v,
                    };
                    match decode_u8(s, i) {
                        Err(e) => Err(e),
                        Ok(bits) => Ok(
                            crate::piece_definition::JumpLimit::Limited {
                                limit,
                                directions: crate::direction::Directions { bits },
                            },
                        ),
                    }
                } else if t == 2 {
                    Ok(crate::piece_definition::JumpLimit::Cannot)
                } else {
                    Err(DecodeError)
                }
            },
        }
    }
}

impl TextCodec for crate::piece_definition::MoveRule {
    type Model = crate::piece_definition::MoveRule;

    open spec fn model(&self) -> crate::piece_definition::MoveRule {
        *self
    }

    open spec fn enc(m: crate::piece_definition::MoveRule) -> Seq<char> {
        match m {
            crate::piece_definition::MoveRule::SameDirection { limit, directions } => enc_tag(0) + (
            enc_usize(limit) + enc_u8(directions.bits)),
            crate::piece_definition::MoveRule::AnyDirection { limit, directions } => enc_tag(1) + (
            enc_usize(limit) + enc_u8(directions.bits)),
            crate::piece_definition::MoveRule::NoMovement => enc_tag(2),
        }
    }

    open spec fn enc_ok(m: crate::piece_definition::MoveRule) -> bool {
        true
    }

    open spec fn dec(s: Seq<char>, i: int) -> Option<(crate::piece_definition::MoveRule, int)> {
        match dec_tag(s, i) {
            None => None,
            Some((t, j)) => if t == 0 || t == 1 {
                match dec_usize(s, j) {
                    None => None,
                    Some((limit, j2)) => match dec_u8(s, j2) {
                        None => None,
                        Some((bits, end)) => if t == 0 {
                            Some(
                                (
                                    crate::piece_definition::MoveRule::SameDirection {
                                        limit,
                                        directions: crate::direction::Directions { bits },
                                    },
                                    end,
                                ),
                            )
                        } else {
                            Some(
                                (
                                    crate::piece_definition::MoveRule::AnyDirection {
                                        limit,
                                        directions: crate::direction::Directions { bits },
                                    },
                                    end,
                                ),
                            )
                        },
                    },
                }
            } else if t == 2 {
                Some((crate::piece_definition::MoveRule::NoMovement, j))
            } else {
                None
            },
        }
    }

    proof fn lemma_rt(s: Seq<char>, i: int, m: crate::piece_definition::MoveRule) {
        lemma_tag_len();
        match m {
            crate::piece_definition::MoveRule::SameDirection { limit, directions } => {
                lemma_dec_fixed_len(limit as nat, W_LONG as nat);
                lemma_dec_fixed_len(directions.bits as nat, W_BYTE as nat);
                lemma_split(s, i, enc_tag(0), enc_usize(limit) + enc_u8(directions.bits));
                lemma_rt_tag(s, i, 0);
                lemma_split(s, i + W_TAG, enc_usize(limit), enc_u8(directions.bits));
                lemma_rt_usize(s, i + W_TAG, limit);
                lemma_rt_u8(s, i + W_TAG + W_LONG, directions.bits);
            },
            crate::piece_definition::MoveRule::AnyDirection { limit, directions } => {
                lemma_dec_fixed_len(limit as nat, W_LONG as nat);
                lemma_dec_fixed_len(directions.bits as nat, W_BYTE as nat);
                lemma_split(s, i, enc_tag(1), enc_usize(limit) + enc_u8(directions.bits));
                lemma_rt_tag(s, i, 1);
                lemma_split(s, i + W_TAG, enc_usize(limit), enc_u8(directions.bits));
                lemma_rt_usize(s, i + W_TAG, limit);
                lemma_rt_u8(s, i + W_TAG + W_LONG, directions.bits);
            },
            crate::piece_definition::MoveRule::NoMovement => lemma_rt_tag(s, i, 2),
        }
    }

    fn encode(&self, out: &mut Vec<char>) {
        match self {
            crate::piece_definition::MoveRule::SameDirection { limit, directions } => {
                encode_tag(0, out);
                encode_usize(*limit, out);
                encode_u8(directions.bits, out);
            },
            crate::piece_definition::MoveRule::AnyDirection { limit, directions } => {
                encode_tag(1, out);
                encode_usize(*limit, out);
                encode_u8(directions.bits, out);
            },
            crate::piece_definition::MoveRule::NoMovement => encode_tag(2, out),
        }
    }

    fn decode(s: &Vec<char>, i: &mut usize) -> (r: DecodeResult<Self>) {
        match decode_tag(s, i) {
            Err(e) => Err(e),
            Ok(t) => {
                if t == 0 || t == 1 {
                    let limit = match decode_usize(s, i) {
                        Err(e) => {
                            return Err(e);
                        },
                        Ok(v) => v,
                    };
                    match decode_u8(s, i) {
                        Err(e) => Err(e),
                        Ok(bits) => {
                            if t == 0 {
                                Ok(
                                    crate::piece_definition::MoveRule::SameDirection {
                                        limit,
                                        directions: crate::direction::Directions { bits },
                                    },
                                )
                            } else {
                                Ok(
                                    crate::piece_definition::MoveRule::AnyDirection {
                                        limit,
                                        directions: crate::direction::Directions { bits },
                                    },
                                )
                            }
                        },
                    }
                } else if t == 2 {
                    Ok(crate::piece_definition::MoveRule::NoMovement)
                } else {
                    Err(DecodeError)
                }
            },
        }
    }
}

impl TextCodec for crate::alteration_type::AlternationType {
    type Model = crate::alteration_type::AlternationType;

    open spec fn model(&self) -> crate::alteration_type::AlternationType {
        *self
    }

    open spec fn enc(m: crate::alteration_type::AlternationType) -> Seq<char> {
        match m {
            crate::alteration_type::AlternationType::TurnsCount { per_turn_count } => enc_tag(0)
                + enc_usize(per_turn_count),
            crate::alteration_type::AlternationType::TurnsPoints { per_turn_points, hard_limit } =>
                enc_tag(1) + (enc_usize(per_turn_points) + <bool as TextCodec>::enc(hard_limit)),
            crate::alteration_type::AlternationType::Points => enc_tag(2),
            crate::alteration_type::AlternationType::WholePlacement => enc_tag(3),
            crate::alteration_type::AlternationType::Hidden => enc_tag(4),
        }
    }

    open spec fn enc_ok(m: crate::alteration_type::AlternationType) -> bool {
        true
    }

    open spec fn dec(s: Seq<char>, i: int) -> Option<
        (crate::alteration_type::AlternationType, int),
    > {
        match dec_tag(s, i) {
            None => None,
            Some((t, j)) => if t == 0 {
                match dec_usize(s, j) {
                    None => None,
                    Some((per_turn_count, end)) => Some(
                        (
                            crate::alteration_type::AlternationType::TurnsCount { per_turn_count },
                            end,
                        ),
                    ),
                }
            } else if t == 1 {
                match dec_usize(s, j) {
                    None => None,
                    Some((per_turn_points, j2)) => match <bool as TextCodec>::dec(s, j2) {
                        None => None,
                        Some((hard_limit, end)) => Some(
                            (
                                crate::alteration_type::AlternationType::TurnsPoints {
                                    per_turn_points,
                                    hard_limit,
                                },
                                end,
                            ),
                        ),
                    },
                }
            } else if t == 2 {
                Some((crate::alteration_type::AlternationType::Points, j))
            } else if t == 3 {
                Some((crate::alteration_type::AlternationType::WholePlacement, j))
            } else if t == 4 {
                Some((crate::alteration_type::AlternationType::Hidden, j))
            } else {
                None
            },
        }
    }

    proof fn lemma_rt(s: Seq<char>, i: int, m: crate::alteration_type::AlternationType) {
        lemma_tag_len();
        match m {
            crate::alteration_type::AlternationType::TurnsCount { per_turn_count } => {
                lemma_dec_fixed_len(per_turn_count as nat, W_LONG as nat);
                lemma_split(s, i, enc_tag(0), enc_usize(per_turn_count));
                lemma_rt_tag(s, i, 0);
                lemma_rt_usize(s, i + W_TAG, per_turn_count);
            },
            crate::alteration_type::AlternationType::TurnsPoints {
                per_turn_points,
                hard_limit,
            } => {
                lemma_dec_fixed_len(per_turn_points as nat, W_LONG as nat);
                lemma_split(
                    s,
                    i,
                    enc_tag(1),
                    enc_usize(per_turn_points) + <bool as TextCodec>::enc(hard_limit),
                );
                lemma_rt_tag(s, i, 1);
                lemma_split(
                    s,
                    i + W_TAG,
                    enc_usize(per_turn_points),
                    <bool as TextCodec>::enc(hard_limit),
                );
                lemma_rt_usize(s, i + W_TAG, per_turn_points);
                <bool as TextCodec>::lemma_rt(s, i + W_TAG + W_LONG, hard_limit);
            },
            crate::alteration_type::AlternationType::Points => lemma_rt_tag(s, i, 2),
            crate::alteration_type::AlternationType::WholePlacement => lemma_rt_tag(s, i, 3),
            crate::alteration_type::AlternationType::Hidden => lemma_rt_tag(s, i, 4),
        }
    }

    fn encode(&self, out: &mut Vec<char>) {
        match self {
            crate::alteration_type::AlternationType::TurnsCount { per_turn_count } => {
                encode_tag(0, out);
                encode_usize(*per_turn_count, out);
            },
            crate::alteration_type::AlternationType::TurnsPoints {
                per_turn_points,
                hard_limit,
            } => {
                encode_tag(1, out);
                encode_usize(*per_turn_points, out);
                hard_limit.encode(out);
            },
            crate::alteration_type::AlternationType::Points => encode_tag(2, out),
            crate::alteration_type::AlternationType::WholePlacement => encode_tag(3, out),
            crate::alteration_type::AlternationType::Hidden => encode_tag(4, out),
        }
    }

    fn decode(s: &Vec<char>, i: &mut usize) -> (r: DecodeResult<Self>) {
        match decode_tag(s, i) {
            Err(e) => Err(e),
            Ok(t) => {
                if t == 0 {
                    match decode_usize(s, i) {
                        Err(e) => Err(e),
                        Ok(per_turn_count) => Ok(
                            crate::alteration_type::AlternationType::TurnsCount { per_turn_count },
                        ),
                    }
                } else if t == 1 {
                    let per_turn_points = match decode_usize(s, i) {
                        Err(e) => {
                            return Err(e);
                        },
                        Ok(v) => v,
                    };
                    match bool::decode(s, i) {
                        Err(e) => Err(e),
                        Ok(hard_limit) => Ok(
                            crate::alteration_type::AlternationType::TurnsPoints {
                                per_turn_points,
                                hard_limit,
                            },
                        ),
                    }
                } else if t == 2 {
                    Ok(crate::alteration_type::AlternationType::Points)
                } else if t == 3 {
                    Ok(crate::alteration_type::AlternationType::WholePlacement)
                } else if t == 4 {
                    Ok(crate::alteration_type::AlternationType::Hidden)
                } else {
                    Err(DecodeError)
                }
            },
        }
    }
}

impl TextCodec for (crate::piece_definition::CaptureRule, crate::piece_definition::CaptureTarget) {
    type Model = (crate::piece_definition::CaptureRule, crate::piece_definition::CaptureTarget);

    open spec fn model(&self) -> Self::Model {
        *self
    }

    open spec fn enc(m: Self::Model) -> Seq<char> {
        <crate::piece_definition::CaptureRule as TextCodec>::enc(m.0)
            + <crate::piece_definition::CaptureTarget as TextCodec>::enc(m.1)
    }

    open spec fn enc_ok(m: Self::Model) -> bool {
        true
    }

    open spec fn dec(s: Seq<char>, i: int) -> Option<(Self::Model, int)> {
        match <crate::piece_definition::CaptureRule as TextCodec>::dec(s, i) {
            None => None,
            Some((rule, j)) => match <crate::piece_definition::CaptureTarget as TextCodec>::dec(
                s,
                j,
            ) {
                None => None,
                Some((target, end)) => Some(((rule, target), end)),
            },
        }
    }

    proof fn lemma_rt(s: Seq<char>, i: int, m: Self::Model) {
        lemma_tag_len();
        lemma_split(
            s,
            i,
            <crate::piece_definition::CaptureRule as TextCodec>::enc(m.0),
            <crate::piece_definition::CaptureTarget as TextCodec>::enc(m.1),
        );
        <crate::piece_definition::CaptureRule as TextCodec>::lemma_rt(s, i, m.0);
        <crate::piece_definition::CaptureTarget as TextCodec>::lemma_rt(s, i + W_TAG, m.1);
    }

    fn encode(&self, out: &mut Vec<char>) {
        self.0.encode(out);
        self.1.encode(out);
    }

    fn decode(s: &Vec<char>, i: &mut usize) -> (r: DecodeResult<Self>) {
        let rule = match crate::piece_definition::CaptureRule::decode(s, i) {
            Err(e) => {
                return Err(e);
            },
            Ok(v) => v,
        };
        match crate::piece_definition::CaptureTarget::decode(s, i) {
            Err(e) => Err(e),
            Ok(target) => Ok((rule, target)),
        }
    }
}

// ---------------------------------------------------------------------------
// Placement rules
// ---------------------------------------------------------------------------

/// A sequence of scalar values is its own list model.
pub proof fn lemma_model_id_usize(m: Seq<usize>)
    ensures
        m.map_values(|x: usize| x.model()) == m,
{
    assert(m.map_values(|x: usize| x.model()) =~= m);
}

/// A sequence of seat numbers is its own list model.
pub proof fn lemma_model_id_u64(m: Seq<u64>)
    ensures
        m.map_values(|x: u64| x.model()) == m,
{
    assert(m.map_values(|x: u64| x.model()) =~= m);
}

/// A sequence of goal columns is its own list model.
pub proof fn lemma_model_id_u8(m: Seq<u8>)
    ensures
        m.map_values(|x: u8| x.model()) == m,
{
    assert(m.map_values(|x: u8| x.model()) =~= m);
}

/// A sequence of coordinates is its own list model.
pub proof fn lemma_model_id_coordinate(m: Seq<crate::coordinate::Coordinate>)
    ensures
        m.map_values(|x: crate::coordinate::Coordinate| x.model()) == m,
{
    assert(m.map_values(|x: crate::coordinate::Coordinate| x.model()) =~= m);
}

impl TextCodec for crate::piece_limit::PieceLimit {
    type Model = crate::piece_limit::PieceLimitView;

    open spec fn model(&self) -> crate::piece_limit::PieceLimitView {
        self@
    }

    open spec fn enc(m: crate::piece_limit::PieceLimitView) -> Seq<char> {
        match m {
            crate::piece_limit::PieceLimitView::TotalLimit { limit } => enc_tag(0) + enc_usize(
                limit,
            ),
            crate::piece_limit::PieceLimitView::TypeCountLimit { limits } => enc_tag(1) + <Vec<
                usize,
            > as TextCodec>::enc(limits),
            crate::piece_limit::PieceLimitView::PointLimit { point_values, point_limit } => enc_tag(
                2,
            ) + (<Vec<usize> as TextCodec>::enc(point_values) + enc_usize(point_limit)),
        }
    }

    open spec fn enc_ok(m: crate::piece_limit::PieceLimitView) -> bool {
        match m {
            crate::piece_limit::PieceLimitView::TotalLimit { .. } => true,
            crate::piece_limit::PieceLimitView::TypeCountLimit { limits } => limits.len()
                <= usize::MAX,
            crate::piece_limit::PieceLimitView::PointLimit { point_values, .. } =>
                point_values.len() <= usize::MAX,
        }
    }

    open spec fn dec(s: Seq<char>, i: int) -> Option<(crate::piece_limit::PieceLimitView, int)> {
        match dec_tag(s, i) {
            None => None,
            Some((t, j)) => if t == 0 {
                match dec_usize(s, j) {
                    None => None,
                    Some((limit, end)) => Some(
                        (crate::piece_limit::PieceLimitView::TotalLimit { limit }, end),
                    ),
                }
            } else if t == 1 {
                match <Vec<usize> as TextCodec>::dec(s, j) {
                    None => None,
                    Some((limits, end)) => Some(
                        (crate::piece_limit::PieceLimitView::TypeCountLimit { limits }, end),
                    ),
                }
            } else if t == 2 {
                match <Vec<usize> as TextCodec>::dec(s, j) {
                    None => None,
                    Some((point_values, j2)) => match dec_usize(s, j2) {
                        None => None,
                        Some((point_limit, end)) => Some(
                            (
                                crate::piece_limit::PieceLimitView::PointLimit {
                                    point_values,
                                    point_limit,
                                },
                                end,
                            ),
                        ),
                    },
                }
            } else {
                None
            },
        }
    }

    proof fn lemma_rt(s: Seq<char>, i: int, m: crate::piece_limit::PieceLimitView) {
        lemma_tag_len();
        match m {
            crate::piece_limit::PieceLimitView::TotalLimit { limit } => {
                lemma_dec_fixed_len(limit as nat, W_LONG as nat);
                lemma_split(s, i, enc_tag(0), enc_usize(limit));
                lemma_rt_tag(s, i, 0);
                lemma_rt_usize(s, i + W_TAG, limit);
            },
            crate::piece_limit::PieceLimitView::TypeCountLimit { limits } => {
                lemma_split(s, i, enc_tag(1), <Vec<usize> as TextCodec>::enc(limits));
                lemma_rt_tag(s, i, 1);
                <Vec<usize> as TextCodec>::lemma_rt(s, i + W_TAG, limits);
            },
            crate::piece_limit::PieceLimitView::PointLimit { point_values, point_limit } => {
                lemma_dec_fixed_len(point_limit as nat, W_LONG as nat);
                lemma_split(
                    s,
                    i,
                    enc_tag(2),
                    <Vec<usize> as TextCodec>::enc(point_values) + enc_usize(point_limit),
                );
                lemma_rt_tag(s, i, 2);
                lemma_split(
                    s,
                    i + W_TAG,
                    <Vec<usize> as TextCodec>::enc(point_values),
                    enc_usize(point_limit),
                );
                <Vec<usize> as TextCodec>::lemma_rt(s, i + W_TAG, point_values);
                lemma_rt_usize(
                    s,
                    i + W_TAG + <Vec<usize> as TextCodec>::enc(point_values).len(),
                    point_limit,
                );
            },
        }
    }

    fn encode(&self, out: &mut Vec<char>) {
        match self {
            crate::piece_limit::PieceLimit::TotalLimit { limit } => {
                encode_tag(0, out);
                encode_usize(*limit, out);
            },
            crate::piece_limit::PieceLimit::TypeCountLimit { limits } => {
                encode_tag(1, out);
                limits.encode(out);
                proof {
                    lemma_model_id_usize(limits@);
                }
            },
            crate::piece_limit::PieceLimit::PointLimit { point_values, point_limit } => {
                encode_tag(2, out);
                point_values.encode(out);
                encode_usize(*point_limit, out);
                proof {
                    lemma_model_id_usize(point_values@);
                }
            },
        }
    }

    fn decode(s: &Vec<char>, i: &mut usize) -> (r: DecodeResult<Self>) {
        match decode_tag(s, i) {
            Err(e) => Err(e),
            Ok(t) => {
                if t == 0 {
                    match decode_usize(s, i) {
                        Err(e) => Err(e),
                        Ok(limit) => Ok(crate::piece_limit::PieceLimit::TotalLimit { limit }),
                    }
                } else if t == 1 {
                    match <Vec<usize>>::decode(s, i) {
                        Err(e) => Err(e),
                        Ok(limits) => {
                            proof {
                                lemma_model_id_usize(limits@);
                            }
                            Ok(crate::piece_limit::PieceLimit::TypeCountLimit { limits })
                        },
                    }
                } else if t == 2 {
                    let point_values = match <Vec<usize>>::decode(s, i) {
                        Err(e) => {
                            return Err(e);
                        },
                        Ok(v) => v,
                    };
                    match decode_usize(s, i) {
                        Err(e) => Err(e),
                        Ok(point_limit) => {
                            proof {
                                lemma_model_id_usize(point_values@);
                            }
                            Ok(
                                crate::piece_limit::PieceLimit::PointLimit {
                                    point_values,
                                    point_limit,
                                },
                            )
                        },
                    }
                } else {
                    Err(DecodeError)
                }
            },
        }
    }
}

impl TextCodec for crate::victory_condition::VictoryCondition {
    type Model = crate::victory_condition::VictoryConditionView;

    open spec fn model(&self) -> crate::victory_condition::VictoryConditionView {
        self@
    }

    open spec fn enc(m: crate::victory_condition::VictoryConditionView) -> Seq<char> {
        match m {
            crate::victory_condition::VictoryConditionView::GoalCount { amount, valid_pieces } =>
                enc_tag(0) + (enc_usize(amount) + <Vec<usize> as TextCodec>::enc(valid_pieces)),
            crate::victory_condition::VictoryConditionView::AllCaptured => enc_tag(1),
            crate::victory_condition::VictoryConditionView::PointDifference(difference) => enc_tag(
                2,
            ) + enc_usize(difference),
        }
    }

    open spec fn enc_ok(m: crate::victory_condition::VictoryConditionView) -> bool {
        match m {
            crate::victory_condition::VictoryConditionView::GoalCount { valid_pieces, .. } =>
                valid_pieces.len() <= usize::MAX,
            _ => true,
        }
    }

    open spec fn dec(s: Seq<char>, i: int) -> Option<
        (crate::victory_condition::VictoryConditionView, int),
    > {
        match dec_tag(s, i) {
            None => None,
            Some((t, j)) => if t == 0 {
                match dec_usize(s, j) {
                    None => None,
                    Some((amount, j2)) => match <Vec<usize> as TextCodec>::dec(s, j2) {
                        None => None,
                        Some((valid_pieces, end)) => Some(
                            (
                                crate::victory_condition::VictoryConditionView::GoalCount {
                                    amount,
                                    valid_pieces,
                                },
                                end,
                            ),
                        ),
                    },
                }
            } else if t == 1 {
                Some((crate::victory_condition::VictoryConditionView::AllCaptured, j))
            } else if t == 2 {
                match dec_usize(s, j) {
                    None => None,
                    Some((difference, end)) => Some(
                        (
                            crate::victory_condition::VictoryConditionView::PointDifference(
                                difference,
                            ),
                            end,
                        ),
                    ),
                }
            } else {
                None
            },
        }
    }

    proof fn lemma_rt(s: Seq<char>, i: int, m: crate::victory_condition::VictoryConditionView) {
        lemma_tag_len();
        match m {
            crate::victory_condition::VictoryConditionView::GoalCount { amount, valid_pieces } => {
                lemma_dec_fixed_len(amount as nat, W_LONG as nat);
                lemma_split(
                    s,
                    i,
                    enc_tag(0),
                    enc_usize(amount) + <Vec<usize> as TextCodec>::enc(valid_pieces),
                );
                lemma_rt_tag(s, i, 0);
                lemma_split(
                    s,
                    i + W_TAG,
                    enc_usize(amount),
                    <Vec<usize> as TextCodec>::enc(valid_pieces),
                );
                lemma_rt_usize(s, i + W_TAG, amount);
                <Vec<usize> as TextCodec>::lemma_rt(s, i + W_TAG + W_LONG, valid_pieces);
            },
            crate::victory_condition::VictoryConditionView::AllCaptured => lemma_rt_tag(s, i, 1),
            crate::victory_condition::VictoryConditionView::PointDifference(difference) => {
                lemma_dec_fixed_len(difference as nat, W_LONG as nat);
                lemma_split(s, i, enc_tag(2), enc_usize(difference));
                lemma_rt_tag(s, i, 2);
                lemma_rt_usize(s, i + W_TAG, difference);
            },
        }
    }

    fn encode(&self, out: &mut Vec<char>) {
        match self {
            crate::victory_condition::VictoryCondition::GoalCount { amount, valid_pieces } => {
                encode_tag(0, out);
                encode_usize(*amount, out);
                valid_pieces.encode(out);
                proof {
                    lemma_model_id_usize(valid_pieces@);
                }
            },
            crate::victory_condition::VictoryCondition::AllCaptured => encode_tag(1, out),
            crate::victory_condition::VictoryCondition::PointDifference(difference) => {
                encode_tag(2, out);
                encode_usize(*difference, out);
            },
        }
    }

    fn decode(s: &Vec<char>, i: &mut usize) -> (r: DecodeResult<Self>) {
        match decode_tag(s, i) {
            Err(e) => Err(e),
            Ok(t) => {
                if t == 0 {
                    let amount = match decode_usize(s, i) {
                        Err(e) => {
                            return Err(e);
                        },
                        Ok(v) => v,
                    };
                    match <Vec<usize>>::decode(s, i) {
                        Err(e) => Err(e),
                        Ok(valid_pieces) => {
                            proof {
                                lemma_model_id_usize(valid_pieces@);
                            }
                            Ok(
                                crate::victory_condition::VictoryCondition::GoalCount {
                                    amount,
                                    valid_pieces,
                                },
                            )
                        },
                    }
                } else if t == 1 {
                    Ok(crate::victory_condition::VictoryCondition::AllCaptured)
                } else if t == 2 {
                    match decode_usize(s, i) {
                        Err(e) => Err(e),
                        Ok(difference) => Ok(
                            crate::victory_condition::VictoryCondition::PointDifference(difference),
                        ),
                    }
                } else {
                    Err(DecodeError)
                }
            },
        }
    }
}

/// The model of a vector of coordinate vectors is the view of its rows.
pub proof fn lemma_model_rows_coordinate(rows: Seq<Vec<crate::coordinate::Coordinate>>)
    ensures
        rows.map_values(|v: Vec<crate::coordinate::Coordinate>| v.model()) == rows.map_values(
            |v: Vec<crate::coordinate::Coordinate>| v@,
        ),
{
    assert forall|k: int| 0 <= k < rows.len() implies (#[trigger] rows[k]).model() == rows[k]@ by {
        lemma_model_id_coordinate(rows[k]@);
    }
    assert(rows.map_values(|v: Vec<crate::coordinate::Coordinate>| v.model()) =~= rows.map_values(
        |v: Vec<crate::coordinate::Coordinate>| v@,
    ));
}

impl TextCodec for crate::placement_area::PlacementArea {
    type Model = crate::placement_area::PlacementAreaView;

    open spec fn model(&self) -> crate::placement_area::PlacementAreaView {
        self@
    }

    open spec fn enc(m: crate::placement_area::PlacementAreaView) -> Seq<char> {
        match m {
            crate::placement_area::PlacementAreaView::Half => enc_tag(0),
            crate::placement_area::PlacementAreaView::MirroredFlipped(positions) => enc_tag(1)
                + <Vec<crate::coordinate::Coordinate> as TextCodec>::enc(positions),
            crate::placement_area::PlacementAreaView::MirroredRotated(positions) => enc_tag(2)
                + <Vec<crate::coordinate::Coordinate> as TextCodec>::enc(positions),
            crate::placement_area::PlacementAreaView::NonMirrored(seat_map) => enc_tag(3) + <Vec<
                Vec<crate::coordinate::Coordinate>,
            > as TextCodec>::enc(seat_map),
        }
    }

    open spec fn enc_ok(m: crate::placement_area::PlacementAreaView) -> bool {
        match m {
            crate::placement_area::PlacementAreaView::Half => true,
            crate::placement_area::PlacementAreaView::MirroredFlipped(positions) => positions.len()
                <= usize::MAX,
            crate::placement_area::PlacementAreaView::MirroredRotated(positions) => positions.len()
                <= usize::MAX,
            crate::placement_area::PlacementAreaView::NonMirrored(seat_map) => <Vec<
                Vec<crate::coordinate::Coordinate>,
            > as TextCodec>::enc_ok(seat_map),
        }
    }

    open spec fn dec(s: Seq<char>, i: int) -> Option<
        (crate::placement_area::PlacementAreaView, int),
    > {
        match dec_tag(s, i) {
            None => None,
            Some((t, j)) => if t == 0 {
                Some((crate::placement_area::PlacementAreaView::Half, j))
            } else if t == 1 || t == 2 {
                match <Vec<crate::coordinate::Coordinate> as TextCodec>::dec(s, j) {
                    None => None,
                    Some((positions, end)) => if t == 1 {
                        Some(
                            (
                                crate::placement_area::PlacementAreaView::MirroredFlipped(positions),
                                end,
                            ),
                        )
                    } else {
                        Some(
                            (
                                crate::placement_area::PlacementAreaView::MirroredRotated(positions),
                                end,
                            ),
                        )
                    },
                }
            } else if t == 3 {
                match <Vec<Vec<crate::coordinate::Coordinate>> as TextCodec>::dec(s, j) {
                    None => None,
                    Some((seat_map, end)) => Some(
                        (crate::placement_area::PlacementAreaView::NonMirrored(seat_map), end),
                    ),
                }
            } else {
                None
            },
        }
    }

    proof fn lemma_rt(s: Seq<char>, i: int, m: crate::placement_area::PlacementAreaView) {
        lemma_tag_len();
        match m {
            crate::placement_area::PlacementAreaView::Half => lemma_rt_tag(s, i, 0),
            crate::placement_area::PlacementAreaView::MirroredFlipped(positions) => {
                lemma_split(
                    s,
                    i,
                    enc_tag(1),
                    <Vec<crate::coordinate::Coordinate> as TextCodec>::enc(positions),
                );
                lemma_rt_tag(s, i, 1);
                <Vec<crate::coordinate::Coordinate> as TextCodec>::lemma_rt(s, i + W_TAG, positions);
            },
            crate::placement_area::PlacementAreaView::MirroredRotated(positions) => {
                lemma_split(
                    s,
                    i,
                    enc_tag(2),
                    <Vec<crate::coordinate::Coordinate> as TextCodec>::enc(positions),
                );
                lemma_rt_tag(s, i, 2);
                <Vec<crate::coordinate::Coordinate> as TextCodec>::lemma_rt(s, i + W_TAG, positions);
            },
            crate::placement_area::PlacementAreaView::NonMirrored(seat_map) => {
                lemma_split(
                    s,
                    i,
                    enc_tag(3),
                    <Vec<Vec<crate::coordinate::Coordinate>> as TextCodec>::enc(seat_map),
                );
                lemma_rt_tag(s, i, 3);
                <Vec<Vec<crate::coordinate::Coordinate>> as TextCodec>::lemma_rt(
                    s,
                    i + W_TAG,
                    seat_map,
                );
            },
        }
    }

    fn encode(&self, out: &mut Vec<char>) {
        match self {
            crate::placement_area::PlacementArea::Half => encode_tag(0, out),
            crate::placement_area::PlacementArea::MirroredFlipped(positions) => {
                encode_tag(1, out);
                positions.encode(out);
                proof {
                    lemma_model_id_coordinate(positions@);
                }
            },
            crate::placement_area::PlacementArea::MirroredRotated(positions) => {
                encode_tag(2, out);
                positions.encode(out);
                proof {
                    lemma_model_id_coordinate(positions@);
                }
            },
            crate::placement_area::PlacementArea::NonMirrored(seat_map) => {
                encode_tag(3, out);
                seat_map.encode(out);
                proof {
                    lemma_model_rows_coordinate(seat_map@);
                }
            },
        }
    }

    fn decode(s: &Vec<char>, i: &mut usize) -> (r: DecodeResult<Self>) {
        match decode_tag(s, i) {
            Err(e) => Err(e),
            Ok(t) => {
                if t == 0 {
                    Ok(crate::placement_area::PlacementArea::Half)
                } else if t == 1 || t == 2 {
                    match <Vec<crate::coordinate::Coordinate>>::decode(s, i) {
                        Err(e) => Err(e),
                        Ok(positions) => {
                            proof {
                                lemma_model_id_coordinate(positions@);
                            }
                            if t == 1 {
                                Ok(crate::placement_area::PlacementArea::MirroredFlipped(positions))
                            } else {
                                Ok(crate::placement_area::PlacementArea::MirroredRotated(positions))
                            }
                        },
                    }
                } else if t == 3 {
                    match <Vec<Vec<crate::coordinate::Coordinate>>>::decode(s, i) {
                        Err(e) => Err(e),
                        Ok(seat_map) => {
                            proof {
                                lemma_model_rows_coordinate(seat_map@);
                            }
                            Ok(crate::placement_area::PlacementArea::NonMirrored(seat_map))
                        },
                    }
                } else {
                    Err(DecodeError)
                }
            },
        }
    }
}

// ---------------------------------------------------------------------------
// Piece definitions
// ---------------------------------------------------------------------------

/// A sequence of capture-rule pairs is its own list model.
pub proof fn lemma_model_id_pair(
    m: Seq<(crate::piece_definition::CaptureRule, crate::piece_definition::CaptureTarget)>,
)
    ensures
        m.map_values(
            |x: (crate::piece_definition::CaptureRule, crate::piece_definition::CaptureTarget)|
                x.model(),
        ) == m,
{
    assert(m.map_values(
        |x: (crate::piece_definition::CaptureRule, crate::piece_definition::CaptureTarget)|
            x.model(),
    ) =~= m);
}

impl TextCodec for crate::piece_definition::PieceDefinition {
    type Model = crate::piece_definition::PieceDefinitionView;

    open spec fn model(&self) -> crate::piece_definition::PieceDefinitionView {
        self@
    }

    open spec fn enc(m: crate::piece_definition::PieceDefinitionView) -> Seq<char> {
        enc_text(m.name) + (<Vec<
            (crate::piece_definition::CaptureRule, crate::piece_definition::CaptureTarget),
        > as TextCodec>::enc(m.capture_rules) + (<crate::piece_definition::JumpRule as TextCodec>::enc(
            m.jump_rule,
        ) + (<crate::piece_definition::CaptureTimingRule as TextCodec>::enc(m.capture_timing_rule)
            + (<crate::piece_definition::CaptureRequirement as TextCodec>::enc(
            m.capture_requirement,
        ) + (<crate::piece_definition::JumpLimit as TextCodec>::enc(m.jump_limit)
            + (<crate::piece_definition::MoveRule as TextCodec>::enc(m.move_rule)
            + (<crate::piece_definition::GoalMovementRule as TextCodec>::enc(m.goal_move_rule) + (
        <crate::piece_definition::Shape as TextCodec>::enc(m.shape) + (enc_u64(m.size) + enc_text(
            m.outline_color,
        ))))))))))
    }

    open spec fn enc_ok(m: crate::piece_definition::PieceDefinitionView) -> bool {
        m.name.len() <= usize::MAX && m.capture_rules.len() <= usize::MAX && m.outline_color.len()
            <= usize::MAX
    }

    open spec fn dec(s: Seq<char>, i: int) -> Option<
        (crate::piece_definition::PieceDefinitionView, int),
    > {
        match dec_text(s, i) {
            None => None,
            Some((name, j1)) => match <Vec<
                (crate::piece_definition::CaptureRule, crate::piece_definition::CaptureTarget),
            > as TextCodec>::dec(s, j1) {
                None => None,
                Some((capture_rules, j2)) => match <crate::piece_definition::JumpRule as TextCodec>::dec(
                    s,
                    j2,
                ) {
                    None => None,
                    Some((jump_rule, j3)) => match <crate::piece_definition::CaptureTimingRule as TextCodec>::dec(
                        s,
                        j3,
                    ) {
                        None => None,
                        Some((capture_timing_rule, j4)) => match <crate::piece_definition::CaptureRequirement as TextCodec>::dec(
                            s,
                            j4,
                        ) {
                            None => None,
                            Some((capture_requirement, j5)) => match <crate::piece_definition::JumpLimit as TextCodec>::dec(
                                s,
                                j5,
                            ) {
                                None => None,
                                Some((jump_limit, j6)) => match <crate::piece_definition::MoveRule as TextCodec>::dec(
                                    s,
                                    j6,
                                ) {
                                    None => None,
                                    Some((move_rule, j7)) => match <crate::piece_definition::GoalMovementRule as TextCodec>::dec(
                                        s,
                                        j7,
                                    ) {
                                        None => None,
                                        Some((goal_move_rule, j8)) => match <crate::piece_definition::Shape as TextCodec>::dec(
                                            s,
                                            j8,
                                        ) {
                                            None => None,
                                            Some((shape, j9)) => match dec_u64(s, j9) {
                                                None => None,
                                                Some((size, j10)) => match dec_text(s, j10) {
                                                    None => None,
                                                    Some((outline_color, end)) => Some(
                                                        (
                                                            crate::piece_definition::PieceDefinitionView {
                                                                name,
                                                                capture_rules,
                                                                jump_rule,
                                                                capture_timing_rule,
                                                                capture_requirement,
                                                                jump_limit,
                                                                move_rule,
                                                                goal_move_rule,
                                                                shape,
                                                                size,
                                                                outline_color,
                                                            },
                                                            end,
                                                        ),
                                                    ),
                                                },
                                            },
                                        },
                                    },
                                },
                            },
                        },
                    },
                },
            },
        }
    }

    proof fn lemma_rt(s: Seq<char>, i: int, m: crate::piece_definition::PieceDefinitionView) {
        let e1 = enc_text(m.name);
        let e2 = <Vec<
            (crate::piece_definition::CaptureRule, crate::piece_definition::CaptureTarget),
        > as TextCodec>::enc(m.capture_rules);
        let e3 = <crate::piece_definition::JumpRule as TextCodec>::enc(m.jump_rule);
        let e4 = <crate::piece_definition::CaptureTimingRule as TextCodec>::enc(
            m.capture_timing_rule,
        );
        let e5 = <crate::piece_definition::CaptureRequirement as TextCodec>::enc(
            m.capture_requirement,
        );
        let e6 = <crate::piece_definition::JumpLimit as TextCodec>::enc(m.jump_limit);
        let e7 = <crate::piece_definition::MoveRule as TextCodec>::enc(m.move_rule);
        let e8 = <crate::piece_definition::GoalMovementRule as TextCodec>::enc(m.goal_move_rule);
        let e9 = <crate::piece_definition::Shape as TextCodec>::enc(m.shape);
        let e10 = enc_u64(m.size);
        let e11 = enc_text(m.outline_color);
        let j1 = i + e1.len();
        let j2 = j1 + e2.len();
        let j3 = j2 + e3.len();
        let j4 = j3 + e4.len();
        let j5 = j4 + e5.len();
        let j6 = j5 + e6.len();
        let j7 = j6 + e7.len();
        let j8 = j7 + e8.len();
        let j9 = j8 + e9.len();
        let j10 = j9 + e10.len();
        lemma_split(s, i, e1, e2 + (e3 + (e4 + (e5 + (e6 + (e7 + (e8 + (e9 + (e10 + e11)))))))));
        lemma_split(s, j1, e2, e3 + (e4 + (e5 + (e6 + (e7 + (e8 + (e9 + (e10 + e11))))))));
        lemma_split(s, j2, e3, e4 + (e5 + (e6 + (e7 + (e8 + (e9 + (e10 + e11)))))));
        lemma_split(s, j3, e4, e5 + (e6 + (e7 + (e8 + (e9 + (e10 + e11))))));
        lemma_split(s, j4, e5, e6 + (e7 + (e8 + (e9 + (e10 + e11)))));
        lemma_split(s, j5, e6, e7 + (e8 + (e9 + (e10 + e11))));
        lemma_split(s, j6, e7, e8 + (e9 + (e10 + e11)));
        lemma_split(s, j7, e8, e9 + (e10 + e11));
        lemma_split(s, j8, e9, e10 + e11);
        lemma_split(s, j9, e10, e11);
        lemma_rt_text(s, i, m.name);
        <Vec<
            (crate::piece_definition::CaptureRule, crate::piece_definition::CaptureTarget),
        > as TextCodec>::lemma_rt(s, j1, m.capture_rules);
        <crate::piece_definition::JumpRule as TextCodec>::lemma_rt(s, j2, m.jump_rule);
        <crate::piece_definition::CaptureTimingRule as TextCodec>::lemma_rt(
            s,
            j3,
            m.capture_timing_rule,
        );
        <crate::piece_definition::CaptureRequirement as TextCodec>::lemma_rt(
            s,
            j4,
            m.capture_requirement,
        );
        <crate::piece_definition::JumpLimit as TextCodec>::lemma_rt(s, j5, m.jump_limit);
        <crate::piece_definition::MoveRule as TextCodec>::lemma_rt(s, j6, m.move_rule);
        <crate::piece_definition::GoalMovementRule as TextCodec>::lemma_rt(s, j7, m.goal_move_rule);
        <crate::piece_definition::Shape as TextCodec>::lemma_rt(s, j8, m.shape);
        lemma_dec_fixed_len(m.size as nat, W_LONG as nat);
        lemma_rt_u64(s, j9, m.size);
        lemma_rt_text(s, j10, m.outline_color);
        assert(Self::dec(s, i)->Some_0.0 =~= m);
    }

    #[verifier::rlimit(60)]
    fn encode(&self, out: &mut Vec<char>) {
        self.name.encode(out);
        self.capture_rules.encode(out);
        self.jump_rule.encode(out);
        self.capture_timing_rule.encode(out);
        self.capture_requirement.encode(out);
        self.jump_limit.encode(out);
        self.move_rule.encode(out);
        self.goal_move_rule.encode(out);
        self.shape.encode(out);
        encode_u64(self.size, out);
        self.outline_color.encode(out);
        proof {
            lemma_model_id_pair(self.capture_rules@);
            assert(out@ =~= old(out)@ + Self::enc(self.model()));
        }
    }

    fn decode(s: &Vec<char>, i: &mut usize) -> (r: DecodeResult<Self>) {
        let name = match String::decode(s, i) {
            Err(e) => {
                return Err(e);
            },
            Ok(v) => v,
        };
        let capture_rules = match <Vec<
            (crate::piece_definition::CaptureRule, crate::piece_definition::CaptureTarget),
        >>::decode(s, i) {
            Err(e) => {
                return Err(e);
            },
            Ok(v) => v,
        };
        let jump_rule = match crate::piece_definition::JumpRule::decode(s, i) {
            Err(e) => {
                return Err(e);
            },
            Ok(v) => v,
        };
        let capture_timing_rule = match crate::piece_definition::CaptureTimingRule::decode(s, i) {
            Err(e) => {
                return Err(e);
            },
            Ok(v) => v,
        };
        let capture_requirement = match crate::piece_definition::CaptureRequirement::decode(s, i) {
            Err(e) => {
                return Err(e);
            },
            Ok(v) => v,
        };
        let jump_limit = match crate::piece_definition::JumpLimit::decode(s, i) {
            Err(e) => {
                return Err(e);
            },
            Ok(v) => v,
        };
        let move_rule = match crate::piece_definition::MoveRule::decode(s, i) {
            Err(e) => {
                return Err(e);
            },
            Ok(v) => v,
        };
        let goal_move_rule = match crate::piece_definition::GoalMovementRule::decode(s, i) {
            Err(e) => {
                return Err(e);
            },
            Ok(v) => v,
        };
        let shape = match crate::piece_definition::Shape::decode(s, i) {
            Err(e) => {
                return Err(e);
            },
            Ok(v) => v,
        };
        let size = match decode_u64(s, i) {
            Err(e) => {
                return Err(e);
            },
            Ok(v) => v,
        };
        let outline_color = match crate::color::Color::decode(s, i) {
            Err(e) => {
                return Err(e);
            },
            Ok(v) => v,
        };
        let piece = crate::piece_definition::PieceDefinition {
            name,
            capture_rules,
            jump_rule,
            capture_timing_rule,
            capture_requirement,
            jump_limit,
            move_rule,
            goal_move_rule,
            shape,
            size,
            outline_color,
        };
        proof {
            lemma_model_id_pair(piece.capture_rules@);
            assert(Self::dec(s@, *old(i) as int)->Some_0.0 =~= piece.model());
        }
        Ok(piece)
    }
}

// ---------------------------------------------------------------------------
// Starting positions
// ---------------------------------------------------------------------------

/// The model of per-seat coordinate layouts is the view of its seats.
pub proof fn lemma_model_seats_coordinate(seats: Seq<Vec<Vec<crate::coordinate::Coordinate>>>)
    ensures
        seats.map_values(|v: Vec<Vec<crate::coordinate::Coordinate>>| v.model())
            == seats.map_values(
            |seat: Vec<Vec<crate::coordinate::Coordinate>>|
                seat@.map_values(|v: Vec<crate::coordinate::Coordinate>| v@),
        ),
{
    assert forall|k: int| 0 <= k < seats.len() implies (#[trigger] seats[k]).model()
        == seats[k]@.map_values(|v: Vec<crate::coordinate::Coordinate>| v@) by {
        lemma_model_rows_coordinate(seats[k]@);
    }
    assert(seats.map_values(|v: Vec<Vec<crate::coordinate::Coordinate>>| v.model())
        =~= seats.map_values(
        |seat: Vec<Vec<crate::coordinate::Coordinate>>|
            seat@.map_values(|v: Vec<crate::coordinate::Coordinate>| v@),
    ));
}

/// The model of a vector of piece limits is the view of its limits.
pub proof fn lemma_model_piece_limits(limits: Seq<crate::piece_limit::PieceLimit>)
    ensures
        limits.map_values(|l: crate::piece_limit::PieceLimit| l.model())
            == crate::piece_limit::piece_limits_view(limits),
{
    assert(limits.map_values(|l: crate::piece_limit::PieceLimit| l.model())
        =~= crate::piece_limit::piece_limits_view(limits));
}

impl TextCodec for crate::starting_positions::StartingPositions {
    type Model = crate::starting_positions::StartingPositionsView;

    open spec fn model(&self) -> crate::starting_positions::StartingPositionsView {
        self@
    }

    open spec fn enc(m: crate::starting_positions::StartingPositionsView) -> Seq<char> {
        match m {
            crate::starting_positions::StartingPositionsView::MirroredFlipped(positions) => enc_tag(
                0,
            ) + <Vec<Vec<crate::coordinate::Coordinate>> as TextCodec>::enc(positions),
            crate::starting_positions::StartingPositionsView::MirroredRotated(positions) => enc_tag(
                1,
            ) + <Vec<Vec<crate::coordinate::Coordinate>> as TextCodec>::enc(positions),
            crate::starting_positions::StartingPositionsView::NotMirrored(positions) => enc_tag(2)
                + <Vec<Vec<Vec<crate::coordinate::Coordinate>>> as TextCodec>::enc(positions),
            crate::starting_positions::StartingPositionsView::Placement {
                first_seat,
                alternation_type,
                placement_area,
                piece_limits,
            } => enc_tag(3) + (enc_u64(first_seat)
                + (<crate::alteration_type::AlternationType as TextCodec>::enc(alternation_type) + (
            <crate::placement_area::PlacementArea as TextCodec>::enc(placement_area) + <Vec<
                crate::piece_limit::PieceLimit,
            > as TextCodec>::enc(piece_limits)))),
        }
    }

    open spec fn enc_ok(m: crate::starting_positions::StartingPositionsView) -> bool {
        match m {
            crate::starting_positions::StartingPositionsView::MirroredFlipped(positions) => <Vec<
                Vec<crate::coordinate::Coordinate>,
            > as TextCodec>::enc_ok(positions),
            crate::starting_positions::StartingPositionsView::MirroredRotated(positions) => <Vec<
                Vec<crate::coordinate::Coordinate>,
            > as TextCodec>::enc_ok(positions),
            crate::starting_positions::StartingPositionsView::NotMirrored(positions) => <Vec<
                Vec<Vec<crate::coordinate::Coordinate>>,
            > as TextCodec>::enc_ok(positions),
            crate::starting_positions::StartingPositionsView::Placement {
                placement_area,
                piece_limits,
                ..
            } => <crate::placement_area::PlacementArea as TextCodec>::enc_ok(placement_area) && <Vec<
                crate::piece_limit::PieceLimit,
            > as TextCodec>::enc_ok(piece_limits),
        }
    }

    open spec fn dec(s: Seq<char>, i: int) -> Option<
        (crate::starting_positions::StartingPositionsView, int),
    > {
        match dec_tag(s, i) {
            None => None,
            Some((t, j)) => if t == 0 || t == 1 {
                match <Vec<Vec<crate::coordinate::Coordinate>> as TextCodec>::dec(s, j) {
                    None => None,
                    Some((positions, end)) => if t == 0 {
                        Some(
                            (
                                crate::starting_positions::StartingPositionsView::MirroredFlipped(
                                    positions,
                                ),
                                end,
                            ),
                        )
                    } else {
                        Some(
                            (
                                crate::starting_positions::StartingPositionsView::MirroredRotated(
                                    positions,
                                ),
                                end,
                            ),
                        )
                    },
                }
            } else if t == 2 {
                match <Vec<Vec<Vec<crate::coordinate::Coordinate>>> as TextCodec>::dec(s, j) {
                    None => None,
                    Some((positions, end)) => Some(
                        (
                            crate::starting_positions::StartingPositionsView::NotMirrored(positions),
                            end,
                        ),
                    ),
                }
            } else if t == 3 {
                match dec_u64(s, j) {
                    None => None,
                    Some((first_seat, j2)) => match <crate::alteration_type::AlternationType as TextCodec>::dec(
                        s,
                        j2,
                    ) {
                        None => None,
                        Some((alternation_type, j3)) => match <crate::placement_area::PlacementArea as TextCodec>::dec(
                            s,
                            j3,
                        ) {
                            None => None,
                            Some((placement_area, j4)) => match <Vec<
                                crate::piece_limit::PieceLimit,
                            > as TextCodec>::dec(s, j4) {
                                None => None,
                                Some((piece_limits, end)) => Some(
                                    (
                                        crate::starting_positions::StartingPositionsView::Placement {
                                            first_seat,
                                            alternation_type,
                                            placement_area,
                                            piece_limits,
                                        },
                                        end,
                                    ),
                                ),
                            },
                        },
                    },
                }
            } else {
                None
            },
        }
    }

    proof fn lemma_rt(s: Seq<char>, i: int, m: crate::starting_positions::StartingPositionsView) {
        lemma_tag_len();
        match m {
            crate::starting_positions::StartingPositionsView::MirroredFlipped(positions) => {
                lemma_split(
                    s,
                    i,
                    enc_tag(0),
                    <Vec<Vec<crate::coordinate::Coordinate>> as TextCodec>::enc(positions),
                );
                lemma_rt_tag(s, i, 0);
                <Vec<Vec<crate::coordinate::Coordinate>> as TextCodec>::lemma_rt(
                    s,
                    i + W_TAG,
                    positions,
                );
            },
            crate::starting_positions::StartingPositionsView::MirroredRotated(positions) => {
                lemma_split(
                    s,
                    i,
                    enc_tag(1),
                    <Vec<Vec<crate::coordinate::Coordinate>> as TextCodec>::enc(positions),
                );
                lemma_rt_tag(s, i, 1);
                <Vec<Vec<crate::coordinate::Coordinate>> as TextCodec>::lemma_rt(
                    s,
                    i + W_TAG,
                    positions,
                );
            },
            crate::starting_positions::StartingPositionsView::NotMirrored(positions) => {
                lemma_split(
                    s,
                    i,
                    enc_tag(2),
                    <Vec<Vec<Vec<crate::coordinate::Coordinate>>> as TextCodec>::enc(positions),
                );
                lemma_rt_tag(s, i, 2);
                <Vec<Vec<Vec<crate::coordinate::Coordinate>>> as TextCodec>::lemma_rt(
                    s,
                    i + W_TAG,
                    positions,
                );
            },
            crate::starting_positions::StartingPositionsView::Placement {
                first_seat,
                alternation_type,
                placement_area,
                piece_limits,
            } => {
                let e1 = enc_u64(first_seat);
                let e2 = <crate::alteration_type::AlternationType as TextCodec>::enc(
                    alternation_type,
                );
                let e3 = <crate::placement_area::PlacementArea as TextCodec>::enc(placement_area);
                let e4 = <Vec<crate::piece_limit::PieceLimit> as TextCodec>::enc(piece_limits);
                let j1 = i + W_TAG + e1.len();
                let j2 = j1 + e2.len();
                let j3 = j2 + e3.len();
                lemma_dec_fixed_len(first_seat as nat, W_LONG as nat);
                lemma_split(s, i, enc_tag(3), e1 + (e2 + (e3 + e4)));
                lemma_rt_tag(s, i, 3);
                lemma_split(s, i + W_TAG, e1, e2 + (e3 + e4));
                lemma_split(s, j1, e2, e3 + e4);
                lemma_split(s, j2, e3, e4);
                lemma_rt_u64(s, i + W_TAG, first_seat);
                <crate::alteration_type::AlternationType as TextCodec>::lemma_rt(
                    s,
                    j1,
                    alternation_type,
                );
                <crate::placement_area::PlacementArea as TextCodec>::lemma_rt(
                    s,
                    j2,
                    placement_area,
                );
                <Vec<crate::piece_limit::PieceLimit> as TextCodec>::lemma_rt(s, j3, piece_limits);
            },
        }
    }

    fn encode(&self, out: &mut Vec<char>) {
        match self {
            crate::starting_positions::StartingPositions::MirroredFlipped(positions) => {
                encode_tag(0, out);
                positions.encode(out);
                proof {
                    lemma_model_rows_coordinate(positions@);
                }
            },
            crate::starting_positions::StartingPositions::MirroredRotated(positions) => {
                encode_tag(1, out);
                positions.encode(out);
                proof {
                    lemma_model_rows_coordinate(positions@);
                }
            },
            crate::starting_positions::StartingPositions::NotMirrored(positions) => {
                encode_tag(2, out);
                positions.encode(out);
                proof {
                    lemma_model_seats_coordinate(positions@);
                }
            },
            crate::starting_positions::StartingPositions::Placement {
                first_seat,
                alternation_type,
                placement_area,
                piece_limits,
            } => {
                encode_tag(3, out);
                encode_u64(*first_seat, out);
                alternation_type.encode(out);
                placement_area.encode(out);
                piece_limits.encode(out);
                proof {
                    lemma_model_piece_limits(piece_limits@);
                    assert(out@ =~= old(out)@ + Self::enc(self.model()));
                }
            },
        }
    }

    fn decode(s: &Vec<char>, i: &mut usize) -> (r: DecodeResult<Self>) {
        match decode_tag(s, i) {
            Err(e) => Err(e),
            Ok(t) => {
                if t == 0 || t == 1 {
                    match <Vec<Vec<crate::coordinate::Coordinate>>>::decode(s, i) {
                        Err(e) => Err(e),
                        Ok(positions) => {
                            proof {
                                lemma_model_rows_coordinate(positions@);
                            }
                            if t == 0 {
                                Ok(
                                    crate::starting_positions::StartingPositions::MirroredFlipped(
                                        positions,
                                    ),
                                )
                            } else {
                                Ok(
                                    crate::starting_positions::StartingPositions::MirroredRotated(
                                        positions,
                                    ),
                                )
                            }
                        },
                    }
                } else if t == 2 {
                    match <Vec<Vec<Vec<crate::coordinate::Coordinate>>>>::decode(s, i) {
                        Err(e) => Err(e),
                        Ok(positions) => {
                            proof {
                                lemma_model_seats_coordinate(positions@);
                            }
                            Ok(crate::starting_positions::StartingPositions::NotMirrored(positions))
                        },
                    }
                } else if t == 3 {
                    let first_seat = match decode_u64(s, i) {
                        Err(e) => {
                            return Err(e);
                        },
                        Ok(v) => v,
                    };
                    let alternation_type = match crate::alteration_type::AlternationType::decode(
                        s,
                        i,
                    ) {
                        Err(e) => {
                            return Err(e);
                        },
                        Ok(v) => v,
                    };
                    let placement_area = match crate::placement_area::PlacementArea::decode(s, i) {
                        Err(e) => {
                            return Err(e);
                        },
                        Ok(v) => v,
                    };
                    match <Vec<crate::piece_limit::PieceLimit>>::decode(s, i) {
                        Err(e) => Err(e),
                        Ok(piece_limits) => {
                            proof {
                                lemma_model_piece_limits(piece_limits@);
                            }
                            Ok(
                                crate::starting_positions::StartingPositions::Placement {
                                    first_seat,
                                    alternation_type,
                                    placement_area,
                                    piece_limits,
                                },
                            )
                        },
                    }
                } else {
                    Err(DecodeError)
                }
            },
        }
    }
}

// ---------------------------------------------------------------------------
// Boards
// ---------------------------------------------------------------------------

/// Whether every row of a grid has the given length.
pub open spec fn rows_rectangular(grid: Seq<Seq<crate::space::Space>>, columns: nat) -> bool {
    forall|k: int| 0 <= k < grid.len() ==> (#[trigger] grid[k]).len() == columns
}

impl TextCodec for crate::board_type::BoardType {
    type Model = crate::board_type::BoardTypeView;

    open spec fn model(&self) -> crate::board_type::BoardTypeView {
        self@
    }

    open spec fn enc(m: crate::board_type::BoardTypeView) -> Seq<char> {
        match m {
            crate::board_type::BoardTypeView::Rectangular { rows, columns, goal_locations } =>
                enc_tag(0) + (enc_u8(rows) + (enc_u8(columns) + <Vec<u8> as TextCodec>::enc(
                goal_locations,
            ))),
            crate::board_type::BoardTypeView::Custom { grid, columns } => enc_tag(1) + (enc_num(
                columns,
                W_LONG as nat,
            ) + <Vec<Vec<crate::space::Space>> as TextCodec>::enc(grid)),
        }
    }

    open spec fn enc_ok(m: crate::board_type::BoardTypeView) -> bool {
        match m {
            crate::board_type::BoardTypeView::Rectangular { goal_locations, .. } =>
                goal_locations.len() <= usize::MAX,
            crate::board_type::BoardTypeView::Custom { grid, columns } => columns <= usize::MAX
                && grid.len() <= usize::MAX && rows_rectangular(grid, columns),
        }
    }

    open spec fn dec(s: Seq<char>, i: int) -> Option<(crate::board_type::BoardTypeView, int)> {
        match dec_tag(s, i) {
            None => None,
            Some((t, j)) => if t == 0 {
                match dec_u8(s, j) {
                    None => None,
                    Some((rows, j2)) => match dec_u8(s, j2) {
                        None => None,
                        Some((columns, j3)) => match <Vec<u8> as TextCodec>::dec(s, j3) {
                            None => None,
                            Some((goal_locations, end)) => Some(
                                (
                                    crate::board_type::BoardTypeView::Rectangular {
                                        rows,
                                        columns,
                                        goal_locations,
                                    },
                                    end,
                                ),
                            ),
                        },
                    },
                }
            } else if t == 1 {
                match dec_usize(s, j) {
                    None => None,
                    Some((columns, j2)) => match <Vec<
                        Vec<crate::space::Space>,
                    > as TextCodec>::dec(s, j2) {
                        None => None,
                        Some((grid, end)) => if rows_rectangular(grid, columns as nat) {
                            Some(
                                (
                                    crate::board_type::BoardTypeView::Custom {
                                        grid,
                                        columns: columns as nat,
                                    },
                                    end,
                                ),
                            )
                        } else {
                            None
                        },
                    },
                }
            } else {
                None
            },
        }
    }

    proof fn lemma_rt(s: Seq<char>, i: int, m: crate::board_type::BoardTypeView) {
        lemma_tag_len();
        match m {
            crate::board_type::BoardTypeView::Rectangular { rows, columns, goal_locations } => {
                let e1 = enc_u8(rows);
                let e2 = enc_u8(columns);
                let e3 = <Vec<u8> as TextCodec>::enc(goal_locations);
                lemma_dec_fixed_len(rows as nat, W_BYTE as nat);
                lemma_dec_fixed_len(columns as nat, W_BYTE as nat);
                lemma_split(s, i, enc_tag(0), e1 + (e2 + e3));
                lemma_rt_tag(s, i, 0);
                lemma_split(s, i + W_TAG, e1, e2 + e3);
                lemma_split(s, i + W_TAG + W_BYTE, e2, e3);
                lemma_rt_u8(s, i + W_TAG, rows);
                lemma_rt_u8(s, i + W_TAG + W_BYTE, columns);
                <Vec<u8> as TextCodec>::lemma_rt(s, i + W_TAG + W_BYTE + W_BYTE, goal_locations);
            },
            crate::board_type::BoardTypeView::Custom { grid, columns } => {
                let e1 = enc_num(columns, W_LONG as nat);
                let e2 = <Vec<Vec<crate::space::Space>> as TextCodec>::enc(grid);
                lemma_dec_fixed_len(columns, W_LONG as nat);
                lemma_split(s, i, enc_tag(1), e1 + e2);
                lemma_rt_tag(s, i, 1);
                lemma_split(s, i + W_TAG, e1, e2);
                assert(enc_usize(columns as usize) == e1);
                lemma_rt_usize(s, i + W_TAG, columns as usize);
                <Vec<Vec<crate::space::Space>> as TextCodec>::lemma_rt(s, i + W_TAG + W_LONG, grid);
            },
        }
    }

    #[verifier::loop_isolation(false)]
    #[verifier::rlimit(60)]
    fn encode(&self, out: &mut Vec<char>) {
        match self {
            crate::board_type::BoardType::Rectangular { rows, columns, goal_locations } => {
                encode_tag(0, out);
                encode_u8(*rows, out);
                encode_u8(*columns, out);
                goal_locations.encode(out);
                proof {
                    lemma_model_id_u8(goal_locations@);
                    assert(out@ =~= old(out)@ + Self::enc(self.model()));
                }
            },
            crate::board_type::BoardType::Custom(grid) => {
                let nrows = grid.nrows();
                let ncols = grid.ncols();
                let ghost cells = crate::board_type::grid_seq(*grid);
                encode_tag(1, out);
                encode_usize(ncols, out);
                encode_usize(nrows, out);
                let ghost head = old(out)@ + enc_tag(1) + enc_num(
                    crate::board_type::grid_cols(*grid),
                    W_LONG as nat,
                ) + enc_num(cells.len(), W_LONG as nat);
                assert(out@ == head);
                let mut r: usize = 0;
                while r < nrows
                    invariant
                        r <= nrows,
                        out@ == head + enc_items::<Vec<crate::space::Space>>(cells.take(r as int)),
                    decreases nrows - r,
                {
                    encode_usize(ncols, out);
                    let ghost row_head = out@;
                    let mut c: usize = 0;
                    while c < ncols
                        invariant
                            r < nrows,
                            c <= ncols,
                            out@ == row_head + enc_items::<crate::space::Space>(
                                cells[r as int].take(c as int),
                            ),
                        decreases ncols - c,
                    {
                        let space = grid.get(r, c);
                        space.encode(out);
                        proof {
                            assert(cells[r as int].take(c + 1) =~= cells[r as int].take(
                                c as int,
                            ).push(cells[r as int][c as int]));
                            lemma_enc_items_push::<crate::space::Space>(
                                cells[r as int].take(c as int),
                                cells[r as int][c as int],
                            );
                        }
                        c = c + 1;
                    }
                    proof {
                        assert(cells[r as int].take(ncols as int) =~= cells[r as int]);
                        assert(cells.take(r + 1) =~= cells.take(r as int).push(cells[r as int]));
                        lemma_enc_items_push::<Vec<crate::space::Space>>(
                            cells.take(r as int),
                            cells[r as int],
                        );
                        assert(out@ =~= head + enc_items::<Vec<crate::space::Space>>(
                            cells.take(r + 1),
                        ));
                    }
                    r = r + 1;
                }
                proof {
                    assert(cells.take(cells.len() as int) =~= cells);
                    assert(out@ =~= old(out)@ + Self::enc(self.model()));
                }
            },
        }
    }

    #[verifier::loop_isolation(false)]
    #[verifier::rlimit(60)]
    fn decode(s: &Vec<char>, i: &mut usize) -> (r: DecodeResult<Self>) {
        match decode_tag(s, i) {
            Err(e) => Err(e),
            Ok(t) => {
                if t == 0 {
                    let rows = match decode_u8(s, i) {
                        Err(e) => {
                            return Err(e);
                        },
                        Ok(v) => v,
                    };
                    let columns = match decode_u8(s, i) {
                        Err(e) => {
                            return Err(e);
                        },
                        Ok(v) => v,
                    };
                    match <Vec<u8>>::decode(s, i) {
                        Err(e) => Err(e),
                        Ok(goal_locations) => {
                            proof {
                                lemma_model_id_u8(goal_locations@);
                            }
                            Ok(
                                crate::board_type::BoardType::Rectangular {
                                    rows,
                                    columns,
                                    goal_locations,
                                },
                            )
                        },
                    }
                } else if t == 1 {
                    let columns = match decode_usize(s, i) {
                        Err(e) => {
                            return Err(e);
                        },
                        Ok(v) => v,
                    };
                    let rows_vec = match <Vec<Vec<crate::space::Space>>>::decode(s, i) {
                        Err(e) => {
                            return Err(e);
                        },
                        Ok(v) => v,
                    };
                    let ghost decoded = rows_vec.model();
                    proof {
                        assert forall|k: int| 0 <= k < decoded.len() implies decoded[k]
                            == rows_vec@[k]@ by {
                            assert(decoded[k] == rows_vec@[k].model());
                            assert(rows_vec@[k].model() =~= rows_vec@[k]@);
                        }
                    }
                    let nrows = rows_vec.len();
                    let mut k: usize = 0;
                    while k < nrows
                        invariant
                            k <= nrows,
                            forall|n: int| 0 <= n < k ==> (#[trigger] decoded[n]).len() == columns,
                        decreases nrows - k,
                    {
                        if rows_vec[k].len() != columns {
                            proof {
                                assert(decoded[k as int].len() != columns);
                                assert(!rows_rectangular(decoded, columns as nat));
                            }
                            return Err(DecodeError);
                        }
                        k = k + 1;
                    }
                    assert(rows_rectangular(decoded, columns as nat));
                    let mut flat: Vec<crate::space::Space> = Vec::new();
                    let mut r: usize = 0;
                    while r < nrows
                        invariant
                            r <= nrows,
                            flat@.len() == r * columns,
                            forall|n: int, j: int|
                                0 <= n < r && 0 <= j < columns ==> #[trigger] flat@[n * columns
                                    + j] == decoded[n][j],
                        decreases nrows - r,
                    {
                        let row = &rows_vec[r];
                        proof {
                            assert(row@ == decoded[r as int]);
                            assert(decoded[r as int].len() == columns);
                        }
                        let mut c: usize = 0;
                        while c < columns
                            invariant
                                r < nrows,
                                c <= columns,
                                row@ == decoded[r as int],
                                row@.len() == columns,
                                flat@.len() == r * columns + c,
                                forall|n: int, j: int|
                                    0 <= n < r && 0 <= j < columns ==> #[trigger] flat@[n * columns
                                        + j] == decoded[n][j],
                                forall|j: int|
                                    0 <= j < c ==> #[trigger] flat@[r * columns + j]
                                        == decoded[r as int][j],
                            decreases columns - c,
                        {
                            let ghost pre = flat@;
                            flat.push(row[c]);
                            proof {
                                assert forall|n: int, j: int|
                                    0 <= n < r && 0 <= j < columns implies #[trigger] flat@[n
                                    * columns + j] == decoded[n][j] by {
                                    assert(0 <= n * columns + j < r * columns) by (nonlinear_arith)
                                        requires
                                            0 <= n < r,
                                            0 <= j < columns,
                                    ;
                                    assert(flat@[n * columns + j] == pre[n * columns + j]);
                                }
                            }
                            c = c + 1;
                        }
                        proof {
                            assert((r + 1) * columns == r * columns + columns) by (nonlinear_arith);
                            assert forall|n: int, j: int|
                                0 <= n < r + 1 && 0 <= j < columns implies #[trigger] flat@[n
                                * columns + j] == decoded[n][j] by {
                                if n == r {
                                    assert(flat@[r * columns + j] == decoded[r as int][j]);
                                }
                            }
                        }
                        r = r + 1;
                    }
                    let grid = crate::board_type::SpaceGrid::from_flat(nrows, columns, flat);
                    proof {
                        assert forall|n: int|
                            0 <= n < nrows implies #[trigger] crate::board_type::grid_seq(grid)[n]
                            =~= decoded[n] by {
                            assert(crate::board_type::grid_seq(grid)[n].len() == columns);
                            assert(decoded[n].len() == columns);
                        }
                        assert(crate::board_type::grid_seq(grid) =~~= decoded);
                    }
                    Ok(crate::board_type::BoardType::Custom(grid))
                } else {
                    Err(DecodeError)
                }
            },
        }
    }
}

// ---------------------------------------------------------------------------
// Rulesets
// ---------------------------------------------------------------------------

/// The model of allied-seat sets is the view of its sets.
pub proof fn lemma_model_rows_u64(rows: Seq<Vec<u64>>)
    ensures
        rows.map_values(|v: Vec<u64>| v.model()) == rows.map_values(|v: Vec<u64>| v@),
{
    assert forall|k: int| 0 <= k < rows.len() implies (#[trigger] rows[k]).model()
        == rows[k]@ by {
        lemma_model_id_u64(rows[k]@);
    }
    assert(rows.map_values(|v: Vec<u64>| v.model()) =~= rows.map_values(|v: Vec<u64>| v@));
}

/// The model of a color list is the view of its colors.
pub proof fn lemma_model_colors(colors: Seq<crate::color::Color>)
    ensures
        colors.map_values(|c: crate::color::Color| c.model()) == colors.map_values(
            |c: crate::color::Color| c@,
        ),
{
    assert(colors.map_values(|c: crate::color::Color| c.model()) =~= colors.map_values(
        |c: crate::color::Color| c@,
    ));
}

/// The model of a piece list is the view of its pieces.
pub proof fn lemma_model_pieces(pieces: Seq<crate::piece_definition::PieceDefinition>)
    ensures
        pieces.map_values(|p: crate::piece_definition::PieceDefinition| p.model())
            == pieces.map_values(|p: crate::piece_definition::PieceDefinition| p@),
{
    assert(pieces.map_values(|p: crate::piece_definition::PieceDefinition| p.model())
        =~= pieces.map_values(|p: crate::piece_definition::PieceDefinition| p@));
}

/// The model of a victory-condition list is the view of its conditions.
pub proof fn lemma_model_victory(conditions: Seq<crate::victory_condition::VictoryCondition>)
    ensures
        conditions.map_values(|v: crate::victory_condition::VictoryCondition| v.model())
            == conditions.map_values(|v: crate::victory_condition::VictoryCondition| v@),
{
    assert(conditions.map_values(|v: crate::victory_condition::VictoryCondition| v.model())
        =~= conditions.map_values(|v: crate::victory_condition::VictoryCondition| v@));
}

impl TextCodec for crate::ruleset::Ruleset {
    type Model = crate::ruleset::RulesetView;

    open spec fn model(&self) -> crate::ruleset::RulesetView {
        self@
    }

    open spec fn enc(m: crate::ruleset::RulesetView) -> Seq<char> {
        enc_text(m.name) + (enc_u64(m.seats) + (<Vec<Vec<u64>> as TextCodec>::enc(m.allies) + (<Vec<
            crate::color::Color,
        > as TextCodec>::enc(m.seat_colors) + (<Vec<
            crate::piece_definition::PieceDefinition,
        > as TextCodec>::enc(m.pieces) + (<crate::board_type::BoardType as TextCodec>::enc(
            m.board_type,
        ) + (<crate::starting_positions::StartingPositions as TextCodec>::enc(m.starting_positions)
            + <Vec<crate::victory_condition::VictoryCondition> as TextCodec>::enc(
            m.victory_conditions,
        )))))))
    }

    open spec fn enc_ok(m: crate::ruleset::RulesetView) -> bool {
        m.name.len() <= usize::MAX && <Vec<Vec<u64>> as TextCodec>::enc_ok(m.allies) && <Vec<
            crate::color::Color,
        > as TextCodec>::enc_ok(m.seat_colors) && <Vec<
            crate::piece_definition::PieceDefinition,
        > as TextCodec>::enc_ok(m.pieces) && <crate::board_type::BoardType as TextCodec>::enc_ok(
            m.board_type,
        ) && <crate::starting_positions::StartingPositions as TextCodec>::enc_ok(
            m.starting_positions,
        ) && <Vec<crate::victory_condition::VictoryCondition> as TextCodec>::enc_ok(
            m.victory_conditions,
        )
    }

    open spec fn dec(s: Seq<char>, i: int) -> Option<(crate::ruleset::RulesetView, int)> {
        match dec_text(s, i) {
            None => None,
            Some((name, j1)) => match dec_u64(s, j1) {
                None => None,
                Some((seats, j2)) => match <Vec<Vec<u64>> as TextCodec>::dec(s, j2) {
                    None => None,
                    Some((allies, j3)) => match <Vec<crate::color::Color> as TextCodec>::dec(
                        s,
                        j3,
                    ) {
                        None => None,
                        Some((seat_colors, j4)) => match <Vec<
                            crate::piece_definition::PieceDefinition,
                        > as TextCodec>::dec(s, j4) {
                            None => None,
                            Some((pieces, j5)) => match <crate::board_type::BoardType as TextCodec>::dec(
                                s,
                                j5,
                            ) {
                                None => None,
                                Some((board_type, j6)) => match <crate::starting_positions::StartingPositions as TextCodec>::dec(
                                    s,
                                    j6,
                                ) {
                                    None => None,
                                    Some((starting_positions, j7)) => match <Vec<
                                        crate::victory_condition::VictoryCondition,
                                    > as TextCodec>::dec(s, j7) {
                                        None => None,
                                        Some((victory_conditions, end)) => Some(
                                            (
                                                crate::ruleset::RulesetView {
                                                    name,
                                                    seats,
                                                    allies,
                                                    seat_colors,
                                                    pieces,
                                                    board_type,
                                                    starting_positions,
                                                    victory_conditions,
                                                },
                                                end,
                                            ),
                                        ),
                                    },
                                },
                            },
                        },
                    },
                },
            },
        }
    }

    #[verifier::rlimit(100)]
    proof fn lemma_rt(s: Seq<char>, i: int, m: crate::ruleset::RulesetView) {
        let e1 = enc_text(m.name);
        let e2 = enc_u64(m.seats);
        let e3 = <Vec<Vec<u64>> as TextCodec>::enc(m.allies);
        let e4 = <Vec<crate::color::Color> as TextCodec>::enc(m.seat_colors);
        let e5 = <Vec<crate::piece_definition::PieceDefinition> as TextCodec>::enc(m.pieces);
        let e6 = <crate::board_type::BoardType as TextCodec>::enc(m.board_type);
        let e7 = <crate::starting_positions::StartingPositions as TextCodec>::enc(
            m.starting_positions,
        );
        let e8 = <Vec<crate::victory_condition::VictoryCondition> as TextCodec>::enc(
            m.victory_conditions,
        );
        let j1 = i + e1.len();
        let j2 = j1 + e2.len();
        let j3 = j2 + e3.len();
        let j4 = j3 + e4.len();
        let j5 = j4 + e5.len();
        let j6 = j5 + e6.len();
        let j7 = j6 + e7.len();
        lemma_dec_fixed_len(m.seats as nat, W_LONG as nat);
        lemma_split(s, i, e1, e2 + (e3 + (e4 + (e5 + (e6 + (e7 + e8))))));
        lemma_split(s, j1, e2, e3 + (e4 + (e5 + (e6 + (e7 + e8)))));
        lemma_split(s, j2, e3, e4 + (e5 + (e6 + (e7 + e8))));
        lemma_split(s, j3, e4, e5 + (e6 + (e7 + e8)));
        lemma_split(s, j4, e5, e6 + (e7 + e8));
        lemma_split(s, j5, e6, e7 + e8);
        lemma_split(s, j6, e7, e8);
        lemma_rt_text(s, i, m.name);
        lemma_rt_u64(s, j1, m.seats);
        <Vec<Vec<u64>> as TextCodec>::lemma_rt(s, j2, m.allies);
        <Vec<crate::color::Color> as TextCodec>::lemma_rt(s, j3, m.seat_colors);
        <Vec<crate::piece_definition::PieceDefinition> as TextCodec>::lemma_rt(s, j4, m.pieces);
        <crate::board_type::BoardType as TextCodec>::lemma_rt(s, j5, m.board_type);
        <crate::starting_positions::StartingPositions as TextCodec>::lemma_rt(
            s,
            j6,
            m.starting_positions,
        );
        <Vec<crate::victory_condition::VictoryCondition> as TextCodec>::lemma_rt(
            s,
            j7,
            m.victory_conditions,
        );
        assert(Self::dec(s, i)->Some_0.0 =~= m);
    }

    #[verifier::rlimit(60)]
    fn encode(&self, out: &mut Vec<char>) {
        self.name.encode(out);
        encode_u64(self.seats, out);
        self.allies.encode(out);
        self.seat_colors.encode(out);
        self.pieces.encode(out);
        self.board_type.encode(out);
        self.starting_positions.encode(out);
        self.victory_conditions.encode(out);
        proof {
            lemma_model_rows_u64(self.allies@);
            lemma_model_colors(self.seat_colors@);
            lemma_model_pieces(self.pieces@);
            lemma_model_victory(self.victory_conditions@);
            assert(out@ =~= old(out)@ + Self::enc(self.model()));
        }
    }

    fn decode(s: &Vec<char>, i: &mut usize) -> (r: DecodeResult<Self>) {
        let name = match String::decode(s, i) {
            Err(e) => {
                return Err(e);
            },
            Ok(v) => v,
        };
        let seats = match decode_u64(s, i) {
            Err(e) => {
                return Err(e);
            },
            Ok(v) => v,
        };
        let allies = match <Vec<Vec<u64>>>::decode(s, i) {
            Err(e) => {
                return Err(e);
            },
            Ok(v) => v,
        };
        let seat_colors = match <Vec<crate::color::Color>>::decode(s, i) {
            Err(e) => {
                return Err(e);
            },
            Ok(v) => v,
        };
        let pieces = match <Vec<crate::piece_definition::PieceDefinition>>::decode(s, i) {
            Err(e) => {
                return Err(e);
            },
            Ok(v) => v,
        };
        let board_type = match crate::board_type::BoardType::decode(s, i) {
            Err(e) => {
                return Err(e);
            },
            Ok(v) => v,
        };
        let starting_positions = match crate::starting_positions::StartingPositions::decode(s, i) {
            Err(e) => {
                return Err(e);
            },
            Ok(v) => v,
        };
        let victory_conditions = match <Vec<crate::victory_condition::VictoryCondition>>::decode(
            s,
            i,
        ) {
            Err(e) => {
                return Err(e);
            },
            Ok(v) => v,
        };
        let ruleset = crate::ruleset::Ruleset {
            name,
            seats,
            allies,
            seat_colors,
            pieces,
            board_type,
            starting_positions,
            victory_conditions,
        };
        proof {
            lemma_model_rows_u64(ruleset.allies@);
            lemma_model_colors(ruleset.seat_colors@);
            lemma_model_pieces(ruleset.pieces@);
            lemma_model_victory(ruleset.victory_conditions@);
            assert(Self::dec(s@, *old(i) as int)->Some_0.0 =~= ruleset.model());
        }
        Ok(ruleset)
    }
}

// ---------------------------------------------------------------------------
// The boundary of the codec
// ---------------------------------------------------------------------------

/// Reads a whole ruleset from text, requiring the text to hold exactly one.
pub open spec fn spec_decode_ruleset(s: Seq<char>) -> Option<crate::ruleset::RulesetView> {
    match <crate::ruleset::Ruleset as TextCodec>::dec(s, 0) {
        None => None,
        Some((m, end)) => if end == s.len() {
            Some(m)
        } else {
            None
        },
    }
}

/// Writes a ruleset as text.
pub fn encode_ruleset(ruleset: &crate::ruleset::Ruleset) -> (r: String)
    ensures
        r@ == <crate::ruleset::Ruleset as TextCodec>::enc(ruleset@),
        <crate::ruleset::Ruleset as TextCodec>::enc_ok(ruleset@),
{
    let mut out: Vec<char> = Vec::new();
    ruleset.encode(&mut out);
    crate::text::chars_to_string(&out)
}

/// Reads a ruleset back from text. Fails with [`DecodeError`] on a malformed
/// or unrecognized payload; a decoded ruleset is a candidate that still needs
/// semantic verification.
pub fn decode_ruleset(text: &str) -> (r: DecodeResult<crate::ruleset::Ruleset>)
    ensures
        match r {
            Ok(v) => spec_decode_ruleset(text@) == Some(v@),
            Err(_) => spec_decode_ruleset(text@) is None,
        },
{
    let chars = crate::text::str_to_chars(text);
    let mut i: usize = 0;
    match crate::ruleset::Ruleset::decode(&chars, &mut i) {
        Err(e) => Err(e),
        Ok(v) => {
            if i != chars.len() {
                return Err(DecodeError);
            }
            Ok(v)
        },
    }
}

/// Round-trip: decoding the text of any encodable ruleset value gives the
/// value back, field for field. Every value built of real vectors and strings
/// is encodable.
pub proof fn lemma_ruleset_roundtrip(m: crate::ruleset::RulesetView)
    requires
        <crate::ruleset::Ruleset as TextCodec>::enc_ok(m),
    ensures
        spec_decode_ruleset(<crate::ruleset::Ruleset as TextCodec>::enc(m)) == Some(m),
{
    let s = <crate::ruleset::Ruleset as TextCodec>::enc(m);
    assert(s.subrange(0, s.len() as int) =~= s);
    <crate::ruleset::Ruleset as TextCodec>::lemma_rt(s, 0, m);
}

} // verus!
