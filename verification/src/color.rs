//! An opaque color value, kept in its rendered `rgba(r, g, b, a)` text form.
//! Two colors are the same color exactly when their rendered texts are equal.

use vstd::prelude::*;

use crate::text::{
    chars_to_string,
    dec_digits,
    lemma_parse_u8_min,
    lemma_parse_u8_min_sound,
    lemma_split,
    parse_u8_min,
    push_dec_digits,
    read_u8_min,
    str_to_chars,
};

verus! {

/// A color, represented as its `rgba(r, g, b, a)` text.
#[derive(Clone, Debug, Hash)]
pub struct Color {
    color: String,
}

impl View for Color {
    type V = Seq<char>;

    /// A color is abstractly its rendered text.
    closed spec fn view(&self) -> Seq<char> {
        self.color@
    }
}

/// The rendered text of a color with the given channel values.
pub open spec fn spec_rgba(r: u8, g: u8, b: u8, a: u8) -> Seq<char> {
    seq!['r', 'g', 'b', 'a', '('] + (dec_digits(r as nat) + (seq![',', ' '] + (dec_digits(g as nat)
        + (seq![',', ' '] + (dec_digits(b as nat) + (seq![',', ' '] + (dec_digits(a as nat)
        + seq![')'])))))))
}

impl Color {
    /// Builds the color with the given red, green, blue and alpha channels.
    pub fn new(r: u8, g: u8, b: u8, a: u8) -> (c: Self)
        ensures
            c@ == spec_rgba(r, g, b, a),
    {
        let mut text: Vec<char> = Vec::new();
        text.push('r');
        text.push('g');
        text.push('b');
        text.push('a');
        text.push('(');
        push_dec_digits(r as u64, &mut text);
        text.push(',');
        text.push(' ');
        push_dec_digits(g as u64, &mut text);
        text.push(',');
        text.push(' ');
        push_dec_digits(b as u64, &mut text);
        text.push(',');
        text.push(' ');
        push_dec_digits(a as u64, &mut text);
        text.push(')');
        assert(text@ =~= spec_rgba(r, g, b, a));
        Self { color: chars_to_string(&text) }
    }

    /// Rebuilds a color from its rendered text, for decoding and for the
    /// storage boundary.
    pub fn from_text(text: String) -> (c: Self)
        ensures
            c@ == text@,
    {
        Self { color: text }
    }

    /// A copy of the color with the same rendered text.
    pub fn duplicate(&self) -> (c: Self)
        ensures
            c@ == self@,
    {
        Self { color: self.color.clone() }
    }

    /// The rendered text of the color.
    pub fn text(&self) -> (r: &String)
        ensures
            r@ == self@,
    {
        &self.color
    }

    /// The four channel values the color renders, or `None` when its text is
    /// not exactly a rendering (text can arrive arbitrary over the storage
    /// boundary). The channels of a rendered color are recovered exactly.
    pub fn channels(&self) -> (result: Option<(u8, u8, u8, u8)>)
        ensures
            match result {
                Some(channels) => self@ == spec_rgba(
                    channels.0,
                    channels.1,
                    channels.2,
                    channels.3,
                ),
                None => forall|r: u8, g: u8, b: u8, a: u8| self@ != spec_rgba(r, g, b, a),
            },
    {
        let text = str_to_chars(self.color.as_str());
        let result = parse_rgba(&text);
        proof {
            match result {
                Some(_) => lemma_parse_rgba_sound(text@),
                None => lemma_parse_rgba_complete(text@),
            }
        }
        result
    }

    /// The color of one palette entry.
    pub fn from_builtin(built_in: ColorBuiltIn) -> (c: Self)
        ensures
            c@ == spec_builtin(built_in),
    {
        match built_in {
            ColorBuiltIn::Black => Color::new(0, 0, 0, 255),
            ColorBuiltIn::White => Color::new(255, 255, 255, 255),
            ColorBuiltIn::SeeThrough => Color::new(0, 0, 0, 0),
            ColorBuiltIn::Red => Color::new(255, 0, 0, 255),
            ColorBuiltIn::Green => Color::new(0, 255, 0, 255),
            ColorBuiltIn::Blue => Color::new(0, 0, 255, 255),
            ColorBuiltIn::Yellow => Color::new(255, 255, 0, 255),
            ColorBuiltIn::Magenta => Color::new(255, 0, 255, 255),
        }
    }
}

/// Reads the four channel values back out of rendered color text, or `None`
/// when the text is not exactly a rendering: the `rgba(` head, four minimal
/// decimal bytes separated by a comma and a space, and the closing
/// parenthesis, with nothing after it.
pub open spec fn spec_parse_rgba(s: Seq<char>) -> Option<(u8, u8, u8, u8)> {
    if s.len() < 5 || s[0] != 'r' || s[1] != 'g' || s[2] != 'b' || s[3] != 'a' || s[4] != '(' {
        None
    } else {
        match parse_u8_min(s, 5) {
            None => None,
            Some((r, i1)) => if i1 + 2 <= s.len() && s[i1] == ',' && s[i1 + 1] == ' ' {
                match parse_u8_min(s, i1 + 2) {
                    None => None,
                    Some((g, i2)) => if i2 + 2 <= s.len() && s[i2] == ',' && s[i2 + 1] == ' ' {
                        match parse_u8_min(s, i2 + 2) {
                            None => None,
                            Some((b, i3)) => if i3 + 2 <= s.len() && s[i3] == ',' && s[i3 + 1]
                                == ' ' {
                                match parse_u8_min(s, i3 + 2) {
                                    None => None,
                                    Some((a, i4)) => if i4 + 1 == s.len() && s[i4] == ')' {
                                        Some((r, g, b, a))
                                    } else {
                                        None
                                    },
                                }
                            } else {
                                None
                            },
                        }
                    } else {
                        None
                    },
                }
            } else {
                None
            },
        }
    }
}

/// Reading channels inverts rendering: the text of any four channel values
/// reads back as exactly those values.
#[verifier::rlimit(100)]
pub proof fn lemma_parse_rgba_of_rendering(r: u8, g: u8, b: u8, a: u8)
    ensures
        spec_parse_rgba(spec_rgba(r, g, b, a)) == Some((r, g, b, a)),
{
    let s = spec_rgba(r, g, b, a);
    let dr = dec_digits(r as nat);
    let dg = dec_digits(g as nat);
    let db = dec_digits(b as nat);
    let da = dec_digits(a as nat);
    let sep = seq![',', ' '];
    let i1 = 5 + dr.len() as int;
    let i2 = i1 + 2 + dg.len() as int;
    let i3 = i2 + 2 + db.len() as int;
    let i4 = i3 + 2 + da.len() as int;
    assert(s.subrange(0, s.len() as int) =~= s);
    lemma_split(s, 0, seq!['r', 'g', 'b', 'a', '('], dr + (sep + (dg + (sep + (db + (sep + (da
        + seq![')'])))))));
    lemma_split(s, 5, dr, sep + (dg + (sep + (db + (sep + (da + seq![')']))))));
    lemma_split(s, i1, sep, dg + (sep + (db + (sep + (da + seq![')'])))));
    lemma_split(s, i1 + 2, dg, sep + (db + (sep + (da + seq![')']))));
    lemma_split(s, i2, sep, db + (sep + (da + seq![')'])));
    lemma_split(s, i2 + 2, db, sep + (da + seq![')']));
    lemma_split(s, i3, sep, da + seq![')']);
    lemma_split(s, i3 + 2, da, seq![')']);
    assert(s[i1] == ',' && s[i1 + 1] == ' ') by {
        assert(s.subrange(i1, i1 + 2) == sep);
        assert(s.subrange(i1, i1 + 2)[0] == s[i1] && s.subrange(i1, i1 + 2)[1] == s[i1 + 1]);
    }
    assert(s[i2] == ',' && s[i2 + 1] == ' ') by {
        assert(s.subrange(i2, i2 + 2) == sep);
        assert(s.subrange(i2, i2 + 2)[0] == s[i2] && s.subrange(i2, i2 + 2)[1] == s[i2 + 1]);
    }
    assert(s[i3] == ',' && s[i3 + 1] == ' ') by {
        assert(s.subrange(i3, i3 + 2) == sep);
        assert(s.subrange(i3, i3 + 2)[0] == s[i3] && s.subrange(i3, i3 + 2)[1] == s[i3 + 1]);
    }
    assert(s[i4] == ')') by {
        assert(s.subrange(i3 + 2 + da.len(), i3 + 2 + da.len() + 1) == seq![')']);
        assert(s.subrange(i3 + 2 + da.len(), i3 + 2 + da.len() + 1)[0] == s[i4]);
    }
    lemma_parse_u8_min(s, 5, r);
    lemma_parse_u8_min(s, i1 + 2, g);
    lemma_parse_u8_min(s, i2 + 2, b);
    lemma_parse_u8_min(s, i3 + 2, a);
}

/// A read set of channels stands in the text as exactly its rendering.
#[verifier::rlimit(100)]
pub proof fn lemma_parse_rgba_sound(s: Seq<char>)
    requires
        spec_parse_rgba(s) is Some,
    ensures
        ({
            let (r, g, b, a) = spec_parse_rgba(s)->Some_0;
            s == spec_rgba(r, g, b, a)
        }),
{
    let (r, g, b, a) = spec_parse_rgba(s)->Some_0;
    let (pr, i1) = parse_u8_min(s, 5)->Some_0;
    let (pg, i2) = parse_u8_min(s, i1 + 2)->Some_0;
    let (pb, i3) = parse_u8_min(s, i2 + 2)->Some_0;
    let (pa, i4) = parse_u8_min(s, i3 + 2)->Some_0;
    lemma_parse_u8_min_sound(s, 5);
    lemma_parse_u8_min_sound(s, i1 + 2);
    lemma_parse_u8_min_sound(s, i2 + 2);
    lemma_parse_u8_min_sound(s, i3 + 2);
    assert(s =~= spec_rgba(r, g, b, a)) by {
        let dr = dec_digits(r as nat);
        let dg = dec_digits(g as nat);
        let db = dec_digits(b as nat);
        let da = dec_digits(a as nat);
        assert(s.subrange(5, i1) == dr);
        assert(s.subrange(i1 + 2, i2) == dg);
        assert(s.subrange(i2 + 2, i3) == db);
        assert(s.subrange(i3 + 2, i4) == da);
        assert(forall|k: int| 0 <= k < dr.len() ==> s[5 + k] == #[trigger] dr[k]) by {
            assert(forall|k: int|
                0 <= k < dr.len() ==> #[trigger] dr[k] == s.subrange(5, i1)[k]);
        }
        assert(forall|k: int| 0 <= k < dg.len() ==> s[i1 + 2 + k] == #[trigger] dg[k]) by {
            assert(forall|k: int|
                0 <= k < dg.len() ==> #[trigger] dg[k] == s.subrange(i1 + 2, i2)[k]);
        }
        assert(forall|k: int| 0 <= k < db.len() ==> s[i2 + 2 + k] == #[trigger] db[k]) by {
            assert(forall|k: int|
                0 <= k < db.len() ==> #[trigger] db[k] == s.subrange(i2 + 2, i3)[k]);
        }
        assert(forall|k: int| 0 <= k < da.len() ==> s[i3 + 2 + k] == #[trigger] da[k]) by {
            assert(forall|k: int|
                0 <= k < da.len() ==> #[trigger] da[k] == s.subrange(i3 + 2, i4)[k]);
        }
    }
}

/// Text that the channel reader rejects is no rendering at all.
pub proof fn lemma_parse_rgba_complete(s: Seq<char>)
    requires
        spec_parse_rgba(s) is None,
    ensures
        forall|r: u8, g: u8, b: u8, a: u8| s != spec_rgba(r, g, b, a),
{
    assert forall|r: u8, g: u8, b: u8, a: u8| s != spec_rgba(r, g, b, a) by {
        if s == spec_rgba(r, g, b, a) {
            lemma_parse_rgba_of_rendering(r, g, b, a);
        }
    }
}

impl PartialEq for Color {
    /// Colors compare by their rendered text.
    fn eq(&self, other: &Self) -> (r: bool) {
        self.color == other.color
    }
}

impl vstd::std_specs::cmp::PartialEqSpecImpl for Color {
    open spec fn obeys_eq_spec() -> bool {
        true
    }

    open spec fn eq_spec(&self, other: &Self) -> bool {
        self@ == other@
    }
}

impl Eq for Color {

}

/// The small built-in palette.
#[derive(Copy, Clone, Debug, PartialEq, Eq, Structural)]
pub enum ColorBuiltIn {
    Black,
    White,
    SeeThrough,
    Red,
    Green,
    Blue,
    Yellow,
    Magenta,
}

/// Reads the four channel values out of rendered color text.
fn parse_rgba(s: &Vec<char>) -> (result: Option<(u8, u8, u8, u8)>)
    ensures
        result == spec_parse_rgba(s@),
{
    if s.len() < 5 || s[0] != 'r' || s[1] != 'g' || s[2] != 'b' || s[3] != 'a' || s[4] != '(' {
        return None;
    }
    let (r, i1) = match read_u8_min(s, 5) {
        None => {
            return None;
        },
        Some(v) => v,
    };
    if !(i1 + 2 <= s.len() && s[i1] == ',' && s[i1 + 1] == ' ') {
        return None;
    }
    let (g, i2) = match read_u8_min(s, i1 + 2) {
        None => {
            return None;
        },
        Some(v) => v,
    };
    if !(i2 + 2 <= s.len() && s[i2] == ',' && s[i2 + 1] == ' ') {
        return None;
    }
    let (b, i3) = match read_u8_min(s, i2 + 2) {
        None => {
            return None;
        },
        Some(v) => v,
    };
    if !(i3 + 2 <= s.len() && s[i3] == ',' && s[i3 + 1] == ' ') {
        return None;
    }
    let (a, i4) = match read_u8_min(s, i3 + 2) {
        None => {
            return None;
        },
        Some(v) => v,
    };
    if i4 + 1 == s.len() && s[i4] == ')' {
        Some((r, g, b, a))
    } else {
        None
    }
}

/// The rendered text of one palette entry.
pub open spec fn spec_builtin(built_in: ColorBuiltIn) -> Seq<char> {
    match built_in {
        ColorBuiltIn::Black => spec_rgba(0, 0, 0, 255),
        ColorBuiltIn::White => spec_rgba(255, 255, 255, 255),
        ColorBuiltIn::SeeThrough => spec_rgba(0, 0, 0, 0),
        ColorBuiltIn::Red => spec_rgba(255, 0, 0, 255),
        ColorBuiltIn::Green => spec_rgba(0, 255, 0, 255),
        ColorBuiltIn::Blue => spec_rgba(0, 0, 255, 255),
        ColorBuiltIn::Yellow => spec_rgba(255, 255, 0, 255),
        ColorBuiltIn::Magenta => spec_rgba(255, 0, 255, 255),
    }
}

} // verus!
