//! Colours as Hyprland writes them: `rgb(..)`, `rgba(..)`, `0xAARRGGBB`,
//! `#RRGGBB` and `#RRGGBBAA`.
//!
//! An alpha written as a fraction, as in `rgba(255,0,0,0.5)`, is turned into
//! a byte by floating-point arithmetic, and `Rgba` colours are written back
//! with such a fraction; that arithmetic is left to the caller: reading hands
//! back the text of the fraction, and writing takes it.
use vstd::prelude::*;
use crate::num::{lemma_decimal_chars, lemma_hex2_chars, decimal, hex2, hex_or_zero, hex_or_zero_exec, lemma_decimal, lemma_decimal_no_comma, lemma_hex2, lemma_parse_decimal, push_decimal, push_hex2, u8_or, u8_or_exec};
use crate::text::{lemma_ascii_concat, all_ascii, all_ascii_chars, chars_of, join_with, lemma_join3, lemma_join4, lemma_split_append, lemma_split_single, lemma_trim_ends, push_char, push_chars, push_str, split, split_chars, starts_with, starts_with_str, sub_chars, trim, trimmed, views};

verus! {

#[derive(Debug, Clone, Copy, PartialEq, Eq, Hash)]
pub enum HyprColor {
    Rgb(u8, u8, u8),
    Rgba(u8, u8, u8, u8),
}

/// The variants of `HyprColor` without their values.
#[derive(Debug, Clone, Copy, PartialEq, Eq, Hash)]
pub enum HyprColorDiscriminant {
    Rgb,
    Rgba,
}

/// A colour as read from text: complete, or an `rgba(..)` colour whose alpha
/// is written as a fraction, with the text of that fraction.
#[derive(Debug, Clone, PartialEq, Eq)]
pub enum ParsedColor {
    Color(HyprColor),
    DecimalAlpha(u8, u8, u8, String),
}

impl Default for HyprColor {
    fn default() -> (r: Self)
        ensures
            r == HyprColor::Rgb(0, 0, 0),
    {
        HyprColor::Rgb(0, 0, 0)
    }
}

/// The byte written in hex at `s[a..a + 2]`.
pub open spec fn hex_at(s: Seq<char>, a: int) -> u8 {
    hex_or_zero(s.subrange(a, a + 2))
}

impl HyprColor {
    /// What `parse` reads from `s`: after trimming, the text must be ASCII and
    /// one of the forms below; a part that is no number counts as 0 (the
    /// parts of `rgb(..)` and `rgba(..)` are not trimmed). For
    /// `rgba(r,g,b,x)` with a fraction `x`, the colour comes with alpha 0 and
    /// the text of `x`.
    #[verifier::opaque]
    pub open spec fn spec_parse(s: Seq<char>) -> Result<(HyprColor, Option<Seq<char>>), ()> {
        let t = trim(s);
        if t.len() == 0 || !all_ascii(t) {
            Err(())
        } else if starts_with(t, "rgb("@) && t.last() == ')' {
            Self::spec_parse_rgb_inner(t.subrange(4, t.len() - 1))
        } else if starts_with(t, "rgba("@) && t.last() == ')' {
            Self::spec_parse_rgba_inner(t.subrange(5, t.len() - 1))
        } else {
            Self::spec_parse_hex_form(t)
        }
    }

    /// What `parse` reads from `0xAARRGGBB`, `#RRGGBB` and `#RRGGBBAA`.
    pub open spec fn spec_parse_hex_form(t: Seq<char>) -> Result<(HyprColor, Option<Seq<char>>), ()> {
        if starts_with(t, "0x"@) && t.len() == 10 {
            Ok((HyprColor::Rgba(hex_at(t, 4), hex_at(t, 6), hex_at(t, 8), hex_at(t, 2)), None))
        } else if starts_with(t, "#"@) && t.len() == 7 {
            Ok((HyprColor::Rgb(hex_at(t, 1), hex_at(t, 3), hex_at(t, 5)), None))
        } else if starts_with(t, "#"@) && t.len() == 9 {
            Ok((HyprColor::Rgba(hex_at(t, 1), hex_at(t, 3), hex_at(t, 5), hex_at(t, 7)), None))
        } else {
            Err(())
        }
    }

    fn parse_hex_form(t: &Vec<char>) -> (r: Result<ParsedColor, ()>)
        ensures
            Self::matches_reading(r, Self::spec_parse_hex_form(t@)),
    {
        let n = t.len();
        if starts_with_str(t, "0x") && n == 10 {
            Ok(ParsedColor::Color(HyprColor::Rgba(Self::hex_pair(t, 4), Self::hex_pair(t, 6), Self::hex_pair(t, 8), Self::hex_pair(t, 2))))
        } else if starts_with_str(t, "#") && n == 7 {
            Ok(ParsedColor::Color(HyprColor::Rgb(Self::hex_pair(t, 1), Self::hex_pair(t, 3), Self::hex_pair(t, 5))))
        } else if starts_with_str(t, "#") && n == 9 {
            Ok(ParsedColor::Color(HyprColor::Rgba(Self::hex_pair(t, 1), Self::hex_pair(t, 3), Self::hex_pair(t, 5), Self::hex_pair(t, 7))))
        } else {
            Err(())
        }
    }

    /// What `to_string_with_alpha` writes: `rgb(r,g,b)`, or `rgba(r,g,b,x)`
    /// with the given text `x` of the alpha.
    pub open spec fn spec_to_string_with_alpha(self, alpha: Seq<char>) -> Seq<char> {
        match self {
            HyprColor::Rgb(r, g, b) => "rgb("@ + join_with(
                seq![decimal(r as nat), decimal(g as nat), decimal(b as nat)],
                ',',
            ) + ")"@,
            HyprColor::Rgba(r, g, b, _) => "rgba("@ + join_with(
                seq![decimal(r as nat), decimal(g as nat), decimal(b as nat), alpha],
                ',',
            ) + ")"@,
        }
    }

    /// `#RRGGBB`, dropping any alpha.
    pub open spec fn spec_rgb_hex(self) -> Seq<char> {
        match self {
            HyprColor::Rgb(r, g, b) => "#"@ + hex2(r) + hex2(g) + hex2(b),
            HyprColor::Rgba(r, g, b, _) => "#"@ + hex2(r) + hex2(g) + hex2(b),
        }
    }

    /// `#RRGGBBAA`, with alpha `FF` for an `Rgb` colour.
    pub open spec fn spec_rgba_hex(self) -> Seq<char> {
        match self {
            HyprColor::Rgb(r, g, b) => "#"@ + hex2(r) + hex2(g) + hex2(b) + "FF"@,
            HyprColor::Rgba(r, g, b, a) => "#"@ + hex2(r) + hex2(g) + hex2(b) + hex2(a),
        }
    }

    pub open spec fn spec_discriminant(self) -> HyprColorDiscriminant {
        match self {
            HyprColor::Rgb(..) => HyprColorDiscriminant::Rgb,
            HyprColor::Rgba(..) => HyprColorDiscriminant::Rgba,
        }
    }

    /// Black; opaque for `Rgba`.
    pub open spec fn spec_from_discriminant(d: HyprColorDiscriminant) -> Self {
        match d {
            HyprColorDiscriminant::Rgb => HyprColor::Rgb(0, 0, 0),
            HyprColorDiscriminant::Rgba => HyprColor::Rgba(0, 0, 0, 255),
        }
    }

    /// The variant `d` with its channels read from the comma-separated
    /// numbers of `s` (0, and 255 for alpha, where a number is missing or bad;
    /// black where there are too few numbers).
    pub open spec fn spec_from_discriminant_and_str(d: HyprColorDiscriminant, s: Seq<char>) -> Self {
        let p = split(s, ',');
        match d {
            HyprColorDiscriminant::Rgb => if p.len() >= 3 {
                HyprColor::Rgb(u8_or(p[0], 0), u8_or(p[1], 0), u8_or(p[2], 0))
            } else {
                HyprColor::Rgb(0, 0, 0)
            },
            HyprColorDiscriminant::Rgba => if p.len() >= 4 {
                HyprColor::Rgba(u8_or(p[0], 0), u8_or(p[1], 0), u8_or(p[2], 0), u8_or(p[3], 255))
            } else if p.len() == 3 {
                HyprColor::Rgba(u8_or(p[0], 0), u8_or(p[1], 0), u8_or(p[2], 0), 255)
            } else {
                HyprColor::Rgba(0, 0, 0, 255)
            },
        }
    }

    /// The channels as comma-separated numbers.
    pub open spec fn spec_str_without_discriminant(self) -> Seq<char> {
        match self {
            HyprColor::Rgb(r, g, b) => join_with(
                seq![decimal(r as nat), decimal(g as nat), decimal(b as nat)],
                ',',
            ),
            HyprColor::Rgba(r, g, b, a) => join_with(
                seq![decimal(r as nat), decimal(g as nat), decimal(b as nat), decimal(a as nat)],
                ',',
            ),
        }
    }

    fn hex_pair(v: &Vec<char>, a: usize) -> (r: u8)
        requires
            a + 2 <= v.len(),
        ensures
            r == hex_at(v@, a as int),
    {
        let p = sub_chars(v, a, a + 2);
        hex_or_zero_exec(&p)
    }

    /// What `parse` reads from the inside of `rgb(..)`.
    pub open spec fn spec_parse_rgb_inner(i: Seq<char>) -> Result<(HyprColor, Option<Seq<char>>), ()> {
        let p = split(i, ',');
        if p.len() == 1 && p[0].len() == 6 {
            Ok((HyprColor::Rgb(hex_at(p[0], 0), hex_at(p[0], 2), hex_at(p[0], 4)), None))
        } else if p.len() == 3 {
            Ok((HyprColor::Rgb(u8_or(p[0], 0), u8_or(p[1], 0), u8_or(p[2], 0)), None))
        } else {
            Err(())
        }
    }

    /// What `parse` reads from the inside of `rgba(..)`.
    pub open spec fn spec_parse_rgba_inner(i: Seq<char>) -> Result<(HyprColor, Option<Seq<char>>), ()> {
        let p = split(i, ',');
        if p.len() == 1 && p[0].len() == 8 {
            Ok(
                (
                    HyprColor::Rgba(hex_at(p[0], 0), hex_at(p[0], 2), hex_at(p[0], 4), hex_at(p[0], 6)),
                    None,
                ),
            )
        } else if p.len() == 4 {
            Ok((HyprColor::Rgba(u8_or(p[0], 0), u8_or(p[1], 0), u8_or(p[2], 0), 0), Some(p[3])))
        } else {
            Err(())
        }
    }

    /// The colour read with `spec` as `parse` gives it.
    pub open spec fn matches_reading(
        r: Result<ParsedColor, ()>,
        spec: Result<(HyprColor, Option<Seq<char>>), ()>,
    ) -> bool {
        match r {
            Ok(ParsedColor::Color(c)) => spec == Ok::<(HyprColor, Option<Seq<char>>), ()>((c, None)),
            Ok(ParsedColor::DecimalAlpha(cr, cg, cb, a)) => spec == Ok::<
                (HyprColor, Option<Seq<char>>),
                (),
            >((HyprColor::Rgba(cr, cg, cb, 0), Some(a@))),
            Err(_) => spec is Err,
        }
    }

    fn parse_rgb_inner(i: &Vec<char>) -> (r: Result<ParsedColor, ()>)
        ensures
            Self::matches_reading(r, Self::spec_parse_rgb_inner(i@)),
    {
        let p = split_chars(i, ',');
        proof {
            crate::text::lemma_split_len(i@, ',');
            assert(views(p@)[0] == p@[0]@);
        }
        if p.len() == 1 && p[0].len() == 6 {
            Ok(ParsedColor::Color(HyprColor::Rgb(Self::hex_pair(&p[0], 0), Self::hex_pair(&p[0], 2), Self::hex_pair(&p[0], 4))))
        } else if p.len() == 3 {
            proof {
                assert(views(p@)[1] == p@[1]@);
                assert(views(p@)[2] == p@[2]@);
            }
            Ok(ParsedColor::Color(HyprColor::Rgb(u8_or_exec(&p[0], 0), u8_or_exec(&p[1], 0), u8_or_exec(&p[2], 0))))
        } else {
            Err(())
        }
    }

    fn parse_rgba_inner(i: &Vec<char>) -> (r: Result<ParsedColor, ()>)
        ensures
            Self::matches_reading(r, Self::spec_parse_rgba_inner(i@)),
    {
        let p = split_chars(i, ',');
        proof {
            crate::text::lemma_split_len(i@, ',');
            assert(views(p@)[0] == p@[0]@);
        }
        if p.len() == 1 && p[0].len() == 8 {
            Ok(ParsedColor::Color(HyprColor::Rgba(Self::hex_pair(&p[0], 0), Self::hex_pair(&p[0], 2), Self::hex_pair(&p[0], 4), Self::hex_pair(&p[0], 6))))
        } else if p.len() == 4 {
            proof {
                assert(views(p@)[1] == p@[1]@);
                assert(views(p@)[2] == p@[2]@);
                assert(views(p@)[3] == p@[3]@);
            }
            let mut alpha = String::new();
            push_chars(&mut alpha, &p[3]);
            proof {
                assert(Seq::<char>::empty() + p@[3]@ =~= p@[3]@);
            }
            Ok(ParsedColor::DecimalAlpha(u8_or_exec(&p[0], 0), u8_or_exec(&p[1], 0), u8_or_exec(&p[2], 0), alpha))
        } else {
            Err(())
        }
    }

    /// Reads a colour in any of the forms that Hyprland accepts.
    pub fn parse(s: &str) -> (r: Result<ParsedColor, ()>)
        ensures
            Self::matches_reading(r, Self::spec_parse(s@)),
    {
        reveal(HyprColor::spec_parse);
        let t = trimmed(s);
        if t.len() == 0 || !all_ascii_chars(&t) {
            return Err(());
        }
        let n = t.len();
        proof {
            reveal_strlit("rgb(");
            reveal_strlit("rgba(");
        }
        if starts_with_str(&t, "rgb(") && t[n - 1] == ')' {
            proof {
                assert(t@.subrange(0, 4)[3] == t@[3]);
            }
            let inner = sub_chars(&t, 4, n - 1);
            Self::parse_rgb_inner(&inner)
        } else if starts_with_str(&t, "rgba(") && t[n - 1] == ')' {
            proof {
                assert(t@.subrange(0, 5)[4] == t@[4]);
            }
            let inner = sub_chars(&t, 5, n - 1);
            Self::parse_rgba_inner(&inner)
        } else {
            Self::parse_hex_form(&t)
        }
    }

    /// Writes `rgb(r,g,b)`, or `rgba(r,g,b,x)` with `alpha` as the text `x`.
    pub fn to_string_with_alpha(&self, alpha: &str) -> (r: String)
        ensures
            r@ == self.spec_to_string_with_alpha(alpha@),
    {
        let mut r = String::new();
        match self {
            HyprColor::Rgb(cr, cg, cb) => {
                push_str(&mut r, "rgb(");
                push_decimal(&mut r, *cr as u64);
                push_char(&mut r, ',');
                push_decimal(&mut r, *cg as u64);
                push_char(&mut r, ',');
                push_decimal(&mut r, *cb as u64);
                push_str(&mut r, ")");
                proof {
                    lemma_join3(decimal(*cr as nat), decimal(*cg as nat), decimal(*cb as nat), ',');
                    assert(r@ =~= self.spec_to_string_with_alpha(alpha@));
                }
            },
            HyprColor::Rgba(cr, cg, cb, _) => {
                push_str(&mut r, "rgba(");
                push_decimal(&mut r, *cr as u64);
                push_char(&mut r, ',');
                push_decimal(&mut r, *cg as u64);
                push_char(&mut r, ',');
                push_decimal(&mut r, *cb as u64);
                push_char(&mut r, ',');
                push_str(&mut r, alpha);
                push_str(&mut r, ")");
                proof {
                    lemma_join4(decimal(*cr as nat), decimal(*cg as nat), decimal(*cb as nat), alpha@, ',');
                    assert(r@ =~= self.spec_to_string_with_alpha(alpha@));
                }
            },
        }
        r
    }

    pub fn to_rgb_hex(self) -> (r: String)
        ensures
            r@ == self.spec_rgb_hex(),
    {
        let mut r = String::new();
        push_char(&mut r, '#');
        match self {
            HyprColor::Rgb(cr, cg, cb) => {
                push_hex2(&mut r, cr);
                push_hex2(&mut r, cg);
                push_hex2(&mut r, cb);
            },
            HyprColor::Rgba(cr, cg, cb, _) => {
                push_hex2(&mut r, cr);
                push_hex2(&mut r, cg);
                push_hex2(&mut r, cb);
            },
        }
        proof {
            reveal_strlit("#");
            assert(r@ =~= self.spec_rgb_hex());
        }
        r
    }

    pub fn to_rgba_hex(self) -> (r: String)
        ensures
            r@ == self.spec_rgba_hex(),
    {
        let mut r = String::new();
        push_char(&mut r, '#');
        match self {
            HyprColor::Rgb(cr, cg, cb) => {
                push_hex2(&mut r, cr);
                push_hex2(&mut r, cg);
                push_hex2(&mut r, cb);
                push_str(&mut r, "FF");
            },
            HyprColor::Rgba(cr, cg, cb, ca) => {
                push_hex2(&mut r, cr);
                push_hex2(&mut r, cg);
                push_hex2(&mut r, cb);
                push_hex2(&mut r, ca);
            },
        }
        proof {
            reveal_strlit("#");
            assert(r@ =~= self.spec_rgba_hex());
        }
        r
    }

    pub fn to_discriminant(&self) -> (r: HyprColorDiscriminant)
        ensures
            r == self.spec_discriminant(),
    {
        match self {
            HyprColor::Rgb(..) => HyprColorDiscriminant::Rgb,
            HyprColor::Rgba(..) => HyprColorDiscriminant::Rgba,
        }
    }

    pub fn from_discriminant(d: HyprColorDiscriminant) -> (r: Self)
        ensures
            r == Self::spec_from_discriminant(d),
    {
        match d {
            HyprColorDiscriminant::Rgb => HyprColor::Rgb(0, 0, 0),
            HyprColorDiscriminant::Rgba => HyprColor::Rgba(0, 0, 0, 255),
        }
    }

    pub fn from_discriminant_and_str(d: HyprColorDiscriminant, s: &str) -> (r: Self)
        ensures
            r == Self::spec_from_discriminant_and_str(d, s@),
    {
        let v = chars_of(s);
        let p = split_chars(&v, ',');
        if p.len() >= 3 {
            proof {
                assert(views(p@)[0] == p@[0]@);
                assert(views(p@)[1] == p@[1]@);
                assert(views(p@)[2] == p@[2]@);
            }
        }
        if p.len() >= 4 {
            proof {
                assert(views(p@)[3] == p@[3]@);
            }
        }
        match d {
            HyprColorDiscriminant::Rgb => {
                if p.len() >= 3 {
                    HyprColor::Rgb(u8_or_exec(&p[0], 0), u8_or_exec(&p[1], 0), u8_or_exec(&p[2], 0))
                } else {
                    HyprColor::Rgb(0, 0, 0)
                }
            },
            HyprColorDiscriminant::Rgba => {
                if p.len() >= 4 {
                    HyprColor::Rgba(u8_or_exec(&p[0], 0), u8_or_exec(&p[1], 0), u8_or_exec(&p[2], 0), u8_or_exec(&p[3], 255))
                } else if p.len() == 3 {
                    HyprColor::Rgba(u8_or_exec(&p[0], 0), u8_or_exec(&p[1], 0), u8_or_exec(&p[2], 0), 255)
                } else {
                    HyprColor::Rgba(0, 0, 0, 255)
                }
            },
        }
    }

    /// The channels as comma-separated numbers.
    pub fn to_str_without_discriminant(&self) -> (r: Option<String>)
        ensures
            r matches Some(t) && t@ == self.spec_str_without_discriminant(),
    {
        let mut r = String::new();
        match self {
            HyprColor::Rgb(cr, cg, cb) => {
                push_decimal(&mut r, *cr as u64);
                push_char(&mut r, ',');
                push_decimal(&mut r, *cg as u64);
                push_char(&mut r, ',');
                push_decimal(&mut r, *cb as u64);
                proof {
                    lemma_join3(decimal(*cr as nat), decimal(*cg as nat), decimal(*cb as nat), ',');
                    assert(r@ =~= self.spec_str_without_discriminant());
                }
            },
            HyprColor::Rgba(cr, cg, cb, ca) => {
                push_decimal(&mut r, *cr as u64);
                push_char(&mut r, ',');
                push_decimal(&mut r, *cg as u64);
                push_char(&mut r, ',');
                push_decimal(&mut r, *cb as u64);
                push_char(&mut r, ',');
                push_decimal(&mut r, *ca as u64);
                proof {
                    lemma_join4(decimal(*cr as nat), decimal(*cg as nat), decimal(*cb as nat), decimal(*ca as nat), ',');
                    assert(r@ =~= self.spec_str_without_discriminant());
                }
            },
        }
        Some(r)
    }

    /// The three numbers joined by commas split back into themselves.
    proof fn lemma_split_decimals(a: nat, b: nat, c: nat)
        ensures
            split(join_with(seq![decimal(a), decimal(b), decimal(c)], ','), ',') == seq![
                decimal(a),
                decimal(b),
                decimal(c),
            ],
    {
        lemma_decimal_chars(a);
        lemma_decimal_chars(b);
        lemma_decimal_chars(c);
        lemma_join3(decimal(a), decimal(b), decimal(c), ',');
        lemma_split_single(decimal(a), ',');
        lemma_split_append(decimal(a), ',', decimal(b));
        lemma_split_append(decimal(a) + seq![','] + decimal(b), ',', decimal(c));
        assert(seq![decimal(a)].push(decimal(b)).push(decimal(c)) =~= seq![
            decimal(a),
            decimal(b),
            decimal(c),
        ]);
    }

    /// The four numbers joined by commas split back into themselves.
    proof fn lemma_split_decimals4(a: nat, b: nat, c: nat, d: nat)
        ensures
            split(join_with(seq![decimal(a), decimal(b), decimal(c), decimal(d)], ','), ',') == seq![
                decimal(a),
                decimal(b),
                decimal(c),
                decimal(d),
            ],
    {
        lemma_decimal_chars(a);
        lemma_decimal_chars(b);
        lemma_decimal_chars(c);
        lemma_decimal_chars(d);
        lemma_join4(decimal(a), decimal(b), decimal(c), decimal(d), ',');
        Self::lemma_split_decimals(a, b, c);
        lemma_join3(decimal(a), decimal(b), decimal(c), ',');
        lemma_split_append(
            decimal(a) + seq![','] + decimal(b) + seq![','] + decimal(c),
            ',',
            decimal(d),
        );
        assert(seq![decimal(a), decimal(b), decimal(c)].push(decimal(d)) =~= seq![
            decimal(a),
            decimal(b),
            decimal(c),
            decimal(d),
        ]);
    }

    /// Reading back what `to_string_with_alpha` writes gives the same `Rgb` colour.
    pub proof fn lemma_parse_rgb_string(r: u8, g: u8, b: u8, alpha: Seq<char>)
        ensures
            Self::spec_parse(HyprColor::Rgb(r, g, b).spec_to_string_with_alpha(alpha)) == Ok::<
                (HyprColor, Option<Seq<char>>),
                (),
            >((HyprColor::Rgb(r, g, b), None)),
    {
        reveal_strlit("rgb(");
        reveal_strlit(")");
        let dr = decimal(r as nat);
        let dg = decimal(g as nat);
        let db = decimal(b as nat);
        let j = join_with(seq![dr, dg, db], ',');
        let s = "rgb("@ + j + ")"@;
        lemma_decimal_chars(r as nat);
        lemma_decimal_chars(g as nat);
        lemma_decimal_chars(b as nat);
        lemma_join3(dr, dg, db, ',');
        assert(all_ascii(j)) by {
            assert(all_ascii(seq![','])) by {
                assert(seq![','][0] == ',');
            }
            lemma_ascii_concat(dr, seq![',']);
            lemma_ascii_concat(dr + seq![','], dg);
            lemma_ascii_concat(dr + seq![','] + dg, seq![',']);
            lemma_ascii_concat(dr + seq![','] + dg + seq![','], db);
        }
        assert(all_ascii(s) && trim(s) == s) by {
            assert(all_ascii("rgb("@)) by {
                assert forall|i: int| 0 <= i < 4 implies ((#[trigger] "rgb("@[i]) as u32) < 128 by {}
            }
            assert(all_ascii(")"@)) by {
                assert(")"@[0] == ')');
            }
            lemma_ascii_concat("rgb("@, j);
            lemma_ascii_concat("rgb("@ + j, ")"@);
            assert(s[0] == 'r');
            assert(s.last() == ')');
            lemma_trim_ends(s);
        }
        Self::lemma_split_decimals(r as nat, g as nat, b as nat);
        assert(starts_with(s, "rgb("@) && s.last() == ')') by {
            assert(s.subrange(0, 4) =~= "rgb("@);
        }
        assert(s.subrange(4, s.len() - 1) =~= j);
        reveal(HyprColor::spec_parse);
        lemma_parse_decimal(r as nat, 255);
        lemma_parse_decimal(g as nat, 255);
        lemma_parse_decimal(b as nat, 255);
    }

    /// Reading back what `to_string_with_alpha` writes for an `Rgba` colour
    /// gives its channels and, verbatim, the text of the alpha, where that text
    /// is ASCII and holds no comma.
    pub proof fn lemma_parse_rgba_string(r: u8, g: u8, b: u8, a: u8, alpha: Seq<char>)
        requires
            all_ascii(alpha),
            !alpha.contains(','),
        ensures
            Self::spec_parse(HyprColor::Rgba(r, g, b, a).spec_to_string_with_alpha(alpha)) == Ok::<
                (HyprColor, Option<Seq<char>>),
                (),
            >((HyprColor::Rgba(r, g, b, 0), Some(alpha))),
    {
        reveal_strlit("rgba(");
        reveal_strlit("rgb(");
        reveal_strlit(")");
        let dr = decimal(r as nat);
        let dg = decimal(g as nat);
        let db = decimal(b as nat);
        let j = join_with(seq![dr, dg, db, alpha], ',');
        let s = "rgba("@ + j + ")"@;
        lemma_decimal_chars(r as nat);
        lemma_decimal_chars(g as nat);
        lemma_decimal_chars(b as nat);
        lemma_join4(dr, dg, db, alpha, ',');
        assert(all_ascii(j)) by {
            assert(all_ascii(seq![','])) by {
                assert(seq![','][0] == ',');
            }
            lemma_ascii_concat(dr, seq![',']);
            lemma_ascii_concat(dr + seq![','], dg);
            lemma_ascii_concat(dr + seq![','] + dg, seq![',']);
            lemma_ascii_concat(dr + seq![','] + dg + seq![','], db);
            lemma_ascii_concat(dr + seq![','] + dg + seq![','] + db, seq![',']);
            lemma_ascii_concat(dr + seq![','] + dg + seq![','] + db + seq![','], alpha);
        }
        assert(all_ascii(s) && trim(s) == s) by {
            assert(all_ascii("rgba("@)) by {
                assert forall|i: int| 0 <= i < 5 implies ((#[trigger] "rgba("@[i]) as u32) < 128 by {}
            }
            assert(all_ascii(")"@)) by {
                assert(")"@[0] == ')');
            }
            lemma_ascii_concat("rgba("@, j);
            lemma_ascii_concat("rgba("@ + j, ")"@);
            assert(s[0] == 'r');
            assert(s.last() == ')');
            lemma_trim_ends(s);
        }
        assert(split(j, ',') == seq![dr, dg, db, alpha]) by {
            lemma_split_single(dr, ',');
            lemma_split_append(dr, ',', dg);
            lemma_split_append(dr + seq![','] + dg, ',', db);
            lemma_split_append(dr + seq![','] + dg + seq![','] + db, ',', alpha);
            assert(seq![dr].push(dg).push(db).push(alpha) =~= seq![dr, dg, db, alpha]);
        }
        assert(!starts_with(s, "rgb("@)) by {
            assert(s.subrange(0, 4)[3] != "rgb("@[3]);
        }
        assert(starts_with(s, "rgba("@) && s.last() == ')') by {
            assert(s.subrange(0, 5) =~= "rgba("@);
        }
        assert(s.subrange(5, s.len() - 1) =~= j);
        reveal(HyprColor::spec_parse);
        lemma_parse_decimal(r as nat, 255);
        lemma_parse_decimal(g as nat, 255);
        lemma_parse_decimal(b as nat, 255);
    }

    /// A colour is written with its channels in the order red, green, blue
    /// (then the alpha text for `rgba`) as decimal numbers; the hex forms are
    /// `#RRGGBB` and `#RRGGBBAA` (alpha `FF` for `rgb`).
    pub proof fn lemma_written_forms(r: u8, g: u8, b: u8, a: u8, alpha: Seq<char>)
        ensures
            HyprColor::Rgb(r, g, b).spec_to_string_with_alpha(alpha) == "rgb("@ + decimal(r as nat) + seq![',']
                + decimal(g as nat) + seq![','] + decimal(b as nat) + ")"@,
            HyprColor::Rgba(r, g, b, a).spec_to_string_with_alpha(alpha) == "rgba("@ + decimal(r as nat) + seq![',']
                + decimal(g as nat) + seq![','] + decimal(b as nat) + seq![','] + alpha + ")"@,
            HyprColor::Rgb(r, g, b).spec_rgb_hex() == "#"@ + hex2(r) + hex2(g) + hex2(b),
            HyprColor::Rgba(r, g, b, a).spec_rgb_hex() == "#"@ + hex2(r) + hex2(g) + hex2(b),
            HyprColor::Rgb(r, g, b).spec_rgba_hex() == "#"@ + hex2(r) + hex2(g) + hex2(b) + "FF"@,
            HyprColor::Rgba(r, g, b, a).spec_rgba_hex() == "#"@ + hex2(r) + hex2(g) + hex2(b) + hex2(a),
    {
        lemma_join3(decimal(r as nat), decimal(g as nat), decimal(b as nat), ',');
        lemma_join4(decimal(r as nat), decimal(g as nat), decimal(b as nat), alpha, ',');
        assert(HyprColor::Rgb(r, g, b).spec_rgb_hex() =~= "#"@ + hex2(r) + hex2(g) + hex2(b));
        assert(HyprColor::Rgba(r, g, b, a).spec_rgb_hex() =~= "#"@ + hex2(r) + hex2(g) + hex2(b));
        assert(HyprColor::Rgb(r, g, b).spec_rgba_hex() =~= "#"@ + hex2(r) + hex2(g) + hex2(b) + "FF"@);
        assert(HyprColor::Rgba(r, g, b, a).spec_rgba_hex() =~= "#"@ + hex2(r) + hex2(g) + hex2(b) + hex2(a));
    }

    /// Reading takes the channels in the order red, green, blue: from
    /// `rgb(r,g,b)`, `rgba(r,g,b,x)` (with the text `x` of a fractional
    /// alpha), `#RRGGBB` and `#RRGGBBAA`; `0xAARRGGBB` puts the alpha first.
    pub proof fn lemma_read_forms(r: u8, g: u8, b: u8, a: u8, alpha: Seq<char>)
        requires
            all_ascii(alpha),
            !alpha.contains(','),
        ensures
            Self::spec_parse(
                "rgb("@ + decimal(r as nat) + seq![','] + decimal(g as nat) + seq![','] + decimal(b as nat) + ")"@,
            ) == Ok::<(HyprColor, Option<Seq<char>>), ()>((HyprColor::Rgb(r, g, b), None)),
            Self::spec_parse(
                "rgba("@ + decimal(r as nat) + seq![','] + decimal(g as nat) + seq![','] + decimal(b as nat) + seq![',']
                    + alpha + ")"@,
            ) == Ok::<(HyprColor, Option<Seq<char>>), ()>((HyprColor::Rgba(r, g, b, 0), Some(alpha))),
            Self::spec_parse("#"@ + hex2(r) + hex2(g) + hex2(b)) == Ok::<(HyprColor, Option<Seq<char>>), ()>(
                (HyprColor::Rgb(r, g, b), None),
            ),
            Self::spec_parse("#"@ + hex2(r) + hex2(g) + hex2(b) + hex2(a)) == Ok::<
                (HyprColor, Option<Seq<char>>),
                (),
            >((HyprColor::Rgba(r, g, b, a), None)),
            Self::spec_parse("0x"@ + hex2(a) + hex2(r) + hex2(g) + hex2(b)) == Ok::<
                (HyprColor, Option<Seq<char>>),
                (),
            >((HyprColor::Rgba(r, g, b, a), None)),
    {
        Self::lemma_written_forms(r, g, b, a, alpha);
        Self::lemma_parse_rgb_string(r, g, b, alpha);
        Self::lemma_parse_rgba_string(r, g, b, a, alpha);
        Self::lemma_hex_form("#"@ + hex2(r) + hex2(g) + hex2(b), seq![r, g, b]);
        Self::lemma_hex_form("#"@ + hex2(r) + hex2(g) + hex2(b) + hex2(a), seq![r, g, b, a]);
        Self::lemma_parse_0x(r, g, b, a);
    }

    /// `0x` followed by four bytes in `{:02X}` reads as alpha, red, green, blue.
    #[verifier::rlimit(40)]
    proof fn lemma_parse_0x(r: u8, g: u8, b: u8, a: u8)
        ensures
            Self::spec_parse("0x"@ + hex2(a) + hex2(r) + hex2(g) + hex2(b)) == Ok::<
                (HyprColor, Option<Seq<char>>),
                (),
            >((HyprColor::Rgba(r, g, b, a), None)),
    {
        reveal(HyprColor::spec_parse);
        reveal_strlit("rgb(");
        reveal_strlit("rgba(");
        reveal_strlit("0x");
        let s = "0x"@ + hex2(a) + hex2(r) + hex2(g) + hex2(b);
        lemma_hex2_chars(a);
        lemma_hex2_chars(r);
        lemma_hex2_chars(g);
        lemma_hex2_chars(b);
        crate::num::lemma_hex2(a);
        crate::num::lemma_hex2(r);
        crate::num::lemma_hex2(g);
        crate::num::lemma_hex2(b);
        assert(s.len() == 10);
        assert(s[0] == '0');
        assert(s.subrange(0, 2) =~= "0x"@);
        assert(s.subrange(2, 4) =~= hex2(a));
        assert(s.subrange(4, 6) =~= hex2(r));
        assert(s.subrange(6, 8) =~= hex2(g));
        assert(s.subrange(8, 10) =~= hex2(b));
        assert(s.last() == hex2(b)[1]);
        lemma_trim_ends(s);
        assert(all_ascii(s)) by {
            assert forall|i: int| 0 <= i < s.len() implies ((#[trigger] s[i]) as u32) < 128 by {
                if i < 2 {
                    assert(s[i] == "0x"@[i]);
                } else if i < 4 {
                    assert(s[i] == hex2(a)[i - 2]);
                } else if i < 6 {
                    assert(s[i] == hex2(r)[i - 4]);
                } else if i < 8 {
                    assert(s[i] == hex2(g)[i - 6]);
                } else {
                    assert(s[i] == hex2(b)[i - 8]);
                }
            }
        }
        assert(s.subrange(0, 4)[0] != "rgb("@[0]);
        assert(s.subrange(0, 5)[0] != "rgba("@[0]);
    }


    /// Reading back `#RRGGBBAA` gives the colour with its alpha (opaque for
    /// `Rgb`), and reading back `#RRGGBB` gives the colour without alpha.
    pub proof fn lemma_parse_hex(c: HyprColor)
        ensures
            Self::spec_parse(c.spec_rgba_hex()) == Ok::<(HyprColor, Option<Seq<char>>), ()>(
                (
                    match c {
                        HyprColor::Rgb(r, g, b) => HyprColor::Rgba(r, g, b, 255),
                        HyprColor::Rgba(r, g, b, a) => HyprColor::Rgba(r, g, b, a),
                    },
                    None,
                ),
            ),
            Self::spec_parse(c.spec_rgb_hex()) == Ok::<(HyprColor, Option<Seq<char>>), ()>(
                (
                    match c {
                        HyprColor::Rgb(r, g, b) => HyprColor::Rgb(r, g, b),
                        HyprColor::Rgba(r, g, b, _) => HyprColor::Rgb(r, g, b),
                    },
                    None,
                ),
            ),
    {
        reveal_strlit("FF");
        reveal_strlit("#");
        assert("FF"@ =~= crate::num::hex2(255));
        match c {
            HyprColor::Rgb(r, g, b) => {
                assert(c.spec_rgba_hex() =~= "#"@ + hex2(r) + hex2(g) + hex2(b) + hex2(255));
                Self::lemma_hex_form(c.spec_rgba_hex(), seq![r, g, b, 255u8]);
                Self::lemma_hex_form(c.spec_rgb_hex(), seq![r, g, b]);
            },
            HyprColor::Rgba(r, g, b, a) => {
                Self::lemma_hex_form(c.spec_rgba_hex(), seq![r, g, b, a]);
                Self::lemma_hex_form(c.spec_rgb_hex(), seq![r, g, b]);
            },
        }
    }

    /// `#` followed by three or four bytes in `{:02X}` reads back as those bytes.
    #[verifier::rlimit(40)]
    proof fn lemma_hex_form(s: Seq<char>, v: Seq<u8>)
        requires
            v.len() == 3 || v.len() == 4,
            v.len() == 3 ==> s == "#"@ + hex2(v[0]) + hex2(v[1]) + hex2(v[2]),
            v.len() == 4 ==> s == "#"@ + hex2(v[0]) + hex2(v[1]) + hex2(v[2]) + hex2(v[3]),
        ensures
            v.len() == 3 ==> Self::spec_parse(s) == Ok::<(HyprColor, Option<Seq<char>>), ()>(
                (HyprColor::Rgb(v[0], v[1], v[2]), None),
            ),
            v.len() == 4 ==> Self::spec_parse(s) == Ok::<(HyprColor, Option<Seq<char>>), ()>(
                (HyprColor::Rgba(v[0], v[1], v[2], v[3]), None),
            ),
    {
        reveal(HyprColor::spec_parse);
        reveal_strlit("#");
        reveal_strlit("rgb(");
        reveal_strlit("rgba(");
        reveal_strlit("0x");
        lemma_hex2_chars(v[0]);
        lemma_hex2_chars(v[1]);
        lemma_hex2_chars(v[2]);
        crate::num::lemma_hex2(v[0]);
        crate::num::lemma_hex2(v[1]);
        crate::num::lemma_hex2(v[2]);
        if v.len() == 4 {
            lemma_hex2_chars(v[3]);
            crate::num::lemma_hex2(v[3]);
            assert(s.subrange(7, 9) =~= hex2(v[3]));
        }
        assert(s[0] == '#');
        assert(s.subrange(1, 3) =~= hex2(v[0]));
        assert(s.subrange(3, 5) =~= hex2(v[1]));
        assert(s.subrange(5, 7) =~= hex2(v[2]));
        assert(s.last() == s[s.len() - 1]);
        assert(!crate::text::is_ws(s.last()));
        lemma_trim_ends(s);
        assert(all_ascii(s)) by {
            assert forall|i: int| 0 <= i < s.len() implies ((#[trigger] s[i]) as u32) < 128 by {
                if 1 <= i < 3 {
                    assert(s[i] == hex2(v[0])[i - 1]);
                } else if 3 <= i < 5 {
                    assert(s[i] == hex2(v[1])[i - 3]);
                } else if 5 <= i < 7 {
                    assert(s[i] == hex2(v[2])[i - 5]);
                } else if 7 <= i {
                    assert(s[i] == hex2(v[3])[i - 7]);
                }
            }
        }
        assert(s.subrange(0, 4)[0] != "rgb("@[0]);
        assert(s.subrange(0, 5)[0] != "rgba("@[0]);
        assert(s.subrange(0, 2)[0] != "0x"@[0]);
        assert(s.subrange(0, 1) =~= "#"@);
    }

    /// The discriminants name the variants; `Rgb` gives black and `Rgba`
    /// opaque black. A colour is made from a discriminant and text by reading
    /// the comma-separated pieces in the order red, green, blue (then alpha),
    /// each a number or 0 (255 for a missing or bad alpha); its channels are
    /// written in that order, separated by commas.
    pub proof fn lemma_discriminant_names(p0: Seq<char>, p1: Seq<char>, p2: Seq<char>, p3: Seq<char>, r: u8, g: u8, b: u8, a: u8)
        requires
            !p0.contains(','),
            !p1.contains(','),
            !p2.contains(','),
            !p3.contains(','),
        ensures
            HyprColor::Rgb(r, g, b).spec_discriminant() == HyprColorDiscriminant::Rgb,
            HyprColor::Rgba(r, g, b, a).spec_discriminant() == HyprColorDiscriminant::Rgba,
            Self::spec_from_discriminant(HyprColorDiscriminant::Rgb) == HyprColor::Rgb(0, 0, 0),
            Self::spec_from_discriminant(HyprColorDiscriminant::Rgba) == HyprColor::Rgba(0, 0, 0, 255),
            Self::spec_from_discriminant_and_str(HyprColorDiscriminant::Rgb, p0 + seq![','] + p1 + seq![','] + p2)
                == HyprColor::Rgb(u8_or(p0, 0), u8_or(p1, 0), u8_or(p2, 0)),
            Self::spec_from_discriminant_and_str(HyprColorDiscriminant::Rgba, p0 + seq![','] + p1 + seq![','] + p2)
                == HyprColor::Rgba(u8_or(p0, 0), u8_or(p1, 0), u8_or(p2, 0), 255),
            Self::spec_from_discriminant_and_str(
                HyprColorDiscriminant::Rgba,
                p0 + seq![','] + p1 + seq![','] + p2 + seq![','] + p3,
            ) == HyprColor::Rgba(u8_or(p0, 0), u8_or(p1, 0), u8_or(p2, 0), u8_or(p3, 255)),
            HyprColor::Rgb(r, g, b).spec_str_without_discriminant() == decimal(r as nat) + seq![','] + decimal(
                g as nat,
            ) + seq![','] + decimal(b as nat),
            HyprColor::Rgba(r, g, b, a).spec_str_without_discriminant() == decimal(r as nat) + seq![','] + decimal(
                g as nat,
            ) + seq![','] + decimal(b as nat) + seq![','] + decimal(a as nat),
    {
        let s2 = p0 + seq![','] + p1;
        let s3 = s2 + seq![','] + p2;
        lemma_split_single(p0, ',');
        lemma_split_append(p0, ',', p1);
        lemma_split_append(s2, ',', p2);
        lemma_split_append(s3, ',', p3);
        assert(split(s3, ',') =~= seq![p0, p1, p2]);
        assert(split(s3 + seq![','] + p3, ',') =~= seq![p0, p1, p2, p3]);
        lemma_join3(decimal(r as nat), decimal(g as nat), decimal(b as nat), ',');
        lemma_join4(decimal(r as nat), decimal(g as nat), decimal(b as nat), decimal(a as nat), ',');
    }


    /// Each variant keeps its discriminant, and a colour is rebuilt from its
    /// discriminant and its channels as comma-separated numbers.
    #[verifier::rlimit(40)]
    pub proof fn lemma_discriminant(c: HyprColor, d: HyprColorDiscriminant)
        ensures
            Self::spec_from_discriminant(d).spec_discriminant() == d,
            Self::spec_from_discriminant_and_str(c.spec_discriminant(), c.spec_str_without_discriminant())
                == c,
    {
        match c {
            HyprColor::Rgb(r, g, b) => {
                Self::lemma_split_decimals(r as nat, g as nat, b as nat);
                lemma_parse_decimal(r as nat, 255);
                lemma_parse_decimal(g as nat, 255);
                lemma_parse_decimal(b as nat, 255);
            },
            HyprColor::Rgba(r, g, b, a) => {
                Self::lemma_split_decimals4(r as nat, g as nat, b as nat, a as nat);
                lemma_parse_decimal(r as nat, 255);
                lemma_parse_decimal(g as nat, 255);
                lemma_parse_decimal(b as nat, 255);
                lemma_parse_decimal(a as nat, 255);
            },
        }
    }

    /// The colour that `s` stands for, where `alpha` is the byte that a
    /// fractional alpha in `s` (if any) stands for.
    pub open spec fn spec_from_str_with_alpha(s: Seq<char>, alpha: u8) -> Result<HyprColor, ()> {
        match Self::spec_parse(s) {
            Ok((c, None)) => Ok(c),
            Ok((c, Some(_))) => match c {
                HyprColor::Rgba(r, g, b, _) => Ok(HyprColor::Rgba(r, g, b, alpha)),
                HyprColor::Rgb(r, g, b) => Ok(HyprColor::Rgb(r, g, b)),
            },
            Err(_) => Err(()),
        }
    }

    /// Reads a colour, taking `alpha` for a fractional alpha.
    pub fn from_str_with_alpha(s: &str, alpha: u8) -> (r: Result<HyprColor, ()>)
        ensures
            r == Self::spec_from_str_with_alpha(s@, alpha),
    {
        match Self::parse(s) {
            Ok(ParsedColor::Color(c)) => Ok(c),
            Ok(ParsedColor::DecimalAlpha(cr, cg, cb, _)) => Ok(HyprColor::Rgba(cr, cg, cb, alpha)),
            Err(_) => Err(()),
        }
    }
}

} // verus!
