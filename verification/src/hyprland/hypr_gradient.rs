//! A gradient of colours with an optional angle, written like
//! `rgb(255,0,0) rgb(0,0,255) 45deg`.
//!
//! The colours of a gradient may hold an `rgba(..)` alpha written as a
//! fraction. Reading takes, for the part at index `i` of the text, the byte
//! `alphas[i]` that such a fraction stands for; writing takes, for colour `i`,
//! the text of its alpha.
use vstd::prelude::*;
use super::angle::Angle;
use super::hypr_color::HyprColor;
use crate::num::{decimal, lemma_decimal_chars};
use crate::text::{all_ascii, is_word, is_ws, join_with, lemma_join3, lemma_join4, lemma_join_ends, lemma_no_ws_concat, lemma_no_ws_trim, lemma_trim_ends, lemma_words_append, lemma_words_join, lemma_words_single, no_ws, push_char, push_str, string_of, trim, trimmed, views, words, words_of};

verus! {

#[derive(Debug, Clone, PartialEq)]
pub struct HyprGradient {
    pub colors: Vec<HyprColor>,
    pub angle: Option<Angle>,
}

impl View for HyprGradient {
    type V = (Seq<HyprColor>, Option<Angle>);

    open spec fn view(&self) -> (Seq<HyprColor>, Option<Angle>) {
        (self.colors@, self.angle)
    }
}

impl Default for HyprGradient {
    fn default() -> (r: Self)
        ensures
            r@ == (seq![HyprColor::Rgb(0, 0, 0), HyprColor::Rgb(0, 0, 0)], None::<Angle>),
    {
        let r = HyprGradient { colors: vec![HyprColor::default(), HyprColor::default()], angle: None };
        proof {
            assert(r.colors@ =~= seq![HyprColor::Rgb(0, 0, 0), HyprColor::Rgb(0, 0, 0)]);
        }
        r
    }
}

/// The byte that a fractional alpha in part `i` stands for: `alphas[i]`, or
/// 0 past the end of `alphas`.
pub open spec fn alpha_at(alphas: Seq<u8>, i: int) -> u8 {
    if 0 <= i < alphas.len() {
        alphas[i]
    } else {
        0
    }
}

/// Reads `parts` from index `i` on, after the colours `acc`: each part that
/// is an angle ends the scan with that angle and its index; each part that is
/// a colour is added; other parts are skipped.
pub open spec fn scan_colors(parts: Seq<Seq<char>>, alphas: Seq<u8>, i: int, acc: Seq<HyprColor>) -> (
    Seq<HyprColor>,
    Option<(Angle, int)>,
)
    decreases parts.len() - i,
{
    if i < 0 || i >= parts.len() {
        (acc, None)
    } else {
        match Angle::spec_from_str(parts[i]) {
            Ok(a) => (acc, Some((a, i))),
            Err(_) => match HyprColor::spec_from_str_with_alpha(parts[i], alpha_at(alphas, i)) {
                Ok(c) => scan_colors(parts, alphas, i + 1, acc.push(c)),
                Err(_) => scan_colors(parts, alphas, i + 1, acc),
            },
        }
    }
}

/// A single colour stands for itself twice.
pub open spec fn doubled(cs: Seq<HyprColor>) -> Seq<HyprColor> {
    if cs.len() == 1 {
        cs.push(cs[0])
    } else {
        cs
    }
}

/// Reads the colours of `parts` from index `start` on (see `scan_colors`).
pub(crate) fn scan_parts(parts: &Vec<Vec<char>>, alphas: &Vec<u8>, start: usize) -> (r: (
    Vec<HyprColor>,
    Option<(Angle, usize)>,
))
    ensures
        (r.0@, match r.1 {
            Some((a, k)) => Some((a, k as int)),
            None => None,
        }) == scan_colors(views(parts@), alphas@, start as int, Seq::empty()),
        r.1 matches Some((_, k)) ==> start <= k < parts.len(),
{
    let ghost ps = views(parts@);
    let mut colors: Vec<HyprColor> = Vec::new();
    let mut k: usize = start;
    while k < parts.len()
        invariant
            ps == views(parts@),
            start <= k || parts.len() <= start,
            scan_colors(ps, alphas@, start as int, Seq::empty()) == scan_colors(ps, alphas@, k as int, colors@),
        decreases parts.len() - k,
    {
        let part = string_of(&parts[k]);
        proof {
            assert(ps[k as int] == part@);
        }
        match Angle::from_str(part.as_str()) {
            Ok(angle) => {
                return (colors, Some((angle, k)));
            },
            Err(_) => {
                let a: u8 = if k < alphas.len() {
                    alphas[k]
                } else {
                    0
                };
                match HyprColor::from_str_with_alpha(part.as_str(), a) {
                    Ok(c) => {
                        colors.push(c);
                    },
                    Err(_) => {},
                }
            },
        }
        k += 1;
    }
    (colors, None)
}

/// Adds a copy of the only colour, if there is just one.
pub(crate) fn double_single(cs: &mut Vec<HyprColor>)
    ensures
        final(cs)@ == doubled(old(cs)@),
{
    if cs.len() == 1 {
        let c = cs[0];
        cs.push(c);
    }
}

/// The views of a sequence of strings.
pub open spec fn string_views(p: Seq<String>) -> Seq<Seq<char>> {
    p.map_values(|x: String| x@)
}

/// The texts of the colours `cs`, colour `i` written with alpha text `texts[i]`.
pub open spec fn color_texts(cs: Seq<HyprColor>, texts: Seq<Seq<char>>) -> Seq<Seq<char>> {
    Seq::new(cs.len(), |i: int| cs[i].spec_to_string_with_alpha(texts[i]))
}

/// Appends the colours of `cs`, separated by spaces, colour `i` written with
/// alpha text `texts[offset + i]`.
pub(crate) fn push_colors(r: &mut String, cs: &Vec<HyprColor>, texts: &Vec<String>, offset: usize)
    requires
        offset + cs.len() <= texts.len(),
    ensures
        final(r)@ == old(r)@ + join_with(
            color_texts(cs@, string_views(texts@).subrange(offset as int, offset + cs.len())),
            ' ',
        ),
{
    let ghost r0 = r@;
    let ghost ws = color_texts(cs@, string_views(texts@).subrange(offset as int, offset + cs.len()));
    let mut k: usize = 0;
    proof {
        assert(ws.subrange(0, 0) =~= Seq::<Seq<char>>::empty());
        assert(r0 + join_with(Seq::<Seq<char>>::empty(), ' ') =~= r0);
    }
    while k < cs.len()
        invariant
            k <= cs.len(),
            offset + cs.len() <= texts.len(),
            ws == color_texts(cs@, string_views(texts@).subrange(offset as int, offset + cs.len())),
            r@ == r0 + join_with(ws.subrange(0, k as int), ' '),
        decreases cs.len() - k,
    {
        if k > 0 {
            push_char(r, ' ');
        }
        let t = cs[k].to_string_with_alpha(texts[offset + k].as_str());
        push_str(r, t.as_str());
        proof {
            let w1 = ws.subrange(0, k + 1);
            assert(w1.drop_last() =~= ws.subrange(0, k as int));
            assert(w1.last() == t@);
            if k == 0 {
                assert(join_with(w1, ' ') == w1[0]);
                assert(r@ =~= r0 + join_with(w1, ' '));
            } else {
                assert(r@ =~= r0 + join_with(w1, ' '));
            }
        }
        k += 1;
    }
    proof {
        assert(ws.subrange(0, cs.len() as int) =~= ws);
    }
}

impl HyprGradient {
    /// What `from_str_with_alphas` reads: the words of the trimmed text,
    /// scanned for colours up to the first angle. Without an angle, no colour
    /// gives two default colours and one colour is doubled.
    pub open spec fn spec_from_str_with_alphas(s: Seq<char>, alphas: Seq<u8>) -> Result<(Seq<HyprColor>, Option<Angle>), ()> {
        if trim(s).len() == 0 {
            Err(())
        } else {
            let (cs, a) = scan_colors(words(trim(s)), alphas, 0, Seq::empty());
            match a {
                Some((angle, _)) => Ok((cs, Some(angle))),
                None => if cs.len() == 0 {
                    Ok((seq![HyprColor::Rgb(0, 0, 0), HyprColor::Rgb(0, 0, 0)], None))
                } else {
                    Ok((doubled(cs), None))
                },
            }
        }
    }

    /// Reads a gradient, taking `alphas[i]` for a fractional alpha in word `i`.
    pub fn from_str_with_alphas(s: &str, alphas: &Vec<u8>) -> (r: Result<HyprGradient, ()>)
        ensures
            r is Ok <==> Self::spec_from_str_with_alphas(s@, alphas@) is Ok,
            r is Ok ==> r->Ok_0@ == Self::spec_from_str_with_alphas(s@, alphas@)->Ok_0,
    {
        let t = trimmed(s);
        if t.len() == 0 {
            return Err(());
        }
        let parts = words_of(&t);
        let (mut colors, found) = scan_parts(&parts, alphas, 0);
        match found {
            Some((angle, _)) => Ok(HyprGradient { colors, angle: Some(angle) }),
            None => {
                if colors.len() == 0 {
                    colors.push(HyprColor::default());
                    colors.push(HyprColor::default());
                    proof {
                        assert(colors@ =~= seq![HyprColor::Rgb(0, 0, 0), HyprColor::Rgb(0, 0, 0)]);
                    }
                } else {
                    double_single(&mut colors);
                }
                Ok(HyprGradient { colors, angle: None })
            },
        }
    }
    /// What `to_string_with_alphas` writes: the colours separated by spaces,
    /// colour `i` with alpha text `texts[i]`, then a space and the angle, if
    /// there is one.
    pub open spec fn spec_to_string_with_alphas(g: (Seq<HyprColor>, Option<Angle>), texts: Seq<Seq<char>>) -> Seq<char> {
        let j = join_with(color_texts(g.0, texts), ' ');
        match g.1 {
            Some(a) => j + seq![' '] + a.spec_to_string(),
            None => j,
        }
    }

    /// Writes the gradient, colour `i` with alpha text `alpha_texts[i]`.
    pub fn to_string_with_alphas(&self, alpha_texts: &Vec<String>) -> (r: String)
        requires
            alpha_texts.len() == self.colors.len(),
        ensures
            r@ == Self::spec_to_string_with_alphas(self@, string_views(alpha_texts@)),
    {
        let mut r = String::new();
        push_colors(&mut r, &self.colors, alpha_texts, 0);
        proof {
            assert(string_views(alpha_texts@).subrange(0, self.colors.len() as int) =~= string_views(alpha_texts@));
        }
        match self.angle {
            Some(a) => {
                push_char(&mut r, ' ');
                let t = a.to_string();
                push_str(&mut r, t.as_str());
            },
            None => {},
        }
        proof {
            assert(r@ =~= Self::spec_to_string_with_alphas(self@, string_views(alpha_texts@)));
        }
        r
    }
}

/// An alpha text that a written colour can carry and give back: ASCII,
/// without commas and without whitespace.
pub open spec fn is_alpha_text(t: Seq<char>) -> bool {
    all_ascii(t) && !t.contains(',') && no_ws(t)
}

/// `alphas` holds, at index `offset + i` for each `rgba` colour `cs[i]`, its alpha.
pub open spec fn alphas_of(cs: Seq<HyprColor>, alphas: Seq<u8>, offset: int) -> bool {
    forall|i: int| 0 <= i < cs.len() ==> match #[trigger] cs[i] {
        HyprColor::Rgba(_, _, _, a) => alpha_at(alphas, offset + i) == a,
        HyprColor::Rgb(_, _, _) => true,
    }
}

/// A colour written with an alpha text as above is one word that starts
/// with `r` and ends with `)`, is no angle, and reads back as itself when a
/// fractional alpha stands for the colour's alpha.
pub proof fn lemma_color_word(c: HyprColor, t: Seq<char>, a: u8)
    requires
        is_alpha_text(t),
        c is Rgba ==> c->3 == a,
    ensures
        is_word(c.spec_to_string_with_alpha(t)),
        c.spec_to_string_with_alpha(t)[0] == 'r',
        c.spec_to_string_with_alpha(t).last() == ')',
        Angle::spec_from_str(c.spec_to_string_with_alpha(t)) is Err,
        HyprColor::spec_from_str_with_alpha(c.spec_to_string_with_alpha(t), a) == Ok::<HyprColor, ()>(c),
{
    reveal_strlit("rgb(");
    reveal_strlit("rgba(");
    reveal_strlit(")");
    reveal_strlit("deg");
    let w = c.spec_to_string_with_alpha(t);
    let comma = seq![','];
    assert(no_ws(comma)) by {
        assert(comma[0] == ',');
    }
    assert(no_ws(")"@)) by {
        assert(")"@[0] == ')');
    }
    match c {
        HyprColor::Rgb(r, g, b) => {
            let dr = decimal(r as nat);
            let dg = decimal(g as nat);
            let db = decimal(b as nat);
            lemma_decimal_chars(r as nat);
            lemma_decimal_chars(g as nat);
            lemma_decimal_chars(b as nat);
            lemma_join3(dr, dg, db, ',');
            assert(no_ws("rgb("@)) by {
                assert forall|i: int| 0 <= i < 4 implies !is_ws(#[trigger] "rgb("@[i]) by {}
            }
            lemma_no_ws_concat("rgb("@, dr);
            lemma_no_ws_concat("rgb("@ + dr, comma);
            lemma_no_ws_concat("rgb("@ + dr + comma, dg);
            lemma_no_ws_concat("rgb("@ + dr + comma + dg, comma);
            lemma_no_ws_concat("rgb("@ + dr + comma + dg + comma, db);
            lemma_no_ws_concat("rgb("@ + dr + comma + dg + comma + db, ")"@);
            assert(w =~= "rgb("@ + dr + comma + dg + comma + db + ")"@);
            HyprColor::lemma_parse_rgb_string(r, g, b, t);
        },
        HyprColor::Rgba(r, g, b, _) => {
            let dr = decimal(r as nat);
            let dg = decimal(g as nat);
            let db = decimal(b as nat);
            lemma_decimal_chars(r as nat);
            lemma_decimal_chars(g as nat);
            lemma_decimal_chars(b as nat);
            lemma_join4(dr, dg, db, t, ',');
            assert(no_ws("rgba("@)) by {
                assert forall|i: int| 0 <= i < 5 implies !is_ws(#[trigger] "rgba("@[i]) by {}
            }
            lemma_no_ws_concat("rgba("@, dr);
            lemma_no_ws_concat("rgba("@ + dr, comma);
            lemma_no_ws_concat("rgba("@ + dr + comma, dg);
            lemma_no_ws_concat("rgba("@ + dr + comma + dg, comma);
            lemma_no_ws_concat("rgba("@ + dr + comma + dg + comma, db);
            lemma_no_ws_concat("rgba("@ + dr + comma + dg + comma + db, comma);
            lemma_no_ws_concat("rgba("@ + dr + comma + dg + comma + db + comma, t);
            lemma_no_ws_concat("rgba("@ + dr + comma + dg + comma + db + comma + t, ")"@);
            assert(w =~= "rgba("@ + dr + comma + dg + comma + db + comma + t + ")"@);
            HyprColor::lemma_parse_rgba_string(r, g, b, a, t);
        },
    }
    lemma_no_ws_trim(w);
    assert(w.subrange(w.len() - 3, w.len() as int) != "deg"@) by {
        assert(w.subrange(w.len() - 3, w.len() as int)[2] == w.last());
    }
}

/// An angle is written as one word.
pub proof fn lemma_angle_word(a: Angle)
    ensures
        is_word(a.spec_to_string()),
        a.spec_to_string()[0] != ' ',
{
    reveal_strlit("deg");
    match a {
        Angle::Degrees(d) => {
            lemma_decimal_chars(d as nat);
            assert(no_ws("deg"@)) by {
                assert forall|i: int| 0 <= i < 3 implies !is_ws(#[trigger] "deg"@[i]) by {}
            }
            lemma_no_ws_concat(decimal(d as nat), "deg"@);
        },
    }
}

/// Scanning the written colours of `cs`, after the parts `pre` and before
/// any parts, reads each colour back in turn.
pub proof fn lemma_scan_written(
    pre: Seq<Seq<char>>,
    cs: Seq<HyprColor>,
    texts: Seq<Seq<char>>,
    alphas: Seq<u8>,
    rest: Seq<Seq<char>>,
    i: int,
)
    requires
        texts.len() == cs.len(),
        forall|k: int| 0 <= k < texts.len() ==> is_alpha_text(#[trigger] texts[k]),
        alphas_of(cs, alphas, pre.len() as int),
        0 <= i <= cs.len(),
    ensures
        scan_colors(pre + color_texts(cs, texts) + rest, alphas, pre.len() + i, cs.subrange(0, i))
            == scan_colors(pre + color_texts(cs, texts) + rest, alphas, (pre.len() + cs.len()) as int, cs),
    decreases cs.len() - i,
{
    if i < cs.len() {
        let parts = pre + color_texts(cs, texts) + rest;
        let j = pre.len() + i;
        assert(parts[j] == cs[i].spec_to_string_with_alpha(texts[i]));
        assert(is_alpha_text(texts[i]));
        let a = alpha_at(alphas, j);
        assert(cs[i] is Rgba ==> cs[i]->3 == a) by {
            assert(alphas_of(cs, alphas, pre.len() as int));
            match cs[i] {
                HyprColor::Rgba(_, _, _, x) => {},
                HyprColor::Rgb(_, _, _) => {},
            }
        }
        lemma_color_word(cs[i], texts[i], a);
        assert(cs.subrange(0, i).push(cs[i]) =~= cs.subrange(0, i + 1));
        lemma_scan_written(pre, cs, texts, alphas, rest, i + 1);
    } else {
        assert(cs.subrange(0, i) =~= cs);
    }
}

impl HyprGradient {
    /// What `to_string_with_alphas` writes is, word by word, each colour in
    /// order (colour `i` with alpha text `texts[i]`), then the angle if there
    /// is one.
    pub proof fn lemma_written_words(g: (Seq<HyprColor>, Option<Angle>), texts: Seq<Seq<char>>)
        requires
            texts.len() == g.0.len(),
            forall|k: int| 0 <= k < texts.len() ==> is_alpha_text(#[trigger] texts[k]),
        ensures
            words(Self::spec_to_string_with_alphas(g, texts)).len() == g.0.len() + (if g.1 is Some {
                1int
            } else {
                0int
            }),
            forall|i: int|
                0 <= i < g.0.len() ==> #[trigger] words(Self::spec_to_string_with_alphas(g, texts))[i]
                    == g.0[i].spec_to_string_with_alpha(texts[i]),
            g.1 matches Some(a) ==> words(Self::spec_to_string_with_alphas(g, texts))[g.0.len() as int]
                == a.spec_to_string(),
    {
        let cs = g.0;
        let ws = color_texts(cs, texts);
        let s = Self::spec_to_string_with_alphas(g, texts);
        assert forall|k: int| 0 <= k < ws.len() implies is_word(#[trigger] ws[k]) by {
            lemma_color_word(cs[k], texts[k], match cs[k] {
                HyprColor::Rgba(_, _, _, x) => x,
                HyprColor::Rgb(_, _, _) => 0u8,
            });
        }
        match g.1 {
            Some(a) => {
                let at = a.spec_to_string();
                lemma_angle_word(a);
                let parts = ws.push(at);
                if ws.len() == 0 {
                    assert(s =~= Seq::<char>::empty() + seq![' '] + at);
                    lemma_words_append(Seq::<char>::empty(), at);
                    assert(words(Seq::<char>::empty()) =~= Seq::<Seq<char>>::empty());
                    assert(words(s) =~= parts);
                } else {
                    assert(s == join_with(parts, ' ')) by {
                        assert(parts.drop_last() =~= ws);
                    }
                    assert forall|k: int| 0 <= k < parts.len() implies is_word(#[trigger] parts[k]) by {
                        if k < ws.len() {
                            assert(parts[k] == ws[k]);
                        }
                    }
                    lemma_words_join(parts);
                }
                assert(words(s) == parts);
            },
            None => {
                lemma_words_join(ws);
            },
        }
    }


    /// Words that are neither angles nor colours add nothing to a scan.
    proof fn lemma_scan_none(parts: Seq<Seq<char>>, alphas: Seq<u8>, i: int, acc: Seq<HyprColor>)
        requires
            0 <= i,
            forall|k: int|
                i <= k < parts.len() ==> Angle::spec_from_str(#[trigger] parts[k]) is Err
                    && HyprColor::spec_from_str_with_alpha(parts[k], alpha_at(alphas, k)) is Err,
        ensures
            scan_colors(parts, alphas, i, acc) == (acc, None::<(Angle, int)>),
        decreases parts.len() - i,
    {
        if i < parts.len() {
            assert(Angle::spec_from_str(parts[i]) is Err);
            Self::lemma_scan_none(parts, alphas, i + 1, acc);
        }
    }

    /// A text with no colour and no angle among its words reads as two black
    /// colours; a text of a single colour reads as that colour twice.
    pub proof fn lemma_defaults(s: Seq<char>, alphas: Seq<u8>, c: HyprColor)
        ensures
            trim(s).len() > 0 && (forall|k: int|
                0 <= k < words(trim(s)).len() ==> Angle::spec_from_str(#[trigger] words(trim(s))[k]) is Err
                    && HyprColor::spec_from_str_with_alpha(words(trim(s))[k], alpha_at(alphas, k)) is Err)
                ==> Self::spec_from_str_with_alphas(s, alphas) == Ok::<(Seq<HyprColor>, Option<Angle>), ()>(
                (seq![HyprColor::Rgb(0, 0, 0), HyprColor::Rgb(0, 0, 0)], None),
            ),
            words(trim(s)).len() == 1 && Angle::spec_from_str(words(trim(s))[0]) is Err
                && HyprColor::spec_from_str_with_alpha(words(trim(s))[0], alpha_at(alphas, 0)) == Ok::<HyprColor, ()>(c)
                ==> Self::spec_from_str_with_alphas(s, alphas) == Ok::<(Seq<HyprColor>, Option<Angle>), ()>(
                (seq![c, c], None),
            ),
    {
        let w = words(trim(s));
        if trim(s).len() > 0 && (forall|k: int|
            0 <= k < w.len() ==> Angle::spec_from_str(#[trigger] w[k]) is Err
                && HyprColor::spec_from_str_with_alpha(w[k], alpha_at(alphas, k)) is Err) {
            Self::lemma_scan_none(w, alphas, 0, Seq::empty());
        }
        if w.len() == 1 && Angle::spec_from_str(w[0]) is Err && HyprColor::spec_from_str_with_alpha(w[0], alpha_at(alphas, 0))
            == Ok::<HyprColor, ()>(c) {
            assert(trim(s).len() > 0) by {
                if trim(s).len() == 0 {
                    assert(words(trim(s)) =~= Seq::<Seq<char>>::empty());
                }
            }
            Self::lemma_scan_none(w, alphas, 1, seq![c]);
            assert(seq![c].push(c) =~= seq![c, c]);
        }
    }


    /// Reading back what `to_string_with_alphas` writes gives the same
    /// gradient, when each alpha text is ASCII without commas or whitespace
    /// and `alphas` holds the alpha of each `rgba` colour at its index. A
    /// gradient without an angle needs two colours or more: one colour reads
    /// back doubled, none not at all.
    pub proof fn lemma_from_str_to_string(g: (Seq<HyprColor>, Option<Angle>), texts: Seq<Seq<char>>, alphas: Seq<u8>)
        requires
            texts.len() == g.0.len(),
            forall|k: int| 0 <= k < texts.len() ==> is_alpha_text(#[trigger] texts[k]),
            alphas_of(g.0, alphas, 0),
            g.1 is Some || g.0.len() >= 2,
        ensures
            Self::spec_from_str_with_alphas(Self::spec_to_string_with_alphas(g, texts), alphas) == Ok::<
                (Seq<HyprColor>, Option<Angle>),
                (),
            >(g),
    {
        let cs = g.0;
        let ws = color_texts(cs, texts);
        let s = Self::spec_to_string_with_alphas(g, texts);
        assert forall|k: int| 0 <= k < ws.len() implies is_word(#[trigger] ws[k]) && ws[k][0] == 'r' && ws[k].last() == ')' by {
            lemma_color_word(cs[k], texts[k], match cs[k] {
                HyprColor::Rgba(_, _, _, x) => x,
                HyprColor::Rgb(_, _, _) => 0u8,
            });
        }
        match g.1 {
            Some(a) => {
                let at = a.spec_to_string();
                lemma_angle_word(a);
                Angle::lemma_from_str_to_string(a);
                let parts = ws.push(at);
                if ws.len() == 0 {
                    assert(s =~= Seq::<char>::empty() + seq![' '] + at);
                    lemma_words_append(Seq::<char>::empty(), at);
                    assert(words(Seq::<char>::empty()) =~= Seq::<Seq<char>>::empty());
                    assert(trim(s) == at) by {
                        assert(s.drop_first() =~= at);
                        assert(crate::text::trim_start(s) == crate::text::trim_start(at));
                        lemma_no_ws_trim(at);
                        assert(crate::text::trim_start(at) == at) by {
                            assert(!is_ws(at[0]));
                        }
                    }
                    lemma_words_single(at);
                    assert(seq![at] =~= parts);
                } else {
                    assert(s == join_with(parts, ' ')) by {
                        assert(parts.drop_last() =~= ws);
                    }
                    assert forall|k: int| 0 <= k < parts.len() implies is_word(#[trigger] parts[k]) by {
                        if k < ws.len() {
                            assert(parts[k] == ws[k]);
                        }
                    }
                    lemma_words_join(parts);
                    assert forall|k: int| 0 <= k < parts.len() implies (#[trigger] parts[k]).len() > 0 by {
                        assert(is_word(parts[k]));
                    }
                    lemma_join_ends(parts, ' ');
                    assert(parts[0] == ws[0]);
                    assert(!is_ws(s[0]));
                    assert(!is_ws(s.last())) by {
                        assert(s.last() == at.last());
                        assert(at.last() == at[at.len() - 1]);
                    }
                    lemma_trim_ends(s);
                }
                assert(words(trim(s)) == parts);
                assert(parts =~= Seq::<Seq<char>>::empty() + ws + seq![at]);
                lemma_scan_written(Seq::empty(), cs, texts, alphas, seq![at], 0);
                assert(cs.subrange(0, 0) =~= Seq::<HyprColor>::empty());
                assert((ws + seq![at])[cs.len() as int] == at);
            },
            None => {
                assert(s == join_with(ws, ' '));
                lemma_words_join(ws);
                assert forall|k: int| 0 <= k < ws.len() implies (#[trigger] ws[k]).len() > 0 by {
                    assert(is_word(ws[k]));
                }
                lemma_join_ends(ws, ' ');
                assert(!is_ws(s[0]));
                assert(!is_ws(s.last())) by {
                    assert(ws.last() == ws[ws.len() - 1]);
                    assert(ws.last().last() == ')');
                }
                lemma_trim_ends(s);
                assert(Seq::<Seq<char>>::empty() + ws + Seq::<Seq<char>>::empty() =~= ws);
                lemma_scan_written(Seq::empty(), cs, texts, alphas, Seq::empty(), 0);
                assert(cs.subrange(0, 0) =~= Seq::<HyprColor>::empty());
            },
        }
    }
}

} // verus!
