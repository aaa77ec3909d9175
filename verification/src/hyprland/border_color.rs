//! The colour of a window border: one colour, a gradient, or a pair of
//! either for active and inactive windows, written with parts separated by
//! single spaces, like `rgb(255,0,0) rgb(0,0,255) 45deg`.
//!
//! As for gradients, reading takes `alphas[i]` for a fractional alpha in
//! part `i`, and writing takes the alpha text of each colour, in the order in
//! which the colours are written.
use vstd::prelude::*;
use super::angle::Angle;
use super::hypr_color::HyprColor;
use super::hypr_gradient::{alpha_at, alphas_of, color_texts, doubled, double_single, is_alpha_text, lemma_angle_word, lemma_color_word, lemma_scan_written, push_colors, scan_colors, scan_parts, string_views, HyprGradient};
use crate::text::{is_word, is_ws, join_with, lemma_join_concat, lemma_join_ends, lemma_no_ws_trim, lemma_split_append, lemma_split_join, lemma_split_single, lemma_trim_ends, lemma_trim_space_prefix, push_char, push_str, split, split_chars, string_of, trim, trimmed, views};

verus! {

#[derive(Debug, Clone, PartialEq)]
pub enum BorderColor {
    Color(HyprColor),
    Gradient(Vec<HyprColor>, Angle),
    DoubleColor(HyprColor, HyprColor),
    DoubleGradient(Vec<HyprColor>, Angle, Vec<HyprColor>, Option<Angle>),
}

/// A `BorderColor` with its colour lists as sequences.
pub enum BorderColorView {
    Color(HyprColor),
    Gradient(Seq<HyprColor>, Angle),
    DoubleColor(HyprColor, HyprColor),
    DoubleGradient(Seq<HyprColor>, Angle, Seq<HyprColor>, Option<Angle>),
}

impl View for BorderColor {
    type V = BorderColorView;

    open spec fn view(&self) -> BorderColorView {
        match self {
            BorderColor::Color(c) => BorderColorView::Color(*c),
            BorderColor::Gradient(cs, a) => BorderColorView::Gradient(cs@, *a),
            BorderColor::DoubleColor(c1, c2) => BorderColorView::DoubleColor(*c1, *c2),
            BorderColor::DoubleGradient(cs1, a1, cs2, a2) => BorderColorView::DoubleGradient(cs1@, *a1, cs2@, *a2),
        }
    }
}

impl Default for BorderColor {
    fn default() -> (r: Self)
        ensures
            r@ == BorderColorView::Color(HyprColor::Rgb(0, 0, 0)),
    {
        BorderColor::Color(HyprColor::default())
    }
}

/// The colour that `p` stands for, black where it is none.
pub open spec fn color_or_default(p: Seq<char>, a: u8) -> HyprColor {
    match HyprColor::spec_from_str_with_alpha(p, a) {
        Ok(c) => c,
        Err(_) => HyprColor::Rgb(0, 0, 0),
    }
}

fn color_or_default_exec(p: &Vec<char>, a: u8) -> (r: HyprColor)
    ensures
        r == color_or_default(p@, a),
{
    let t = string_of(p);
    match HyprColor::from_str_with_alpha(t.as_str(), a) {
        Ok(c) => c,
        Err(_) => HyprColor::default(),
    }
}

fn alpha_of(alphas: &Vec<u8>, i: usize) -> (r: u8)
    ensures
        r == alpha_at(alphas@, i as int),
{
    if i < alphas.len() {
        alphas[i]
    } else {
        0
    }
}

impl BorderColorView {
    /// The colours in the order in which they are written.
    pub open spec fn colors(self) -> Seq<HyprColor> {
        match self {
            BorderColorView::Color(c) => seq![c],
            BorderColorView::Gradient(cs, _) => cs,
            BorderColorView::DoubleColor(c1, c2) => seq![c1, c2],
            BorderColorView::DoubleGradient(cs1, _, cs2, _) => cs1 + cs2,
        }
    }
}

impl BorderColor {
    pub const SEPARATOR: char = ' ';

    /// What `from_str_with_alphas` reads from the parts of the trimmed text
    /// between single spaces. One part is a colour (black where it is none).
    /// Two parts are a colour and an angle, read as a gradient of that colour
    /// twice, or two colours. Three or more are scanned for colours up to the
    /// first angle (of 0 degrees, at index 0, where there is none); a single
    /// colour is doubled. If that angle ends the text, they are a gradient;
    /// otherwise the parts after the angle are scanned in the same way for a
    /// second gradient with an optional angle.
    pub open spec fn spec_from_str_with_alphas(s: Seq<char>, alphas: Seq<u8>) -> Result<BorderColorView, ()> {
        let t = trim(s);
        if t.len() == 0 {
            Err(())
        } else {
            let parts = split(t, ' ');
            if parts.len() == 1 {
                Ok(BorderColorView::Color(color_or_default(parts[0], alpha_at(alphas, 0))))
            } else if parts.len() == 2 {
                let c1 = color_or_default(parts[0], alpha_at(alphas, 0));
                match Angle::spec_from_str(parts[1]) {
                    Ok(a) => Ok(BorderColorView::Gradient(seq![c1, c1], a)),
                    Err(_) => Ok(BorderColorView::DoubleColor(c1, color_or_default(parts[1], alpha_at(alphas, 1)))),
                }
            } else {
                let (first, found) = scan_colors(parts, alphas, 0, Seq::empty());
                let (angle, idx) = match found {
                    Some((a, k)) => (a, k),
                    None => (Angle::Degrees(0), 0),
                };
                if idx == parts.len() - 1 {
                    Ok(BorderColorView::Gradient(doubled(first), angle))
                } else {
                    let (second, found2) = scan_colors(parts, alphas, idx + 1, Seq::empty());
                    Ok(
                        BorderColorView::DoubleGradient(
                            doubled(first),
                            angle,
                            doubled(second),
                            match found2 {
                                Some((a, _)) => Some(a),
                                None => None,
                            },
                        ),
                    )
                }
            }
        }
    }

    /// Reads a border colour, taking `alphas[i]` for a fractional alpha in part `i`.
    pub fn from_str_with_alphas(s: &str, alphas: &Vec<u8>) -> (r: Result<BorderColor, ()>)
        ensures
            r is Ok <==> Self::spec_from_str_with_alphas(s@, alphas@) is Ok,
            r is Ok ==> r->Ok_0@ == Self::spec_from_str_with_alphas(s@, alphas@)->Ok_0,
    {
        let t = trimmed(s);
        if t.len() == 0 {
            return Err(());
        }
        let parts = split_chars(&t, Self::SEPARATOR);
        proof {
            assert(views(parts@).len() == parts@.len());
            crate::text::lemma_split_len(t@, ' ');
        }
        if parts.len() == 1 {
            Ok(BorderColor::Color(color_or_default_exec(&parts[0], alpha_of(alphas, 0))))
        } else if parts.len() == 2 {
            let c1 = color_or_default_exec(&parts[0], alpha_of(alphas, 0));
            let p1 = string_of(&parts[1]);
            match Angle::from_str(p1.as_str()) {
                Ok(a) => {
                    let r = BorderColor::Gradient(vec![c1, c1], a);
                    proof {
                        assert(r@ == BorderColorView::Gradient(seq![c1, c1], a));
                    }
                    Ok(r)
                },
                Err(_) => Ok(BorderColor::DoubleColor(c1, color_or_default_exec(&parts[1], alpha_of(alphas, 1)))),
            }
        } else {
            let (mut first, found) = scan_parts(&parts, alphas, 0);
            let (angle, idx) = match found {
                Some((a, k)) => (a, k),
                None => (Angle::default(), 0),
            };
            double_single(&mut first);
            if idx == parts.len() - 1 {
                Ok(BorderColor::Gradient(first, angle))
            } else {
                let (mut second, found2) = scan_parts(&parts, alphas, idx + 1);
                double_single(&mut second);
                let angle2 = match found2 {
                    Some((a, _)) => Some(a),
                    None => None,
                };
                Ok(BorderColor::DoubleGradient(first, angle, second, angle2))
            }
        }
    }
    /// What `to_string_with_alphas` writes, the colours taking their alpha
    /// texts from `texts` in the order in which they are written, the parts
    /// separated by spaces: a colour; a gradient's colours and angle; two
    /// colours; or the colours and angle of the first gradient, then the
    /// colours of the second and its angle, if there is one.
    pub open spec fn spec_to_string_with_alphas(v: BorderColorView, texts: Seq<Seq<char>>) -> Seq<char> {
        match v {
            BorderColorView::Color(c) => c.spec_to_string_with_alpha(texts[0]),
            BorderColorView::Gradient(cs, a) => join_with(color_texts(cs, texts), ' ') + seq![' ']
                + a.spec_to_string(),
            BorderColorView::DoubleColor(c1, c2) => c1.spec_to_string_with_alpha(texts[0]) + seq![' ']
                + c2.spec_to_string_with_alpha(texts[1]),
            BorderColorView::DoubleGradient(cs1, a1, cs2, a2) => {
                let base = join_with(color_texts(cs1, texts), ' ') + seq![' '] + a1.spec_to_string()
                    + seq![' '] + join_with(color_texts(cs2, texts.skip(cs1.len() as int)), ' ');
                match a2 {
                    Some(a) => base + seq![' '] + a.spec_to_string(),
                    None => base,
                }
            },
        }
    }

    /// Writes the border colour, the colours taking their alpha texts from
    /// `alpha_texts` in the order in which they are written.
    pub fn to_string_with_alphas(&self, alpha_texts: &Vec<String>) -> (r: String)
        requires
            alpha_texts.len() == self@.colors().len(),
        ensures
            r@ == Self::spec_to_string_with_alphas(self@, string_views(alpha_texts@)),
    {
        let ghost tv = string_views(alpha_texts@);
        let mut r = String::new();
        match self {
            BorderColor::Color(c) => {
                let t = c.to_string_with_alpha(alpha_texts[0].as_str());
                push_str(&mut r, t.as_str());
            },
            BorderColor::Gradient(cs, a) => {
                push_colors(&mut r, cs, alpha_texts, 0);
                push_char(&mut r, Self::SEPARATOR);
                let t = a.to_string();
                push_str(&mut r, t.as_str());
                proof {
                    assert(color_texts(cs@, tv.subrange(0, cs@.len() as int)) =~= color_texts(cs@, tv));
                }
            },
            BorderColor::DoubleColor(c1, c2) => {
                let t1 = c1.to_string_with_alpha(alpha_texts[0].as_str());
                push_str(&mut r, t1.as_str());
                push_char(&mut r, Self::SEPARATOR);
                let t2 = c2.to_string_with_alpha(alpha_texts[1].as_str());
                push_str(&mut r, t2.as_str());
            },
            BorderColor::DoubleGradient(cs1, a1, cs2, a2) => {
                push_colors(&mut r, cs1, alpha_texts, 0);
                push_char(&mut r, Self::SEPARATOR);
                let t1 = a1.to_string();
                push_str(&mut r, t1.as_str());
                push_char(&mut r, Self::SEPARATOR);
                push_colors(&mut r, cs2, alpha_texts, cs1.len());
                proof {
                    assert(color_texts(cs1@, tv.subrange(0, cs1@.len() as int)) =~= color_texts(cs1@, tv));
                    assert(color_texts(cs2@, tv.subrange(cs1@.len() as int, (cs1@.len() + cs2@.len()) as int))
                        =~= color_texts(cs2@, tv.skip(cs1@.len() as int)));
                }
                match a2 {
                    Some(a) => {
                        push_char(&mut r, Self::SEPARATOR);
                        let t2 = a.to_string();
                        push_str(&mut r, t2.as_str());
                    },
                    None => {},
                }
            },
        }
        proof {
            assert(r@ =~= Self::spec_to_string_with_alphas(self@, tv));
        }
        r
    }
}

impl BorderColorView {
    /// `alphas` holds the alpha of each `rgba` colour at the index of the
    /// part that shows it.
    pub open spec fn alphas_fit(self, alphas: Seq<u8>) -> bool {
        match self {
            BorderColorView::Color(c) => alphas_of(seq![c], alphas, 0),
            BorderColorView::Gradient(cs, _) => alphas_of(cs, alphas, 0),
            BorderColorView::DoubleColor(c1, c2) => alphas_of(seq![c1, c2], alphas, 0),
            BorderColorView::DoubleGradient(cs1, _, cs2, _) => alphas_of(cs1, alphas, 0) && alphas_of(
                cs2,
                alphas,
                cs1.len() + 1int,
            ),
        }
    }

    /// The shapes that read back as themselves: a gradient of two colours or
    /// more; a double gradient whose lists do not hold a single colour and
    /// whose second part is not empty.
    pub open spec fn reads_back(self) -> bool {
        match self {
            BorderColorView::Gradient(cs, _) => cs.len() >= 2,
            BorderColorView::DoubleGradient(cs1, _, cs2, a2) => cs1.len() != 1 && cs2.len() != 1 && (cs2.len()
                > 0 || a2 is Some),
            _ => true,
        }
    }
}

/// The alpha of an `rgba` colour, 0 for an `rgb` one.
pub open spec fn alpha_byte(c: HyprColor) -> u8 {
    match c {
        HyprColor::Rgba(_, _, _, a) => a,
        HyprColor::Rgb(_, _, _) => 0,
    }
}

/// A written colour is a word free of spaces that reads back as itself.
proof fn lemma_single_color(c: HyprColor, t: Seq<char>, alphas: Seq<u8>, i: int)
    requires
        is_alpha_text(t),
        alphas_of(seq![c], alphas, i),
    ensures
        is_word(c.spec_to_string_with_alpha(t)),
        !c.spec_to_string_with_alpha(t).contains(' '),
        c.spec_to_string_with_alpha(t)[0] == 'r',
        c.spec_to_string_with_alpha(t).last() == ')',
        Angle::spec_from_str(c.spec_to_string_with_alpha(t)) is Err,
        color_or_default(c.spec_to_string_with_alpha(t), alpha_at(alphas, i)) == c,
{
    assert(seq![c][0] == c);
    let a = alpha_at(alphas, i);
    assert(c is Rgba ==> c->3 == a) by {
        match c {
            HyprColor::Rgba(_, _, _, x) => {
                assert(alpha_at(alphas, i + 0) == x);
            },
            HyprColor::Rgb(_, _, _) => {},
        }
    }
    lemma_color_word(c, t, a);
    lemma_word_no_space(c.spec_to_string_with_alpha(t));
}

/// A word holds no space.
proof fn lemma_word_no_space(w: Seq<char>)
    requires
        is_word(w),
    ensures
        !w.contains(' '),
{
    if w.contains(' ') {
        let i = choose|i: int| 0 <= i < w.len() && w[i] == ' ';
        assert(!is_ws(w[i]));
    }
}

/// The written colours of a list are words free of spaces.
proof fn lemma_color_texts_words(cs: Seq<HyprColor>, texts: Seq<Seq<char>>)
    requires
        texts.len() == cs.len(),
        forall|k: int| 0 <= k < texts.len() ==> is_alpha_text(#[trigger] texts[k]),
    ensures
        forall|k: int| 0 <= k < cs.len() ==> {
            &&& is_word(#[trigger] color_texts(cs, texts)[k])
            &&& !color_texts(cs, texts)[k].contains(' ')
            &&& color_texts(cs, texts)[k][0] == 'r'
            &&& color_texts(cs, texts)[k].last() == ')'
        },
{
    assert forall|k: int| 0 <= k < cs.len() implies {
        &&& is_word(#[trigger] color_texts(cs, texts)[k])
        &&& !color_texts(cs, texts)[k].contains(' ')
        &&& color_texts(cs, texts)[k][0] == 'r'
        &&& color_texts(cs, texts)[k].last() == ')'
    } by {
        lemma_color_word(cs[k], texts[k], alpha_byte(cs[k]));
        lemma_word_no_space(color_texts(cs, texts)[k]);
    }
}

/// The joined written colours of a nonempty list start with `r` and end with `)`.
proof fn lemma_color_texts_ends(cs: Seq<HyprColor>, texts: Seq<Seq<char>>)
    requires
        cs.len() > 0,
        texts.len() == cs.len(),
        forall|k: int| 0 <= k < texts.len() ==> is_alpha_text(#[trigger] texts[k]),
    ensures
        join_with(color_texts(cs, texts), ' ').len() > 0,
        join_with(color_texts(cs, texts), ' ')[0] == 'r',
        join_with(color_texts(cs, texts), ' ').last() == ')',
{
    let ws = color_texts(cs, texts);
    lemma_color_texts_words(cs, texts);
    assert forall|k: int| 0 <= k < ws.len() implies (#[trigger] ws[k]).len() > 0 by {
        assert(is_word(ws[k]));
    }
    lemma_join_ends(ws, ' ');
    assert(ws.last() == ws[ws.len() - 1]);
}

/// An angle is written as a word free of spaces, starting with a digit and
/// ending with `g`, and reads back as itself.
proof fn lemma_angle_part(a: Angle)
    ensures
        is_word(a.spec_to_string()),
        !a.spec_to_string().contains(' '),
        !is_ws(a.spec_to_string()[0]),
        a.spec_to_string().last() == 'g',
        Angle::spec_from_str(a.spec_to_string()) == Ok::<Angle, ()>(a),
{
    reveal_strlit("deg");
    lemma_angle_word(a);
    lemma_word_no_space(a.spec_to_string());
    Angle::lemma_from_str_to_string(a);
    assert(a.spec_to_string().last() == "deg"@[2]);
}

/// The empty part is neither an angle nor a colour.
proof fn lemma_empty_part()
    ensures
        Angle::spec_from_str(Seq::empty()) is Err,
        forall|a: u8| HyprColor::spec_from_str_with_alpha(Seq::empty(), a) is Err,
{
    assert(trim(Seq::<char>::empty()) =~= Seq::<char>::empty());
    reveal(HyprColor::spec_parse);
}

impl BorderColor {
    /// A border colour is written as a colour, a gradient as
    /// `HyprGradient::to_string_with_alphas` writes it, two colours separated
    /// by a space, or two gradients separated by a space (the second taking
    /// the alpha texts after those of the first).
    pub proof fn lemma_written_as_gradients(v: BorderColorView, texts: Seq<Seq<char>>)
        ensures
            v matches BorderColorView::Color(c) ==> Self::spec_to_string_with_alphas(v, texts)
                == c.spec_to_string_with_alpha(texts[0]),
            v matches BorderColorView::DoubleColor(c1, c2) ==> Self::spec_to_string_with_alphas(v, texts)
                == c1.spec_to_string_with_alpha(texts[0]) + seq![' '] + c2.spec_to_string_with_alpha(texts[1]),
            v matches BorderColorView::Gradient(cs, a) ==> Self::spec_to_string_with_alphas(v, texts)
                == HyprGradient::spec_to_string_with_alphas((cs, Some(a)), texts),
            v matches BorderColorView::DoubleGradient(cs1, a1, cs2, a2) ==> Self::spec_to_string_with_alphas(v, texts)
                == HyprGradient::spec_to_string_with_alphas((cs1, Some(a1)), texts) + seq![' ']
                + HyprGradient::spec_to_string_with_alphas((cs2, a2), texts.skip(cs1.len() as int)),
    {
        match v {
            BorderColorView::DoubleGradient(cs1, a1, cs2, a2) => {
                let j2 = join_with(color_texts(cs2, texts.skip(cs1.len() as int)), ' ');
                match a2 {
                    Some(b) => {
                        assert(Self::spec_to_string_with_alphas(v, texts) =~= HyprGradient::spec_to_string_with_alphas(
                            (cs1, Some(a1)),
                            texts,
                        ) + seq![' '] + HyprGradient::spec_to_string_with_alphas((cs2, a2), texts.skip(cs1.len() as int)));
                    },
                    None => {
                        assert(Self::spec_to_string_with_alphas(v, texts) =~= HyprGradient::spec_to_string_with_alphas(
                            (cs1, Some(a1)),
                            texts,
                        ) + seq![' '] + HyprGradient::spec_to_string_with_alphas((cs2, a2), texts.skip(cs1.len() as int)));
                    },
                }
            },
            _ => {},
        }
    }


    /// A trimmed text without spaces reads as the colour it holds, or black
    /// where it holds none.
    pub proof fn lemma_single_part(s: Seq<char>, alphas: Seq<u8>)
        requires
            trim(s).len() > 0,
            !trim(s).contains(' '),
        ensures
            Self::spec_from_str_with_alphas(s, alphas) == Ok::<BorderColorView, ()>(
                BorderColorView::Color(
                    match HyprColor::spec_from_str_with_alpha(trim(s), alpha_at(alphas, 0)) {
                        Ok(c) => c,
                        Err(_) => HyprColor::Rgb(0, 0, 0),
                    },
                ),
            ),
    {
        lemma_split_single(trim(s), ' ');
    }


    /// A trimmed text of two parts separated by one space reads, when the
    /// second part is an angle, as a gradient of the first colour twice with
    /// that angle, and otherwise as the two colours (black for a part that is
    /// no colour).
    pub proof fn lemma_two_parts(s: Seq<char>, p0: Seq<char>, p1: Seq<char>, alphas: Seq<u8>)
        requires
            trim(s) == p0 + seq![' '] + p1,
            !p0.contains(' '),
            !p1.contains(' '),
        ensures
            ({
                let c0 = match HyprColor::spec_from_str_with_alpha(p0, alpha_at(alphas, 0)) {
                    Ok(c) => c,
                    Err(_) => HyprColor::Rgb(0, 0, 0),
                };
                let c1 = match HyprColor::spec_from_str_with_alpha(p1, alpha_at(alphas, 1)) {
                    Ok(c) => c,
                    Err(_) => HyprColor::Rgb(0, 0, 0),
                };
                Self::spec_from_str_with_alphas(s, alphas) == match Angle::spec_from_str(p1) {
                    Ok(a) => Ok::<BorderColorView, ()>(BorderColorView::Gradient(seq![c0, c0], a)),
                    Err(_) => Ok::<BorderColorView, ()>(BorderColorView::DoubleColor(c0, c1)),
                }
            }),
    {
        lemma_split_single(p0, ' ');
        lemma_split_append(p0, ' ', p1);
        assert(seq![p0].push(p1) =~= seq![p0, p1]);
    }


    /// Parts without an angle end a scan without one.
    proof fn lemma_scan_no_angle(parts: Seq<Seq<char>>, alphas: Seq<u8>, i: int, acc: Seq<HyprColor>)
        requires
            0 <= i,
            forall|k: int| 0 <= k < parts.len() ==> Angle::spec_from_str(#[trigger] parts[k]) is Err,
        ensures
            scan_colors(parts, alphas, i, acc).1 is None,
        decreases parts.len() - i,
    {
        if i < parts.len() {
            assert(Angle::spec_from_str(parts[i]) is Err);
            match HyprColor::spec_from_str_with_alpha(parts[i], alpha_at(alphas, i)) {
                Ok(c) => Self::lemma_scan_no_angle(parts, alphas, i + 1, acc.push(c)),
                Err(_) => Self::lemma_scan_no_angle(parts, alphas, i + 1, acc),
            }
        }
    }

    /// Three parts or more of which none is an angle read as a double
    /// gradient: the colours of all parts with angle 0, then the colours of
    /// the parts from the second on, without angle (a single colour doubled).
    pub proof fn lemma_no_angle(s: Seq<char>, alphas: Seq<u8>)
        requires
            trim(s).len() > 0,
            split(trim(s), ' ').len() >= 3,
            forall|k: int|
                0 <= k < split(trim(s), ' ').len() ==> Angle::spec_from_str(#[trigger] split(trim(s), ' ')[k]) is Err,
        ensures
            Self::spec_from_str_with_alphas(s, alphas) == Ok::<BorderColorView, ()>(
                BorderColorView::DoubleGradient(
                    doubled(scan_colors(split(trim(s), ' '), alphas, 0, Seq::empty()).0),
                    Angle::Degrees(0),
                    doubled(scan_colors(split(trim(s), ' '), alphas, 1, Seq::empty()).0),
                    None,
                ),
            ),
    {
        let parts = split(trim(s), ' ');
        Self::lemma_scan_no_angle(parts, alphas, 0, Seq::empty());
        Self::lemma_scan_no_angle(parts, alphas, 1, Seq::empty());
    }


    /// Reading back what `to_string_with_alphas` writes gives the same border
    /// colour, when each alpha text is ASCII without commas or whitespace,
    /// `alphas` holds the alpha of each `rgba` colour at the index of its part,
    /// and the shape reads back (see `reads_back`): a gradient of one colour
    /// reads back doubled, and one of none, or a double gradient with a list
    /// of one colour, or with nothing after its first angle, does not read
    /// back as itself.
    pub proof fn lemma_from_str_to_string(v: BorderColorView, texts: Seq<Seq<char>>, alphas: Seq<u8>)
        requires
            texts.len() == v.colors().len(),
            forall|k: int| 0 <= k < texts.len() ==> is_alpha_text(#[trigger] texts[k]),
            v.alphas_fit(alphas),
            v.reads_back(),
        ensures
            Self::spec_from_str_with_alphas(Self::spec_to_string_with_alphas(v, texts), alphas) == Ok::<
                BorderColorView,
                (),
            >(v),
    {
        match v {
            BorderColorView::Color(c) => {
                assert(is_alpha_text(texts[0]));
                lemma_single_color(c, texts[0], alphas, 0);
                let w = c.spec_to_string_with_alpha(texts[0]);
                lemma_no_ws_trim(w);
                lemma_split_single(w, ' ');
            },
            BorderColorView::DoubleColor(c1, c2) => {
                assert(is_alpha_text(texts[0]));
                assert(is_alpha_text(texts[1]));
                assert(alphas_of(seq![c1], alphas, 0)) by {
                    assert(seq![c1][0] == seq![c1, c2][0]);
                }
                assert(alphas_of(seq![c2], alphas, 1)) by {
                    assert(seq![c2][0] == seq![c1, c2][1]);
                    assert(alphas_of(seq![c1, c2], alphas, 0));
                    match c2 {
                        HyprColor::Rgba(_, _, _, x) => {
                            assert(alpha_at(alphas, 0int + 1) == x);
                        },
                        HyprColor::Rgb(_, _, _) => {},
                    }
                }
                lemma_single_color(c1, texts[0], alphas, 0);
                lemma_single_color(c2, texts[1], alphas, 1);
                let w1 = c1.spec_to_string_with_alpha(texts[0]);
                let w2 = c2.spec_to_string_with_alpha(texts[1]);
                let s = w1 + seq![' '] + w2;
                assert(s[0] == w1[0]);
                assert(s.last() == w2.last());
                lemma_trim_ends(s);
                lemma_split_single(w1, ' ');
                lemma_split_append(w1, ' ', w2);
                assert(seq![w1].push(w2) =~= seq![w1, w2]);
            },
            BorderColorView::Gradient(cs, a) => {
                Self::lemma_gradient(cs, a, texts, alphas);
            },
            BorderColorView::DoubleGradient(cs1, a1, cs2, a2) => {
                Self::lemma_double_gradient(cs1, a1, cs2, a2, texts, alphas);
            },
        }
    }

    proof fn lemma_gradient(cs: Seq<HyprColor>, a: Angle, texts: Seq<Seq<char>>, alphas: Seq<u8>)
        requires
            texts.len() == cs.len(),
            forall|k: int| 0 <= k < texts.len() ==> is_alpha_text(#[trigger] texts[k]),
            alphas_of(cs, alphas, 0),
            cs.len() >= 2,
        ensures
            Self::spec_from_str_with_alphas(
                Self::spec_to_string_with_alphas(BorderColorView::Gradient(cs, a), texts),
                alphas,
            ) == Ok::<BorderColorView, ()>(BorderColorView::Gradient(cs, a)),
    {
        let ws = color_texts(cs, texts);
        let at = a.spec_to_string();
        let s = Self::spec_to_string_with_alphas(BorderColorView::Gradient(cs, a), texts);
        let parts = ws.push(at);
        lemma_color_texts_words(cs, texts);
        lemma_color_texts_ends(cs, texts);
        lemma_angle_part(a);
        assert(s == join_with(parts, ' ')) by {
            assert(parts.drop_last() =~= ws);
        }
        assert(s[0] == 'r');
        assert(s.last() == at.last());
        lemma_trim_ends(s);
        assert forall|i: int| 0 <= i < parts.len() implies !(#[trigger] parts[i]).contains(' ') by {
            if i < ws.len() {
                assert(parts[i] == ws[i]);
            }
        }
        lemma_split_join(parts, ' ');
        assert(parts =~= Seq::<Seq<char>>::empty() + ws + seq![at]);
        lemma_scan_written(Seq::empty(), cs, texts, alphas, seq![at], 0);
        assert(cs.subrange(0, 0) =~= Seq::<HyprColor>::empty());
        assert(parts[cs.len() as int] == at);
    }

    #[verifier::rlimit(40)]
    proof fn lemma_double_gradient(
        cs1: Seq<HyprColor>,
        a1: Angle,
        cs2: Seq<HyprColor>,
        a2: Option<Angle>,
        texts: Seq<Seq<char>>,
        alphas: Seq<u8>,
    )
        requires
            texts.len() == cs1.len() + cs2.len(),
            forall|k: int| 0 <= k < texts.len() ==> is_alpha_text(#[trigger] texts[k]),
            alphas_of(cs1, alphas, 0),
            alphas_of(cs2, alphas, cs1.len() + 1int),
            cs1.len() != 1,
            cs2.len() != 1,
            cs2.len() > 0 || a2 is Some,
        ensures
            Self::spec_from_str_with_alphas(
                Self::spec_to_string_with_alphas(BorderColorView::DoubleGradient(cs1, a1, cs2, a2), texts),
                alphas,
            ) == Ok::<BorderColorView, ()>(BorderColorView::DoubleGradient(cs1, a1, cs2, a2)),
    {
        let n1 = cs1.len() as int;
        let n2 = cs2.len() as int;
        let t1 = texts.subrange(0, n1);
        let t2 = texts.skip(n1);
        assert forall|k: int| 0 <= k < t1.len() implies is_alpha_text(#[trigger] t1[k]) by {
            assert(t1[k] == texts[k]);
        }
        assert forall|k: int| 0 <= k < t2.len() implies is_alpha_text(#[trigger] t2[k]) by {
            assert(t2[k] == texts[n1 + k]);
        }
        let ws1 = color_texts(cs1, t1);
        let ws2 = color_texts(cs2, t2);
        assert(ws1 =~= color_texts(cs1, texts));
        let at1 = a1.spec_to_string();
        lemma_angle_part(a1);
        lemma_color_texts_words(cs1, t1);
        lemma_color_texts_words(cs2, t2);
        let p2 = if n2 == 0 {
            seq![Seq::<char>::empty()]
        } else {
            ws2
        };
        assert(join_with(p2, ' ') == join_with(ws2, ' ')) by {
            if n2 == 0 {
                assert(ws2 =~= Seq::<Seq<char>>::empty());
            }
        }
        let rest2: Seq<Seq<char>> = match a2 {
            Some(b) => seq![b.spec_to_string()],
            None => Seq::empty(),
        };
        let tail = seq![at1] + p2 + rest2;
        let parts = ws1 + tail;
        let s = Self::spec_to_string_with_alphas(BorderColorView::DoubleGradient(cs1, a1, cs2, a2), texts);
        // the text after the colours of the first gradient
        let jt = at1 + seq![' '] + join_with(ws2, ' ') + match a2 {
            Some(b) => seq![' '] + b.spec_to_string(),
            None => Seq::empty(),
        };
        assert(join_with(tail, ' ') == jt) by {
            lemma_join_concat(seq![at1], p2, ' ');
            assert(join_with(seq![at1], ' ') == at1);
            match a2 {
                Some(b) => {
                    lemma_join_concat(seq![at1] + p2, seq![b.spec_to_string()], ' ');
                    assert(join_with(seq![b.spec_to_string()], ' ') == b.spec_to_string());
                },
                None => {
                    assert(seq![at1] + p2 + Seq::<Seq<char>>::empty() =~= seq![at1] + p2);
                },
            }
        }
        assert(!is_ws(jt[0])) by {
            assert(jt[0] == at1[0]);
        }
        assert(!is_ws(jt.last())) by {
            match a2 {
                Some(b) => {
                    lemma_angle_part(b);
                    assert(jt.last() == b.spec_to_string().last());
                },
                None => {
                    lemma_color_texts_ends(cs2, t2);
                    assert(jt.last() == join_with(ws2, ' ').last());
                },
            }
        }
        assert(s == join_with(ws1, ' ') + seq![' '] + jt) by {
            assert(s =~= join_with(ws1, ' ') + seq![' '] + jt);
        }
        // the trimmed text is the parts joined by spaces
        assert(trim(s) == join_with(parts, ' ')) by {
            if n1 == 0 {
                assert(ws1 =~= Seq::<Seq<char>>::empty());
                assert(parts =~= tail);
                assert(s =~= seq![' '] + jt);
                lemma_trim_space_prefix(jt);
            } else {
                lemma_join_concat(ws1, tail, ' ');
                lemma_color_texts_ends(cs1, t1);
                assert(s[0] == 'r');
                assert(s.last() == jt.last());
                lemma_trim_ends(s);
            }
        }
        assert forall|i: int| 0 <= i < parts.len() implies !(#[trigger] parts[i]).contains(' ') by {
            if i < n1 {
                assert(parts[i] == ws1[i]);
            } else if i == n1 {
                assert(parts[i] == at1);
            } else if i < n1 + 1 + p2.len() {
                assert(parts[i] == p2[i - n1 - 1]);
                if n2 > 0 {
                    assert(p2[i - n1 - 1] == ws2[i - n1 - 1]);
                } else {
                    assert(p2[i - n1 - 1] =~= Seq::<char>::empty());
                }
            } else {
                match a2 {
                    Some(b) => {
                        lemma_angle_part(b);
                        assert(parts[i] == b.spec_to_string());
                    },
                    None => {},
                }
            }
        }
        lemma_split_join(parts, ' ');
        assert(parts.len() >= 3);
        // the first gradient
        assert(parts =~= Seq::<Seq<char>>::empty() + ws1 + tail);
        lemma_scan_written(Seq::empty(), cs1, t1, alphas, tail, 0);
        assert(cs1.subrange(0, 0) =~= Seq::<HyprColor>::empty());
        assert(parts[n1] == at1);
        assert(scan_colors(parts, alphas, 0, Seq::empty()) == (cs1, Some((a1, n1))));
        assert(n1 != parts.len() - 1);
        assert(doubled(cs1) == cs1);
        assert(doubled(cs2) == cs2);
        // the second gradient
        if n2 == 0 {
            lemma_empty_part();
            assert(parts[n1 + 1] =~= Seq::<char>::empty());
            match a2 {
                Some(b) => {
                    lemma_angle_part(b);
                    assert(parts[n1 + 2] == b.spec_to_string());
                    assert(scan_colors(parts, alphas, n1 + 2, Seq::empty()) == (
                        Seq::<HyprColor>::empty(),
                        Some((b, n1 + 2)),
                    ));
                    assert(cs2 =~= Seq::<HyprColor>::empty());
                },
                None => {},
            }
        } else {
            let pre2 = ws1 + seq![at1];
            assert(parts =~= pre2 + ws2 + rest2);
            lemma_scan_written(pre2, cs2, t2, alphas, rest2, 0);
            assert(cs2.subrange(0, 0) =~= Seq::<HyprColor>::empty());
            match a2 {
                Some(b) => {
                    lemma_angle_part(b);
                    assert(parts[n1 + 1 + n2] == b.spec_to_string());
                },
                None => {
                    assert(parts.len() == n1 + 1 + n2);
                },
            }
        }
    }
}

} // verus!
