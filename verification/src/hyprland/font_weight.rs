//! The weight of a font: a named weight, or a number from 100 to 1000.
use vstd::prelude::*;
use crate::num::{all_digits, decimal, digit_of, lemma_decimal, lemma_decimal_trim, lemma_parse_decimal, parse_u16, parse_unsigned, push_decimal};
use crate::text::{chars_of, eq_str, fold, lemma_plain_word, string_from, trim, trimmed_folded};

verus! {

#[derive(Debug, Clone, Copy, PartialEq, Eq, Hash)]
pub enum FontWeight {
    Thin,
    UltraLight,
    Light,
    SemiLight,
    Book,
    Normal,
    Medium,
    SemiBold,
    Bold,
    UltraBold,
    Heavy,
    UltraHeavy,
    Integer(u16),
}

/// The variants of `FontWeight` without their values.
#[derive(Debug, Clone, Copy, PartialEq, Eq, Hash)]
pub enum FontWeightDiscriminant {
    Thin,
    UltraLight,
    Light,
    SemiLight,
    Book,
    Normal,
    Medium,
    SemiBold,
    Bold,
    UltraBold,
    Heavy,
    UltraHeavy,
    Integer,
}

impl Default for FontWeight {
    fn default() -> (r: Self)
        ensures
            r == FontWeight::Normal,
    {
        FontWeight::Normal
    }
}

/// The number that `str::parse::<u16>` reads from `s`, or 500 where it reads none.
pub open spec fn u16_or_500(s: Seq<char>) -> u16 {
    match parse_unsigned(s, 10, 65535) {
        Some(n) => n as u16,
        None => 500,
    }
}

impl FontWeight {
    /// What `from_str` gives: the trimmed, case-folded text read as a `u16`
    /// must lie in `100..=1000`; text that is no `u16` must be a weight's name.
    pub open spec fn spec_from_str(s: Seq<char>) -> Result<Self, ()> {
        let t = fold(trim(s));
        if parse_unsigned(t, 10, 65535) is Some {
            let n = parse_unsigned(t, 10, 65535)->0;
            if 100 <= n <= 1000 {
                Ok(FontWeight::Integer(n as u16))
            } else {
                Err(())
            }
        } else if t == "thin"@ {
            Ok(FontWeight::Thin)
        } else if t == "ultralight"@ {
            Ok(FontWeight::UltraLight)
        } else if t == "light"@ {
            Ok(FontWeight::Light)
        } else if t == "semilight"@ {
            Ok(FontWeight::SemiLight)
        } else if t == "book"@ {
            Ok(FontWeight::Book)
        } else if t == "normal"@ {
            Ok(FontWeight::Normal)
        } else if t == "medium"@ {
            Ok(FontWeight::Medium)
        } else if t == "semibold"@ {
            Ok(FontWeight::SemiBold)
        } else if t == "bold"@ {
            Ok(FontWeight::Bold)
        } else if t == "ultrabold"@ {
            Ok(FontWeight::UltraBold)
        } else if t == "heavy"@ {
            Ok(FontWeight::Heavy)
        } else if t == "ultraheavy"@ {
            Ok(FontWeight::UltraHeavy)
        } else {
            Err(())
        }
    }

    /// What `to_string` writes: the name of the weight, or its number.
    pub open spec fn spec_to_string(self) -> Seq<char> {
        match self {
            FontWeight::Thin => "thin"@,
            FontWeight::UltraLight => "ultralight"@,
            FontWeight::Light => "light"@,
            FontWeight::SemiLight => "semilight"@,
            FontWeight::Book => "book"@,
            FontWeight::Normal => "normal"@,
            FontWeight::Medium => "medium"@,
            FontWeight::SemiBold => "semibold"@,
            FontWeight::Bold => "bold"@,
            FontWeight::UltraBold => "ultrabold"@,
            FontWeight::Heavy => "heavy"@,
            FontWeight::UltraHeavy => "ultraheavy"@,
            FontWeight::Integer(i) => decimal(i as nat),
        }
    }

    pub open spec fn spec_discriminant(self) -> FontWeightDiscriminant {
        match self {
            FontWeight::Thin => FontWeightDiscriminant::Thin,
            FontWeight::UltraLight => FontWeightDiscriminant::UltraLight,
            FontWeight::Light => FontWeightDiscriminant::Light,
            FontWeight::SemiLight => FontWeightDiscriminant::SemiLight,
            FontWeight::Book => FontWeightDiscriminant::Book,
            FontWeight::Normal => FontWeightDiscriminant::Normal,
            FontWeight::Medium => FontWeightDiscriminant::Medium,
            FontWeight::SemiBold => FontWeightDiscriminant::SemiBold,
            FontWeight::Bold => FontWeightDiscriminant::Bold,
            FontWeight::UltraBold => FontWeightDiscriminant::UltraBold,
            FontWeight::Heavy => FontWeightDiscriminant::Heavy,
            FontWeight::UltraHeavy => FontWeightDiscriminant::UltraHeavy,
            FontWeight::Integer(_) => FontWeightDiscriminant::Integer,
        }
    }

    /// The variant `d`; a number weight is 500.
    pub open spec fn spec_from_discriminant(d: FontWeightDiscriminant) -> Self {
        match d {
            FontWeightDiscriminant::Thin => FontWeight::Thin,
            FontWeightDiscriminant::UltraLight => FontWeight::UltraLight,
            FontWeightDiscriminant::Light => FontWeight::Light,
            FontWeightDiscriminant::SemiLight => FontWeight::SemiLight,
            FontWeightDiscriminant::Book => FontWeight::Book,
            FontWeightDiscriminant::Normal => FontWeight::Normal,
            FontWeightDiscriminant::Medium => FontWeight::Medium,
            FontWeightDiscriminant::SemiBold => FontWeight::SemiBold,
            FontWeightDiscriminant::Bold => FontWeight::Bold,
            FontWeightDiscriminant::UltraBold => FontWeight::UltraBold,
            FontWeightDiscriminant::Heavy => FontWeight::Heavy,
            FontWeightDiscriminant::UltraHeavy => FontWeight::UltraHeavy,
            FontWeightDiscriminant::Integer => FontWeight::Integer(500),
        }
    }

    /// The variant `d`; a number weight is read from `s` as a `u16` (500 where it is none).
    pub open spec fn spec_from_discriminant_and_str(d: FontWeightDiscriminant, s: Seq<char>) -> Self {
        match d {
            FontWeightDiscriminant::Integer => FontWeight::Integer(u16_or_500(s)),
            _ => Self::spec_from_discriminant(d),
        }
    }

    /// The value without the variant: the number of a number weight, or none.
    pub open spec fn spec_str_without_discriminant(self) -> Option<Seq<char>> {
        match self {
            FontWeight::Integer(i) => Some(decimal(i as nat)),
            _ => None,
        }
    }

    pub fn from_str(s: &str) -> (r: Result<Self, ()>)
        ensures
            r == Self::spec_from_str(s@),
    {
        let t = trimmed_folded(s);
        if let Some(i) = parse_u16(&t) {
            if 100 <= i && i <= 1000 {
                return Ok(FontWeight::Integer(i));
            } else {
                return Err(());
            }
        }
        if eq_str(&t, "thin") {
            Ok(FontWeight::Thin)
        } else if eq_str(&t, "ultralight") {
            Ok(FontWeight::UltraLight)
        } else if eq_str(&t, "light") {
            Ok(FontWeight::Light)
        } else if eq_str(&t, "semilight") {
            Ok(FontWeight::SemiLight)
        } else if eq_str(&t, "book") {
            Ok(FontWeight::Book)
        } else if eq_str(&t, "normal") {
            Ok(FontWeight::Normal)
        } else if eq_str(&t, "medium") {
            Ok(FontWeight::Medium)
        } else if eq_str(&t, "semibold") {
            Ok(FontWeight::SemiBold)
        } else if eq_str(&t, "bold") {
            Ok(FontWeight::Bold)
        } else if eq_str(&t, "ultrabold") {
            Ok(FontWeight::UltraBold)
        } else if eq_str(&t, "heavy") {
            Ok(FontWeight::Heavy)
        } else if eq_str(&t, "ultraheavy") {
            Ok(FontWeight::UltraHeavy)
        } else {
            Err(())
        }
    }

    pub fn to_string(&self) -> (r: String)
        ensures
            r@ == self.spec_to_string(),
    {
        match self {
            FontWeight::Thin => string_from("thin"),
            FontWeight::UltraLight => string_from("ultralight"),
            FontWeight::Light => string_from("light"),
            FontWeight::SemiLight => string_from("semilight"),
            FontWeight::Book => string_from("book"),
            FontWeight::Normal => string_from("normal"),
            FontWeight::Medium => string_from("medium"),
            FontWeight::SemiBold => string_from("semibold"),
            FontWeight::Bold => string_from("bold"),
            FontWeight::UltraBold => string_from("ultrabold"),
            FontWeight::Heavy => string_from("heavy"),
            FontWeight::UltraHeavy => string_from("ultraheavy"),
            FontWeight::Integer(i) => {
                let mut r = String::new();
                push_decimal(&mut r, *i as u64);
                r
            },
        }
    }

    pub fn to_discriminant(&self) -> (r: FontWeightDiscriminant)
        ensures
            r == self.spec_discriminant(),
    {
        match self {
            FontWeight::Thin => FontWeightDiscriminant::Thin,
            FontWeight::UltraLight => FontWeightDiscriminant::UltraLight,
            FontWeight::Light => FontWeightDiscriminant::Light,
            FontWeight::SemiLight => FontWeightDiscriminant::SemiLight,
            FontWeight::Book => FontWeightDiscriminant::Book,
            FontWeight::Normal => FontWeightDiscriminant::Normal,
            FontWeight::Medium => FontWeightDiscriminant::Medium,
            FontWeight::SemiBold => FontWeightDiscriminant::SemiBold,
            FontWeight::Bold => FontWeightDiscriminant::Bold,
            FontWeight::UltraBold => FontWeightDiscriminant::UltraBold,
            FontWeight::Heavy => FontWeightDiscriminant::Heavy,
            FontWeight::UltraHeavy => FontWeightDiscriminant::UltraHeavy,
            FontWeight::Integer(_) => FontWeightDiscriminant::Integer,
        }
    }

    pub fn from_discriminant(d: FontWeightDiscriminant) -> (r: Self)
        ensures
            r == Self::spec_from_discriminant(d),
    {
        match d {
            FontWeightDiscriminant::Thin => FontWeight::Thin,
            FontWeightDiscriminant::UltraLight => FontWeight::UltraLight,
            FontWeightDiscriminant::Light => FontWeight::Light,
            FontWeightDiscriminant::SemiLight => FontWeight::SemiLight,
            FontWeightDiscriminant::Book => FontWeight::Book,
            FontWeightDiscriminant::Normal => FontWeight::Normal,
            FontWeightDiscriminant::Medium => FontWeight::Medium,
            FontWeightDiscriminant::SemiBold => FontWeight::SemiBold,
            FontWeightDiscriminant::Bold => FontWeight::Bold,
            FontWeightDiscriminant::UltraBold => FontWeight::UltraBold,
            FontWeightDiscriminant::Heavy => FontWeight::Heavy,
            FontWeightDiscriminant::UltraHeavy => FontWeight::UltraHeavy,
            FontWeightDiscriminant::Integer => FontWeight::Integer(500),
        }
    }

    pub fn from_discriminant_and_str(d: FontWeightDiscriminant, s: &str) -> (r: Self)
        ensures
            r == Self::spec_from_discriminant_and_str(d, s@),
    {
        match d {
            FontWeightDiscriminant::Integer => {
                let v = chars_of(s);
                let n: u16 = match parse_u16(&v) {
                    Some(n) => n,
                    None => 500,
                };
                FontWeight::Integer(n)
            },
            _ => Self::from_discriminant(d),
        }
    }

    pub fn to_str_without_discriminant(&self) -> (r: Option<String>)
        ensures
            r matches Some(t) ==> self.spec_str_without_discriminant() == Some(t@),
            r is None ==> self.spec_str_without_discriminant() is None,
    {
        match self {
            FontWeight::Integer(i) => {
                let mut r = String::new();
                push_decimal(&mut r, *i as u64);
                Some(r)
            },
            _ => None,
        }
    }

    /// Each weight name, trimmed and in any ASCII case, reads as its own
    /// weight and nothing else reads as that weight; a number reads as
    /// `Integer` exactly when it lies in `100..=1000`; other text is refused.
    /// Each named weight is written as its name, and `Integer(n)` as `n`.
    pub proof fn lemma_names(s: Seq<char>, n: u16)
        ensures
            Self::spec_from_str(s) == Ok::<Self, ()>(FontWeight::Thin) <==> fold(trim(s)) == "thin"@,
            Self::spec_from_str(s) == Ok::<Self, ()>(FontWeight::UltraLight) <==> fold(trim(s)) == "ultralight"@,
            Self::spec_from_str(s) == Ok::<Self, ()>(FontWeight::Light) <==> fold(trim(s)) == "light"@,
            Self::spec_from_str(s) == Ok::<Self, ()>(FontWeight::SemiLight) <==> fold(trim(s)) == "semilight"@,
            Self::spec_from_str(s) == Ok::<Self, ()>(FontWeight::Book) <==> fold(trim(s)) == "book"@,
            Self::spec_from_str(s) == Ok::<Self, ()>(FontWeight::Normal) <==> fold(trim(s)) == "normal"@,
            Self::spec_from_str(s) == Ok::<Self, ()>(FontWeight::Medium) <==> fold(trim(s)) == "medium"@,
            Self::spec_from_str(s) == Ok::<Self, ()>(FontWeight::SemiBold) <==> fold(trim(s)) == "semibold"@,
            Self::spec_from_str(s) == Ok::<Self, ()>(FontWeight::Bold) <==> fold(trim(s)) == "bold"@,
            Self::spec_from_str(s) == Ok::<Self, ()>(FontWeight::UltraBold) <==> fold(trim(s)) == "ultrabold"@,
            Self::spec_from_str(s) == Ok::<Self, ()>(FontWeight::Heavy) <==> fold(trim(s)) == "heavy"@,
            Self::spec_from_str(s) == Ok::<Self, ()>(FontWeight::UltraHeavy) <==> fold(trim(s)) == "ultraheavy"@,
            Self::spec_from_str(s) == Ok::<Self, ()>(FontWeight::Integer(n)) <==> (parse_unsigned(fold(trim(s)), 10, 65535) == Some(n as nat) && 100 <= n <= 1000),
            Self::spec_from_str(s) is Err <==> (!(fold(trim(s)) == "thin"@ || fold(trim(s)) == "ultralight"@ || fold(trim(s)) == "light"@ || fold(trim(s)) == "semilight"@ || fold(trim(s)) == "book"@ || fold(trim(s)) == "normal"@ || fold(trim(s)) == "medium"@ || fold(trim(s)) == "semibold"@ || fold(trim(s)) == "bold"@ || fold(trim(s)) == "ultrabold"@ || fold(trim(s)) == "heavy"@ || fold(trim(s)) == "ultraheavy"@) && !(parse_unsigned(fold(trim(s)), 10, 65535) matches Some(m) && 100 <= m <= 1000)),
            FontWeight::Thin.spec_to_string() == "thin"@,
            FontWeight::UltraLight.spec_to_string() == "ultralight"@,
            FontWeight::Light.spec_to_string() == "light"@,
            FontWeight::SemiLight.spec_to_string() == "semilight"@,
            FontWeight::Book.spec_to_string() == "book"@,
            FontWeight::Normal.spec_to_string() == "normal"@,
            FontWeight::Medium.spec_to_string() == "medium"@,
            FontWeight::SemiBold.spec_to_string() == "semibold"@,
            FontWeight::Bold.spec_to_string() == "bold"@,
            FontWeight::UltraBold.spec_to_string() == "ultrabold"@,
            FontWeight::Heavy.spec_to_string() == "heavy"@,
            FontWeight::UltraHeavy.spec_to_string() == "ultraheavy"@,
            FontWeight::Integer(n).spec_to_string() == decimal(n as nat),
    {
        reveal_strlit("thin");
        assert(!all_digits("thin"@, 10)) by {
            assert(digit_of("thin"@[0], 10) is None);
        }
        assert("thin"@[0] != '+');
        reveal_strlit("ultralight");
        assert(!all_digits("ultralight"@, 10)) by {
            assert(digit_of("ultralight"@[0], 10) is None);
        }
        assert("ultralight"@[0] != '+');
        reveal_strlit("light");
        assert(!all_digits("light"@, 10)) by {
            assert(digit_of("light"@[0], 10) is None);
        }
        assert("light"@[0] != '+');
        reveal_strlit("semilight");
        assert(!all_digits("semilight"@, 10)) by {
            assert(digit_of("semilight"@[0], 10) is None);
        }
        assert("semilight"@[0] != '+');
        reveal_strlit("book");
        assert(!all_digits("book"@, 10)) by {
            assert(digit_of("book"@[0], 10) is None);
        }
        assert("book"@[0] != '+');
        reveal_strlit("normal");
        assert(!all_digits("normal"@, 10)) by {
            assert(digit_of("normal"@[0], 10) is None);
        }
        assert("normal"@[0] != '+');
        reveal_strlit("medium");
        assert(!all_digits("medium"@, 10)) by {
            assert(digit_of("medium"@[0], 10) is None);
        }
        assert("medium"@[0] != '+');
        reveal_strlit("semibold");
        assert(!all_digits("semibold"@, 10)) by {
            assert(digit_of("semibold"@[0], 10) is None);
        }
        assert("semibold"@[0] != '+');
        reveal_strlit("bold");
        assert(!all_digits("bold"@, 10)) by {
            assert(digit_of("bold"@[0], 10) is None);
        }
        assert("bold"@[0] != '+');
        reveal_strlit("ultrabold");
        assert(!all_digits("ultrabold"@, 10)) by {
            assert(digit_of("ultrabold"@[0], 10) is None);
        }
        assert("ultrabold"@[0] != '+');
        reveal_strlit("heavy");
        assert(!all_digits("heavy"@, 10)) by {
            assert(digit_of("heavy"@[0], 10) is None);
        }
        assert("heavy"@[0] != '+');
        reveal_strlit("ultraheavy");
        assert(!all_digits("ultraheavy"@, 10)) by {
            assert(digit_of("ultraheavy"@[0], 10) is None);
        }
        assert("ultraheavy"@[0] != '+');
        assert("thin"@.len() != "ultralight"@.len());
        assert("thin"@.len() != "light"@.len());
        assert("thin"@.len() != "semilight"@.len());
        assert("thin"@[0] != "book"@[0]);
        assert("thin"@.len() != "normal"@.len());
        assert("thin"@.len() != "medium"@.len());
        assert("thin"@.len() != "semibold"@.len());
        assert("thin"@[0] != "bold"@[0]);
        assert("thin"@.len() != "ultrabold"@.len());
        assert("thin"@.len() != "heavy"@.len());
        assert("thin"@.len() != "ultraheavy"@.len());
        assert("ultralight"@.len() != "light"@.len());
        assert("ultralight"@.len() != "semilight"@.len());
        assert("ultralight"@.len() != "book"@.len());
        assert("ultralight"@.len() != "normal"@.len());
        assert("ultralight"@.len() != "medium"@.len());
        assert("ultralight"@.len() != "semibold"@.len());
        assert("ultralight"@.len() != "bold"@.len());
        assert("ultralight"@.len() != "ultrabold"@.len());
        assert("ultralight"@.len() != "heavy"@.len());
        assert("ultralight"@[5] != "ultraheavy"@[5]);
        assert("light"@.len() != "semilight"@.len());
        assert("light"@.len() != "book"@.len());
        assert("light"@.len() != "normal"@.len());
        assert("light"@.len() != "medium"@.len());
        assert("light"@.len() != "semibold"@.len());
        assert("light"@.len() != "bold"@.len());
        assert("light"@.len() != "ultrabold"@.len());
        assert("light"@[0] != "heavy"@[0]);
        assert("light"@.len() != "ultraheavy"@.len());
        assert("semilight"@.len() != "book"@.len());
        assert("semilight"@.len() != "normal"@.len());
        assert("semilight"@.len() != "medium"@.len());
        assert("semilight"@.len() != "semibold"@.len());
        assert("semilight"@.len() != "bold"@.len());
        assert("semilight"@[0] != "ultrabold"@[0]);
        assert("semilight"@.len() != "heavy"@.len());
        assert("semilight"@.len() != "ultraheavy"@.len());
        assert("book"@.len() != "normal"@.len());
        assert("book"@.len() != "medium"@.len());
        assert("book"@.len() != "semibold"@.len());
        assert("book"@[2] != "bold"@[2]);
        assert("book"@.len() != "ultrabold"@.len());
        assert("book"@.len() != "heavy"@.len());
        assert("book"@.len() != "ultraheavy"@.len());
        assert("normal"@[0] != "medium"@[0]);
        assert("normal"@.len() != "semibold"@.len());
        assert("normal"@.len() != "bold"@.len());
        assert("normal"@.len() != "ultrabold"@.len());
        assert("normal"@.len() != "heavy"@.len());
        assert("normal"@.len() != "ultraheavy"@.len());
        assert("medium"@.len() != "semibold"@.len());
        assert("medium"@.len() != "bold"@.len());
        assert("medium"@.len() != "ultrabold"@.len());
        assert("medium"@.len() != "heavy"@.len());
        assert("medium"@.len() != "ultraheavy"@.len());
        assert("semibold"@.len() != "bold"@.len());
        assert("semibold"@.len() != "ultrabold"@.len());
        assert("semibold"@.len() != "heavy"@.len());
        assert("semibold"@.len() != "ultraheavy"@.len());
        assert("bold"@.len() != "ultrabold"@.len());
        assert("bold"@.len() != "heavy"@.len());
        assert("bold"@.len() != "ultraheavy"@.len());
        assert("ultrabold"@.len() != "heavy"@.len());
        assert("ultrabold"@.len() != "ultraheavy"@.len());
        assert("heavy"@.len() != "ultraheavy"@.len());
    }

    /// Reading back what `to_string` writes gives the same weight, for the
    /// named weights and the numbers in `100..=1000` (other numbers are
    /// written, but not read back).
    pub proof fn lemma_from_str_to_string(x: FontWeight)
        requires
            x matches FontWeight::Integer(i) ==> 100 <= i <= 1000,
        ensures
            Self::spec_from_str(x.spec_to_string()) == Ok::<Self, ()>(x),
    {
        reveal_strlit("thin");
        reveal_strlit("ultralight");
        reveal_strlit("light");
        reveal_strlit("semilight");
        reveal_strlit("book");
        reveal_strlit("normal");
        reveal_strlit("medium");
        reveal_strlit("semibold");
        reveal_strlit("bold");
        reveal_strlit("ultrabold");
        reveal_strlit("heavy");
        reveal_strlit("ultraheavy");
        match x {
            FontWeight::Integer(i) => {
                let d = decimal(i as nat);
                lemma_decimal(i as nat);
                lemma_decimal_trim(i as nat);
                assert forall|m: int| 0 <= m < d.len() implies crate::text::is_plain(#[trigger] d[m]) by {
                    assert(crate::num::digit_of(d[m], 10) is Some);
                }
                lemma_plain_word(d);
                lemma_parse_decimal(i as nat, 65535);
            },
            _ => {
                let k = x.spec_to_string();
                lemma_plain_word(k);
                assert(crate::num::digit_of(k[0], 10) is None);
                assert(!crate::num::all_digits(k, 10));
            },
        }
    }

    /// Each weight has the discriminant of its own name; each discriminant
    /// gives the weight of its name, and `Integer` gives 500. A value is made
    /// from `Integer` and a text by reading the text as the number (500 where
    /// it is no `u16`), and from any other discriminant whatever the text; the
    /// text of a number is its digits, and named weights have none.
    pub proof fn lemma_discriminant_names(s: Seq<char>, n: u16)
        ensures
            FontWeight::Thin.spec_discriminant() == FontWeightDiscriminant::Thin,
            Self::spec_from_discriminant(FontWeightDiscriminant::Thin) == FontWeight::Thin,
            Self::spec_from_discriminant_and_str(FontWeightDiscriminant::Thin, s) == FontWeight::Thin,
            FontWeight::Thin.spec_str_without_discriminant() is None,
            FontWeight::UltraLight.spec_discriminant() == FontWeightDiscriminant::UltraLight,
            Self::spec_from_discriminant(FontWeightDiscriminant::UltraLight) == FontWeight::UltraLight,
            Self::spec_from_discriminant_and_str(FontWeightDiscriminant::UltraLight, s) == FontWeight::UltraLight,
            FontWeight::UltraLight.spec_str_without_discriminant() is None,
            FontWeight::Light.spec_discriminant() == FontWeightDiscriminant::Light,
            Self::spec_from_discriminant(FontWeightDiscriminant::Light) == FontWeight::Light,
            Self::spec_from_discriminant_and_str(FontWeightDiscriminant::Light, s) == FontWeight::Light,
            FontWeight::Light.spec_str_without_discriminant() is None,
            FontWeight::SemiLight.spec_discriminant() == FontWeightDiscriminant::SemiLight,
            Self::spec_from_discriminant(FontWeightDiscriminant::SemiLight) == FontWeight::SemiLight,
            Self::spec_from_discriminant_and_str(FontWeightDiscriminant::SemiLight, s) == FontWeight::SemiLight,
            FontWeight::SemiLight.spec_str_without_discriminant() is None,
            FontWeight::Book.spec_discriminant() == FontWeightDiscriminant::Book,
            Self::spec_from_discriminant(FontWeightDiscriminant::Book) == FontWeight::Book,
            Self::spec_from_discriminant_and_str(FontWeightDiscriminant::Book, s) == FontWeight::Book,
            FontWeight::Book.spec_str_without_discriminant() is None,
            FontWeight::Normal.spec_discriminant() == FontWeightDiscriminant::Normal,
            Self::spec_from_discriminant(FontWeightDiscriminant::Normal) == FontWeight::Normal,
            Self::spec_from_discriminant_and_str(FontWeightDiscriminant::Normal, s) == FontWeight::Normal,
            FontWeight::Normal.spec_str_without_discriminant() is None,
            FontWeight::Medium.spec_discriminant() == FontWeightDiscriminant::Medium,
            Self::spec_from_discriminant(FontWeightDiscriminant::Medium) == FontWeight::Medium,
            Self::spec_from_discriminant_and_str(FontWeightDiscriminant::Medium, s) == FontWeight::Medium,
            FontWeight::Medium.spec_str_without_discriminant() is None,
            FontWeight::SemiBold.spec_discriminant() == FontWeightDiscriminant::SemiBold,
            Self::spec_from_discriminant(FontWeightDiscriminant::SemiBold) == FontWeight::SemiBold,
            Self::spec_from_discriminant_and_str(FontWeightDiscriminant::SemiBold, s) == FontWeight::SemiBold,
            FontWeight::SemiBold.spec_str_without_discriminant() is None,
            FontWeight::Bold.spec_discriminant() == FontWeightDiscriminant::Bold,
            Self::spec_from_discriminant(FontWeightDiscriminant::Bold) == FontWeight::Bold,
            Self::spec_from_discriminant_and_str(FontWeightDiscriminant::Bold, s) == FontWeight::Bold,
            FontWeight::Bold.spec_str_without_discriminant() is None,
            FontWeight::UltraBold.spec_discriminant() == FontWeightDiscriminant::UltraBold,
            Self::spec_from_discriminant(FontWeightDiscriminant::UltraBold) == FontWeight::UltraBold,
            Self::spec_from_discriminant_and_str(FontWeightDiscriminant::UltraBold, s) == FontWeight::UltraBold,
            FontWeight::UltraBold.spec_str_without_discriminant() is None,
            FontWeight::Heavy.spec_discriminant() == FontWeightDiscriminant::Heavy,
            Self::spec_from_discriminant(FontWeightDiscriminant::Heavy) == FontWeight::Heavy,
            Self::spec_from_discriminant_and_str(FontWeightDiscriminant::Heavy, s) == FontWeight::Heavy,
            FontWeight::Heavy.spec_str_without_discriminant() is None,
            FontWeight::UltraHeavy.spec_discriminant() == FontWeightDiscriminant::UltraHeavy,
            Self::spec_from_discriminant(FontWeightDiscriminant::UltraHeavy) == FontWeight::UltraHeavy,
            Self::spec_from_discriminant_and_str(FontWeightDiscriminant::UltraHeavy, s) == FontWeight::UltraHeavy,
            FontWeight::UltraHeavy.spec_str_without_discriminant() is None,
            FontWeight::Integer(n).spec_discriminant() == FontWeightDiscriminant::Integer,
            Self::spec_from_discriminant(FontWeightDiscriminant::Integer) == FontWeight::Integer(500),
            parse_unsigned(s, 10, 65535) == Some(n as nat) ==> Self::spec_from_discriminant_and_str(FontWeightDiscriminant::Integer, s) == FontWeight::Integer(n),
            parse_unsigned(s, 10, 65535) is None ==> Self::spec_from_discriminant_and_str(FontWeightDiscriminant::Integer, s) == FontWeight::Integer(500),
            FontWeight::Integer(n).spec_str_without_discriminant() == Some(decimal(n as nat)),
    {
    }


    /// Each variant keeps its discriminant, and a value is rebuilt from its
    /// discriminant and the text of its number.
    pub proof fn lemma_discriminant(x: FontWeight, d: FontWeightDiscriminant)
        ensures
            Self::spec_from_discriminant(d).spec_discriminant() == d,
            Self::spec_from_discriminant_and_str(
                x.spec_discriminant(),
                match x.spec_str_without_discriminant() {
                    Some(t) => t,
                    None => Seq::empty(),
                },
            ) == x,
    {
        if let FontWeight::Integer(i) = x {
            lemma_parse_decimal(i as nat, 65535);
        }
    }
}

} // verus!
