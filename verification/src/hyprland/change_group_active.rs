//! Which window of a group the `changegroupactive` dispatcher makes active:
//! the previous one, the next one, or the one at an index (written from 1).
use vstd::prelude::*;
use crate::num::{digit_of, u32_or_zero, decimal, lemma_decimal, lemma_decimal_trim, lemma_parse_decimal, parse_u32, parse_unsigned, push_decimal};
use crate::text::{chars_of, eq_str, lemma_plain_word, string_from, trim, trimmed};

verus! {

#[derive(Debug, Clone, Copy, PartialEq, Eq, Hash)]
pub enum ChangeGroupActive {
    Back,
    Forward,
    Index(u32),
}

/// The variants of `ChangeGroupActive` without their values.
#[derive(Debug, Clone, Copy, PartialEq, Eq, Hash)]
pub enum ChangeGroupActiveDiscriminant {
    Back,
    Forward,
    Index,
}

impl Default for ChangeGroupActive {
    fn default() -> (r: Self)
        ensures
            r == ChangeGroupActive::Forward,
    {
        ChangeGroupActive::Forward
    }
}

impl ChangeGroupActive {
    /// What `from_str` gives: after trimming, `b`, `f`, or else a 1-based
    /// index (0 where the text is no `u32`), turned 0-based without going below 0.
    pub open spec fn spec_from_str(s: Seq<char>) -> Result<Self, ()> {
        let t = trim(s);
        if t.len() == 0 {
            Err(())
        } else if t == "b"@ {
            Ok(ChangeGroupActive::Back)
        } else if t == "f"@ {
            Ok(ChangeGroupActive::Forward)
        } else {
            let n = u32_or_zero(t);
            Ok(ChangeGroupActive::Index(if n == 0 { 0 } else { (n - 1) as u32 }))
        }
    }

    /// What `to_string` writes: `b`, `f`, or the index counted from 1 (at most `u32::MAX`).
    pub open spec fn spec_to_string(self) -> Seq<char> {
        match self {
            ChangeGroupActive::Back => "b"@,
            ChangeGroupActive::Forward => "f"@,
            ChangeGroupActive::Index(i) => decimal(if i == u32::MAX { i as nat } else { (i + 1) as nat }),
        }
    }

    pub open spec fn spec_discriminant(self) -> ChangeGroupActiveDiscriminant {
        match self {
            ChangeGroupActive::Back => ChangeGroupActiveDiscriminant::Back,
            ChangeGroupActive::Forward => ChangeGroupActiveDiscriminant::Forward,
            ChangeGroupActive::Index(_) => ChangeGroupActiveDiscriminant::Index,
        }
    }

    pub open spec fn spec_from_discriminant(d: ChangeGroupActiveDiscriminant) -> Self {
        match d {
            ChangeGroupActiveDiscriminant::Back => ChangeGroupActive::Back,
            ChangeGroupActiveDiscriminant::Forward => ChangeGroupActive::Forward,
            ChangeGroupActiveDiscriminant::Index => ChangeGroupActive::Index(0),
        }
    }

    /// The variant `d`, with the index read from `s` as a `u32` (0 where it is none).
    pub open spec fn spec_from_discriminant_and_str(
        d: ChangeGroupActiveDiscriminant,
        s: Seq<char>,
    ) -> Self {
        match d {
            ChangeGroupActiveDiscriminant::Back => ChangeGroupActive::Back,
            ChangeGroupActiveDiscriminant::Forward => ChangeGroupActive::Forward,
            ChangeGroupActiveDiscriminant::Index => ChangeGroupActive::Index(u32_or_zero(s)),
        }
    }

    /// The value without the variant: the index as it is stored, or none.
    pub open spec fn spec_str_without_discriminant(self) -> Option<Seq<char>> {
        match self {
            ChangeGroupActive::Index(i) => Some(decimal(i as nat)),
            _ => None,
        }
    }

    pub fn from_str(s: &str) -> (r: Result<Self, ()>)
        ensures
            r == Self::spec_from_str(s@),
    {
        let t = trimmed(s);
        if t.len() == 0 {
            return Err(());
        }
        if eq_str(&t, "b") {
            Ok(ChangeGroupActive::Back)
        } else if eq_str(&t, "f") {
            Ok(ChangeGroupActive::Forward)
        } else {
            let n: u32 = match parse_u32(&t) {
                Some(n) => n,
                None => 0,
            };
            Ok(ChangeGroupActive::Index(n.saturating_sub(1)))
        }
    }

    pub fn to_string(&self) -> (r: String)
        ensures
            r@ == self.spec_to_string(),
    {
        match self {
            ChangeGroupActive::Back => string_from("b"),
            ChangeGroupActive::Forward => string_from("f"),
            ChangeGroupActive::Index(i) => {
                let mut r = String::new();
                push_decimal(&mut r, i.saturating_add(1) as u64);
                r
            },
        }
    }

    pub fn to_discriminant(&self) -> (r: ChangeGroupActiveDiscriminant)
        ensures
            r == self.spec_discriminant(),
    {
        match self {
            ChangeGroupActive::Back => ChangeGroupActiveDiscriminant::Back,
            ChangeGroupActive::Forward => ChangeGroupActiveDiscriminant::Forward,
            ChangeGroupActive::Index(_) => ChangeGroupActiveDiscriminant::Index,
        }
    }

    pub fn from_discriminant(d: ChangeGroupActiveDiscriminant) -> (r: Self)
        ensures
            r == Self::spec_from_discriminant(d),
    {
        match d {
            ChangeGroupActiveDiscriminant::Back => ChangeGroupActive::Back,
            ChangeGroupActiveDiscriminant::Forward => ChangeGroupActive::Forward,
            ChangeGroupActiveDiscriminant::Index => ChangeGroupActive::Index(0),
        }
    }

    pub fn from_discriminant_and_str(d: ChangeGroupActiveDiscriminant, s: &str) -> (r: Self)
        ensures
            r == Self::spec_from_discriminant_and_str(d, s@),
    {
        match d {
            ChangeGroupActiveDiscriminant::Back => ChangeGroupActive::Back,
            ChangeGroupActiveDiscriminant::Forward => ChangeGroupActive::Forward,
            ChangeGroupActiveDiscriminant::Index => {
                let v = chars_of(s);
                let n: u32 = match parse_u32(&v) {
                    Some(n) => n,
                    None => 0,
                };
                ChangeGroupActive::Index(n)
            },
        }
    }

    pub fn to_str_without_discriminant(&self) -> (r: Option<String>)
        ensures
            r matches Some(t) ==> self.spec_str_without_discriminant() == Some(t@),
            r is None ==> self.spec_str_without_discriminant() is None,
    {
        match self {
            ChangeGroupActive::Index(i) => {
                let mut r = String::new();
                push_decimal(&mut r, *i as u64);
                Some(r)
            },
            _ => None,
        }
    }

    /// `b` (trimmed) reads as back and `f` as forward; any other nonempty text
    /// reads as the index one below the number it holds (counting from 1), or
    /// index 0 where it holds no number or 0; only empty text is refused. Back
    /// is written as `b`, forward as `f`, and an index below `u32::MAX` as the
    /// number one above it.
    pub proof fn lemma_keywords(s: Seq<char>, n: u32)
        ensures
            trim(s) == "b"@ ==> Self::spec_from_str(s) == Ok::<Self, ()>(ChangeGroupActive::Back),
            trim(s) == "f"@ ==> Self::spec_from_str(s) == Ok::<Self, ()>(ChangeGroupActive::Forward),
            Self::spec_from_str(s) is Err <==> trim(s).len() == 0,
            parse_unsigned(trim(s), 10, 4294967295) == Some(n as nat) && n >= 1 ==> Self::spec_from_str(s)
                == Ok::<Self, ()>(ChangeGroupActive::Index((n - 1) as u32)),
            trim(s).len() > 0 && trim(s) != "b"@ && trim(s) != "f"@ && (parse_unsigned(trim(s), 10, 4294967295) is None
                || parse_unsigned(trim(s), 10, 4294967295) == Some(0nat)) ==> Self::spec_from_str(s) == Ok::<Self, ()>(
                ChangeGroupActive::Index(0),
            ),
            ChangeGroupActive::Back.spec_to_string() == "b"@,
            ChangeGroupActive::Forward.spec_to_string() == "f"@,
            n < u32::MAX ==> ChangeGroupActive::Index(n).spec_to_string() == decimal((n + 1) as nat),
    {
        reveal_strlit("b");
        reveal_strlit("f");
        assert("b"@[0] != "f"@[0]);
        if parse_unsigned(trim(s), 10, 4294967295) == Some(n as nat) && n >= 1 {
            assert(trim(s) != "b"@) by {
                assert(digit_of("b"@[0], 10) is None);
            }
            assert(trim(s) != "f"@) by {
                assert(digit_of("f"@[0], 10) is None);
            }
        }
    }

    /// The discriminants name the variants; a value is made from the
    /// discriminant `Index` and a text by reading the text as the index
    /// itself (0 where it holds no number), and from `Back` or `Forward`
    /// whatever the text; the text of an index is its number.
    pub proof fn lemma_discriminant_names(s: Seq<char>, n: u32)
        ensures
            ChangeGroupActive::Back.spec_discriminant() == ChangeGroupActiveDiscriminant::Back,
            ChangeGroupActive::Forward.spec_discriminant() == ChangeGroupActiveDiscriminant::Forward,
            ChangeGroupActive::Index(n).spec_discriminant() == ChangeGroupActiveDiscriminant::Index,
            Self::spec_from_discriminant(ChangeGroupActiveDiscriminant::Index) == ChangeGroupActive::Index(0),
            Self::spec_from_discriminant(ChangeGroupActiveDiscriminant::Back) == ChangeGroupActive::Back,
            Self::spec_from_discriminant(ChangeGroupActiveDiscriminant::Forward) == ChangeGroupActive::Forward,
            Self::spec_from_discriminant_and_str(ChangeGroupActiveDiscriminant::Back, s) == ChangeGroupActive::Back,
            Self::spec_from_discriminant_and_str(ChangeGroupActiveDiscriminant::Forward, s) == ChangeGroupActive::Forward,
            parse_unsigned(s, 10, 4294967295) == Some(n as nat) ==> Self::spec_from_discriminant_and_str(
                ChangeGroupActiveDiscriminant::Index,
                s,
            ) == ChangeGroupActive::Index(n),
            parse_unsigned(s, 10, 4294967295) is None ==> Self::spec_from_discriminant_and_str(
                ChangeGroupActiveDiscriminant::Index,
                s,
            ) == ChangeGroupActive::Index(0),
            ChangeGroupActive::Index(n).spec_str_without_discriminant() == Some(decimal(n as nat)),
            ChangeGroupActive::Back.spec_str_without_discriminant() is None,
            ChangeGroupActive::Forward.spec_str_without_discriminant() is None,
    {
    }


    /// Reading back what `to_string` writes gives the same value, for every
    /// index below `u32::MAX` (the largest index is written as itself, since
    /// the count from 1 cannot go above `u32::MAX`).
    pub proof fn lemma_from_str_to_string(x: ChangeGroupActive)
        requires
            x != ChangeGroupActive::Index(u32::MAX),
        ensures
            Self::spec_from_str(x.spec_to_string()) == Ok::<Self, ()>(x),
    {
        reveal_strlit("b");
        reveal_strlit("f");
        match x {
            ChangeGroupActive::Index(i) => {
                let n = (i + 1) as nat;
                lemma_decimal(n);
                lemma_decimal_trim(n);
                lemma_parse_decimal(n, 4294967295);
                let d = decimal(n);
                if d.len() == 1 {
                    assert(crate::num::digit_of(d[0], 10) is Some);
                    assert(d[0] != "b"@[0]);
                    assert(d[0] != "f"@[0]);
                }
            },
            _ => {
                lemma_plain_word(x.spec_to_string());
            },
        }
    }

    /// Each variant keeps its discriminant, and a value is rebuilt from its
    /// discriminant and the text of its index.
    pub proof fn lemma_discriminant(x: ChangeGroupActive, d: ChangeGroupActiveDiscriminant)
        ensures
            Self::spec_from_discriminant(d).spec_discriminant() == d,
            Self::spec_from_discriminant_and_str(
                x.spec_discriminant(),
                match x.spec_str_without_discriminant() {
                    Some(t) => t,
                    None => Seq::empty(),
                },
            ) == x,
    {
        if let ChangeGroupActive::Index(i) = x {
            lemma_parse_decimal(i as nat, 4294967295);
        }
    }
}

} // verus!
